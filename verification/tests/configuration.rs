use rust_manga_scraper::config::{
    default_browser_timeout, default_false, default_initial_retry_delay, default_max_retries,
    default_max_retry_delay, default_rate_limit, default_timeout, default_true, BotDetectionConfig, Config,
};
use rust_manga_scraper::db::{keep_sources_with_chapters, PerSourceCounts};

#[test]
fn configuration_defaults() {
    let c = Config::default();
    assert_eq!(c.download_dir, "downloads");
    assert!(c.bot_detection.enable_enhanced_client);
    assert!(!c.bot_detection.enable_browser);
    assert!(default_true());
    assert!(!default_false());
    assert_eq!(default_max_retries(), 4);
    assert_eq!(default_initial_retry_delay(), 500);
    assert_eq!(default_max_retry_delay(), 8000);
    assert_eq!(default_timeout(), 30);
    assert_eq!(default_browser_timeout(), 30);
    assert_eq!(default_rate_limit(), 300);
}

#[test]
fn clients_are_configured_from_the_options() {
    let mut b = BotDetectionConfig::default();
    let http = b.create_http_client();
    assert_eq!(http.max_retries, 4);
    assert_eq!(http.timeout, std::time::Duration::from_secs(30));
    match b.create_browser_client() {
        Err(message) => assert_eq!(message, "Browser client is disabled in configuration"),
        Ok(_) => panic!("a disabled browser client must not be created"),
    }
    b.enable_browser = true;
    b.browser_headless = false;
    let browser = match b.create_browser_client() {
        Ok(config) => config,
        Err(message) => panic!("{}", message),
    };
    assert!(!browser.headless);
    assert_eq!((browser.window_width, browser.window_height), (1920, 1080));
}

#[test]
fn source_listing_keeps_sources_with_chapters() {
    let counts = vec![
        PerSourceCounts { source_id: 1, source_name: "MangaDex".to_string(), manga: 3, chapters: 10 },
        PerSourceCounts { source_id: 2, source_name: "FireScans".to_string(), manga: 0, chapters: 0 },
        PerSourceCounts { source_id: 3, source_name: "RizzComic".to_string(), manga: 1, chapters: 2 },
    ];
    let kept = keep_sources_with_chapters(counts);
    assert_eq!(kept.iter().map(|c| c.source_id).collect::<Vec<_>>(), vec![1, 3]);
}
