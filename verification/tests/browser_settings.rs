use rust_manga_scraper::browser::config::BrowserConfig;
use rust_manga_scraper::browser::manager::BrowserError;
use rust_manga_scraper::browser::scraper::{
    bypass_wait_step, click_script, cloudflare_timeout_error, cloudflare_wait_step, selector_probe_script,
    selector_timeout_error, selector_wait_step, WaitStep,
};
use rust_manga_scraper::browser_client;

#[test]
fn test_default_config() {
    let config = BrowserConfig::default();
    assert!(config.headless);
    assert_eq!(config.window_size, (1920, 1080));
    assert!(config.user_agent.is_some());
}

#[test]
fn test_stealth_mode() {
    let config = BrowserConfig::stealth_mode();
    assert!(!config.chrome_flags.is_empty());
    assert!(config
        .chrome_flags
        .iter()
        .any(|f| f.contains("AutomationControlled")));
}

#[test]
fn test_debug_mode() {
    let config = BrowserConfig::debug_mode();
    assert!(!config.headless);
    assert!(!config.disable_images);
}

#[test]
fn test_browser_config_default() {
    let config = browser_client::BrowserConfig::default();
    assert_eq!(config.headless, true);
    assert_eq!(config.window_width, 1920);
    assert_eq!(config.window_height, 1080);
    assert_eq!(config.disable_images, true);
}

#[test]
fn browser_timeout_is_thirty_seconds() {
    let config = BrowserConfig::default();
    assert_eq!(config.timeout(), std::time::Duration::from_secs(30));
}

#[test]
fn launch_args_follow_settings() {
    let config = browser_client::BrowserConfig::default();
    let args = config.launch_args();
    assert!(args.iter().any(|a| a.contains("AutomationControlled")));
    assert!(args.iter().any(|a| a.starts_with("--user-agent=")));
}

#[test]
fn browser_error_messages() {
    let e = BrowserError::Timeout("x".to_string());
    assert_eq!(e.message(), "Timeout waiting for: x");
    let e = BrowserError::NavigationError("bad".to_string());
    assert_eq!(e.message(), "Navigation error: bad");
}

#[test]
fn selector_wait_steps() {
    assert_eq!(selector_wait_step(0, 1000, true), WaitStep::Done);
    assert_eq!(selector_wait_step(500, 1000, false), WaitStep::Poll);
    assert_eq!(selector_wait_step(1001, 1000, true), WaitStep::TimedOut);
    assert_eq!(selector_wait_step(1000, 1000, false), WaitStep::Poll);
}

#[test]
fn cloudflare_wait_steps() {
    assert_eq!(cloudflare_wait_step(0, 30000, Some("Just a moment...")), WaitStep::Poll);
    assert_eq!(cloudflare_wait_step(0, 30000, Some("Chapter 1")), WaitStep::Done);
    assert_eq!(cloudflare_wait_step(0, 30000, None), WaitStep::Poll);
    assert_eq!(cloudflare_wait_step(30001, 30000, Some("Chapter 1")), WaitStep::TimedOut);
    assert_eq!(bypass_wait_step(1000, 30000, false), WaitStep::Done);
    assert_eq!(bypass_wait_step(1000, 30000, true), WaitStep::Poll);
    assert_eq!(bypass_wait_step(30000, 30000, true), WaitStep::TimedOut);
}

#[test]
fn browser_scripts_escape_quotes() {
    assert_eq!(selector_probe_script("div.a"), "document.querySelector('div.a') !== null");
    assert_eq!(
        selector_probe_script("a[href='x']"),
        "document.querySelector('a[href=\\'x\\']') !== null"
    );
    assert_eq!(click_script("#go"), "document.querySelector('#go').click();");
    match selector_timeout_error("img") {
        BrowserError::Timeout(m) => assert_eq!(m, "Waiting for selector: img"),
        _ => panic!("wrong error"),
    }
    match cloudflare_timeout_error() {
        BrowserError::Timeout(m) => assert_eq!(m, "Cloudflare challenge timeout"),
        _ => panic!("wrong error"),
    }
}
