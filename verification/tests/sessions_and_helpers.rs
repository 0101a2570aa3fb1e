use rust_manga_scraper::cloudflare_bypass::{
    get_fingerprint_spoofing_script, get_random_user_agent, parse_two_captcha_reply,
    select_captcha_service, two_captcha_after_poll, two_captcha_after_submit, two_captcha_result_url,
    two_captcha_submit_url, unsupported_solver_error, user_agent_for_time, CaptchaConfig, CaptchaService,
    CaptchaStep, CloudflareConfig, Cookie, FingerprintConfig, ProxyRotator, SessionConfig, SessionData, SessionManager,
    TwoCaptchaReply, AUTOMATION_HIDING_SCRIPT, BYPASS_USER_AGENTS, WEBGL_SPOOF_SCRIPT,
};
use rust_manga_scraper::helpers::{
    build_comicinfo, extract_number, find_best_chapter_match, guess_source_id_from_url, merge_alt_titles,
    normalize_chapter_str, normalize_title, parse_source, wp_manga_source_by_name, xml_escape,
};
use rust_manga_scraper::models::{Chapter, Source};

fn cookie(name: &str) -> Cookie {
    Cookie { name: name.to_string(), value: "v".to_string(), domain: "d".to_string(), path: "/".to_string(), expires: None }
}

#[test]
fn doc_examples() {
    let source = parse_source("mangadex");
    assert!(source.is_some());
    let normalized = normalize_title("One Piece");
    assert_eq!(normalized, "onepiece");
}

#[test]
fn sources_are_parsed() {
    assert_eq!(parse_source("MAL"), Some(Source::MyAnimeList));
    assert_eq!(parse_source("49"), Some(Source::TempleScan));
    assert_eq!(parse_source("48"), None);
    assert_eq!(parse_source("reset-scans"), Some(Source::ResetScans));
    assert_eq!(wp_manga_source_by_name("qi-scans"), Some((38, "https://qiscans.org")));
    assert_eq!(wp_manga_source_by_name("QiScans"), None);
    assert_eq!(guess_source_id_from_url("https://FireScans.xyz/x"), Some(2));
    assert_eq!(guess_source_id_from_url("https://example.org"), None);
}

#[test]
fn comicinfo_is_escaped() {
    assert_eq!(xml_escape("a<b>&\"c'"), "a&lt;b&gt;&amp;&quot;c&apos;");
    let xml = build_comicinfo("A & B", "1", Some("x<y"), None).unwrap();
    assert_eq!(
        xml,
        "<?xml version=\"1.0\"?>\n<ComicInfo xmlns:xsi=\"http://www.w3.org/2001/XMLSchema-instance\" xmlns:xsd=\"http://www.w3.org/2001/XMLSchema\">\n  <Series>A &amp; B</Series>\n  <Number>1</Number>\n  <Summary>x&lt;y</Summary>\n</ComicInfo>"
    );
}

#[test]
fn alt_titles_are_merged() {
    let mut t = Some("B, A".to_string());
    merge_alt_titles(&mut t, "C, A,  ");
    assert_eq!(t.as_deref(), Some("A, B, C"));
    let mut none: Option<String> = None;
    merge_alt_titles(&mut none, " , ");
    assert!(none.is_none());
}

#[test]
fn chapters_are_matched() {
    let cs = vec![
        Chapter { id: 1, manga_source_data_id: 1, chapter_number: "Chapter 10".to_string(), url: "a".to_string(), scraped: false },
        Chapter { id: 2, manga_source_data_id: 1, chapter_number: "Chapter 2".to_string(), url: "b".to_string(), scraped: false },
    ];
    assert_eq!(normalize_chapter_str("Chapter 2"), "2");
    assert_eq!(extract_number("Ch. 12.5 end"), Some("12.5".to_string()));
    assert_eq!(find_best_chapter_match(&cs, "2").map(|c| c.id), Some(2));
    assert_eq!(find_best_chapter_match(&cs, "ch-10").map(|c| c.id), Some(1));
    assert!(find_best_chapter_match(&cs, "99").is_none());
}

#[test]
fn sessions_are_kept_for_their_lifetime() {
    let cfg = SessionConfig { enabled: true, cookie_file: "f.json".to_string(), session_lifetime_secs: 100 };
    let mut m = SessionManager::new(cfg, Vec::new());
    m.save_session_at("https://a".to_string(), vec![cookie("c1")], 1000);
    let s = m.get_session_at("https://a", 1050).unwrap();
    assert_eq!(s.cookies.len(), 1);
    assert_eq!(s.created_at, 1000);
    assert!(m.get_session_at("https://a", 1101).is_none());
    assert!(m.get_session_at("https://b", 1050).is_none());
    m.save_session_at("https://a".to_string(), vec![cookie("c2"), cookie("c3")], 2000);
    assert_eq!(m.get_session_at("https://a", 2000).unwrap().cookies.len(), 2);
    assert_eq!(m.sessions().len(), 1);
}

#[test]
fn disabled_sessions_keep_nothing() {
    let cfg = SessionConfig { enabled: false, cookie_file: "f.json".to_string(), session_lifetime_secs: 100 };
    let mut m = SessionManager::new(cfg, Vec::new());
    m.save_session_at("https://a".to_string(), vec![cookie("c1")], 1000);
    assert!(m.get_session_at("https://a", 1000).is_none());
}

#[test]
fn proxies_rotate() {
    let mut r = ProxyRotator::new(vec!["p1".to_string(), "p2".to_string()], 10);
    let now = std::time::SystemTime::now();
    assert_eq!(r.get_current_at(Some(0), now), Some("p1"));
    assert_eq!(r.get_current_at(Some(10_000_000_000), now), Some("p2"));
    assert_eq!(r.get_current_at(Some(10_000_000_000), now), Some("p1"));
    assert_eq!(r.get_current_at(None, now), Some("p1"));
    let mut empty = ProxyRotator::new(vec![], 10);
    assert_eq!(empty.get_current(), None);
}

#[test]
fn spoofing_scripts_follow_settings() {
    let all = FingerprintConfig { enabled: true, spoof_webgl: true, spoof_canvas: false, spoof_audio: false, spoof_fonts: false, random_user_agent: true };
    assert_eq!(get_fingerprint_spoofing_script(&all), format!("{}\n{}", WEBGL_SPOOF_SCRIPT, AUTOMATION_HIDING_SCRIPT));
    let none = FingerprintConfig { enabled: true, spoof_webgl: false, spoof_canvas: false, spoof_audio: false, spoof_fonts: false, random_user_agent: false };
    assert_eq!(get_fingerprint_spoofing_script(&none), AUTOMATION_HIDING_SCRIPT);
}

#[test]
fn user_agents_rotate_with_the_clock() {
    assert_eq!(user_agent_for_time(0), BYPASS_USER_AGENTS[0]);
    assert_eq!(user_agent_for_time(7), BYPASS_USER_AGENTS[2]);
    assert!(BYPASS_USER_AGENTS.contains(&get_random_user_agent()));
}

#[test]
fn captcha_services() {
    let mut c = CaptchaConfig { enabled: false, service: "2captcha".to_string(), api_key: "k".to_string(), max_solve_time_secs: 120 };
    assert_eq!(select_captcha_service(&c).unwrap_err(), "CAPTCHA solving is not enabled");
    c.enabled = true;
    assert!(matches!(select_captcha_service(&c), Ok(CaptchaService::TwoCaptcha)));
    c.service = "foo".to_string();
    assert_eq!(select_captcha_service(&c).unwrap_err(), "Unsupported CAPTCHA service: foo");
    assert_eq!(unsupported_solver_error(&CaptchaService::CapSolver).as_deref(), Some("CapSolver not implemented yet"));
    assert!(unsupported_solver_error(&CaptchaService::TwoCaptcha).is_none());
}

#[test]
fn two_captcha_exchange() {
    assert!(matches!(parse_two_captcha_reply("OK|123"), TwoCaptchaReply::Accepted(ref s) if s == "123"));
    assert!(matches!(parse_two_captcha_reply("CAPCHA_NOT_READY"), TwoCaptchaReply::NotReady));
    assert!(matches!(parse_two_captcha_reply("ERROR_KEY"), TwoCaptchaReply::Error(ref s) if s == "ERROR_KEY"));
    assert_eq!(
        two_captcha_submit_url("k", "s", "p"),
        "https://2captcha.com/in.php?key=k&method=userrecaptcha&googlekey=s&pageurl=p"
    );
    assert_eq!(two_captcha_result_url("k", "9"), "https://2captcha.com/res.php?key=k&action=get&id=9");
    match two_captcha_after_submit("k", "OK|9") {
        CaptchaStep::Poll(u) => assert_eq!(u, "https://2captcha.com/res.php?key=k&action=get&id=9"),
        _ => panic!("expected a poll"),
    }
    match two_captcha_after_submit("k", "ERROR_ZERO_BALANCE") {
        CaptchaStep::Failed(m) => assert_eq!(m, "2Captcha submit error: ERROR_ZERO_BALANCE"),
        _ => panic!("expected a failure"),
    }
    assert!(matches!(two_captcha_after_poll(1, "u", "OK|tok"), CaptchaStep::Solved(ref s) if s == "tok"));
    assert!(matches!(two_captcha_after_poll(29, "u", "CAPCHA_NOT_READY"), CaptchaStep::Poll(_)));
    assert!(matches!(two_captcha_after_poll(30, "u", "CAPCHA_NOT_READY"), CaptchaStep::Failed(ref m) if m == "2Captcha timeout"));
    assert!(matches!(two_captcha_after_poll(3, "u", "ERR"), CaptchaStep::Failed(ref m) if m == "2Captcha solve error: ERR"));
}

#[test]
fn cloudflare_defaults() {
    let c = CloudflareConfig::default();
    assert!(!c.proxy.enabled);
    assert_eq!(c.browser.window_size, "1920,1080");
    assert_eq!(c.session.session_lifetime_secs, 3600);
    assert_eq!(c.captcha.service, "2captcha");
}

#[test]
fn proxies_rotate_on_every_call_with_a_zero_interval() {
    let mut r = ProxyRotator::new(vec!["a".to_string(), "b".to_string()], 0);
    assert_eq!(r.get_current(), Some("b"));
    assert_eq!(r.get_current(), Some("a"));
    assert_eq!(r.get_current(), Some("b"));
}

#[test]
fn stored_sessions_are_loaded_with_their_data() {
    let cfg = SessionConfig { enabled: true, cookie_file: "f.json".to_string(), session_lifetime_secs: 100 };
    let stored = vec![
        ("https://a".to_string(), SessionData { url: "https://a".to_string(), cookies: vec![cookie("c1")], created_at: 1000 }),
        ("https://b".to_string(), SessionData { url: "https://b".to_string(), cookies: vec![], created_at: 500 }),
        ("https://a".to_string(), SessionData { url: "https://a".to_string(), cookies: vec![cookie("c2"), cookie("c3")], created_at: 1010 }),
    ];
    let m = SessionManager::new(cfg, stored);
    let a = m.get_session_at("https://a", 1050).unwrap();
    assert_eq!(a.created_at, 1010);
    assert_eq!(a.cookies.iter().map(|c| c.name.clone()).collect::<Vec<_>>(), vec!["c2".to_string(), "c3".to_string()]);
    let b = m.get_session_at("https://b", 550).unwrap();
    assert_eq!(b.created_at, 500);
    assert!(b.cookies.is_empty());
    assert_eq!(m.sessions().len(), 2);
}

#[test]
fn escaped_xml_reads_back() {
    assert_eq!(xml_escape("a<b & \"c\" 'd'>"), "a&lt;b &amp; &quot;c&quot; &apos;d&apos;&gt;");
    assert_eq!(xml_escape("plain text; 100%"), "plain text; 100%");
    assert_eq!(xml_escape("&amp;"), "&amp;amp;");
}

#[test]
fn numeric_names_are_source_ids() {
    assert_eq!(parse_source("10"), Some(Source::Kagane));
    assert_eq!(parse_source("49"), Some(Source::TempleScan));
    assert_eq!(parse_source("11"), None);
    assert_eq!(parse_source("0"), None);
}

#[test]
fn merging_titles_twice_changes_nothing() {
    let mut once = Some("Solo Leveling".to_string());
    merge_alt_titles(&mut once, "Only I Level Up, ,  Na Honjaman Level Up ");
    let mut twice = once.clone();
    merge_alt_titles(&mut twice, "Only I Level Up, ,  Na Honjaman Level Up ");
    assert_eq!(once.as_deref(), Some("Na Honjaman Level Up, Only I Level Up, Solo Leveling"));
    assert_eq!(twice, once);
    let mut none: Option<String> = None;
    merge_alt_titles(&mut none, " , ");
    assert_eq!(none, None);
}

#[test]
fn ascii_names_lower_once() {
    assert_eq!(parse_source("MangaDex"), parse_source("mangadex"));
    assert_eq!(parse_source("KAGANE"), Some(Source::Kagane));
    assert_eq!(guess_source_id_from_url("HTTPS://MANGADEX.ORG/title/x"), Some(1));
    assert_eq!(parse_source("+7"), Some(Source::KDTNovels));
}
