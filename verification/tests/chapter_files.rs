use rust_manga_scraper::scraper::{
    archive_file_name, at_home_page_urls, at_home_url, browser_download_args, build_chapter_archive,
    build_chapter_label, chapter_file_name, chapter_images_array, cover_extension, cover_file_name,
    dedup_urls, file_download_route, format_chapter_label, is_kagane_page_url, is_page_image_url,
    keep_page_images, memory_download_route, page_file_name, page_image_sources, page_origin,
    page_request, page_requests, referer_for, requires_browser_download, resolve_page_url,
    sanitize_filename, source_name_from_id, sources_array, AtHomeChapter, AtHomeServer, DownloadRoute,
    STEALTH_ARGS,
};
use rust_manga_scraper::cloudflare_bypass::CloudflareConfig;
use std::io::Read;

#[test]
fn sanitize_replaces_reserved_characters() {
    assert_eq!(sanitize_filename("a/b\\c:d*e?f\"g<h>i|j"), "a_b_c_d_e_f_g_h_i_j");
    assert_eq!(sanitize_filename("One Piece"), "One Piece");
    let once = sanitize_filename("Re:Zero?");
    assert_eq!(sanitize_filename(&once), once);
}

#[test]
fn source_names() {
    assert_eq!(source_name_from_id(1), "MangaDex");
    assert_eq!(source_name_from_id(7), "KDTNovels");
    assert_eq!(source_name_from_id(10), "Kagane");
    assert_eq!(source_name_from_id(49), "Unknown");
}

#[test]
fn chapter_labels_from_text_and_url() {
    assert_eq!(format_chapter_label("Chapter 12", "https://x.org/c/1"), "Vol.12 Ch.12");
    assert_eq!(
        format_chapter_label("Chapter 5 - The Return", "https://x.org/c/1"),
        "Vol.5 Ch.5 - The Return"
    );
    assert_eq!(format_chapter_label("Prologue", "https://x.org/manga/chapter-7.5"), "Ch.7.5");
    assert_eq!(
        format_chapter_label("Extra", "https://x.org/Volume-3/Chapter-9"),
        "Vol.3 Ch.9"
    );
    assert_eq!(format_chapter_label("Extra", "https://x.org/read"), "Extra");
}

#[test]
fn chapter_label_from_parts() {
    let label = build_chapter_label("Side - Story", &Some("2".to_string()), &None);
    assert_eq!(label, "Vol.2 - Story");
    let label = build_chapter_label("Oneshot -  ", &None, &None);
    assert_eq!(label, "Oneshot -  ");
}

#[test]
fn archive_names() {
    assert_eq!(archive_file_name(2, "A/B", "Ch.1"), "2-FireScans-A_B - Ch.1.cbz");
    assert_eq!(
        chapter_file_name(1, "Title: Sub", "Chapter 3", "https://x.org/c"),
        "1-MangaDex-Title_ Sub - Vol.3 Ch.3.cbz"
    );
    assert_eq!(archive_file_name(-4, "T", "L"), "-4-Unknown-T - L.cbz");
}

#[test]
fn cover_names() {
    assert_eq!(cover_extension("https://c.org/a/cover.png?v=2"), "png");
    assert_eq!(cover_extension("https://c.org/a/cover.jpg"), "jpg");
    assert_eq!(cover_file_name(10, "https://c.org/i.webp"), "10-Kagane-cover.webp");
}

#[test]
fn page_names() {
    assert_eq!(page_file_name(0), "page_1.jpg");
    assert_eq!(page_file_name(41), "page_42.jpg");
}

#[test]
fn download_routes() {
    assert!(requires_browser_download(3));
    assert!(requires_browser_download(59));
    assert!(!requires_browser_download(2));
    assert_eq!(memory_download_route(3), DownloadRoute::Browser);
    assert_eq!(memory_download_route(1), DownloadRoute::MangaDexAtHome);
    assert_eq!(memory_download_route(2), DownloadRoute::PageBreakImages);
    assert_eq!(memory_download_route(10), DownloadRoute::KaganePlain);
    assert_eq!(memory_download_route(77), DownloadRoute::MultiSelector);
    assert_eq!(file_download_route(1), DownloadRoute::MangaDexAtHome);
    assert_eq!(file_download_route(3), DownloadRoute::ReaderImages);
    assert_eq!(file_download_route(10), DownloadRoute::KaganeWithHeaders);
    assert_eq!(file_download_route(20), DownloadRoute::PlainReaderImages);
}

#[test]
fn mangadex_pages() {
    assert_eq!(at_home_url("abc"), "https://api.mangadex.org/at-home/server/abc");
    let server = AtHomeServer {
        base_url: "https://uploads.example".to_string(),
        chapter: AtHomeChapter {
            hash: "h1".to_string(),
            data: vec!["p1.jpg".to_string(), "p2.jpg".to_string()],
            data_saver: vec![],
        },
    };
    assert_eq!(
        at_home_page_urls(&server),
        vec![
            "https://uploads.example/data/h1/p1.jpg".to_string(),
            "https://uploads.example/data/h1/p2.jpg".to_string()
        ]
    );
}

#[test]
fn page_image_filters() {
    assert!(is_page_image_url("https://cdn.x/ch1/001.JPG"));
    assert!(is_page_image_url("https://cdn.x/ch1/001.webp"));
    assert!(!is_page_image_url("https://cdn.x/site-logo.png"));
    assert!(!is_page_image_url("https://cdn.x/page.gif"));
    assert!(is_kagane_page_url("https://k.org/1.png"));
    assert!(!is_kagane_page_url("/1.png"));
    assert!(!is_kagane_page_url("https://k.org/1.png?x"));
    let kept = keep_page_images(&vec![
        "a.jpg".to_string(),
        "icon.png".to_string(),
        "b.png".to_string(),
    ]);
    assert_eq!(kept, vec!["a.jpg".to_string(), "b.png".to_string()]);
}

#[test]
fn dedup_keeps_first_occurrences() {
    let d = dedup_urls(&vec![
        "a".to_string(),
        "b".to_string(),
        "a".to_string(),
        "c".to_string(),
        "b".to_string(),
    ]);
    assert_eq!(d, vec!["a".to_string(), "b".to_string(), "c".to_string()]);
}

#[test]
fn page_requests_resolve_against_the_chapter() {
    assert_eq!(page_origin("https://site.org/manga/1/ch-2"), "https://site.org");
    assert_eq!(page_origin("not a url"), "");
    assert_eq!(referer_for("", "u"), "u");
    assert_eq!(resolve_page_url("https://site.org/manga/1/", "img/1.jpg"), "https://site.org/manga/1/img/1.jpg");
    assert_eq!(resolve_page_url("nope", "img/1.jpg"), "img/1.jpg");
    let p = page_request(DownloadRoute::ReaderImages, "https://site.org/m/c", "/i/1.jpg");
    assert_eq!(p.url, "https://site.org/i/1.jpg");
    assert_eq!(p.referer.as_deref(), Some("https://site.org"));
    assert_eq!(p.user_agent.as_deref(), Some("rust_manga_scraper/0.1.0"));
    let p = page_request(DownloadRoute::KaganePlain, "https://k.org/c", "https://k.org/1.png");
    assert_eq!(p.url, "https://k.org/1.png");
    assert!(p.referer.is_none() && p.user_agent.is_none());
    let p = page_request(DownloadRoute::MangaDexAtHome, "id", "https://u/data/h/p.jpg");
    assert_eq!(p.referer.as_deref(), Some("https://mangadex.org/"));
    let ps = page_requests(DownloadRoute::Browser, "https://s.org/c/1", &vec!["a.jpg".to_string()]);
    assert_eq!(ps.len(), 1);
    assert_eq!(ps[0].url, "https://s.org/c/a.jpg");
    assert_eq!(
        ps[0].user_agent.as_deref(),
        Some("Mozilla/5.0 (Windows NT 10.0; Win64; x64) AppleWebKit/537.36")
    );
}

const READER_HTML: &str = r#"<html><body><div class="reading-content">
<div class="page-break"><img src="https://cdn.x/1.jpg"></div>
<div class="page-break"><img data-src="https://cdn.x/2.jpg"></div>
<img src="https://cdn.x/logo.png">
</div></body></html>"#;

#[test]
fn reader_pages_are_found() {
    let found = page_image_sources(DownloadRoute::ReaderImages, READER_HTML);
    assert_eq!(
        found,
        vec![
            "https://cdn.x/1.jpg".to_string(),
            "https://cdn.x/2.jpg".to_string(),
            "https://cdn.x/logo.png".to_string()
        ]
    );
    let pb = page_image_sources(DownloadRoute::PageBreakImages, READER_HTML);
    assert_eq!(pb, vec!["https://cdn.x/1.jpg".to_string()]);
    let multi = page_image_sources(DownloadRoute::MultiSelector, READER_HTML);
    assert_eq!(multi, vec!["https://cdn.x/1.jpg".to_string(), "https://cdn.x/2.jpg".to_string()]);
    assert!(page_image_sources(DownloadRoute::MangaDexAtHome, READER_HTML).is_empty());
}

#[test]
fn reader_fallback_scans_the_page() {
    let html = r#"<p>see https://a.b/x.png and https://a.b/y.jpg and https://a.b/x.png</p>"#;
    let found = page_image_sources(DownloadRoute::PlainReaderImages, html);
    assert_eq!(found, vec!["https://a.b/x.png".to_string(), "https://a.b/y.jpg".to_string()]);
}

#[test]
fn kagane_pages_are_found() {
    let html = r#"<main><img src="https://k.org/p1.png"><img src="/rel.png"></main>"#;
    let found = page_image_sources(DownloadRoute::KaganePlain, html);
    assert_eq!(found, vec!["https://k.org/p1.png".to_string()]);
}

#[test]
fn embedded_image_lists_are_read() {
    let html = r#"<script>{"chapterImages":[{"url":"https://i/1.jpg"},{"x":1},{"url":"https://i/2.jpg"}],"n":2}</script>"#;
    assert_eq!(
        chapter_images_array(html).as_deref(),
        Some(r#"[{"url":"https://i/1.jpg"},{"x":1},{"url":"https://i/2.jpg"}]"#)
    );
    let found = page_image_sources(DownloadRoute::MultiSelector, html);
    assert_eq!(found, vec!["https://i/1.jpg".to_string(), "https://i/2.jpg".to_string()]);
    assert_eq!(chapter_images_array("<p>none</p>"), None);
    let src = r#"x "sources":[{"images":["https://i/a.jpg","https://i/b.jpg"]}] y"#;
    assert_eq!(sources_array(src).as_deref(), Some(r#"[{"images":["https://i/a.jpg","https://i/b.jpg"]}]"#));
    let browser = page_image_sources(DownloadRoute::Browser, src);
    assert_eq!(browser, vec!["https://i/a.jpg".to_string(), "https://i/b.jpg".to_string()]);
    assert!(page_image_sources(DownloadRoute::MultiSelector, src).is_empty());
}

#[test]
fn archives_hold_comicinfo_and_pages() {
    let pages = vec![vec![1u8, 2, 3], vec![4u8]];
    let bytes = build_chapter_archive(Some("<ComicInfo/>"), &pages).unwrap();
    let mut archive = zip::ZipArchive::new(std::io::Cursor::new(bytes)).unwrap();
    assert_eq!(archive.len(), 3);
    let names: Vec<String> = (0..3).map(|i| archive.by_index(i).unwrap().name().to_string()).collect();
    assert_eq!(names, vec!["ComicInfo.xml", "page_1.jpg", "page_2.jpg"]);
    let mut content = Vec::new();
    archive.by_name("page_1.jpg").unwrap().read_to_end(&mut content).unwrap();
    assert_eq!(content, vec![1u8, 2, 3]);
    let mut xml = String::new();
    archive.by_name("ComicInfo.xml").unwrap().read_to_string(&mut xml).unwrap();
    assert_eq!(xml, "<ComicInfo/>");
    let bare = build_chapter_archive(None, &vec![]).unwrap();
    let archive = zip::ZipArchive::new(std::io::Cursor::new(bare)).unwrap();
    assert_eq!(archive.len(), 0);
}

#[test]
fn protected_download_browser_flags() {
    let mut cf = CloudflareConfig::default();
    let args = browser_download_args(&cf, "UA");
    assert_eq!(args.len(), STEALTH_ARGS.len() + 2);
    assert_eq!(args[STEALTH_ARGS.len()], "--window-size=1920,1080");
    assert_eq!(args[STEALTH_ARGS.len() + 1], "--user-agent=UA");
    cf.proxy.enabled = true;
    cf.proxy.proxies = vec!["http://p1:8080".to_string(), "http://p2:8080".to_string()];
    let args = browser_download_args(&cf, "UA");
    assert_eq!(args.last().map(|s| s.as_str()), Some("--proxy-server=http://p1:8080"));
}

#[test]
fn the_first_present_image_attribute_wins() {
    let html = r#"<div class="reading-content">
<img src="https://c/1.jpg" data-src="https://c/1-lazy.jpg">
<img data-src="https://c/2.jpg" data-lazy-src="https://c/2-lazy.jpg">
<img data-lazy-src="https://c/3.jpg">
</div>"#;
    assert_eq!(
        page_image_sources(DownloadRoute::ReaderImages, html),
        vec!["https://c/1.jpg".to_string(), "https://c/2.jpg".to_string()]
    );
    assert_eq!(
        page_image_sources(DownloadRoute::MultiSelector, html),
        vec!["https://c/1.jpg".to_string(), "https://c/2.jpg".to_string(), "https://c/3.jpg".to_string()]
    );
    let src = r#"x "sources":[{"images":["https://i/a.jpg"]},{"images":"none"},{"other":1},{"images":[7,"https://i/b.jpg"]}] y"#;
    assert_eq!(
        page_image_sources(DownloadRoute::Browser, src),
        vec!["https://i/a.jpg".to_string(), "https://i/b.jpg".to_string()]
    );
}
