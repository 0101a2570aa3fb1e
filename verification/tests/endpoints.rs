use rust_manga_scraper::server::{byurl_missing, download_answer, DownloadAnswer, UNDETERMINED_SOURCE_MESSAGE};
use rust_manga_scraper::models::{Chapter, PaginationInfo, Source};
use rust_manga_scraper::server::{
    absolute_chapter_url, byurl_file_name, choose_download_source, content_disposition,
    find_exact_chapter, find_source_link, int_param, kagane_series_title, listing_window,
    named_source_id, quick_import_base, requested_source, resolve_import_target, source_display_name,
    stream_file_name, stream_requested, ImportTarget, import_refusal, import_merge, import_failure_aborts,
    FULL_IMPORT_ORDER,
};
use rust_manga_scraper::crawler::ListingMerge;

fn chapter(n: &str) -> Chapter {
    Chapter { id: 0, manga_source_data_id: 0, chapter_number: n.to_string(), url: format!("u/{}", n), scraped: false }
}

#[test]
fn import_targets() {
    assert!(matches!(resolve_import_target("MangaDex"), Some(ImportTarget::Builtin(Source::MangaDex))));
    assert!(matches!(resolve_import_target("10"), Some(ImportTarget::Builtin(Source::Kagane))));
    assert!(matches!(
        resolve_import_target("AsuraScans"),
        Some(ImportTarget::WpManga(11, "https://asurascans.com"))
    ));
    assert!(resolve_import_target("nowhere").is_none());
    assert_eq!(named_source_id("templescan"), Some(49));
    assert_eq!(named_source_id("Grimscans"), Some(19));
    assert_eq!(named_source_id("x"), None);
}

#[test]
fn quick_import_bases() {
    assert_eq!(quick_import_base("FireScans"), Some("https://firescans.xyz"));
    assert_eq!(quick_import_base("thunder-scans"), Some("https://thunderscans.com"));
    assert_eq!(quick_import_base("madarascans"), Some("https://madarascans.com"));
    assert_eq!(quick_import_base("MadaraScans"), None);
}

#[test]
fn listing_parameters() {
    assert_eq!(listing_window(None, None), (20, 0));
    assert_eq!(listing_window(Some("50"), Some("100")), (50, 100));
    assert_eq!(listing_window(Some("x"), Some("-3")), (20, -3));
    assert_eq!(int_param(Some("+7"), 1), 7);
    let p = PaginationInfo::new(100, 20, 80);
    assert!(!p.has_more);
    let p = PaginationInfo::new(101, 20, 80);
    assert!(p.has_more);
    assert!(stream_requested(Some("true")));
    assert!(!stream_requested(Some("TRUE")));
    assert!(!stream_requested(None));
}

#[test]
fn download_sources() {
    assert_eq!(choose_download_source(Some(9), &vec![1, 2]), 9);
    assert_eq!(choose_download_source(None, &vec![3]), 3);
    assert_eq!(choose_download_source(None, &vec![1, 2]), 0);
    assert_eq!(requested_source(Some("8"), "https://mangadex.org/chapter/x"), Some(8));
    assert_eq!(requested_source(Some("x"), "https://MangaDex.org/chapter/x"), Some(1));
    assert_eq!(requested_source(None, "https://example.org"), None);
}

#[test]
fn chapters_and_links_are_found() {
    let cs = vec![chapter("1"), chapter("2"), chapter("2")];
    assert_eq!(find_exact_chapter(&cs, "2"), Some(1));
    assert_eq!(find_exact_chapter(&cs, "3"), None);
    assert_eq!(find_source_link(&vec![4, 9, 9], 9), Some(1));
    assert_eq!(find_source_link(&vec![4], 9), None);
}

#[test]
fn archive_headers() {
    assert_eq!(stream_file_name("One Piece", "1000"), "One Piece - 1000.cbz");
    assert_eq!(byurl_file_name("m-1"), "m-1 - byurl.cbz");
    assert_eq!(content_disposition("a.cbz"), "attachment; filename=\"a.cbz\"");
    assert_eq!(source_display_name(Some("Kagane".to_string()), 10), "Kagane");
    assert_eq!(source_display_name(None, 42), "Source 42");
}

#[test]
fn chapter_urls_are_made_absolute() {
    assert_eq!(absolute_chapter_url("https://s.org/c/1", "https://s.org/m"), "https://s.org/c/1");
    assert_eq!(absolute_chapter_url("c/1", "https://s.org/m/"), "https://s.org/m/c/1");
    assert_eq!(absolute_chapter_url("c/1", "bad base"), "c/1");
}

#[test]
fn kagane_titles_come_from_the_slug() {
    assert_eq!(kagane_series_title("https://kagane.org/series/blue_lock-x/"), "blue lock x");
    assert_eq!(kagane_series_title("https://kagane.org/series/solo"), "solo");
    assert_eq!(kagane_series_title("///"), "Kagane Series");
}

#[test]
fn imports_refuse_unknown_and_metadata_only_sources() {
    assert_eq!(import_refusal(&resolve_import_target("nowhere")), Some("unknown source"));
    assert_eq!(import_refusal(&resolve_import_target("MAL")), Some("metadata-only source not supported here"));
    assert_eq!(import_refusal(&resolve_import_target("kdt")), Some("metadata-only source not supported here"));
    assert_eq!(import_refusal(&resolve_import_target("5")), Some("metadata-only source not supported here"));
    assert_eq!(import_refusal(&resolve_import_target("firescans")), None);
    assert_eq!(import_refusal(&resolve_import_target("asurascans")), None);
}

#[test]
fn the_full_import_merges_and_fails_by_source() {
    assert_eq!(FULL_IMPORT_ORDER, [1, 2, 3, 6, 8, 9, 10, 7]);
    assert_eq!(import_merge(1), ListingMerge::Full);
    assert_eq!(import_merge(2), ListingMerge::TitlesAndCover);
    assert_eq!(import_merge(3), ListingMerge::TitlesAndCover);
    assert_eq!(import_merge(6), ListingMerge::Cover);
    assert_eq!(import_merge(10), ListingMerge::Cover);
    let fatal: Vec<i32> = FULL_IMPORT_ORDER.iter().copied().filter(|&s| import_failure_aborts(s)).collect();
    assert_eq!(fatal, vec![1, 2, 3, 6, 8, 9]);
}

#[test]
fn download_answers_follow_the_links() {
    assert_eq!(byurl_missing(None, None), Some("manga_id is required"));
    assert_eq!(byurl_missing(Some("m"), None), Some("url is required"));
    assert_eq!(byurl_missing(Some("m"), Some("u")), None);
    assert_eq!(download_answer(1, Some(3)), DownloadAnswer::Fetch(3));
    assert_eq!(download_answer(1, None), DownloadAnswer::ChapterNotFound);
    assert_eq!(download_answer(0, Some(3)), DownloadAnswer::ListLinks);
    assert_eq!(download_answer(2, None), DownloadAnswer::ListLinks);
    assert_eq!(UNDETERMINED_SOURCE_MESSAGE, "source could not be determined; specify source_id");
}
