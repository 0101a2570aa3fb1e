use rust_manga_scraper::crawler::{crawl_announces, listing_page_url};
use rust_manga_scraper::crawler::{
    crawl_chapter_fetch, crawl_filters, crawl_plan, name_to_id, normalize_title, parse_source_filter,
    scheduler_chapter_fetch, source_allowed, crawl_report, Catalog, ChapterFetch, CrawlProgress, ListingMerge, CRAWL_ORDER,
};
use rust_manga_scraper::models::Manga;
use std::collections::HashSet;

fn listing(title: &str, cover: Option<&str>) -> Manga {
    Manga {
        id: "src-id".to_string(),
        title: title.to_string(),
        alt_titles: None,
        cover_url: cover.map(|c| c.to_string()),
        description: None,
        tags: None,
        rating: None,
        monitored: None,
        check_interval_secs: None,
        discover_interval_secs: None,
        last_chapter_check: None,
        last_discover_check: None,
    }
}

#[test]
fn crawl_key_normalizes_titles() {
    assert_eq!(normalize_title("One Piece"), "onepiece");
    assert_eq!(normalize_title("Solo-Leveling"), "sololeveling");
}

#[test]
fn listings_of_one_title_share_an_entry() {
    let mut c = Catalog::new();
    c.add_listing(&listing("One Piece", None), "id-1", 2, "https://f/op", "https://f/op");
    c.add_listing(&listing("one-piece", Some("https://c/op.jpg")), "id-2", 3, "https://r/op", "https://r/op");
    c.add_listing(&listing("Naruto", None), "id-3", 2, "https://f/n", "https://f/n");
    assert_eq!(c.len(), 2);
    let entries = c.entries();
    assert_eq!(entries[0].key, "onepiece");
    assert_eq!(entries[0].manga.id, "id-1");
    assert_eq!(entries[0].manga.title, "One Piece");
    assert_eq!(entries[0].manga.cover_url.as_deref(), Some("https://c/op.jpg"));
    assert_eq!(entries[0].links.len(), 2);
    assert_eq!(entries[0].links[1].manga_id, "id-1");
    assert_eq!(entries[0].links[1].source_id, 3);
    assert_eq!(entries[1].manga.id, "id-3");
    assert_eq!(c.link_count(), 3);
}

#[test]
fn a_full_import_merges_titles_and_tags() {
    let mut c = Catalog::new();
    let mut a = listing("Solo Leveling", None);
    a.tags = Some("Action".to_string());
    let mut b = listing("solo leveling", Some("https://c/s.jpg"));
    b.alt_titles = Some("Only I Level Up".to_string());
    b.tags = Some("Fantasy, Action".to_string());
    b.description = Some("Hunters.".to_string());
    c.merge_listing(&a, "m1", 1, "md-1", "https://mangadex.org/title/md-1");
    c.merge_listing(&b, "m2", 2, "https://f/s", "https://f/s");
    let e = &c.entries()[0];
    assert_eq!(c.len(), 1);
    assert_eq!(e.manga.alt_titles.as_deref(), Some("Only I Level Up, solo leveling"));
    assert_eq!(e.manga.tags.as_deref(), Some("Action, Fantasy"));
    assert_eq!(e.manga.description.as_deref(), Some("Hunters."));
    assert_eq!(e.manga.cover_url.as_deref(), Some("https://c/s.jpg"));
    assert_eq!(e.links[0].source_manga_url, "https://mangadex.org/title/md-1");
}

#[test]
fn provider_links_join_existing_titles() {
    let mut c = Catalog::new();
    c.add_listing(&listing("Blue Lock", None), "b1", 10, "https://k/b", "https://k/b");
    assert!(c.add_link("blue-lock", 11, "https://a/b", "https://a/b"));
    assert!(!c.add_link("Unknown", 11, "x", "x"));
    assert_eq!(c.entries()[0].links.len(), 2);
    assert_eq!(c.entries()[0].links[1].manga_id, "b1");
}

#[test]
fn crawl_filters_choose_sources() {
    let inc: HashSet<i32> = [1, 10].into_iter().collect();
    assert!(source_allowed(1, &Some(inc.clone()), &None));
    assert!(!source_allowed(2, &Some(inc.clone()), &None));
    let exc: HashSet<i32> = [10].into_iter().collect();
    assert!(!source_allowed(10, &None, &Some(exc.clone())));
    assert!(source_allowed(2, &None, &Some(exc.clone())));
    assert_eq!(crawl_plan(&Some(inc), &None), vec![1, 10]);
    let all = crawl_plan(&None, &None);
    assert_eq!(all, CRAWL_ORDER.to_vec());
    let without_kagane = crawl_plan(&None, &Some(exc));
    assert_eq!(without_kagane.len(), CRAWL_ORDER.len() - 1);
    assert!(!without_kagane.contains(&10));
}

#[test]
fn crawl_filter_names() {
    assert_eq!(name_to_id("MangaDex"), Some(1));
    assert_eq!(name_to_id("asurascans"), Some(11));
    assert_eq!(name_to_id("77"), Some(77));
    assert_eq!(name_to_id("nope"), None);
    let ids = parse_source_filter("mangadex, kagane ,bogus,25");
    let expected: HashSet<i32> = [1, 10, 25].into_iter().collect();
    assert_eq!(ids, expected);
    let (inc, exc) = crawl_filters(None, None);
    assert!(inc.is_none());
    assert_eq!(exc, Some([10].into_iter().collect()));
    let (inc, exc) = crawl_filters(Some("firescans"), None);
    assert_eq!(inc, Some([2].into_iter().collect()));
    assert!(exc.is_none());
}

#[test]
fn chapter_fetchers_by_source() {
    assert!(matches!(crawl_chapter_fetch(1), ChapterFetch::MangaDexById));
    assert!(matches!(crawl_chapter_fetch(49), ChapterFetch::SeriesPage));
    assert!(matches!(crawl_chapter_fetch(19), ChapterFetch::WpManga("https://grimscans.team")));
    assert!(matches!(crawl_chapter_fetch(12), ChapterFetch::Unsupported));
    assert!(matches!(scheduler_chapter_fetch(10), ChapterFetch::SeriesPage));
    assert!(matches!(scheduler_chapter_fetch(49), ChapterFetch::Unsupported));
}

#[test]
fn crawl_progress_transitions() {
    let idle = CrawlProgress::default();
    assert!(!idle.in_progress && idle.sources.is_empty());
    let mut p = CrawlProgress::started(100);
    assert!(p.in_progress);
    assert_eq!(p.started_at, Some(100));
    p.begin_source("MangaDex");
    assert_eq!(p.current_source.as_deref(), Some("MangaDex"));
    p.record_source("MangaDex", 5, 7);
    assert_eq!(p.sources.len(), 1);
    assert_eq!(p.sources[0].fetched_manga, 5);
    p.finish(200);
    assert!(!p.in_progress);
    assert_eq!(p.finished_at, Some(200));
    assert!(p.current_source.is_none());
}

#[test]
fn a_titles_listing_merges_titles_and_cover_only() {
    let mut c = Catalog::new();
    c.add_listing_merged(&listing("Omniscient Reader", None), "o1", 1, "md-o", "https://mangadex.org/title/md-o", ListingMerge::Full);
    let mut b = listing("omniscient-reader", Some("https://c/o.jpg"));
    b.alt_titles = Some("ORV".to_string());
    b.tags = Some("Fantasy".to_string());
    b.description = Some("Reader.".to_string());
    c.add_listing_merged(&b, "o2", 2, "https://f/o", "https://f/o", ListingMerge::TitlesAndCover);
    let e = &c.entries()[0];
    assert_eq!(c.len(), 1);
    assert_eq!(e.manga.id, "o1");
    assert_eq!(e.manga.alt_titles.as_deref(), Some("ORV, omniscient-reader"));
    assert_eq!(e.manga.cover_url.as_deref(), Some("https://c/o.jpg"));
    assert_eq!(e.manga.tags, None);
    assert_eq!(e.manga.description, None);
    assert_eq!(e.links.len(), 2);
}

#[test]
fn only_mangadex_and_kagane_report_progress() {
    assert_eq!(crawl_report(1, 12, 30), Some((12, 30)));
    assert_eq!(crawl_report(10, 12, 30), Some((0, 0)));
    assert_eq!(crawl_report(2, 12, 30), None);
}

#[test]
fn crawls_announce_and_link_listed_titles() {
    assert!(crawl_announces(1) && crawl_announces(10) && !crawl_announces(2));
    assert_eq!(listing_page_url(1, "abc"), "https://mangadex.org/title/abc");
    assert_eq!(listing_page_url(2, "https://f/s"), "https://f/s");
}
