use rust_manga_scraper::app_state::MetadataProgress;
use rust_manga_scraper::db::{
    add_column_sql, column_missing, is_due_for_chapter_check, like_pattern, manga_page_sql, page_bounds,
    search_sql, sort_expression, stored_text, table_info_sql, MANGA_COLUMNS, RATING_ORDER, SEED_SOURCES,
};
use rust_manga_scraper::metrics::{classify_failure, FailureKind, RequestCounters};

#[test]
fn failures_are_classified() {
    assert_eq!(classify_failure("HTTP 429 Too Many Requests"), FailureKind::RateLimit);
    assert_eq!(classify_failure("Rate Limit exceeded"), FailureKind::RateLimit);
    assert_eq!(classify_failure("Blocked by Cloudflare"), FailureKind::Cloudflare);
    assert_eq!(classify_failure("status 503"), FailureKind::Cloudflare);
    assert_eq!(classify_failure("Request Timeout"), FailureKind::Timeout);
    assert_eq!(classify_failure("Test error"), FailureKind::Other);
}

#[test]
fn counters_record_requests() {
    let mut c = RequestCounters::new();
    c.record_success(100, 1_000);
    c.record_success(200, 2_000);
    c.record_failure("Error", 3_000);
    c.record_failure("429", 4_000);
    c.record_retry();
    assert_eq!(c.total_requests, 4);
    assert_eq!(c.successful_requests, 2);
    assert_eq!(c.failed_requests, 2);
    assert_eq!(c.total_response_time_ms, 300);
    assert_eq!(c.rate_limit_hits, 1);
    assert_eq!(c.retry_count, 1);
    assert_eq!(c.last_success, Some(2_000));
    assert_eq!(c.last_failure, Some(4_000));
    assert_eq!(c.last_error.as_deref(), Some("429"));
}

#[test]
fn metadata_progress_phases() {
    let p = MetadataProgress::default();
    assert!(!p.in_progress && p.current_phase.is_none());
    let mut p = MetadataProgress::started(10);
    assert_eq!(p.current_phase.as_deref(), Some("mangabaka_sync"));
    p.processed_in_phase = 4;
    p.enter_sync_phase("mal_sync");
    assert_eq!(p.processed_in_phase, 0);
    p.processed_in_phase = 2;
    p.enter_merge_phase();
    assert_eq!(p.current_phase.as_deref(), Some("merge"));
    assert_eq!(p.processed_in_phase, 2);
    p.finish(9, 20);
    assert_eq!(p.merged_updated, 9);
    assert!(!p.in_progress && p.current_phase.is_none());
    let mut q = MetadataProgress::started(1);
    q.cancel();
    assert_eq!(q.error.as_deref(), Some("cancelled"));
    let mut r = MetadataProgress::started(1);
    r.fail("db down", 5);
    assert_eq!(r.error.as_deref(), Some("merge: db down"));
    assert_eq!(r.finished_at, Some(5));
}

#[test]
fn listing_statements() {
    assert_eq!(sort_expression("rating"), RATING_ORDER);
    assert_eq!(sort_expression("title"), "title");
    assert_eq!(sort_expression("anything"), "title");
    assert_eq!(
        manga_page_sql("title", false),
        format!("SELECT {} FROM manga ORDER BY title LIMIT ? OFFSET ?", MANGA_COLUMNS)
    );
    assert_eq!(
        manga_page_sql("rating", true),
        format!("SELECT {} FROM manga WHERE lower(rating) = lower(?) ORDER BY {} LIMIT ? OFFSET ?", MANGA_COLUMNS, RATING_ORDER)
    );
    assert_eq!(
        search_sql("title", true, true),
        format!("SELECT {} FROM manga WHERE (title LIKE ? OR alt_titles LIKE ?) AND tags LIKE ? AND lower(rating) = lower(?) ORDER BY title LIMIT ? OFFSET ?", MANGA_COLUMNS)
    );
    assert_eq!(like_pattern("one"), "%one%");
    assert_eq!(page_bounds(None, None), (100, 0));
    assert_eq!(page_bounds(Some(5), Some(10)), (5, 10));
}

#[test]
fn schema_statements() {
    assert_eq!(table_info_sql("manga"), "PRAGMA table_info(manga)");
    assert_eq!(add_column_sql("manga", "rating", "TEXT"), "ALTER TABLE manga ADD COLUMN rating TEXT");
    let cols = vec!["id".to_string(), "title".to_string()];
    assert!(column_missing(&cols, "rating"));
    assert!(!column_missing(&cols, "title"));
    assert_eq!(stored_text(&None), "");
    assert_eq!(stored_text(&Some("x".to_string())), "x");
}

#[test]
fn due_for_chapter_checks() {
    assert!(is_due_for_chapter_check(Some(true), Some(60), None, 1000));
    assert!(is_due_for_chapter_check(Some(true), Some(60), Some(900), 1000));
    assert!(!is_due_for_chapter_check(Some(true), Some(600), Some(900), 1000));
    assert!(!is_due_for_chapter_check(Some(false), Some(60), None, 1000));
    assert!(!is_due_for_chapter_check(Some(true), None, None, 1000));
    assert!(is_due_for_chapter_check(Some(true), Some(1), Some(i64::MIN), i64::MAX));
}

#[test]
fn seeded_sources() {
    assert_eq!(SEED_SOURCES.len(), 60);
    assert_eq!(SEED_SOURCES[0], (1, "MangaDex", "https://mangadex.org"));
    assert_eq!(SEED_SOURCES[59], (60, "Yen Press", "https://yenpress.com"));
    for (i, s) in SEED_SOURCES.iter().enumerate() {
        assert_eq!(s.0 as usize, i + 1);
    }
}
