use rust_manga_scraper::http_client::{
    is_retryable_status, random_user_agent, retry_action, AttemptOutcome, HttpClientConfig, RetryAction,
    USER_AGENTS,
};
use rust_manga_scraper::source_utils::{detect_strategy, FetchStrategy};

#[test]
fn test_retryable_status() {
    assert!(is_retryable_status(reqwest::StatusCode::TOO_MANY_REQUESTS.as_u16()));
    assert!(is_retryable_status(reqwest::StatusCode::INTERNAL_SERVER_ERROR.as_u16()));
    assert!(is_retryable_status(reqwest::StatusCode::BAD_GATEWAY.as_u16()));
    assert!(is_retryable_status(reqwest::StatusCode::SERVICE_UNAVAILABLE.as_u16()));
    assert!(is_retryable_status(reqwest::StatusCode::GATEWAY_TIMEOUT.as_u16()));
    assert!(!is_retryable_status(reqwest::StatusCode::NOT_FOUND.as_u16()));
    assert!(!is_retryable_status(reqwest::StatusCode::FORBIDDEN.as_u16()));
}

#[test]
fn test_random_user_agent() {
    let ua1 = random_user_agent();
    let ua2 = random_user_agent();
    assert!(USER_AGENTS.contains(&ua1));
    assert!(USER_AGENTS.contains(&ua2));
}

#[test]
fn test_retry_delay_calculation() {
    let config = HttpClientConfig::default();
    let delay0 = config.backoff_delay_ms(0);
    let delay1 = config.backoff_delay_ms(1);
    let delay2 = config.backoff_delay_ms(2);
    assert!(delay0 > 0);
    assert!(delay1 >= delay0);
    assert!(delay2 >= delay1);
}

#[test]
fn backoff_doubles_up_to_the_cap() {
    let config = HttpClientConfig::default();
    assert_eq!(config.backoff_delay_ms(0), 500);
    assert_eq!(config.backoff_delay_ms(1), 1000);
    assert_eq!(config.backoff_delay_ms(3), 4000);
    assert_eq!(config.backoff_delay_ms(4), 8000);
    assert_eq!(config.backoff_delay_ms(10), 8000);
}

#[test]
fn cloudflare_statuses_are_retried() {
    assert!(is_retryable_status(520));
    assert!(is_retryable_status(527));
    assert!(!is_retryable_status(528));
    assert!(!is_retryable_status(200));
}

#[test]
fn retry_decisions() {
    assert_eq!(retry_action(4, 0, &AttemptOutcome::Response(503)), RetryAction::Retry);
    assert_eq!(retry_action(4, 4, &AttemptOutcome::Response(503)), RetryAction::ReturnResponse);
    assert_eq!(retry_action(4, 0, &AttemptOutcome::Response(200)), RetryAction::ReturnResponse);
    assert_eq!(
        retry_action(4, 1, &AttemptOutcome::Failure { transient: true, status: None }),
        RetryAction::Retry
    );
    assert_eq!(
        retry_action(4, 1, &AttemptOutcome::Failure { transient: false, status: Some(404) }),
        RetryAction::ReturnError
    );
    assert_eq!(
        retry_action(4, 4, &AttemptOutcome::Failure { transient: true, status: None }),
        RetryAction::ReturnError
    );
}

#[test]
fn test_strategy_detection() {
    assert!(matches!(detect_strategy("https://asmotoon.com/manga/test"), FetchStrategy::Browser));
    assert!(matches!(detect_strategy("https://hivetoons.com/series/test"), FetchStrategy::Browser));
    assert!(matches!(detect_strategy("https://drakecomic.com/manga/test"), FetchStrategy::Enhanced));
    assert!(matches!(detect_strategy("https://example.com/manga/test"), FetchStrategy::Enhanced));
}
