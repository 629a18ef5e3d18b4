use lzc_sdk::auth::{refresh_delay_nanos, should_refresh, TOKEN_REFRESH_MARGIN_NANOS};

const SECOND: u128 = 1_000_000_000;

#[test]
fn tokens_refresh_thirty_seconds_before_their_deadline() {
    assert_eq!(TOKEN_REFRESH_MARGIN_NANOS, 30 * SECOND);
    assert_eq!(refresh_delay_nanos(60 * SECOND), 30 * SECOND);
    assert_eq!(refresh_delay_nanos(30 * SECOND + 1), 1);
}

#[test]
fn short_lived_tokens_refresh_at_once() {
    assert_eq!(refresh_delay_nanos(30 * SECOND), 0);
    assert_eq!(refresh_delay_nanos(SECOND), 0);
    assert_eq!(refresh_delay_nanos(0), 0);
}

#[test]
fn a_cached_token_is_refreshed_once_its_delay_has_elapsed() {
    let delay = refresh_delay_nanos(61 * SECOND);
    assert!(!should_refresh(30 * SECOND, delay));
    assert!(should_refresh(31 * SECOND, delay));
    assert!(should_refresh(0, 0));
}
