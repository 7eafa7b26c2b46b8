use drop_logger::rate_limit::{
    exceeds_limit, expiry_after, rate_key, MAX_REQUESTS_PER_USER, RATE_LIMIT_WINDOW_SEC,
};

#[test]
fn the_window_is_a_minute_and_holds_a_hundred() {
    assert_eq!(MAX_REQUESTS_PER_USER, 100);
    assert_eq!(RATE_LIMIT_WINDOW_SEC, 60);
}

#[test]
fn rate_key_prefixes_the_identity() {
    assert_eq!(rate_key("abc123"), "rate_limit:abc123");
    assert_eq!(rate_key(""), "rate_limit:");
    assert_eq!(rate_key("ünï:code"), "rate_limit:ünï:code");
}

#[test]
fn only_the_first_count_attaches_an_expiry() {
    assert_eq!(expiry_after(1), Some(60));
    assert_eq!(expiry_after(2), None);
    assert_eq!(expiry_after(100), None);
    assert_eq!(expiry_after(101), None);
    assert_eq!(expiry_after(0), None);
    assert_eq!(expiry_after(-1), None);
}

#[test]
fn the_limit_is_inclusive() {
    assert!(!exceeds_limit(1));
    assert!(!exceeds_limit(99));
    assert!(!exceeds_limit(100));
    assert!(exceeds_limit(101));
    assert!(exceeds_limit(i32::MAX));
    assert!(!exceeds_limit(0));
}
