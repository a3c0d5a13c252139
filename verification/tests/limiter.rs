use price_feed::limiter::{
    get_ip, is_limited, is_limited_at, new_key, route_limit, sweep, sweep_now, Limit, RateLimits, Route,
};

#[test]
fn a_record_counts_until_its_window_has_run_out() {
    let record = Limit::at(1_000, 500);
    assert!(record.is_live(1_000));
    assert!(record.is_live(1_499));
    assert!(!record.is_live(1_500));
    assert!(!record.is_live(9_000));
}

#[test]
fn a_record_of_a_later_time_counts() {
    let record = Limit::at(1_000, 500);
    assert!(record.is_live(0));
    assert!(record.is_live(999));
}

#[test]
fn a_record_with_no_window_never_counts_once_its_time_has_come() {
    let record = Limit::at(1_000, 0);
    assert!(!record.is_live(1_000));
    assert!(record.is_live(999));
}

#[test]
fn a_record_at_the_end_of_time_does_not_overflow() {
    let record = Limit::at(u128::MAX, u128::MAX);
    assert!(record.is_live(u128::MAX));
    assert!(record.is_live(0));
}

#[test]
fn new_records_the_window() {
    let record = Limit::new(30_000);
    assert_eq!(record.ttl, 30_000);
    assert!(record.time > 1_600_000_000_000);
}

#[test]
fn the_call_after_the_limit_is_denied() {
    let mut limits = RateLimits::new();
    assert!(!is_limited_at(&mut limits, "k", 0, 1_000, 2));
    assert!(!is_limited_at(&mut limits, "k", 10, 1_000, 2));
    assert!(is_limited_at(&mut limits, "k", 20, 1_000, 2));
    assert!(is_limited_at(&mut limits, "k", 999, 1_000, 2));
    assert_eq!(limits.usage_at("k", 999), 2);
}

#[test]
fn the_oldest_expiry_frees_exactly_one_call() {
    let mut limits = RateLimits::new();
    assert!(!is_limited_at(&mut limits, "k", 0, 1_000, 2));
    assert!(!is_limited_at(&mut limits, "k", 10, 1_000, 2));
    assert_eq!(limits.usage_at("k", 999), 2);
    assert_eq!(limits.usage_at("k", 1_000), 1);
    assert!(!is_limited_at(&mut limits, "k", 1_000, 1_000, 2));
    assert!(is_limited_at(&mut limits, "k", 1_005, 1_000, 2));
    assert_eq!(limits.usage_at("k", 1_010), 1);
}

#[test]
fn a_denied_call_records_nothing() {
    let mut limits = RateLimits::new();
    assert!(!is_limited_at(&mut limits, "k", 0, 100, 1));
    assert!(is_limited_at(&mut limits, "k", 50, 100, 1));
    assert!(is_limited_at(&mut limits, "k", 99, 100, 1));
    assert!(!is_limited_at(&mut limits, "k", 100, 100, 1));
}

#[test]
fn keys_are_counted_apart() {
    let mut limits = RateLimits::new();
    assert!(!is_limited_at(&mut limits, "a", 0, 100, 1));
    assert!(!is_limited_at(&mut limits, "b", 0, 100, 1));
    assert!(is_limited_at(&mut limits, "a", 1, 100, 1));
    assert_eq!(limits.usage_at("a", 1), 1);
    assert_eq!(limits.usage_at("b", 1), 1);
    assert_eq!(limits.usage_at("c", 1), 0);
}

#[test]
fn a_limit_of_zero_denies_every_call() {
    let mut limits = RateLimits::new();
    assert!(is_limited_at(&mut limits, "k", 0, 100, 0));
    assert!(!limits.has_window("k"));
}

#[test]
fn a_sweep_removes_what_no_longer_counts() {
    let mut limits = RateLimits::new();
    assert!(!is_limited_at(&mut limits, "short", 0, 10, 5));
    assert!(!is_limited_at(&mut limits, "long", 0, 1_000, 5));
    assert!(!is_limited_at(&mut limits, "long", 5, 10, 5));
    sweep(&mut limits, 100);
    assert!(!limits.has_window("short"));
    assert!(limits.has_window("long"));
    assert_eq!(limits.usage_at("long", 0), 1);
}

#[test]
fn is_limited_reads_the_clock() {
    let mut limits = RateLimits::new();
    let key = "get-item-pricing+unknown".to_string();
    assert!(!is_limited(&mut limits, &key, 30_000, 1));
    assert!(is_limited(&mut limits, &key, 30_000, 1));
    assert!(limits.has_window(&key));
}

#[test]
fn the_key_joins_endpoint_and_address() {
    assert_eq!(new_key("get-item-pricing", "1.2.3.4"), "get-item-pricing+1.2.3.4");
    assert_eq!(new_key("", ""), "+");
}

#[test]
fn the_address_is_the_proxy_header_only_where_the_proxy_is_trusted() {
    assert_eq!(get_ip(true, Some("9.9.9.9"), Some("1.2.3.4")), "9.9.9.9");
    assert_eq!(get_ip(false, Some("9.9.9.9"), Some("1.2.3.4")), "1.2.3.4");
}

#[test]
fn a_trusted_proxy_that_reports_nothing_leaves_the_peer() {
    assert_eq!(get_ip(true, None, Some("1.2.3.4")), "1.2.3.4");
    assert_eq!(get_ip(true, None, None), "unknown");
}

#[test]
fn the_address_without_a_peer_is_unknown() {
    assert_eq!(get_ip(false, None, None), "unknown");
    assert_eq!(get_ip(false, Some("9.9.9.9"), None), "unknown");
}

#[test]
fn each_route_has_its_limit() {
    let pricing = route_limit(Route::ItemPricing);
    assert_eq!(pricing.endpoint, "get-item-pricing");
    assert_eq!(pricing.window_ms, 30_000);
    assert_eq!(pricing.max_calls, 1);
    let usage = route_limit(Route::ApiUsage);
    assert_eq!(usage.endpoint, "get-api-usage");
    assert_eq!(usage.window_ms, 1_000);
    assert_eq!(usage.max_calls, 1);
}

#[test]
fn a_sweep_by_the_clock_removes_what_has_run_out() {
    let mut limits = RateLimits::new();
    assert!(!is_limited_at(&mut limits, "old", 1_000, 10, 5));
    assert!(!is_limited(&mut limits, &"new".to_string(), 3_600_000, 5));
    sweep_now(&mut limits);
    assert!(!limits.has_window("old"));
    assert!(limits.has_window("new"));
}
