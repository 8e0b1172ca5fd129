use prompt_scaler::rate_limit::{RateLimit, RateLimitError, RateLimitPeriod};

#[test]
fn test_parse() {
    let rate_limit = RateLimit::from_str("10/s").unwrap();
    assert_eq!(rate_limit.max_requests, 10);
    assert_eq!(rate_limit.per_period, RateLimitPeriod::Second);

    let rate_limit = RateLimit::from_str("5/m").unwrap();
    assert_eq!(rate_limit.max_requests, 5);
    assert_eq!(rate_limit.per_period, RateLimitPeriod::Minute);
}

#[test]
fn test_failed_parse() {
    assert!(RateLimit::from_str("10/invalid").is_err());
    assert!(RateLimit::from_str("invalid").is_err());
}

#[test]
fn test_display() {
    let rate_limit = RateLimit::from_str("10/s").unwrap();
    assert_eq!(rate_limit.to_string(), "10/s");

    let rate_limit = RateLimit::from_str("5/m").unwrap();
    assert_eq!(rate_limit.to_string(), "5/m");
}

#[test]
fn parse_reports_each_error() {
    assert_eq!(RateLimit::from_str("x/s"), Err(RateLimitError::InvalidCount));
    assert_eq!(RateLimit::from_str(""), Err(RateLimitError::InvalidCount));
    assert_eq!(RateLimit::from_str("10"), Err(RateLimitError::MissingPeriod));
    assert_eq!(RateLimit::from_str("10/"), Err(RateLimitError::UnsupportedPeriod));
    assert_eq!(RateLimit::from_str("10/s/m"), Err(RateLimitError::UnsupportedPeriod));
    assert_eq!(RateLimit::from_str("0/s"), Err(RateLimitError::ZeroRequests));
    assert_eq!(
        RateLimit::from_str("99999999999999999999999999/s"),
        Err(RateLimitError::InvalidCount)
    );
}

#[test]
fn parse_accepts_plus_sign_and_leading_zeros() {
    assert_eq!(
        RateLimit::from_str("+007/m"),
        Ok(RateLimit::new(7, RateLimitPeriod::Minute))
    );
}

#[test]
fn period_lengths() {
    assert_eq!(RateLimitPeriod::Second.to_seconds(), 1);
    assert_eq!(RateLimitPeriod::Minute.to_seconds(), 60);
    assert_eq!(RateLimitPeriod::Second.to_duration().as_secs(), 1);
    assert_eq!(RateLimitPeriod::Minute.to_duration().as_secs(), 60);
}

#[test]
fn limiter_is_built_full() {
    let limit = RateLimit::new(3, RateLimitPeriod::Minute);
    let settings = limit.bucket_settings();
    assert_eq!(settings.initial, 3);
    assert_eq!(settings.refill, 3);
    assert_eq!(settings.max, 3);
    assert_eq!(settings.interval_seconds, 60);
    let limiter = limit.to_rate_limiter();
    assert_eq!(limiter.max(), 3);
    assert_eq!(limiter.refill(), 3);
    assert_eq!(limiter.balance(), 3);
    assert_eq!(limiter.interval().as_secs(), 60);
}
