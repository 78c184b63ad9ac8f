use a2a_rs::transport::middleware::{parse_usize, validate_request,
    extract_identifier, CompressionConfig, CorsConfig, RateLimitConfig, RateLimiter, ValidationConfig,
};

#[test]
fn test_cors_config_defaults() {
    let config = CorsConfig::default();
    assert_eq!(config.allowed_origins, vec!["*"]);
    assert_eq!(config.allow_credentials, false);
    assert_eq!(config.max_age, 86400);
}

#[test]
fn test_rate_limit_config() {
    let config = RateLimitConfig::restrictive();
    assert_eq!(config.max_requests, 10);
    assert_eq!(config.window_seconds, 60);

    let config = RateLimitConfig::permissive();
    assert_eq!(config.max_requests, 1000);
}

#[test]
fn test_validation_config() {
    let config = ValidationConfig::strict();
    assert_eq!(config.max_body_size, 1024 * 1024);
    assert!(config.validate_schema);
}

#[test]
fn test_compression_config() {
    let config = CompressionConfig::fast();
    assert!(config.enabled);
    assert!(config.level < 6);

    let config = CompressionConfig::max();
    assert!(config.level >= 8);
}

#[test]
fn cors_any_origin_only_for_single_star() {
    assert!(CorsConfig::default().allows_any_origin());
    assert!(!CorsConfig::strict().allows_any_origin());
    assert!(CorsConfig::permissive().allows_any_origin());
}

#[test]
fn limiter_refuses_after_max_in_window() {
    let config = RateLimitConfig::restrictive();
    let mut limiter = RateLimiter::new(config);
    for i in 0..10u64 {
        assert!(limiter.check_rate_limit("client", 1_000 + i).is_ok());
    }
    let err = limiter.check_rate_limit("client", 5_000).unwrap_err();
    assert_eq!(err.limit, 10);
    assert_eq!(err.window_seconds, 60);
    assert_eq!(err.retry_after, 56);
    // Another client has its own window.
    assert!(limiter.check_rate_limit("other", 5_000).is_ok());
    // After the window ends the client is admitted again.
    assert!(limiter.check_rate_limit("client", 61_000).is_ok());
}

#[test]
fn identifier_prefers_api_key() {
    let mut config = RateLimitConfig::default();
    assert_eq!(extract_identifier(&config, Some("k1"), "1.2.3.4"), "ip:1.2.3.4");
    config.use_api_key = true;
    assert_eq!(extract_identifier(&config, Some("k1"), "1.2.3.4"), "apikey:k1");
    assert_eq!(extract_identifier(&config, None, "1.2.3.4"), "ip:1.2.3.4");
}

#[test]
fn request_validation_checks_media_type_and_length() {
    let config = ValidationConfig::default();
    assert!(validate_request(&config, Some("application/json; charset=utf-8"), Some("120")).is_ok());
    assert!(validate_request(&config, None, None).is_ok());
    let e = validate_request(&config, Some("text/plain"), None).unwrap_err();
    assert_eq!(e.field, "content-type");
    assert_eq!(e.message, "Content type 'text/plain' not allowed. Allowed: [\"application/json\", \"application/jsonrpc\"]");
    let e = validate_request(&config, Some("application/json"), Some("10485761")).unwrap_err();
    assert_eq!(e.field, "content-length");
    assert_eq!(e.message, "Request body too large: 10485761 bytes (max: 10485760)");
    assert!(validate_request(&config, None, Some("not-a-number")).is_ok());
    assert_eq!(parse_usize("+42"), Some(42));
    assert_eq!(parse_usize("+"), None);
    assert_eq!(parse_usize("-1"), None);
    assert_eq!(parse_usize("99999999999999999999999"), None);
}
