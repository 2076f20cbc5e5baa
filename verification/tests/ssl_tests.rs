use stamon::ssl::{SslError, SslExpiration};

#[test]
fn test_ssl_expiration_from_seconds() {
    // Test with future expiration (positive seconds): 1 day
    let future_expiry = SslExpiration(86400, 1_700_086_400);
    assert!(!future_expiry.is_expired());
    assert!(future_expiry.days() > 0);

    // Test with past expiration (negative seconds): 1 day ago
    let past_expiry = SslExpiration(-86400, 1_699_913_600);
    assert!(past_expiry.is_expired());
    assert!(past_expiry.days() < 0);
}

#[test]
fn test_ssl_expiration_edge_cases() {
    // Exactly at expiration time: 0 seconds is not negative, so not expired
    let now_expiry = SslExpiration(0, 1_700_000_000);
    assert!(!now_expiry.is_expired());
    assert_eq!(now_expiry.days(), 0);

    // Very small positive time: not expired
    let small_future = SslExpiration(1, 1_700_000_001);
    assert!(!small_future.is_expired());

    // Very small negative time: expired
    let small_past = SslExpiration(-1, 1_699_999_999);
    assert!(small_past.is_expired());
}

#[test]
fn test_days_calculation() {
    // 7 days in the future
    let week_future = SslExpiration(7 * 24 * 60 * 60, 1_700_604_800);
    assert_eq!(week_future.days(), 7);

    // 30 days in the future
    let month_future = SslExpiration(30 * 24 * 60 * 60, 1_702_592_000);
    assert_eq!(month_future.days(), 30);

    // Partial day (12 hours) rounds down
    let partial_day = SslExpiration(12 * 60 * 60, 1_700_043_200);
    assert_eq!(partial_day.days(), 0);
}

#[test]
fn test_error_types() {
    let no_cert_error = SslError::NoCert;
    let handshake_error = SslError::Handshake("test error".to_string());

    assert!(!no_cert_error.message().is_empty());
    assert!(!handshake_error.message().is_empty());
    assert!(handshake_error.message().contains("test error"));
}

#[test]
fn from_measured_diff() {
    // two days and a half, measured at epoch second 1_000_000
    let e = SslExpiration::from_diff(2, 43_200, 1_000_000);
    assert_eq!(e.secs(), 2 * 86400 + 43_200);
    assert_eq!(e.date(), 1_000_000 + (2 * 86400 + 43_200) as i64);
    assert_eq!(e.days(), 2);
    assert!(!e.is_expired());
}

#[test]
fn ssl_error_messages() {
    assert_eq!(SslError::NoCert.message(), "Certificate not found");
    assert_eq!(
        SslError::Handshake("x".to_string()).message(),
        "HandshakeError: x"
    );
    assert_eq!(SslError::Io("io gone".to_string()).message(), "io gone");
    assert_eq!(SslError::Ssl("tls gone".to_string()).message(), "tls gone");
}
