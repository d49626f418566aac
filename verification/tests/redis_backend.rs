use extensible_rate_limit::backend::redis::{prefix_key, Error, RedisBackend};
use extensible_rate_limit::backend::Decision;

#[test]
fn redis_request_outcome_allow_deny() {
    let now = 10_000u64;
    let (d, out) = RedisBackend::request_outcome(5, 1, 60, now).unwrap();
    assert_eq!(d, Decision::Allowed);
    assert_eq!(out.limit, 5);
    assert_eq!(out.remaining, 4);
    assert_eq!(out.reset, now + 60_000);
    let (d, out) = RedisBackend::request_outcome(5, 6, 30, now).unwrap();
    assert_eq!(d, Decision::Denied);
    assert_eq!(out.remaining, 0);
    assert_eq!(out.reset, now + 30_000);
}

#[test]
fn redis_request_outcome_boundary() {
    // The post-increment count equal to the limit is still allowed; one
    // more is denied.
    let (d, out) = RedisBackend::request_outcome(2, 2, 60, 0).unwrap();
    assert_eq!(d, Decision::Allowed);
    assert_eq!(out.remaining, 0);
    let (d, _) = RedisBackend::request_outcome(2, 3, 60, 0).unwrap();
    assert_eq!(d, Decision::Denied);
}

#[test]
fn redis_negative_ttl_is_protocol_error() {
    // A negative time-to-live means the key exists without an expiry:
    // external interference, surfaced as its own error.
    let r = RedisBackend::request_outcome(5, 1, -1, 0);
    assert!(matches!(r, Err(Error::NegativeTtl)));
    let r = RedisBackend::request_outcome(5, 1, -2, 0);
    assert!(matches!(r, Err(Error::NegativeTtl)));
}

#[test]
fn test_key_prefix() {
    assert_eq!(
        prefix_key(Some("prefix:"), "test_key_prefix"),
        "prefix:test_key_prefix"
    );
    assert_eq!(prefix_key(None, "test_key_prefix"), "test_key_prefix");
}
