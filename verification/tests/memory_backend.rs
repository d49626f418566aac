use extensible_rate_limit::backend::memory::InMemoryBackend;
use extensible_rate_limit::backend::{SimpleInput, SimpleOutput};

const MINUTE: u64 = 60_000;

fn input(max_requests: u64) -> SimpleInput {
    SimpleInput {
        interval: MINUTE,
        max_requests,
        key: "KEY1".to_string(),
    }
}

#[test]
fn memory_test_allow_deny() {
    let mut backend = InMemoryBackend::builder().build();
    let now = 1_000u64;
    for _ in 0..5 {
        // First 5 should be allowed
        let (allow, _, _) = backend.request_at(input(5), now).unwrap();
        assert!(allow.is_allowed());
    }
    // Sixth should be denied
    let (allow, _, _) = backend.request_at(input(5), now).unwrap();
    assert!(!allow.is_allowed());
}

#[test]
fn memory_test_reset() {
    let mut backend = InMemoryBackend::builder().with_gc_interval(None).build();
    let now = 1_000u64;
    // Make first request, should be allowed
    let (decision, _, _) = backend.request_at(input(1), now).unwrap();
    assert!(decision.is_allowed());
    // Request again, should be denied
    let (decision, _, _) = backend.request_at(input(1), now).unwrap();
    assert!(decision.is_denied());
    // Advance time and try again, should now be allowed
    // We want to be sure the key hasn't been garbage collected, and we are
    // testing the expiry logic
    assert!(backend.contains_key("KEY1"));
    let (decision, _, _) = backend.request_at(input(1), now + MINUTE).unwrap();
    assert!(decision.is_allowed());
}

#[test]
fn memory_test_garbage_collection() {
    let mut backend = InMemoryBackend::builder()
        .with_gc_interval(Some(MINUTE))
        .build();
    let now = 1_000u64;
    backend
        .request_at(
            SimpleInput {
                interval: MINUTE,
                max_requests: 1,
                key: "KEY1".to_string(),
            },
            now,
        )
        .unwrap();
    backend
        .request_at(
            SimpleInput {
                interval: MINUTE * 2,
                max_requests: 1,
                key: "KEY2".to_string(),
            },
            now,
        )
        .unwrap();
    assert!(backend.contains_key("KEY1"));
    assert!(backend.contains_key("KEY2"));
    // After a sweep one interval later, expired KEY1 should be cleaned,
    // but KEY2 should remain.
    backend.sweep(now + MINUTE);
    assert!(!backend.contains_key("KEY1"));
    assert!(backend.contains_key("KEY2"));
}

#[test]
fn memory_test_output() {
    let mut backend = InMemoryBackend::builder().build();
    let now = 1_000u64;
    // First of 2 should be allowed.
    let (decision, output, _) = backend.request_at(input(2), now).unwrap();
    assert!(decision.is_allowed());
    assert_eq!(output.remaining, 1);
    assert_eq!(output.limit, 2);
    assert_eq!(output.reset, now + MINUTE);
    // Second of 2 should be allowed.
    let (decision, output, _) = backend.request_at(input(2), now).unwrap();
    assert!(decision.is_allowed());
    assert_eq!(output.remaining, 0);
    assert_eq!(output.limit, 2);
    assert_eq!(output.reset, now + MINUTE);
    // Should be denied
    let (decision, output, _) = backend.request_at(input(2), now).unwrap();
    assert!(decision.is_denied());
    assert_eq!(output.remaining, 0);
    assert_eq!(output.limit, 2);
    assert_eq!(output.reset, now + MINUTE);
}

#[test]
fn memory_test_rollback() {
    let mut backend = InMemoryBackend::builder().build();
    let now = 1_000u64;
    let (_, output, rollback) = backend.request_at(input(5), now).unwrap();
    assert_eq!(output.remaining, 4);
    backend.rollback_at(rollback, now).unwrap();
    // Remaining requests should still be the same, since the previous call
    // was excluded
    let (_, output, _) = backend.request_at(input(5), now).unwrap();
    assert_eq!(output.remaining, 4);
}

#[test]
fn memory_test_rollback_never_negative() {
    let mut backend = InMemoryBackend::builder().build();
    let now = 1_000u64;
    // A rollback on a missing key creates nothing.
    backend.rollback_at("KEY1".to_string(), now).unwrap();
    assert!(!backend.contains_key("KEY1"));
    // Repeated rollback beyond zero keeps the count at zero: the next
    // request still reports the full remaining quota minus itself.
    let (_, _, token) = backend.request_at(input(5), now).unwrap();
    backend.rollback_at(token.clone(), now).unwrap();
    backend.rollback_at(token.clone(), now).unwrap();
    backend.rollback_at(token, now).unwrap();
    let (_, output, _) = backend.request_at(input(5), now).unwrap();
    assert_eq!(output.remaining, 4);
    assert!(output.remaining <= output.limit);
}

#[test]
fn memory_test_rollback_after_expiry_is_noop() {
    let mut backend = InMemoryBackend::builder().build();
    let now = 1_000u64;
    let (_, _, token) = backend.request_at(input(5), now).unwrap();
    // The window has elapsed: a late rollback must neither resurrect it,
    // extend it, nor make the next request anything but a first one.
    let later = now + MINUTE;
    backend.rollback_at(token, later).unwrap();
    let (d, output, _) = backend.request_at(input(5), later).unwrap();
    assert!(d.is_allowed());
    assert_eq!(output.remaining, 4);
    assert_eq!(output.reset, later + MINUTE);
}

#[test]
fn memory_test_remove_key() {
    let mut backend = InMemoryBackend::builder().with_gc_interval(None).build();
    let now = 1_000u64;
    let (decision, _, _) = backend.request_at(input(1), now).unwrap();
    assert!(decision.is_allowed());
    let (decision, _, _) = backend.request_at(input(1), now).unwrap();
    assert!(decision.is_denied());
    backend.remove_key("KEY1").unwrap();
    // Counter should have been reset
    let (decision, _, _) = backend.request_at(input(1), now).unwrap();
    assert!(decision.is_allowed());
}

#[test]
fn mod_test_seconds_until_reset() {
    let now = 1_000u64;
    let output = SimpleOutput {
        limit: 0,
        remaining: 0,
        reset: now + 60_000,
    };
    // Verify rounded upwards from 30.1
    assert_eq!(output.seconds_until_reset_at(now + 29_900), 31);
    // At the sampling instant the whole window remains.
    assert_eq!(output.seconds_until_reset_at(now), 60);
    // Once the reset has passed, zero.
    assert_eq!(output.seconds_until_reset_at(now + 60_000), 0);
}

#[test]
fn scenario_two_allowed_then_denied() {
    // interval 60s, maxRequests 2, key "K": allowed with remaining 1, then
    // allowed with remaining 0, then denied with remaining 0, all three
    // sharing one reset.
    let mut backend = InMemoryBackend::builder().build();
    let now = 5_000u64;
    let spec_input = SimpleInput {
        interval: 60_000,
        max_requests: 2,
        key: "K".to_string(),
    };
    let (d1, o1, _) = backend.request_at(spec_input.clone(), now).unwrap();
    let (d2, o2, _) = backend.request_at(spec_input.clone(), now + 10).unwrap();
    let (d3, o3, _) = backend.request_at(spec_input, now + 20).unwrap();
    assert!(d1.is_allowed());
    assert_eq!(o1.remaining, 1);
    assert!(d2.is_allowed());
    assert_eq!(o2.remaining, 0);
    assert!(d3.is_denied());
    assert_eq!(o3.remaining, 0);
    assert_eq!(o1.reset, o2.reset);
    assert_eq!(o2.reset, o3.reset);
}

#[test]
fn scenario_exactly_fifty_allowed() {
    // 100 requests against a limit of 50: exactly 50 allowed, 50 denied,
    // no lost or duplicated increments.
    let mut backend = InMemoryBackend::builder().build();
    let now = 1_000u64;
    let mut allowed = 0u64;
    let mut denied = 0u64;
    for _ in 0..100 {
        let (d, _, _) = backend.request_at(input(50), now).unwrap();
        if d.is_allowed() {
            allowed += 1;
        } else {
            denied += 1;
        }
    }
    assert_eq!(allowed, 50);
    assert_eq!(denied, 50);
}

#[test]
fn scenario_seconds_until_reset_via_clock() {
    // The clocked variant reads the process clock; a window far in the
    // future from any reading of it still reports a positive wait.
    let mut backend = InMemoryBackend::builder().build();
    let (_, output, _) = backend.request(input(1)).unwrap();
    assert!(output.seconds_until_reset() <= 60);
    assert_eq!(output.limit(), 1);
    assert_eq!(output.remaining(), 0);
}
