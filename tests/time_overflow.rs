use rust_service::logger::{elapsed_ms, saturating_millis};
use std::time::Duration;

#[test]
fn test_time_calculation_overflow_protection() {
    let large_duration = Duration::from_millis(u64::MAX);
    let millis = large_duration.as_millis();
    let result = saturating_millis(millis);
    assert_ne!(result, 0, "Time calculation should not return 0 for valid large duration");
    assert_eq!(result, u64::MAX, "Should saturate to u64::MAX for overflow");
}

#[test]
fn test_saturating_arithmetic_usage() {
    let now = 1000u64;
    let last_time = 2000u64;
    let diff = elapsed_ms(now, last_time);
    assert_eq!(diff, 0, "saturating_sub should prevent underflow");
    let diff_normal = elapsed_ms(2000u64, 1000u64);
    assert_eq!(diff_normal, 1000, "saturating_sub should work normally");
}

#[test]
fn millis_beyond_u64_saturate() {
    assert_eq!(saturating_millis(u128::from(u64::MAX) + 1), u64::MAX);
    assert_eq!(saturating_millis(u128::MAX), u64::MAX);
    assert_eq!(saturating_millis(1_700_000_000_123), 1_700_000_000_123);
}
