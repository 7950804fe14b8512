use wg_restarter::liveness::{elapsed_secs, evaluate, Verdict};

#[test]
fn zero_timestamp_is_always_unknown() {
    assert_eq!(evaluate(Some(0), 0, 0), Verdict::Unknown);
    assert_eq!(evaluate(Some(0), 1700000000, 600), Verdict::Unknown);
    assert_eq!(evaluate(Some(0), u64::MAX, u64::MAX), Verdict::Unknown);
}

#[test]
fn absent_timestamp_is_unknown() {
    assert_eq!(evaluate(None, 1700000000, 600), Verdict::Unknown);
}

#[test]
fn timeout_boundary_is_inclusive() {
    let t = 1700000000;
    let d = 600;
    assert_eq!(evaluate(Some(t), t + d, d), Verdict::Fresh);
    assert_eq!(evaluate(Some(t), t + d + 1, d), Verdict::Stale);
}

#[test]
fn recent_handshake_is_fresh() {
    assert_eq!(evaluate(Some(1700000000), 1700000010, 600), Verdict::Fresh);
    assert_eq!(evaluate(Some(1700000000), 1700000000, 0), Verdict::Fresh);
}

#[test]
fn old_handshake_is_stale() {
    assert_eq!(evaluate(Some(1700000000), 1700000100, 60), Verdict::Stale);
}

#[test]
fn clock_skew_clamps_to_zero_and_fresh() {
    assert_eq!(elapsed_secs(1700000000, 1699999999), 0);
    assert_eq!(elapsed_secs(u64::MAX, 0), 0);
    assert_eq!(evaluate(Some(1700000000), 1699999000, 60), Verdict::Fresh);
    assert_eq!(evaluate(Some(1700000000), 1699999000, 0), Verdict::Fresh);
}

#[test]
fn elapsed_is_exact_difference() {
    assert_eq!(elapsed_secs(1700000000, 1700000100), 100);
    assert_eq!(elapsed_secs(5, 5), 0);
}
