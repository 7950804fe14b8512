//! Liveness evaluation: from a handshake timestamp and the current time to
//! a verdict, judged against a configured timeout.
//!
//! Times are seconds since the Unix epoch, held as `u64`. A timestamp of
//! zero, or no timestamp at all, means no handshake has been observed yet.

use vstd::prelude::*;

verus! {

/// What one handshake sample says about the tunnel.
#[derive(Clone, Copy, Debug, PartialEq, Eq, Structural)]
pub enum Verdict {
    /// The last handshake is within the timeout (boundary inclusive).
    Fresh,
    /// The last handshake is older than the timeout.
    Stale,
    /// No handshake has been recorded yet.
    Unknown,
}

/// Seconds since the handshake at `ts`, clamped to zero when the clock
/// reads earlier than the handshake (clock skew never yields a negative
/// elapsed time).
pub open spec fn spec_elapsed(ts: u64, now: u64) -> int {
    if now >= ts {
        now - ts
    } else {
        0
    }
}

/// The verdict for a handshake timestamp `ts` (0 meaning none yet) at time
/// `now` under timeout `timeout_secs`. The timeout boundary is inclusive:
/// elapsed time equal to the timeout is still `Fresh`.
pub open spec fn spec_verdict(ts: u64, now: u64, timeout_secs: u64) -> Verdict {
    if ts == 0 {
        Verdict::Unknown
    } else if spec_elapsed(ts, now) <= timeout_secs {
        Verdict::Fresh
    } else {
        Verdict::Stale
    }
}

/// The verdict for a parsed sample: an absent timestamp is judged exactly
/// like a zero one.
pub open spec fn spec_verdict_of_sample(ts: Option<u64>, now: u64, timeout_secs: u64) -> Verdict {
    match ts {
        Some(t) => spec_verdict(t, now, timeout_secs),
        None => Verdict::Unknown,
    }
}

/// Seconds elapsed since the handshake at `ts`, clamped to zero under
/// clock skew.
pub fn elapsed_secs(ts: u64, now: u64) -> (e: u64)
    ensures
        e == spec_elapsed(ts, now),
{
    if now >= ts {
        now - ts
    } else {
        0
    }
}

/// Judge a handshake timestamp against the timeout at time `now`.
pub fn evaluate(ts: Option<u64>, now: u64, timeout_secs: u64) -> (v: Verdict)
    ensures
        v == spec_verdict_of_sample(ts, now, timeout_secs),
{
    match ts {
        None => Verdict::Unknown,
        Some(t) => {
            if t == 0 {
                Verdict::Unknown
            } else if elapsed_secs(t, now) <= timeout_secs {
                Verdict::Fresh
            } else {
                Verdict::Stale
            }
        },
    }
}

/// A zero timestamp always yields `Unknown`, whatever the current time and
/// timeout.
pub proof fn lemma_zero_timestamp_unknown(now: u64, timeout_secs: u64)
    ensures
        spec_verdict(0, now, timeout_secs) == Verdict::Unknown,
{
}

/// The timeout boundary is inclusive: exactly `timeout_secs` after the
/// handshake the verdict is still `Fresh`; one second later it is `Stale`.
pub proof fn lemma_timeout_boundary(ts: u64, timeout_secs: u64)
    requires
        ts > 0,
    ensures
        ts + timeout_secs <= u64::MAX ==> spec_verdict(ts, (ts + timeout_secs) as u64, timeout_secs)
            == Verdict::Fresh,
        ts + timeout_secs + 1 <= u64::MAX ==> spec_verdict(
            ts,
            (ts + timeout_secs + 1) as u64,
            timeout_secs,
        ) == Verdict::Stale,
{
}

/// Under clock skew (the clock reads earlier than the handshake) the
/// elapsed time clamps to zero and the verdict is `Fresh`.
pub proof fn lemma_clock_skew_fresh(ts: u64, now: u64, timeout_secs: u64)
    requires
        ts > 0,
        now < ts,
    ensures
        spec_elapsed(ts, now) == 0,
        spec_verdict(ts, now, timeout_secs) == Verdict::Fresh,
{
}

} // verus!
