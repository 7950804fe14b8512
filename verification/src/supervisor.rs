//! The supervisor's decisions: what to do at startup, after each poll of
//! the status source, and after a restart attempt.
//!
//! The supervisor itself is a loop around blocking external calls — run
//! the status source, restart the managed unit, sleep. Those calls live
//! with the driver; the driver hands their results in as plain values and
//! this module decides, as a pure function, what happens next. The loop
//! carries no state between iterations: every decision is a function of
//! the latest sample alone.

use vstd::prelude::*;
use crate::liveness::{spec_elapsed, spec_verdict, Verdict};
use crate::liveness;
use crate::parse::spec_first_peer_handshake_ts;
use crate::parse;

verus! {

/// What the service-state oracle reported at startup.
#[derive(Clone, Copy, Debug, PartialEq, Eq, Structural)]
pub enum UnitQuery {
    /// The managed unit is active.
    Active,
    /// The managed unit is not active (a normal answer, not an error).
    Inactive,
    /// The oracle itself could not be invoked.
    QueryFailed,
}

/// Why startup aborts before any polling. Each reason maps to a distinct
/// failing exit of the process.
#[derive(Clone, Copy, Debug, PartialEq, Eq, Structural)]
pub enum StartupError {
    /// The interface name was empty (or all whitespace).
    EmptyInterfaceName,
    /// The managed unit is not active: nothing to monitor.
    UnitInactive,
    /// The managed unit's state could not be queried.
    UnitQueryFailed,
}

/// What one invocation of the status source produced.
#[derive(Debug, PartialEq, Eq)]
pub enum PollEvent {
    /// The status source could not be invoked at all.
    SpawnFailed,
    /// The status source ran but exited with a non-zero status.
    ExitFailure,
    /// The status source succeeded; this is its output text.
    Output(String),
}

/// Why an iteration ended without a restart.
#[derive(Clone, Copy, Debug, PartialEq, Eq, Structural)]
pub enum RetryReason {
    /// The status source failed to run or exited non-zero: a failure to
    /// observe, never treated as evidence of staleness.
    SourceFailed,
    /// The status source's output held no readable timestamp.
    UnparsableOutput,
    /// No handshake has been recorded yet; keep waiting.
    NoHandshakeYet,
    /// The handshake is within the timeout; all is well.
    FreshHandshake,
}

/// The decision one poll leads to.
#[derive(Clone, Copy, Debug, PartialEq, Eq, Structural)]
pub enum PollOutcome {
    /// Sleep for the poll interval and poll again.
    Retry(RetryReason),
    /// The handshake is stale by this many seconds of elapsed time: the
    /// driver must attempt a restart, then cool down.
    StaleDetected(u64),
}

/// How one restart attempt concluded.
#[derive(Clone, Copy, Debug, PartialEq, Eq, Structural)]
pub enum RestartOutcome {
    /// The restart command reported success.
    Succeeded,
    /// The restart command ran but exited with a non-zero status.
    FailedExit,
    /// The restart command could not be invoked at all.
    SpawnFailed,
}

/// How long to sleep before the next poll.
#[derive(Clone, Copy, Debug, PartialEq, Eq, Structural)]
pub enum Delay {
    /// The normal poll interval.
    PollInterval,
    /// The longer post-restart cool-down.
    Cooldown,
}

/// The startup gate: monitoring begins only on a positively active unit;
/// an inactive unit and a failed query abort startup, each with its own
/// reason.
pub open spec fn spec_startup_step(q: UnitQuery) -> Result<(), StartupError> {
    match q {
        UnitQuery::Active => Ok(()),
        UnitQuery::Inactive => Err(StartupError::UnitInactive),
        UnitQuery::QueryFailed => Err(StartupError::UnitQueryFailed),
    }
}

/// The decision a poll leads to: a failure to observe retries, a missing
/// or unknown timestamp waits, a fresh handshake rests, and only a stale
/// handshake escalates to a restart, carrying the elapsed seconds.
pub open spec fn spec_poll_step(e: PollEvent, now: u64, timeout_secs: u64) -> PollOutcome {
    match e {
        PollEvent::SpawnFailed => PollOutcome::Retry(RetryReason::SourceFailed),
        PollEvent::ExitFailure => PollOutcome::Retry(RetryReason::SourceFailed),
        PollEvent::Output(out) => match spec_first_peer_handshake_ts(out@) {
            None => PollOutcome::Retry(RetryReason::UnparsableOutput),
            Some(ts) => match spec_verdict(ts, now, timeout_secs) {
                Verdict::Unknown => PollOutcome::Retry(RetryReason::NoHandshakeYet),
                Verdict::Fresh => PollOutcome::Retry(RetryReason::FreshHandshake),
                Verdict::Stale => PollOutcome::StaleDetected(spec_elapsed(ts, now) as u64),
            },
        },
    }
}

/// Decide whether monitoring may begin.
pub fn startup_step(q: &UnitQuery) -> (d: Result<(), StartupError>)
    ensures
        d == spec_startup_step(*q),
{
    match q {
        UnitQuery::Active => Ok(()),
        UnitQuery::Inactive => Err(StartupError::UnitInactive),
        UnitQuery::QueryFailed => Err(StartupError::UnitQueryFailed),
    }
}

/// Decide one iteration of the monitoring loop from what the status
/// source produced, the current time, and the configured timeout.
pub fn poll_step(e: &PollEvent, now: u64, timeout_secs: u64) -> (r: PollOutcome)
    ensures
        r == spec_poll_step(*e, now, timeout_secs),
{
    match e {
        PollEvent::SpawnFailed => PollOutcome::Retry(RetryReason::SourceFailed),
        PollEvent::ExitFailure => PollOutcome::Retry(RetryReason::SourceFailed),
        PollEvent::Output(out) => {
            match parse::first_peer_handshake_ts(out.as_str()) {
                None => PollOutcome::Retry(RetryReason::UnparsableOutput),
                Some(ts) => {
                    match liveness::evaluate(Some(ts), now, timeout_secs) {
                        Verdict::Unknown => PollOutcome::Retry(RetryReason::NoHandshakeYet),
                        Verdict::Fresh => PollOutcome::Retry(RetryReason::FreshHandshake),
                        Verdict::Stale => PollOutcome::StaleDetected(
                            liveness::elapsed_secs(ts, now),
                        ),
                    }
                },
            }
        },
    }
}

/// How long the driver sleeps after a poll whose decision was `r`: the
/// normal poll interval after any retry, and the cool-down once a stale
/// handshake has sent it through a restart attempt.
pub fn delay_after_poll(r: &PollOutcome) -> (d: Delay)
    ensures
        d == (match *r {
            PollOutcome::Retry(_) => Delay::PollInterval,
            PollOutcome::StaleDetected(_) => Delay::Cooldown,
        }),
{
    match r {
        PollOutcome::Retry(_) => Delay::PollInterval,
        PollOutcome::StaleDetected(_) => Delay::Cooldown,
    }
}

/// How long to wait after a restart attempt: always the cool-down,
/// whatever the attempt's outcome. A failed attempt is deliberately not
/// retried at the faster poll cadence — this rate-limits the actuator.
pub fn delay_after_restart(o: &RestartOutcome) -> (d: Delay)
    ensures
        d == Delay::Cooldown,
{
    match o {
        RestartOutcome::Succeeded => Delay::Cooldown,
        RestartOutcome::FailedExit => Delay::Cooldown,
        RestartOutcome::SpawnFailed => Delay::Cooldown,
    }
}

/// A restart is decided exactly when the status source succeeded and its
/// first peer's handshake is stale; in particular no failure of the
/// tooling — spawn failure, non-zero exit, or unreadable output — ever
/// escalates to a restart. And when a restart is decided, the elapsed
/// time it reports does exceed the timeout.
pub proof fn lemma_restart_only_on_stale(e: PollEvent, now: u64, timeout_secs: u64)
    ensures
        spec_poll_step(e, now, timeout_secs) is StaleDetected <==> (e is Output
            && spec_first_peer_handshake_ts(e->Output_0@) is Some && spec_verdict(
            spec_first_peer_handshake_ts(e->Output_0@)->0,
            now,
            timeout_secs,
        ) == Verdict::Stale),
        spec_poll_step(e, now, timeout_secs) is StaleDetected ==> spec_poll_step(
            e,
            now,
            timeout_secs,
        )->StaleDetected_0 > timeout_secs,
{
}

} // verus!
