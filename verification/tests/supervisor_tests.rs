use wg_restarter::supervisor::{
    delay_after_poll, delay_after_restart, poll_step, startup_step, Delay, PollEvent, PollOutcome,
    RestartOutcome, RetryReason, StartupError, UnitQuery,
};

#[test]
fn zero_handshake_waits_at_poll_cadence() {
    // Status source reports a peer with no handshake yet: no restart, next
    // poll after the configured interval.
    let event = PollEvent::Output(String::from("abc123\t0\n"));
    let outcome = poll_step(&event, 1700000100, 60);
    assert_eq!(outcome, PollOutcome::Retry(RetryReason::NoHandshakeYet));
    assert_eq!(delay_after_poll(&outcome), Delay::PollInterval);
}

#[test]
fn stale_handshake_restarts_then_cools_down() {
    // Elapsed 100s against a 60s timeout: stale, restart attempted, and
    // the next poll waits for the cool-down, not the poll interval.
    let event = PollEvent::Output(String::from("abc123\t1700000000\n"));
    let outcome = poll_step(&event, 1700000100, 60);
    assert_eq!(outcome, PollOutcome::StaleDetected(100));
    assert_eq!(delay_after_poll(&outcome), Delay::Cooldown);
    assert_eq!(
        delay_after_restart(&RestartOutcome::Succeeded),
        Delay::Cooldown
    );
}

#[test]
fn source_failure_retries_without_restart() {
    // A non-zero exit of the status source never escalates: retry at the
    // normal poll cadence.
    let outcome = poll_step(&PollEvent::ExitFailure, 1700000100, 60);
    assert_eq!(outcome, PollOutcome::Retry(RetryReason::SourceFailed));
    assert_eq!(delay_after_poll(&outcome), Delay::PollInterval);
}

#[test]
fn spawn_failure_retries_without_restart() {
    let outcome = poll_step(&PollEvent::SpawnFailed, 1700000100, 60);
    assert_eq!(outcome, PollOutcome::Retry(RetryReason::SourceFailed));
    assert_eq!(delay_after_poll(&outcome), Delay::PollInterval);
}

#[test]
fn unparsable_output_retries_without_restart() {
    let event = PollEvent::Output(String::from("interface: wg0 is down"));
    let outcome = poll_step(&event, 1700000100, 60);
    assert_eq!(outcome, PollOutcome::Retry(RetryReason::UnparsableOutput));
    assert_eq!(delay_after_poll(&outcome), Delay::PollInterval);
}

#[test]
fn fresh_handshake_rests_until_next_poll() {
    let event = PollEvent::Output(String::from("abc123\t1700000090\n"));
    let outcome = poll_step(&event, 1700000100, 60);
    assert_eq!(outcome, PollOutcome::Retry(RetryReason::FreshHandshake));
    assert_eq!(delay_after_poll(&outcome), Delay::PollInterval);
}

#[test]
fn boundary_elapsed_is_still_fresh() {
    let event = PollEvent::Output(String::from("abc123\t1700000000\n"));
    let outcome = poll_step(&event, 1700000060, 60);
    assert_eq!(outcome, PollOutcome::Retry(RetryReason::FreshHandshake));
}

#[test]
fn every_restart_outcome_cools_down() {
    assert_eq!(
        delay_after_restart(&RestartOutcome::Succeeded),
        Delay::Cooldown
    );
    assert_eq!(
        delay_after_restart(&RestartOutcome::FailedExit),
        Delay::Cooldown
    );
    assert_eq!(
        delay_after_restart(&RestartOutcome::SpawnFailed),
        Delay::Cooldown
    );
}

#[test]
fn inactive_unit_aborts_startup() {
    // Startup sees an inactive unit: abort before any polling.
    assert_eq!(
        startup_step(&UnitQuery::Inactive),
        Err(StartupError::UnitInactive)
    );
}

#[test]
fn failed_unit_query_aborts_startup() {
    assert_eq!(
        startup_step(&UnitQuery::QueryFailed),
        Err(StartupError::UnitQueryFailed)
    );
}

#[test]
fn active_unit_proceeds_to_monitoring() {
    assert_eq!(startup_step(&UnitQuery::Active), Ok(()));
}
