use shape_pipeline::connectivity::{
    initial_state, supervisor_step, ConnectivityState, LinkEvent, SupervisorAction,
    RETRY_INTERVAL_MS,
};

#[test]
fn retry_interval_is_five_seconds() {
    assert_eq!(RETRY_INTERVAL_MS, 5000);
}

#[test]
fn startup_issues_first_attempt() {
    let s = initial_state();
    assert_eq!(s, ConnectivityState::Disconnected);
    let t = supervisor_step(s, LinkEvent::Proceeded, false);
    assert_eq!(t.next, ConnectivityState::Connecting);
    assert_eq!(
        t.action,
        SupervisorAction::IssueConnect {
            configure_and_start: true
        }
    );
}

#[test]
fn configure_skipped_when_already_started() {
    let t = supervisor_step(ConnectivityState::Disconnected, LinkEvent::Proceeded, true);
    assert_eq!(
        t.action,
        SupervisorAction::IssueConnect {
            configure_and_start: false
        }
    );
}

#[test]
fn successful_attempt_connects() {
    let t = supervisor_step(ConnectivityState::Connecting, LinkEvent::AttemptSucceeded, true);
    assert_eq!(t.next, ConnectivityState::Connected);
    assert_eq!(t.action, SupervisorAction::WaitForLinkDown);
}

#[test]
fn failed_attempt_sleeps_then_retries() {
    let t = supervisor_step(ConnectivityState::Connecting, LinkEvent::AttemptFailed, true);
    assert_eq!(t.next, ConnectivityState::Disconnected);
    assert_eq!(
        t.action,
        SupervisorAction::SleepRetry {
            ms: RETRY_INTERVAL_MS
        }
    );
    let t2 = supervisor_step(t.next, LinkEvent::RetryElapsed, true);
    assert_eq!(t2.next, ConnectivityState::Connecting);
    assert_eq!(
        t2.action,
        SupervisorAction::IssueConnect {
            configure_and_start: false
        }
    );
}

#[test]
fn link_down_recovery_chain() {
    // A link drop re-enters Disconnected and reconnects one retry
    // interval after the event, never reaching a terminal state.
    let t1 = supervisor_step(ConnectivityState::Connected, LinkEvent::LinkDown, true);
    assert_eq!(t1.next, ConnectivityState::WaitingAfterDisconnect);
    assert_eq!(
        t1.action,
        SupervisorAction::SleepRetry {
            ms: RETRY_INTERVAL_MS
        }
    );
    let t2 = supervisor_step(t1.next, LinkEvent::RetryElapsed, true);
    assert_eq!(t2.next, ConnectivityState::Disconnected);
    assert_eq!(t2.action, SupervisorAction::Proceed);
    let t3 = supervisor_step(t2.next, LinkEvent::Proceeded, true);
    assert_eq!(t3.next, ConnectivityState::Connecting);
    assert_eq!(
        t3.action,
        SupervisorAction::IssueConnect {
            configure_and_start: false
        }
    );
}

#[test]
fn unexpected_events_keep_waiting() {
    let t = supervisor_step(ConnectivityState::Connected, LinkEvent::RetryElapsed, true);
    assert_eq!(t.next, ConnectivityState::Connected);
    assert_eq!(t.action, SupervisorAction::KeepWaiting);
    let t = supervisor_step(ConnectivityState::Disconnected, LinkEvent::LinkDown, true);
    assert_eq!(t.next, ConnectivityState::Disconnected);
    assert_eq!(t.action, SupervisorAction::KeepWaiting);
}

#[test]
fn supervisor_cycles_indefinitely() {
    // Two full drop/recover cycles end where they began.
    let mut s = ConnectivityState::Connected;
    for _ in 0..2 {
        s = supervisor_step(s, LinkEvent::LinkDown, true).next;
        s = supervisor_step(s, LinkEvent::RetryElapsed, true).next;
        s = supervisor_step(s, LinkEvent::Proceeded, true).next;
        s = supervisor_step(s, LinkEvent::AttemptSucceeded, true).next;
        assert_eq!(s, ConnectivityState::Connected);
    }
}
