//! The connectivity supervisor: a state machine that keeps a wireless
//! client link alive forever.
//!
//! The supervisor owns the link controller.  Its loop is: from
//! `Disconnected`, issue the configure/start/connect sequence and move to
//! `Connecting`; on success sit in `Connected` until the link drops; on
//! failure sleep one retry interval and try again; after a drop sleep one
//! retry interval in `WaitingAfterDisconnect` and re-enter
//! `Disconnected`.  There is no terminal state.
//!
//! The decision logic lives in `supervisor_step`, a pure transition
//! function from state and observed event to successor state and the
//! action the driving loop must perform next.  The driver performs the
//! action (issue the connect call, sleep, wait for a link event) and
//! feeds back the event it observed.

use vstd::prelude::*;

verus! {

/// Milliseconds slept after a failed attempt or a link drop before the
/// next attempt.
pub const RETRY_INTERVAL_MS: u64 = 5000;

/// Where the supervisor stands in its life cycle.
#[derive(Clone, Copy, Debug, PartialEq, Eq, Structural)]
pub enum ConnectivityState {
    Disconnected,
    Connecting,
    Connected,
    WaitingAfterDisconnect,
}

/// What the driving loop observed while performing the last action.
#[derive(Clone, Copy, Debug, PartialEq, Eq, Structural)]
pub enum LinkEvent {
    /// The supervisor was given its turn with nothing to wait for: at
    /// startup, and on re-entering `Disconnected` after the wait.
    Proceeded,
    /// The retry sleep finished.
    RetryElapsed,
    /// The connect sequence reported success.
    AttemptSucceeded,
    /// The connect sequence reported failure.
    AttemptFailed,
    /// The established link dropped.
    LinkDown,
}

/// What the driving loop must do next.
#[derive(Clone, Copy, Debug, PartialEq, Eq, Structural)]
pub enum SupervisorAction {
    /// Issue the connect sequence; configure and start the controller
    /// first only when it is not already started.
    IssueConnect { configure_and_start: bool },
    /// Wait for a link-down event.
    WaitForLinkDown,
    /// Sleep `ms` milliseconds, then report `RetryElapsed`.
    SleepRetry { ms: u64 },
    /// Report `Proceeded` without waiting.
    Proceed,
    /// The event did not belong to this state; keep performing the
    /// state's pending action.
    KeepWaiting,
}

/// A step's outcome: the successor state and the next action.
#[derive(Clone, Copy, Debug, PartialEq, Eq, Structural)]
pub struct Transition {
    pub next: ConnectivityState,
    pub action: SupervisorAction,
}

/// The full transition table.  `link_started` reports whether the
/// controller is already started, so that configuring an already-started
/// link is skipped.
pub open spec fn spec_supervisor_step(
    state: ConnectivityState,
    event: LinkEvent,
    link_started: bool,
) -> Transition {
    match (state, event) {
        (ConnectivityState::Disconnected, LinkEvent::Proceeded) => Transition {
            next: ConnectivityState::Connecting,
            action: SupervisorAction::IssueConnect { configure_and_start: !link_started },
        },
        (ConnectivityState::Disconnected, LinkEvent::RetryElapsed) => Transition {
            next: ConnectivityState::Connecting,
            action: SupervisorAction::IssueConnect { configure_and_start: !link_started },
        },
        (ConnectivityState::Connecting, LinkEvent::AttemptSucceeded) => Transition {
            next: ConnectivityState::Connected,
            action: SupervisorAction::WaitForLinkDown,
        },
        (ConnectivityState::Connecting, LinkEvent::AttemptFailed) => Transition {
            next: ConnectivityState::Disconnected,
            action: SupervisorAction::SleepRetry { ms: RETRY_INTERVAL_MS },
        },
        (ConnectivityState::Connected, LinkEvent::LinkDown) => Transition {
            next: ConnectivityState::WaitingAfterDisconnect,
            action: SupervisorAction::SleepRetry { ms: RETRY_INTERVAL_MS },
        },
        (ConnectivityState::WaitingAfterDisconnect, LinkEvent::RetryElapsed) => Transition {
            next: ConnectivityState::Disconnected,
            action: SupervisorAction::Proceed,
        },
        (s, _) => Transition { next: s, action: SupervisorAction::KeepWaiting },
    }
}

/// Advance the supervisor by one observed event.
pub fn supervisor_step(state: ConnectivityState, event: LinkEvent, link_started: bool) -> (t:
    Transition)
    ensures
        t == spec_supervisor_step(state, event, link_started),
{
    match (state, event) {
        (ConnectivityState::Disconnected, LinkEvent::Proceeded) => Transition {
            next: ConnectivityState::Connecting,
            action: SupervisorAction::IssueConnect { configure_and_start: !link_started },
        },
        (ConnectivityState::Disconnected, LinkEvent::RetryElapsed) => Transition {
            next: ConnectivityState::Connecting,
            action: SupervisorAction::IssueConnect { configure_and_start: !link_started },
        },
        (ConnectivityState::Connecting, LinkEvent::AttemptSucceeded) => Transition {
            next: ConnectivityState::Connected,
            action: SupervisorAction::WaitForLinkDown,
        },
        (ConnectivityState::Connecting, LinkEvent::AttemptFailed) => Transition {
            next: ConnectivityState::Disconnected,
            action: SupervisorAction::SleepRetry { ms: RETRY_INTERVAL_MS },
        },
        (ConnectivityState::Connected, LinkEvent::LinkDown) => Transition {
            next: ConnectivityState::WaitingAfterDisconnect,
            action: SupervisorAction::SleepRetry { ms: RETRY_INTERVAL_MS },
        },
        (ConnectivityState::WaitingAfterDisconnect, LinkEvent::RetryElapsed) => Transition {
            next: ConnectivityState::Disconnected,
            action: SupervisorAction::Proceed,
        },
        (s, _) => Transition { next: s, action: SupervisorAction::KeepWaiting },
    }
}

/// The state in which the supervisor starts, before its first step.
pub fn initial_state() -> (s: ConnectivityState)
    ensures
        s == ConnectivityState::Disconnected,
{
    ConnectivityState::Disconnected
}

/// After a link-down event the supervisor sleeps exactly one retry
/// interval, re-enters `Disconnected`, and immediately issues the next
/// connect attempt: reconnection is attempted no later than the retry
/// interval after the drop, whatever the controller's started flag says.
pub proof fn lemma_link_down_recovery(b1: bool, b2: bool, b3: bool)
    ensures
        ({
            let t1 = spec_supervisor_step(ConnectivityState::Connected, LinkEvent::LinkDown, b1);
            let t2 = spec_supervisor_step(t1.next, LinkEvent::RetryElapsed, b2);
            let t3 = spec_supervisor_step(t2.next, LinkEvent::Proceeded, b3);
            &&& t1.next == ConnectivityState::WaitingAfterDisconnect
            &&& t1.action == (SupervisorAction::SleepRetry { ms: RETRY_INTERVAL_MS })
            &&& t2.next == ConnectivityState::Disconnected
            &&& t2.action == SupervisorAction::Proceed
            &&& t3.next == ConnectivityState::Connecting
            &&& t3.action == (SupervisorAction::IssueConnect { configure_and_start: !b3 })
        }),
{
}

/// No state is terminal: each state has an event that moves the
/// supervisor onward, forever — failures and drops always lead back to a
/// new connect attempt.
pub proof fn lemma_no_terminal_state(state: ConnectivityState, link_started: bool)
    ensures
        exists|e: LinkEvent|
            (#[trigger] spec_supervisor_step(state, e, link_started)).action
                != SupervisorAction::KeepWaiting,
{
    match state {
        ConnectivityState::Disconnected => {
            assert(spec_supervisor_step(state, LinkEvent::Proceeded, link_started).action
                != SupervisorAction::KeepWaiting);
        },
        ConnectivityState::Connecting => {
            assert(spec_supervisor_step(state, LinkEvent::AttemptFailed, link_started).action
                != SupervisorAction::KeepWaiting);
        },
        ConnectivityState::Connected => {
            assert(spec_supervisor_step(state, LinkEvent::LinkDown, link_started).action
                != SupervisorAction::KeepWaiting);
        },
        ConnectivityState::WaitingAfterDisconnect => {
            assert(spec_supervisor_step(state, LinkEvent::RetryElapsed, link_started).action
                != SupervisorAction::KeepWaiting);
        },
    }
}

} // verus!
