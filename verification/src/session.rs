//! The session manager's control flow as an explicit state machine: which
//! step of the IPC session lifecycle comes next after each outcome. The
//! caller owns the connections and the event stream; it performs the action
//! returned for a state and feeds the outcome back in as the next event.
//!
//! There is no reconnect or backoff: every failure, and every event kind
//! other than a workspace change, ends the session in the terminal failed
//! state.

use vstd::prelude::*;

verus! {

/// Where the session stands in its lifecycle.
#[derive(Clone, Copy, Debug, PartialEq, Eq, Structural)]
pub enum SessionState {
    /// No IPC session yet.
    Disconnected,
    /// Both IPC connections are open.
    Connected,
    /// The output directory has been reset to an empty state.
    DirReady,
    /// The workspace-change subscription is active; a refresh pass is in
    /// flight so the bar reflects reality before the next event.
    Subscribed,
    /// Blocked on the event stream.
    Listening,
    /// Terminal: a fatal error or a protocol violation.
    Failed,
}

/// What the caller reports back after performing the last action.
#[derive(Clone, Copy, Debug, PartialEq, Eq, Structural)]
pub enum SessionEvent {
    /// The action completed.
    Succeeded,
    /// The event stream delivered a workspace-change event.
    WorkspaceChange,
    /// The event stream delivered an event of any other kind: a violation
    /// of the subscription contract.
    OtherEvent,
    /// The action failed: connect, subscribe, filesystem or stream error.
    Failure,
}

/// What the caller is to do next.
#[derive(Clone, Copy, Debug, PartialEq, Eq, Structural)]
pub enum SessionAction {
    /// Open the query connection and the event-stream connection.
    Connect,
    /// Delete the output directory if present and recreate it empty.
    ResetOutputDir,
    /// Subscribe to workspace-change events only.
    Subscribe,
    /// Take a snapshot and run one synchronization pass.
    Refresh,
    /// Block until the next event arrives.
    AwaitEvent,
    /// The session is over; exit with an error.
    Stop,
}

/// The transition table: next state and next action for each state and
/// event. Everything not explicitly continued is fatal.
pub open spec fn spec_step(state: SessionState, event: SessionEvent) -> (
    SessionState,
    SessionAction,
) {
    match (state, event) {
        (SessionState::Disconnected, SessionEvent::Succeeded) => (
            SessionState::Connected,
            SessionAction::ResetOutputDir,
        ),
        (SessionState::Connected, SessionEvent::Succeeded) => (
            SessionState::DirReady,
            SessionAction::Subscribe,
        ),
        (SessionState::DirReady, SessionEvent::Succeeded) => (
            SessionState::Subscribed,
            SessionAction::Refresh,
        ),
        (SessionState::Subscribed, SessionEvent::Succeeded) => (
            SessionState::Listening,
            SessionAction::AwaitEvent,
        ),
        (SessionState::Listening, SessionEvent::WorkspaceChange) => (
            SessionState::Subscribed,
            SessionAction::Refresh,
        ),
        _ => (SessionState::Failed, SessionAction::Stop),
    }
}

/// Where a session starts: disconnected, with the connections still to
/// open.
pub fn initial() -> (start: (SessionState, SessionAction))
    ensures
        start == (SessionState::Disconnected, SessionAction::Connect),
{
    (SessionState::Disconnected, SessionAction::Connect)
}

/// One step of the session lifecycle.
pub fn session_step(state: SessionState, event: SessionEvent) -> (next: (
    SessionState,
    SessionAction,
))
    ensures
        next == spec_step(state, event),
{
    match (state, event) {
        (SessionState::Disconnected, SessionEvent::Succeeded) => (
            SessionState::Connected,
            SessionAction::ResetOutputDir,
        ),
        (SessionState::Connected, SessionEvent::Succeeded) => (
            SessionState::DirReady,
            SessionAction::Subscribe,
        ),
        (SessionState::DirReady, SessionEvent::Succeeded) => (
            SessionState::Subscribed,
            SessionAction::Refresh,
        ),
        (SessionState::Subscribed, SessionEvent::Succeeded) => (
            SessionState::Listening,
            SessionAction::AwaitEvent,
        ),
        (SessionState::Listening, SessionEvent::WorkspaceChange) => (
            SessionState::Subscribed,
            SessionAction::Refresh,
        ),
        _ => (SessionState::Failed, SessionAction::Stop),
    }
}

/// A failure is fatal from every state.
pub proof fn lemma_failure_is_fatal(state: SessionState)
    ensures
        spec_step(state, SessionEvent::Failure) == (SessionState::Failed, SessionAction::Stop),
{
}

/// The failed state is terminal: no event leaves it.
pub proof fn lemma_failed_is_terminal(event: SessionEvent)
    ensures
        spec_step(SessionState::Failed, event) == (SessionState::Failed, SessionAction::Stop),
{
}

/// While listening, only a workspace-change event keeps the session alive,
/// and it always triggers exactly a refresh; any other event is a
/// subscription-contract violation and ends the session.
pub proof fn lemma_listening_refreshes_on_workspace_change(event: SessionEvent)
    ensures
        event == SessionEvent::WorkspaceChange ==> spec_step(SessionState::Listening, event) == (
            SessionState::Subscribed,
            SessionAction::Refresh,
        ),
        event != SessionEvent::WorkspaceChange ==> spec_step(SessionState::Listening, event) == (
            SessionState::Failed,
            SessionAction::Stop,
        ),
{
}

} // verus!
