use workspace_capsules::session::SessionAction;
use workspace_capsules::session::SessionEvent;
use workspace_capsules::session::SessionState;
use workspace_capsules::session::initial;
use workspace_capsules::session::session_step;

#[test]
fn startup_sequence() {
    let (state, action) = initial();
    assert_eq!(state, SessionState::Disconnected);
    assert_eq!(action, SessionAction::Connect);
    let (state, action) = session_step(state, SessionEvent::Succeeded);
    assert_eq!(state, SessionState::Connected);
    assert_eq!(action, SessionAction::ResetOutputDir);
    let (state, action) = session_step(state, SessionEvent::Succeeded);
    assert_eq!(state, SessionState::DirReady);
    assert_eq!(action, SessionAction::Subscribe);
    let (state, action) = session_step(state, SessionEvent::Succeeded);
    assert_eq!(state, SessionState::Subscribed);
    assert_eq!(action, SessionAction::Refresh);
    let (state, action) = session_step(state, SessionEvent::Succeeded);
    assert_eq!(state, SessionState::Listening);
    assert_eq!(action, SessionAction::AwaitEvent);
}

#[test]
fn workspace_change_triggers_one_refresh() {
    let (state, action) = session_step(SessionState::Listening, SessionEvent::WorkspaceChange);
    assert_eq!(state, SessionState::Subscribed);
    assert_eq!(action, SessionAction::Refresh);
    let (state, action) = session_step(state, SessionEvent::Succeeded);
    assert_eq!(state, SessionState::Listening);
    assert_eq!(action, SessionAction::AwaitEvent);
}

#[test]
fn other_event_kind_is_fatal() {
    let (state, action) = session_step(SessionState::Listening, SessionEvent::OtherEvent);
    assert_eq!(state, SessionState::Failed);
    assert_eq!(action, SessionAction::Stop);
}

#[test]
fn failure_is_fatal_everywhere() {
    for s in [
        SessionState::Disconnected,
        SessionState::Connected,
        SessionState::DirReady,
        SessionState::Subscribed,
        SessionState::Listening,
        SessionState::Failed,
    ] {
        let (state, action) = session_step(s, SessionEvent::Failure);
        assert_eq!(state, SessionState::Failed);
        assert_eq!(action, SessionAction::Stop);
    }
}

#[test]
fn failed_state_is_terminal() {
    for e in [
        SessionEvent::Succeeded,
        SessionEvent::WorkspaceChange,
        SessionEvent::OtherEvent,
        SessionEvent::Failure,
    ] {
        let (state, action) = session_step(SessionState::Failed, e);
        assert_eq!(state, SessionState::Failed);
        assert_eq!(action, SessionAction::Stop);
    }
}
