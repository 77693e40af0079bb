use excalivator::session::{heartbeat_expired, step, SessionAction, SessionEvent, SessionState};

fn run(mut s: SessionState, events: &[SessionEvent]) -> (SessionState, Vec<SessionAction>) {
    let mut actions = vec![];
    for e in events {
        let (n, a) = step(s, *e);
        s = n;
        actions.push(a);
    }
    (s, actions)
}

#[test]
fn happy_round_through_the_session() {
    let (s, a) = run(
        SessionState::Disconnected,
        &[
            SessionEvent::Connect,
            SessionEvent::UpgradeOk,
            SessionEvent::ReadySent,
            SessionEvent::StartMining,
            SessionEvent::EngineCompleted { aborted: false },
            SessionEvent::PoolSubmissionResult,
        ],
    );
    assert_eq!(s, SessionState::AwaitingStart);
    assert_eq!(
        a,
        vec![
            SessionAction::OpenConnection,
            SessionAction::SendReady,
            SessionAction::Nothing,
            SessionAction::StartRound,
            SessionAction::SendResetAndReady,
            SessionAction::RecordResult,
        ]
    );
}

#[test]
fn silence_closes_and_reconnects_after_three_seconds() {
    let (s, a) = run(
        SessionState::AwaitingStart,
        &[SessionEvent::ReadFailed, SessionEvent::FinishSent, SessionEvent::Connect, SessionEvent::UpgradeOk],
    );
    assert_eq!(s, SessionState::Authenticated);
    assert_eq!(
        a,
        vec![
            SessionAction::SendFinish,
            SessionAction::Backoff(3),
            SessionAction::OpenConnection,
            SessionAction::SendReady,
        ]
    );
}

#[test]
fn failed_upgrade_and_timestamp_back_off() {
    assert_eq!(
        step(SessionState::Connecting, SessionEvent::UpgradeFailed),
        (SessionState::Disconnected, SessionAction::Backoff(3))
    );
    assert_eq!(
        step(SessionState::Connecting, SessionEvent::TimestampFailed),
        (SessionState::Disconnected, SessionAction::Backoff(5))
    );
}

#[test]
fn interrupt_during_mining_finishes_then_exits() {
    let (s, a) = run(
        SessionState::Mining,
        &[SessionEvent::Interrupted, SessionEvent::FinishSent, SessionEvent::Interrupted, SessionEvent::Connect],
    );
    assert_eq!(s, SessionState::Stopped);
    assert_eq!(
        a,
        vec![SessionAction::SendFinish, SessionAction::Backoff(3), SessionAction::Exit, SessionAction::Exit]
    );
}

#[test]
fn no_second_round_while_mining() {
    assert_eq!(
        step(SessionState::Mining, SessionEvent::StartMining),
        (SessionState::Mining, SessionAction::Nothing)
    );
    assert_eq!(
        step(SessionState::Mining, SessionEvent::PoolSubmissionResult),
        (SessionState::Mining, SessionAction::RecordResult)
    );
}

#[test]
fn heartbeat_expires_at_two_minutes() {
    assert!(!heartbeat_expired(119));
    assert!(heartbeat_expired(120));
    assert_eq!(
        step(SessionState::AwaitingResult, SessionEvent::HeartbeatExpired),
        (SessionState::Closing, SessionAction::SendFinish)
    );
}
