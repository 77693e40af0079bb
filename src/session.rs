//! The session with the coordinator as a state machine: each event that the runtime
//! observes gives the next state and the one action that the runtime performs.
use vstd::prelude::*;

verus! {

/// Seconds that one read may wait before the session is taken for dead.
pub const READ_TIMEOUT_SECS: u64 = 45;

/// Seconds without a `StartMining` after which the session is closed and reopened.
pub const HEARTBEAT_TIMEOUT_SECS: u64 = 120;

/// Seconds to wait before connecting again.
pub const RECONNECT_BACKOFF_SECS: u64 = 3;

/// Seconds to wait when the coordinator's timestamp could not be had.
pub const TIMESTAMP_BACKOFF_SECS: u64 = 5;

#[derive(Clone, Copy, Debug, PartialEq, Eq, Structural)]
pub enum SessionState {
    Disconnected,
    Connecting,
    Authenticated,
    AwaitingStart,
    Mining,
    AwaitingResult,
    Closing,
    /// The run flag was cleared: the runtime leaves its reconnect loop.
    Stopped,
}

#[derive(Clone, Copy, Debug, PartialEq, Eq, Structural)]
pub enum SessionEvent {
    /// The runtime is ready to (re)connect.
    Connect,
    /// The coordinator's timestamp could not be fetched or parsed.
    TimestampFailed,
    UpgradeOk,
    UpgradeFailed,
    ReadySent,
    StartMining,
    /// All workers of the round have been joined; `aborted` when the shared stop flag
    /// was raised during the round.
    EngineCompleted { aborted: bool },
    PoolSubmissionResult,
    /// A read failed, timed out, or the peer closed the stream.
    ReadFailed,
    /// No `StartMining` for the heartbeat timeout.
    HeartbeatExpired,
    /// The run flag was cleared.
    Interrupted,
    FinishSent,
}

#[derive(Clone, Copy, Debug, PartialEq, Eq, Structural)]
pub enum SessionAction {
    Nothing,
    /// Fetch the timestamp and open the duplex connection.
    OpenConnection,
    /// Wait this many seconds, then connect again.
    Backoff(u64),
    SendReady,
    /// Hand the round to the mining engine.
    StartRound,
    /// Send `Reset` to the gatekeeper and a new `Ready` to the coordinator.
    SendResetAndReady,
    /// Journal the round's outcome.
    RecordResult,
    /// Send `Finish` to the gatekeeper and close the connection.
    SendFinish,
    Exit,
}

/// Whether the session is between a successful upgrade and its closing.
pub open spec fn is_open(s: SessionState) -> bool {
    s == SessionState::Authenticated || s == SessionState::AwaitingStart || s
        == SessionState::Mining || s == SessionState::AwaitingResult
}

/// The transition table of the session.
pub open spec fn step_spec(s: SessionState, e: SessionEvent) -> (SessionState, SessionAction) {
    if s == SessionState::Stopped {
        (SessionState::Stopped, SessionAction::Exit)
    } else if e == SessionEvent::Interrupted {
        if is_open(s) {
            (SessionState::Closing, SessionAction::SendFinish)
        } else if s == SessionState::Closing {
            (SessionState::Closing, SessionAction::Nothing)
        } else {
            (SessionState::Stopped, SessionAction::Exit)
        }
    } else if is_open(s) && (e == SessionEvent::ReadFailed || e == SessionEvent::HeartbeatExpired) {
        (SessionState::Closing, SessionAction::SendFinish)
    } else if is_open(s) && e == SessionEvent::PoolSubmissionResult {
        if s == SessionState::AwaitingResult {
            (SessionState::AwaitingStart, SessionAction::RecordResult)
        } else {
            (s, SessionAction::RecordResult)
        }
    } else {
        match (s, e) {
            (SessionState::Disconnected, SessionEvent::Connect) => (
                SessionState::Connecting,
                SessionAction::OpenConnection,
            ),
            (SessionState::Connecting, SessionEvent::TimestampFailed) => (
                SessionState::Disconnected,
                SessionAction::Backoff(TIMESTAMP_BACKOFF_SECS),
            ),
            (SessionState::Connecting, SessionEvent::UpgradeOk) => (
                SessionState::Authenticated,
                SessionAction::SendReady,
            ),
            (SessionState::Connecting, SessionEvent::UpgradeFailed) => (
                SessionState::Disconnected,
                SessionAction::Backoff(RECONNECT_BACKOFF_SECS),
            ),
            (SessionState::Authenticated, SessionEvent::ReadySent) => (
                SessionState::AwaitingStart,
                SessionAction::Nothing,
            ),
            (SessionState::AwaitingStart, SessionEvent::StartMining) => (
                SessionState::Mining,
                SessionAction::StartRound,
            ),
            (SessionState::AwaitingResult, SessionEvent::StartMining) => (
                SessionState::Mining,
                SessionAction::StartRound,
            ),
            (SessionState::Mining, SessionEvent::EngineCompleted { aborted }) => if aborted {
                (SessionState::Mining, SessionAction::Nothing)
            } else {
                (SessionState::AwaitingResult, SessionAction::SendResetAndReady)
            },
            (SessionState::Closing, SessionEvent::FinishSent) => (
                SessionState::Disconnected,
                SessionAction::Backoff(RECONNECT_BACKOFF_SECS),
            ),
            _ => (s, SessionAction::Nothing),
        }
    }
}

/// One transition of the session.
pub fn step(s: SessionState, e: SessionEvent) -> (r: (SessionState, SessionAction))
    ensures
        r == step_spec(s, e),
{
    if s == SessionState::Stopped {
        return (SessionState::Stopped, SessionAction::Exit);
    }
    let open = s == SessionState::Authenticated || s == SessionState::AwaitingStart || s
        == SessionState::Mining || s == SessionState::AwaitingResult;
    if e == SessionEvent::Interrupted {
        return if open {
            (SessionState::Closing, SessionAction::SendFinish)
        } else if s == SessionState::Closing {
            (SessionState::Closing, SessionAction::Nothing)
        } else {
            (SessionState::Stopped, SessionAction::Exit)
        };
    }
    if open && (e == SessionEvent::ReadFailed || e == SessionEvent::HeartbeatExpired) {
        return (SessionState::Closing, SessionAction::SendFinish);
    }
    if open && e == SessionEvent::PoolSubmissionResult {
        return if s == SessionState::AwaitingResult {
            (SessionState::AwaitingStart, SessionAction::RecordResult)
        } else {
            (s, SessionAction::RecordResult)
        };
    }
    match (s, e) {
        (SessionState::Disconnected, SessionEvent::Connect) => (
            SessionState::Connecting,
            SessionAction::OpenConnection,
        ),
        (SessionState::Connecting, SessionEvent::TimestampFailed) => (
            SessionState::Disconnected,
            SessionAction::Backoff(TIMESTAMP_BACKOFF_SECS),
        ),
        (SessionState::Connecting, SessionEvent::UpgradeOk) => (
            SessionState::Authenticated,
            SessionAction::SendReady,
        ),
        (SessionState::Connecting, SessionEvent::UpgradeFailed) => (
            SessionState::Disconnected,
            SessionAction::Backoff(RECONNECT_BACKOFF_SECS),
        ),
        (SessionState::Authenticated, SessionEvent::ReadySent) => (
            SessionState::AwaitingStart,
            SessionAction::Nothing,
        ),
        (SessionState::AwaitingStart, SessionEvent::StartMining) => (
            SessionState::Mining,
            SessionAction::StartRound,
        ),
        (SessionState::AwaitingResult, SessionEvent::StartMining) => (
            SessionState::Mining,
            SessionAction::StartRound,
        ),
        (SessionState::Mining, SessionEvent::EngineCompleted { aborted }) => if aborted {
            (SessionState::Mining, SessionAction::Nothing)
        } else {
            (SessionState::AwaitingResult, SessionAction::SendResetAndReady)
        },
        (SessionState::Closing, SessionEvent::FinishSent) => (
            SessionState::Disconnected,
            SessionAction::Backoff(RECONNECT_BACKOFF_SECS),
        ),
        _ => (s, SessionAction::Nothing),
    }
}

/// Whether the reader closes the session, `secs_since_start` seconds after the last
/// `StartMining`.
pub fn heartbeat_expired(secs_since_start: u64) -> (r: bool)
    ensures
        r == (secs_since_start >= HEARTBEAT_TIMEOUT_SECS),
{
    secs_since_start >= HEARTBEAT_TIMEOUT_SECS
}

/// A session never has two rounds at once: a `StartMining` starts a round only when
/// none is being mined.
pub proof fn lemma_one_round_at_a_time(s: SessionState)
    ensures
        step_spec(s, SessionEvent::StartMining).1 == SessionAction::StartRound ==> s
            != SessionState::Mining,
        s == SessionState::Mining ==> step_spec(s, SessionEvent::StartMining) == (
            s,
            SessionAction::Nothing,
        ),
{
}

/// Every received `PoolSubmissionResult` of an open session is journaled, exactly once.
pub proof fn lemma_result_recorded(s: SessionState)
    requires
        is_open(s),
    ensures
        step_spec(s, SessionEvent::PoolSubmissionResult).1 == SessionAction::RecordResult,
{
}

} // verus!
