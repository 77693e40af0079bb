//! The submission gatekeeper: the single consumer of the workers' submissions, which
//! forwards a solution only when it strictly improves on the round's best.
use vstd::prelude::*;

verus! {

/// A solution that a worker found: its nonce, its difficulty and its digest.
#[derive(Clone, Copy, Debug)]
pub struct ThreadSubmission {
    pub nonce: u64,
    pub difficulty: u32,
    pub d: [u8; 16],
}

/// What the gatekeeper's inbox carries.
#[derive(Clone, Copy, Debug)]
pub enum MessageSubmissionSystem {
    Submission(ThreadSubmission),
    /// The round is over: start again from difficulty zero after a cooldown.
    Reset,
    /// The session is over.
    Finish,
}

/// What the gatekeeper's owner does after one message.
#[derive(Debug)]
pub enum SubmissionStep {
    /// Send this solution to the coordinator as a `BestSolution` frame.
    Send(ThreadSubmission),
    /// An inferior solution, or one that came after the end: nothing to do.
    Drop,
    /// Wait for the cooldown before reading the next message.
    Cooldown,
    /// Stop reading the inbox.
    Stop,
    /// The coordinator could not be reached: raise the round's stop flag so that the
    /// workers end the round.
    AbandonRound,
}

/// Seconds that the gatekeeper waits after a `Reset`.
pub const RESET_COOLDOWN_SECS: u64 = 2;

/// The gatekeeper's state: the round's best difficulty, whether it has finished,
/// whether the round was abandoned, and the difficulties forwarded in this round so far.
pub struct SubmissionSystem {
    pub best_diff: u32,
    pub finished: bool,
    pub round_over: bool,
    pub sent: Ghost<Seq<u32>>,
}

impl SubmissionSystem {
    /// The forwarded difficulties rise strictly, and the last of them is the best.
    pub open spec fn wf(&self) -> bool {
        &&& forall|i: int, j: int|
            0 <= i < j < self.sent@.len() ==> #[trigger] self.sent@[i] < #[trigger] self.sent@[j]
        &&& self.sent@.len() == 0 ==> self.best_diff == 0
        &&& self.sent@.len() > 0 ==> self.best_diff == self.sent@.last()
    }

    pub fn new() -> (r: SubmissionSystem)
        ensures
            r.wf(),
            r.best_diff == 0,
            !r.finished,
            !r.round_over,
            r.sent@.len() == 0,
    {
        SubmissionSystem { best_diff: 0, finished: false, round_over: false, sent: Ghost(Seq::empty()) }
    }

    /// Handles one message of the inbox.
    pub fn handle(&mut self, msg: MessageSubmissionSystem) -> (r: SubmissionStep)
        requires
            old(self).wf(),
        ensures
            final(self).wf(),
            old(self).finished ==> (msg is Finish ==> r is Stop) && (msg !is Finish ==> r is Drop)
                && *final(self) == *old(self),
            !old(self).finished ==> match msg {
                MessageSubmissionSystem::Submission(s) => if !old(self).round_over && s.difficulty
                    > old(self).best_diff {
                    &&& r == SubmissionStep::Send(s)
                    &&& final(self).best_diff == s.difficulty
                    &&& final(self).sent@ == old(self).sent@.push(s.difficulty)
                    &&& !final(self).finished
                    &&& !final(self).round_over
                } else {
                    r is Drop && *final(self) == *old(self)
                },
                MessageSubmissionSystem::Reset => {
                    &&& r is Cooldown
                    &&& final(self).best_diff == 0
                    &&& final(self).sent@.len() == 0
                    &&& !final(self).finished
                    &&& !final(self).round_over
                },
                MessageSubmissionSystem::Finish => {
                    &&& r is Stop
                    &&& final(self).finished
                    &&& final(self).best_diff == old(self).best_diff
                    &&& final(self).sent@ == old(self).sent@
                    &&& final(self).round_over == old(self).round_over
                },
            },
    {
        if self.finished {
            return match msg {
                MessageSubmissionSystem::Finish => SubmissionStep::Stop,
                _ => SubmissionStep::Drop,
            };
        }
        match msg {
            MessageSubmissionSystem::Submission(s) => {
                if !self.round_over && s.difficulty > self.best_diff {
                    self.best_diff = s.difficulty;
                    self.sent = Ghost(self.sent@.push(s.difficulty));
                    SubmissionStep::Send(s)
                } else {
                    SubmissionStep::Drop
                }
            },
            MessageSubmissionSystem::Reset => {
                self.best_diff = 0;
                self.round_over = false;
                self.sent = Ghost(Seq::empty());
                SubmissionStep::Cooldown
            },
            MessageSubmissionSystem::Finish => {
                self.finished = true;
                SubmissionStep::Stop
            },
        }
    }
}

impl SubmissionSystem {
    /// The outbound sink refused a frame: the round is over. Submissions are dropped
    /// until the next `Reset`.
    pub fn sink_failed(&mut self) -> (r: SubmissionStep)
        requires
            old(self).wf(),
        ensures
            final(self).wf(),
            r is AbandonRound,
            final(self).round_over,
            final(self).finished == old(self).finished,
            final(self).best_diff == old(self).best_diff,
            final(self).sent@ == old(self).sent@,
    {
        self.round_over = true;
        SubmissionStep::AbandonRound
    }
}

/// Within a round, every solution forwarded to the coordinator has a strictly greater
/// difficulty than every one forwarded before it.
pub proof fn lemma_forwarded_strictly_increasing(s: SubmissionSystem, i: int, j: int)
    requires
        s.wf(),
        0 <= i < j < s.sent@.len(),
    ensures
        s.sent@[i] < s.sent@[j],
{
}

/// The difficulties that the gatekeeper forwards while it reads `msgs` with `best` as
/// the round's best so far, up to the end of the round (a `Reset` or a `Finish`).
pub open spec fn forwarded(best: u32, msgs: Seq<MessageSubmissionSystem>) -> Seq<u32>
    decreases msgs.len(),
{
    if msgs.len() == 0 {
        Seq::empty()
    } else {
        match msgs[0] {
            MessageSubmissionSystem::Submission(s) => if s.difficulty > best {
                seq![s.difficulty] + forwarded(s.difficulty, msgs.drop_first())
            } else {
                forwarded(best, msgs.drop_first())
            },
            _ => Seq::empty(),
        }
    }
}

/// Whatever the workers submit, and in whatever order, the difficulties that one round
/// forwards rise strictly, each above the best the round started from.
pub proof fn lemma_round_forwards_rise(best: u32, msgs: Seq<MessageSubmissionSystem>)
    ensures
        forall|i: int|
            0 <= i < forwarded(best, msgs).len() ==> #[trigger] forwarded(best, msgs)[i] > best,
        forall|i: int, j: int|
            0 <= i < j < forwarded(best, msgs).len() ==> #[trigger] forwarded(best, msgs)[i]
                < #[trigger] forwarded(best, msgs)[j],
    decreases msgs.len(),
{
    if msgs.len() > 0 {
        let rest = msgs.drop_first();
        match msgs[0] {
            MessageSubmissionSystem::Submission(s) => {
                if s.difficulty > best {
                    lemma_round_forwards_rise(s.difficulty, rest);
                    let f = forwarded(best, msgs);
                    let g = forwarded(s.difficulty, rest);
                    assert(f == seq![s.difficulty] + g);
                    assert forall|i: int, j: int| 0 <= i < j < f.len() implies #[trigger] f[i]
                        < #[trigger] f[j] by {
                        if i == 0 {
                            assert(f[j] == g[j - 1]);
                        } else {
                            assert(f[i] == g[i - 1] && f[j] == g[j - 1]);
                        }
                    }
                    assert forall|i: int| 0 <= i < f.len() implies #[trigger] f[i] > best by {
                        if i > 0 {
                            assert(f[i] == g[i - 1]);
                        }
                    }
                } else {
                    lemma_round_forwards_rise(best, rest);
                    assert(forwarded(best, msgs) == forwarded(best, rest));
                }
            },
            _ => {
                assert(forwarded(best, msgs).len() == 0);
            },
        }
    }
}

} // verus!
