//! The nonce search: how a round's window is split over the workers, each worker's
//! loop, and what the round's results add up to.
use vstd::prelude::*;

use std::sync::atomic::{AtomicBool, Ordering};
use std::time::Instant;
use tokio::sync::mpsc::UnboundedSender;

use drillx_2::equix::SolverMemory;

use crate::hash::{drillx_hashes, iterate, leading_zero_bits};
use crate::submission::{MessageSubmissionSystem, ThreadSubmission};

verus! {

#[verifier::external_type_specification]
#[verifier::external_body]
pub struct ExInstant(Instant);

#[verifier::external_type_specification]
#[verifier::external_body]
#[verifier::reject_recursive_types(T)]
pub struct ExUnboundedSender<T>(UnboundedSender<T>);

/// Distance between the first nonces of two neighbouring workers.
pub const NONCES_PER_THREAD: u64 = 10_000;

/// The longest cutoff, in seconds, that a round is given.
pub const MAX_CUTOFF_SECS: u64 = 55;

/// The lowest difficulty that is ever submitted.
pub const MIN_DIFFICULTY: u32 = 8;

/// A worker reads the clock only on nonces that are multiples of this.
pub const CLOCK_STRIDE: u64 = 100;

/// Relies on `std::time::Instant::elapsed`: whole seconds since `t`.
#[verifier::external_body]
fn elapsed_secs(t: &Instant) -> (r: u64) {
    t.elapsed().as_secs()
}

/// Relies on tokio's `UnboundedSender::send`: true when the message was queued, false
/// when the receiving side is closed.
#[verifier::external_body]
fn send_to_gatekeeper(tx: &UnboundedSender<MessageSubmissionSystem>, msg: MessageSubmissionSystem) -> (r: bool) {
    tx.send(msg).is_ok()
}

/// The cutoff a round is mined for: the coordinator's less the operator's buffer, at
/// least zero and at most 55 seconds.
pub open spec fn effective_cutoff_spec(raw: u64, buffer: u64) -> u64 {
    if raw <= buffer {
        0
    } else if raw - buffer > MAX_CUTOFF_SECS {
        MAX_CUTOFF_SECS
    } else {
        (raw - buffer) as u64
    }
}

pub fn effective_cutoff(raw: u64, buffer: u64) -> (r: u64)
    ensures
        r == effective_cutoff_spec(raw, buffer),
        r <= MAX_CUTOFF_SECS,
{
    let c: u64 = raw.saturating_sub(buffer);
    if c > MAX_CUTOFF_SECS {
        MAX_CUTOFF_SECS
    } else {
        c
    }
}

/// The first nonce of the worker on core `i`.
pub open spec fn first_nonce_spec(start: u64, i: u64) -> int {
    start + NONCES_PER_THREAD * i
}

/// Where the worker on core `core` starts: none when the core is not among the
/// `threads` asked for, or when its first nonce would not fit in 64 bits.
pub fn worker_first_nonce(start: u64, core: u64, threads: u64) -> (r: Option<u64>)
    ensures
        core >= threads ==> r is None,
        core < threads && first_nonce_spec(start, core) <= u64::MAX ==> r == Some(
            first_nonce_spec(start, core) as u64,
        ),
        core < threads && first_nonce_spec(start, core) > u64::MAX ==> r is None,
{
    if core >= threads {
        return None;
    }
    match NONCES_PER_THREAD.checked_mul(core) {
        None => None,
        Some(offset) => start.checked_add(offset),
    }
}

/// Whether a worker offers a solution of `difficulty` when its best so far is `best`.
pub open spec fn offers(difficulty: int, best: int) -> bool {
    difficulty >= MIN_DIFFICULTY && difficulty > best
}

/// Whether a worker on `nonce` stops for the deadline, `elapsed` seconds into a round
/// with `cutoff`, with `best` as its best difficulty.
pub open spec fn deadline_stop(nonce: u64, elapsed: u64, cutoff: u64, best: u32) -> bool {
    nonce % CLOCK_STRIDE == 0 && elapsed >= cutoff && best >= MIN_DIFFICULTY
}

/// Why a worker left its loop.
#[derive(Clone, Copy, Debug, PartialEq, Eq, Structural)]
pub enum WorkerExit {
    /// The run flag was cleared: the worker has no result.
    Interrupted,
    /// It reached the end of the nonce window.
    RangeDone,
    /// The cutoff had passed and it held a solution of difficulty 8 or more.
    Deadline,
    /// The shared stop flag was raised, or its own offer found the gatekeeper closed.
    Stopped,
}

/// What a worker does at one point of its loop.
#[derive(Clone, Copy, Debug, PartialEq, Eq, Structural)]
pub enum WorkerStep {
    /// Go on: hash the nonce, or move to the next one.
    Go,
    Exit(WorkerExit),
}

/// The decision before hashing `nonce`, from the run flag and the stop flag as read.
pub open spec fn before_hash_spec(running: bool, stop: bool, nonce: u64, end: u64) -> WorkerStep {
    if !running {
        WorkerStep::Exit(WorkerExit::Interrupted)
    } else if stop {
        WorkerStep::Exit(WorkerExit::Stopped)
    } else if nonce >= end {
        WorkerStep::Exit(WorkerExit::RangeDone)
    } else {
        WorkerStep::Go
    }
}

/// The decision after hashing `nonce`: whether an offer failed, and the clock as read.
pub open spec fn after_hash_spec(
    send_failed: bool,
    nonce: u64,
    elapsed: u64,
    cutoff: u64,
    best: u32,
) -> WorkerStep {
    if send_failed {
        WorkerStep::Exit(WorkerExit::Stopped)
    } else if deadline_stop(nonce, elapsed, cutoff, best) {
        WorkerStep::Exit(WorkerExit::Deadline)
    } else {
        WorkerStep::Go
    }
}

pub fn before_hash(running: bool, stop: bool, nonce: u64, end: u64) -> (r: WorkerStep)
    ensures
        r == before_hash_spec(running, stop, nonce, end),
{
    if !running {
        WorkerStep::Exit(WorkerExit::Interrupted)
    } else if stop {
        WorkerStep::Exit(WorkerExit::Stopped)
    } else if nonce >= end {
        WorkerStep::Exit(WorkerExit::RangeDone)
    } else {
        WorkerStep::Go
    }
}

pub fn after_hash(send_failed: bool, nonce: u64, elapsed: u64, cutoff: u64, best: u32) -> (r: WorkerStep)
    ensures
        r == after_hash_spec(send_failed, nonce, elapsed, cutoff, best),
{
    if send_failed {
        WorkerStep::Exit(WorkerExit::Stopped)
    } else if nonce % CLOCK_STRIDE == 0 && elapsed >= cutoff && best >= MIN_DIFFICULTY {
        WorkerStep::Exit(WorkerExit::Deadline)
    } else {
        WorkerStep::Go
    }
}

/// A solution offered to the gatekeeper: nonce, difficulty and digest.
pub type Offer = (u64, u32, Seq<u8>);

/// The best difficulty after `offers`, starting from `best`.
pub open spec fn best_after(offers: Seq<Offer>, best: u32) -> u32 {
    if offers.len() == 0 {
        best
    } else {
        offers.last().1
    }
}

/// The offers made while going through the first `i` hashes `hs` of `nonce`, with
/// `best` as the best difficulty before them.
pub open spec fn offers_in(hs: Seq<(Seq<u8>, Seq<u8>)>, i: nat, nonce: u64, best: u32) -> Seq<Offer>
    decreases i,
{
    if i == 0 || i > hs.len() {
        Seq::empty()
    } else {
        let prev = offers_in(hs, (i - 1) as nat, nonce, best);
        let d = leading_zero_bits(hs[i - 1].1);
        if d <= u32::MAX && offers(d as int, best_after(prev, best) as int) {
            prev.push((nonce, d as u32, hs[i - 1].0))
        } else {
            prev
        }
    }
}

/// The offers of a worker that hashed the `n` nonces from `first` on, in order: each
/// hash whose difficulty is 8 or more and beats every difficulty offered before it.
pub open spec fn offers_through(challenge: Seq<u8>, first: u64, n: nat) -> Seq<Offer>
    decreases n,
{
    if n == 0 {
        Seq::empty()
    } else {
        let prev = offers_through(challenge, first, (n - 1) as nat);
        let nonce = (first + n - 1) as u64;
        let hs = drillx_hashes(challenge, nonce);
        prev + offers_in(hs, hs.len(), nonce, best_after(prev, 0))
    }
}

/// The worker's best difficulty once it has hashed `n` nonces.
pub open spec fn best_at(challenge: Seq<u8>, first: u64, n: nat) -> u32 {
    best_after(offers_through(challenge, first, n), 0)
}

/// What a worker read in one pass of its loop: the run flag, the stop flag, whether an
/// offer found the gatekeeper closed, and the seconds elapsed (read only on nonces that
/// are multiples of 100 once it holds difficulty 8 or more, zero otherwise).
#[derive(Clone, Copy, Debug, PartialEq, Eq, Structural)]
pub struct Observed {
    pub running: bool,
    pub stop: bool,
    pub send_failed: bool,
    pub elapsed: u64,
}

/// A pass after which the worker goes on to the next nonce.
pub open spec fn continues(o: Observed, nonce: u64, end: u64, cutoff: u64, best: u32) -> bool {
    &&& before_hash_spec(o.running, o.stop, nonce, end) == WorkerStep::Go
    &&& after_hash_spec(o.send_failed, nonce, o.elapsed, cutoff, best) == WorkerStep::Go
}

/// What a worker found.
#[derive(Clone, Copy)]
pub struct WorkerResult {
    pub best_nonce: u64,
    pub best_difficulty: u32,
    pub best_digest: [u8; 16],
    /// Hashes computed, saturating at `u64::MAX`.
    pub total_hashes: u64,
    /// The worker hashed the nonces `first .. first + nonces_hashed`.
    pub nonces_hashed: u64,
    pub exit: WorkerExit,
    /// The solutions offered to the gatekeeper, in order.
    pub offered: Ghost<Seq<Offer>>,
    /// What the worker read, one entry per pass of its loop.
    pub trace: Ghost<Seq<Observed>>,
}

/// The worker's run, as its reads decide it: it went on after every pass but the last,
/// the last pass decided its exit, it hashed exactly the nonces of the passes that got
/// that far, and it offered exactly the improvements of difficulty 8 or more among them.
pub open spec fn worker_result_ok(
    w: WorkerResult,
    challenge: Seq<u8>,
    first: u64,
    end: u64,
    cutoff: u64,
) -> bool {
    let obs = w.trace@;
    let n = obs.len();
    let last = obs[n - 1];
    let nl = (first + n - 1) as u64;
    &&& n >= 1
    &&& first + n - 1 <= u64::MAX
    &&& forall|j: int|
        0 <= j < n - 1 ==> continues(
            #[trigger] obs[j],
            (first + j) as u64,
            end,
            cutoff,
            best_at(challenge, first, (j + 1) as nat),
        )
    &&& before_hash_spec(last.running, last.stop, nl, end) != WorkerStep::Go ==> {
        &&& before_hash_spec(last.running, last.stop, nl, end) == WorkerStep::Exit(w.exit)
        &&& w.nonces_hashed == n - 1
        &&& !last.send_failed
    }
    &&& before_hash_spec(last.running, last.stop, nl, end) == WorkerStep::Go ==> {
        &&& after_hash_spec(last.send_failed, nl, last.elapsed, cutoff, best_at(challenge, first, n))
            == WorkerStep::Exit(w.exit)
        &&& w.nonces_hashed == n
    }
    &&& w.offered@ == offers_through(challenge, first, w.nonces_hashed as nat)
    &&& w.best_difficulty == best_after(w.offered@, 0)
    &&& w.offered@.len() > 0 ==> w.best_nonce == w.offered@.last().0 && w.best_digest@
        == w.offered@.last().2
}

proof fn lemma_best_after_concat(a: Seq<Offer>, b: Seq<Offer>)
    ensures
        best_after(a + b, 0) == best_after(b, best_after(a, 0)),
{
    if b.len() > 0 {
        assert((a + b).last() == b.last());
    } else {
        assert(a + b =~= a);
    }
}

/// One worker's search from `first` upward. Each pass reads the run flag (cleared: the
/// worker ends with no result) and the stop flag (raised: it stops), ends at the
/// window's `end` before hashing it, hashes the nonce, offers the gatekeeper every
/// solution of difficulty 8 or more that beats its best, and stops when an offer found
/// the gatekeeper closed (raising `stop` for its peers) or when, on a multiple of 100
/// with difficulty 8 or more in hand, the cutoff has passed.
pub fn mine_worker(
    memory: &mut SolverMemory,
    challenge: &[u8; 32],
    first: u64,
    end: u64,
    cutoff: u64,
    started: &Instant,
    running: &AtomicBool,
    stop: &AtomicBool,
    gatekeeper: &UnboundedSender<MessageSubmissionSystem>,
) -> (r: WorkerResult)
    ensures
        worker_result_ok(r, challenge@, first, end, cutoff),
{
    let mut nonce: u64 = first;
    let mut best_nonce: u64 = first;
    let mut best_difficulty: u32 = 0;
    let mut best_digest: [u8; 16] = [0u8; 16];
    let mut total_hashes: u64 = 0;
    let ghost mut obs: Seq<Observed> = Seq::empty();
    let ghost mut offered: Seq<Offer> = Seq::empty();
    let exit: WorkerExit;
    let hashed: u64;
    loop
        invariant_except_break
            nonce == first + obs.len(),
            obs.len() > 0 ==> nonce <= end,
            forall|j: int|
                0 <= j < obs.len() ==> continues(
                    #[trigger] obs[j],
                    (first + j) as u64,
                    end,
                    cutoff,
                    best_at(challenge@, first, (j + 1) as nat),
                ),
            offered == offers_through(challenge@, first, obs.len()),
            best_difficulty == best_after(offered, 0),
            offered.len() > 0 ==> best_nonce == offered.last().0 && best_digest@ == offered.last().2,
        ensures
            obs.len() >= 1,
            first + obs.len() - 1 <= u64::MAX,
            forall|j: int|
                0 <= j < obs.len() - 1 ==> continues(
                    #[trigger] obs[j],
                    (first + j) as u64,
                    end,
                    cutoff,
                    best_at(challenge@, first, (j + 1) as nat),
                ),
            before_hash_spec(obs.last().running, obs.last().stop, (first + obs.len() - 1) as u64, end)
                != WorkerStep::Go ==> before_hash_spec(
                obs.last().running,
                obs.last().stop,
                (first + obs.len() - 1) as u64,
                end,
            ) == WorkerStep::Exit(exit) && hashed == obs.len() - 1 && !obs.last().send_failed,
            before_hash_spec(obs.last().running, obs.last().stop, (first + obs.len() - 1) as u64, end)
                == WorkerStep::Go ==> after_hash_spec(
                obs.last().send_failed,
                (first + obs.len() - 1) as u64,
                obs.last().elapsed,
                cutoff,
                best_at(challenge@, first, obs.len()),
            ) == WorkerStep::Exit(exit) && hashed == obs.len(),
            offered == offers_through(challenge@, first, hashed as nat),
            best_difficulty == best_after(offered, 0),
            offered.len() > 0 ==> best_nonce == offered.last().0 && best_digest@ == offered.last().2,
        decreases end - nonce,
    {
        let run = running.load(Ordering::SeqCst);
        let st = stop.load(Ordering::Relaxed);
        match before_hash(run, st, nonce, end) {
            WorkerStep::Exit(e) => {
                proof {
                    obs = obs.push(Observed { running: run, stop: st, send_failed: false, elapsed: 0 });
                    assert(obs.last() == Observed { running: run, stop: st, send_failed: false, elapsed: 0 });
                    assert forall|j: int| 0 <= j < obs.len() - 1 implies continues(
                        #[trigger] obs[j],
                        (first + j) as u64,
                        end,
                        cutoff,
                        best_at(challenge@, first, (j + 1) as nat),
                    ) by {
                        assert(obs[j] == obs.drop_last()[j]);
                    }
                }
                exit = e;
                hashed = nonce - first;
                break;
            },
            WorkerStep::Go => {},
        }
        let ghost prev = offered;
        let hashes = iterate(memory, challenge, nonce);
        let ghost hs = drillx_hashes(challenge@, nonce);
        let mut send_failed = false;
        let mut i: usize = 0;
        while i < hashes.len()
            invariant
                nonce == first + obs.len(),
                nonce < end,
                prev == offers_through(challenge@, first, obs.len()),
                hs == drillx_hashes(challenge@, nonce),
                hashes@.len() == hs.len(),
                forall|k: int|
                    0 <= k < hashes@.len() ==> (#[trigger] hashes@[k]).digest@ == hs[k].0
                        && hashes@[k].difficulty == leading_zero_bits(hs[k].1),
                i <= hashes@.len(),
                offered == prev + offers_in(hs, i as nat, nonce, best_after(prev, 0)),
                best_difficulty == best_after(offered, 0),
                offered.len() > 0 ==> best_nonce == offered.last().0 && best_digest@ == offered.last().2,
            decreases hashes@.len() - i,
        {
            let h = hashes[i];
            proof {
                lemma_best_after_concat(prev, offers_in(hs, i as nat, nonce, best_after(prev, 0)));
                assert(offers_in(hs, (i + 1) as nat, nonce, best_after(prev, 0)) == {
                    let p = offers_in(hs, i as nat, nonce, best_after(prev, 0));
                    let d = leading_zero_bits(hs[i as int].1);
                    if d <= u32::MAX && offers(d as int, best_after(p, best_after(prev, 0)) as int) {
                        p.push((nonce, d as u32, hs[i as int].0))
                    } else {
                        p
                    }
                });
            }
            total_hashes = total_hashes.saturating_add(1);
            if h.difficulty >= MIN_DIFFICULTY && h.difficulty > best_difficulty {
                let s = ThreadSubmission { nonce, difficulty: h.difficulty, d: h.digest };
                if !send_to_gatekeeper(gatekeeper, MessageSubmissionSystem::Submission(s)) {
                    stop.store(true, Ordering::Relaxed);
                    send_failed = true;
                }
                proof {
                    let p = offers_in(hs, i as nat, nonce, best_after(prev, 0));
                    assert(prev + p.push((nonce, h.difficulty, hs[i as int].0)) =~= (prev + p).push(
                        (nonce, h.difficulty, hs[i as int].0),
                    ));
                    offered = offered.push((nonce, h.difficulty, h.digest@));
                }
                best_nonce = nonce;
                best_difficulty = h.difficulty;
                best_digest = h.digest;
            }
            i = i + 1;
        }
        proof {
            assert(offers_through(challenge@, first, (obs.len() + 1) as nat) == prev + offers_in(
                hs,
                hs.len(),
                nonce,
                best_after(prev, 0),
            ));
        }
        let elapsed: u64 = if nonce % CLOCK_STRIDE == 0 && best_difficulty >= MIN_DIFFICULTY {
            elapsed_secs(started)
        } else {
            0
        };
        let step = after_hash(send_failed, nonce, elapsed, cutoff, best_difficulty);
        proof {
            obs = obs.push(Observed { running: run, stop: st, send_failed, elapsed });
            assert(obs.last() == Observed { running: run, stop: st, send_failed, elapsed });
            assert forall|j: int| 0 <= j < obs.len() - 1 implies continues(
                #[trigger] obs[j],
                (first + j) as u64,
                end,
                cutoff,
                best_at(challenge@, first, (j + 1) as nat),
            ) by {
                assert(obs[j] == obs.drop_last()[j]);
            }
        }
        match step {
            WorkerStep::Exit(e) => {
                exit = e;
                hashed = nonce - first + 1;
                break;
            },
            WorkerStep::Go => {},
        }
        nonce = nonce + 1;
    }
    WorkerResult {
        best_nonce,
        best_difficulty,
        best_digest,
        total_hashes,
        nonces_hashed: hashed,
        exit,
        offered: Ghost(offered),
        trace: Ghost(obs),
    }
}

/// The best difficulty among the workers that returned a result.
pub open spec fn best_of(rs: Seq<Option<WorkerResult>>) -> u32
    decreases rs.len(),
{
    if rs.len() == 0 {
        0
    } else {
        let rest = best_of(rs.drop_last());
        match rs.last() {
            Some(w) => if w.best_difficulty > rest {
                w.best_difficulty
            } else {
                rest
            },
            None => rest,
        }
    }
}

/// The hashes computed by the workers that returned a result.
pub open spec fn hashes_of(rs: Seq<Option<WorkerResult>>) -> int
    decreases rs.len(),
{
    if rs.len() == 0 {
        0
    } else {
        hashes_of(rs.drop_last()) + match rs.last() {
            Some(w) => w.total_hashes as int,
            None => 0,
        }
    }
}

/// A round's totals once all workers have been joined.
#[derive(Clone, Copy, Debug)]
pub struct RoundTotals {
    pub best_difficulty: u32,
    /// Hashes computed by all workers, saturating at `u64::MAX`.
    pub total_hashes: u64,
}

/// Adds up the workers' results: the best difficulty and the hashes computed; workers
/// without a result count for nothing.
pub fn aggregate(results: &Vec<Option<WorkerResult>>) -> (r: RoundTotals)
    ensures
        r.best_difficulty == best_of(results@),
        r.total_hashes == if hashes_of(results@) > u64::MAX {
            u64::MAX as int
        } else {
            hashes_of(results@)
        },
{
    let mut best: u32 = 0;
    let mut total: u64 = 0;
    let mut i: usize = 0;
    while i < results.len()
        invariant
            i <= results@.len(),
            best == best_of(results@.subrange(0, i as int)),
            total == if hashes_of(results@.subrange(0, i as int)) > u64::MAX {
                u64::MAX as int
            } else {
                hashes_of(results@.subrange(0, i as int))
            },
            hashes_of(results@.subrange(0, i as int)) >= 0,
        decreases results@.len() - i,
    {
        proof {
            let next = results@.subrange(0, i + 1);
            assert(next.drop_last() =~= results@.subrange(0, i as int));
            assert(next.last() == results@[i as int]);
        }
        match &results[i] {
            Some(w) => {
                total = total.saturating_add(w.total_hashes);
                if w.best_difficulty > best {
                    best = w.best_difficulty;
                }
            },
            None => {},
        }
        i = i + 1;
    }
    assert(results@.subrange(0, i as int) =~= results@);
    RoundTotals { best_difficulty: best, total_hashes: total }
}

/// `o` is a solution that the hash yields for its nonce under `challenge`.
pub open spec fn yielded(challenge: Seq<u8>, o: Offer) -> bool {
    exists|i: int|
        0 <= i < drillx_hashes(challenge, o.0).len() && (#[trigger] drillx_hashes(challenge, o.0)[i]).0
            == o.2 && leading_zero_bits(drillx_hashes(challenge, o.0)[i].1) == o.1
}

proof fn lemma_offers_in(hs: Seq<(Seq<u8>, Seq<u8>)>, i: nat, nonce: u64, best: u32)
    ensures
        forall|k: int|
            0 <= k < offers_in(hs, i, nonce, best).len() ==> {
                let o = #[trigger] offers_in(hs, i, nonce, best)[k];
                &&& o.1 >= MIN_DIFFICULTY
                &&& o.1 > best
                &&& o.0 == nonce
                &&& exists|x: int| 0 <= x < hs.len() && hs[x].0 == o.2 && leading_zero_bits(hs[x].1) == o.1
            },
        forall|k: int, l: int|
            0 <= k < l < offers_in(hs, i, nonce, best).len() ==> (#[trigger] offers_in(hs, i, nonce, best)[k]).1
                < (#[trigger] offers_in(hs, i, nonce, best)[l]).1,
    decreases i,
{
    if i > 0 && i <= hs.len() {
        lemma_offers_in(hs, (i - 1) as nat, nonce, best);
        let p = offers_in(hs, (i - 1) as nat, nonce, best);
        let s = offers_in(hs, i, nonce, best);
        let d = leading_zero_bits(hs[i - 1].1);
        if d <= u32::MAX && offers(d as int, best_after(p, best) as int) {
            assert(s == p.push((nonce, d as u32, hs[i - 1].0)));
            assert forall|k: int| 0 <= k < s.len() implies {
                let o = #[trigger] s[k];
                &&& o.1 >= MIN_DIFFICULTY
                &&& o.1 > best
                &&& o.0 == nonce
                &&& exists|x: int| 0 <= x < hs.len() && hs[x].0 == o.2 && leading_zero_bits(hs[x].1) == o.1
            } by {
                if k == s.len() - 1 {
                    assert(hs[i - 1].0 == s[k].2);
                } else {
                    assert(s[k] == p[k]);
                }
            }
            assert forall|k: int, l: int| 0 <= k < l < s.len() implies (#[trigger] s[k]).1
                < (#[trigger] s[l]).1 by {
                assert(s[k] == p[k]);
                if l < s.len() - 1 {
                    assert(s[l] == p[l]);
                } else if p.len() > 0 {
                    assert(p[k].1 <= p.last().1);
                }
            }
        }
    }
}

/// Every solution a worker offers, in a round from `first` over `n` nonces, has
/// difficulty 8 or more, lies among the nonces hashed, is yielded by the hash for its
/// nonce, and beats every solution the worker offered before it.
pub proof fn lemma_offers_rise(challenge: Seq<u8>, first: u64, n: nat)
    requires
        first + n <= u64::MAX + 1,
    ensures
        forall|k: int|
            0 <= k < offers_through(challenge, first, n).len() ==> {
                let o = #[trigger] offers_through(challenge, first, n)[k];
                &&& o.1 >= MIN_DIFFICULTY
                &&& first <= o.0 < first + n
                &&& yielded(challenge, o)
            },
        forall|k: int, l: int|
            0 <= k < l < offers_through(challenge, first, n).len() ==> (#[trigger] offers_through(
                challenge,
                first,
                n,
            )[k]).1 < (#[trigger] offers_through(challenge, first, n)[l]).1,
    decreases n,
{
    if n > 0 {
        lemma_offers_rise(challenge, first, (n - 1) as nat);
        let p = offers_through(challenge, first, (n - 1) as nat);
        let nonce = (first + n - 1) as u64;
        let hs = drillx_hashes(challenge, nonce);
        let q = offers_in(hs, hs.len(), nonce, best_after(p, 0));
        lemma_offers_in(hs, hs.len(), nonce, best_after(p, 0));
        let s = offers_through(challenge, first, n);
        assert(s == p + q);
        assert forall|k: int| 0 <= k < s.len() implies {
            let o = #[trigger] s[k];
            &&& o.1 >= MIN_DIFFICULTY
            &&& first <= o.0 < first + n
            &&& yielded(challenge, o)
        } by {
            if k < p.len() {
                assert(s[k] == p[k]);
            } else {
                assert(s[k] == q[k - p.len()]);
                let o = q[k - p.len()];
                let x = choose|x: int| 0 <= x < hs.len() && hs[x].0 == o.2 && leading_zero_bits(hs[x].1) == o.1;
                assert(drillx_hashes(challenge, o.0)[x].0 == o.2);
            }
        }
        assert forall|k: int, l: int| 0 <= k < l < s.len() implies (#[trigger] s[k]).1
            < (#[trigger] s[l]).1 by {
            if l < p.len() {
                assert(s[k] == p[k] && s[l] == p[l]);
            } else if k >= p.len() {
                assert(s[k] == q[k - p.len()] && s[l] == q[l - p.len()]);
            } else {
                assert(s[k] == p[k] && s[l] == q[l - p.len()]);
                assert(p[k].1 <= p.last().1);
            }
        }
    }
}

/// Every solution a worker offered has difficulty 8 or more and beats the ones it
/// offered before, whatever the worker's exit.
pub proof fn lemma_worker_offers(w: WorkerResult, challenge: Seq<u8>, first: u64, end: u64, cutoff: u64)
    requires
        worker_result_ok(w, challenge, first, end, cutoff),
    ensures
        forall|k: int| 0 <= k < w.offered@.len() ==> (#[trigger] w.offered@[k]).1 >= MIN_DIFFICULTY
            && first <= w.offered@[k].0 < end && yielded(challenge, w.offered@[k]),
        forall|k: int, l: int|
            0 <= k < l < w.offered@.len() ==> (#[trigger] w.offered@[k]).1 < (#[trigger] w.offered@[l]).1,
{
    lemma_worker_window(w, challenge, first, end, cutoff);
    lemma_offers_rise(challenge, first, w.nonces_hashed as nat);
}

/// A worker hashes only nonces of `[first, end)`: none at all when `first >= end`.
pub proof fn lemma_worker_window(w: WorkerResult, challenge: Seq<u8>, first: u64, end: u64, cutoff: u64)
    requires
        worker_result_ok(w, challenge, first, end, cutoff),
    ensures
        w.nonces_hashed > 0 ==> first + w.nonces_hashed <= end,
        first >= end ==> w.nonces_hashed == 0 && w.offered@.len() == 0,
{
    let obs = w.trace@;
    let n = obs.len();
    if n > 1 {
        assert(continues(obs[n - 2], (first + n - 2) as u64, end, cutoff, best_at(challenge, first, (n - 1) as nat)));
    }
}

/// The worker on core `i` hashes only nonces at or above `start + 10_000·i`; two
/// workers that each hashed at most 10_000 nonces hashed disjoint sets.
pub proof fn lemma_worker_nonces(start: u64, i: u64, j: u64, hi: u64, hj: u64, n: int)
    requires
        i < j,
        first_nonce_spec(start, j) <= u64::MAX,
        hi <= NONCES_PER_THREAD,
    ensures
        first_nonce_spec(start, i) <= n < first_nonce_spec(start, i) + hi ==> n >= start
            + NONCES_PER_THREAD * i,
        !(first_nonce_spec(start, i) <= n < first_nonce_spec(start, i) + hi && first_nonce_spec(
            start,
            j,
        ) <= n < first_nonce_spec(start, j) + hj),
{
    assert(NONCES_PER_THREAD * i + NONCES_PER_THREAD <= NONCES_PER_THREAD * j) by (nonlinear_arith)
        requires
            i < j,
    ;
}

/// A worker went on past a clock reading only while the cutoff had not passed: every
/// pass it continued after, on a multiple of 100 with difficulty 8 or more in hand, read
/// fewer seconds than the cutoff. So once the clock reads the cutoff, it stops at the
/// next such nonce, at most 100 nonces on.
pub proof fn lemma_deadline_honoured(w: WorkerResult, challenge: Seq<u8>, first: u64, end: u64, cutoff: u64, j: int)
    requires
        worker_result_ok(w, challenge, first, end, cutoff),
        0 <= j < w.trace@.len() - 1,
        ((first + j) as u64) % CLOCK_STRIDE == 0,
        best_at(challenge, first, (j + 1) as nat) >= MIN_DIFFICULTY,
    ensures
        w.trace@[j].elapsed < cutoff,
{
    assert(continues(w.trace@[j], (first + j) as u64, end, cutoff, best_at(challenge, first, (j + 1) as nat)));
}

/// Once the cutoff has passed and a worker holds a solution of difficulty 8 or more,
/// one of the next 100 nonces triggers the deadline stop.
pub proof fn lemma_deadline_within_stride(n: u64, elapsed: u64, cutoff: u64, best: u32)
    requires
        elapsed >= cutoff,
        best >= MIN_DIFFICULTY,
        n + CLOCK_STRIDE - 1 <= u64::MAX,
    ensures
        exists|k: u64| k < CLOCK_STRIDE && #[trigger] deadline_stop((n + k) as u64, elapsed, cutoff, best),
{
    let r: u64 = n % CLOCK_STRIDE;
    let k: u64 = if r == 0 {
        0
    } else {
        (CLOCK_STRIDE - r) as u64
    };
    assert(((n + k) as u64) % CLOCK_STRIDE == 0);
    assert(deadline_stop((n + k) as u64, elapsed, cutoff, best));
}

/// With a zero cutoff a worker that read the run flag set and the stop flag lowered
/// hashes its first nonce of a non-empty window; it never goes past a multiple of 100
/// while holding difficulty 8 or more.
pub proof fn lemma_zero_cutoff(w: WorkerResult, challenge: Seq<u8>, first: u64, end: u64, j: int)
    requires
        worker_result_ok(w, challenge, first, end, 0),
    ensures
        w.trace@[0].running && !w.trace@[0].stop && first < end ==> w.nonces_hashed >= 1,
        0 <= j < w.trace@.len() - 1 ==> !(((first + j) as u64) % CLOCK_STRIDE == 0 && best_at(
            challenge,
            first,
            (j + 1) as nat,
        ) >= MIN_DIFFICULTY),
{
    if 0 <= j < w.trace@.len() - 1 {
        assert(continues(w.trace@[j], (first + j) as u64, end, 0, best_at(challenge, first, (j + 1) as nat)));
    }
    if w.trace@.len() > 1 {
        assert(continues(w.trace@[0], first, end, 0, best_at(challenge, first, 1)));
    }
}

/// A worker goes on only after reading the stop flag lowered and offering without
/// failure; reading it raised (with the run flag set) ends the worker at once.
pub proof fn lemma_stop_observed(w: WorkerResult, challenge: Seq<u8>, first: u64, end: u64, cutoff: u64, j: int)
    requires
        worker_result_ok(w, challenge, first, end, cutoff),
    ensures
        0 <= j < w.trace@.len() - 1 ==> !w.trace@[j].stop && !w.trace@[j].send_failed,
        w.trace@.last().running && (w.trace@.last().stop || w.trace@.last().send_failed) ==> w.exit
            == WorkerExit::Stopped,
{
    if 0 <= j < w.trace@.len() - 1 {
        assert(continues(w.trace@[j], (first + j) as u64, end, cutoff, best_at(challenge, first, (j + 1) as nat)));
    }
}

/// A worker goes on only after reading the run flag set, and ends with no result
/// exactly when its last read found it cleared; it offers nothing after that read.
pub proof fn lemma_run_flag(w: WorkerResult, challenge: Seq<u8>, first: u64, end: u64, cutoff: u64, j: int)
    requires
        worker_result_ok(w, challenge, first, end, cutoff),
    ensures
        0 <= j < w.trace@.len() - 1 ==> w.trace@[j].running,
        w.exit == WorkerExit::Interrupted <==> !w.trace@.last().running,
        w.exit == WorkerExit::Interrupted ==> w.nonces_hashed == w.trace@.len() - 1,
{
    if 0 <= j < w.trace@.len() - 1 {
        assert(continues(w.trace@[j], (first + j) as u64, end, cutoff, best_at(challenge, first, (j + 1) as nat)));
    }
}

} // verus!
