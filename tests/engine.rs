use std::sync::atomic::AtomicBool;
use std::time::Instant;

use drillx_2::equix::SolverMemory;
use excalivator::engine::{aggregate, effective_cutoff, mine_worker, worker_first_nonce, WorkerExit, WorkerResult};
use excalivator::hash::iterate;
use excalivator::submission::MessageSubmissionSystem;

fn result(best: u32, hashes: u64) -> WorkerResult {
    let mut challenge = [0u8; 32];
    challenge[0] = 1;
    let mut memory = SolverMemory::new();
    let running = AtomicBool::new(true);
    let stop = AtomicBool::new(true);
    let (tx, _rx) = tokio::sync::mpsc::unbounded_channel::<MessageSubmissionSystem>();
    let mut w = mine_worker(&mut memory, &challenge, 0, 10, 0, &Instant::now(), &running, &stop, &tx);
    w.best_difficulty = best;
    w.total_hashes = hashes;
    w
}

#[test]
fn cutoff_is_reduced_by_the_buffer_and_clamped() {
    assert_eq!(effective_cutoff(5, 0), 5);
    assert_eq!(effective_cutoff(60, 10), 50);
    assert_eq!(effective_cutoff(100, 0), 55);
    assert_eq!(effective_cutoff(58, 0), 55);
    assert_eq!(effective_cutoff(3, 5), 0);
    assert_eq!(effective_cutoff(0, 0), 0);
}

#[test]
fn workers_start_ten_thousand_apart() {
    assert_eq!(worker_first_nonce(0, 0, 4), Some(0));
    assert_eq!(worker_first_nonce(500, 3, 4), Some(30_500));
    assert_eq!(worker_first_nonce(500, 4, 4), None);
    assert_eq!(worker_first_nonce(u64::MAX - 5, 1, 4), None);
}

#[test]
fn cleared_run_flag_gives_no_result() {
    let challenge = [7u8; 32];
    let mut memory = SolverMemory::new();
    let running = AtomicBool::new(false);
    let stop = AtomicBool::new(false);
    let (tx, _rx) = tokio::sync::mpsc::unbounded_channel::<MessageSubmissionSystem>();
    let w = mine_worker(&mut memory, &challenge, 0, 1_000_000, 5, &Instant::now(), &running, &stop, &tx);
    assert_eq!(w.exit, WorkerExit::Interrupted);
    assert_eq!(w.nonces_hashed, 0);
    assert_eq!(w.total_hashes, 0);
}

#[test]
fn raised_stop_flag_ends_the_worker_before_hashing() {
    let challenge = [7u8; 32];
    let mut memory = SolverMemory::new();
    let running = AtomicBool::new(true);
    let stop = AtomicBool::new(true);
    let (tx, _rx) = tokio::sync::mpsc::unbounded_channel::<MessageSubmissionSystem>();
    let w = mine_worker(&mut memory, &challenge, 40, 1_000_000, 5, &Instant::now(), &running, &stop, &tx);
    assert_eq!(w.exit, WorkerExit::Stopped);
    assert_eq!(w.nonces_hashed, 0);
    assert_eq!(w.total_hashes, 0);
}

#[test]
fn empty_window_hashes_nothing_and_offers_nothing() {
    let challenge = [3u8; 32];
    let mut memory = SolverMemory::new();
    let running = AtomicBool::new(true);
    let stop = AtomicBool::new(false);
    let (tx, mut rx) = tokio::sync::mpsc::unbounded_channel::<MessageSubmissionSystem>();
    let w = mine_worker(&mut memory, &challenge, 500, 500, 0, &Instant::now(), &running, &stop, &tx);
    assert_eq!(w.exit, WorkerExit::RangeDone);
    assert_eq!(w.nonces_hashed, 0);
    assert_eq!(w.total_hashes, 0);
    assert!(rx.try_recv().is_err());
    let past = mine_worker(&mut memory, &challenge, 700, 500, 0, &Instant::now(), &running, &stop, &tx);
    assert_eq!(past.exit, WorkerExit::RangeDone);
    assert_eq!(past.nonces_hashed, 0);
    assert!(rx.try_recv().is_err());
}

#[test]
fn offers_rise_strictly_and_are_at_least_eight() {
    let challenge = [9u8; 32];
    let mut memory = SolverMemory::new();
    let running = AtomicBool::new(true);
    let stop = AtomicBool::new(false);
    let (tx, mut rx) = tokio::sync::mpsc::unbounded_channel::<MessageSubmissionSystem>();
    let w = mine_worker(&mut memory, &challenge, 0, 20, 60, &Instant::now(), &running, &stop, &tx);
    assert_eq!(w.exit, WorkerExit::RangeDone);
    assert_eq!(w.nonces_hashed, 20);
    let mut last = 0;
    while let Ok(MessageSubmissionSystem::Submission(s)) = rx.try_recv() {
        assert!(s.difficulty >= 8);
        assert!(s.difficulty > last);
        assert!(s.nonce < 20);
        last = s.difficulty;
    }
    assert_eq!(last, w.best_difficulty);
}

#[test]
fn closed_gatekeeper_stops_the_worker_at_the_failing_nonce() {
    let challenge = [9u8; 32];
    let mut memory = SolverMemory::new();
    let running = AtomicBool::new(true);
    let stop = AtomicBool::new(false);
    let (tx, rx) = tokio::sync::mpsc::unbounded_channel::<MessageSubmissionSystem>();
    drop(rx);
    let w = mine_worker(&mut memory, &challenge, 0, 20, 60, &Instant::now(), &running, &stop, &tx);
    if w.best_difficulty >= 8 {
        assert_eq!(w.exit, WorkerExit::Stopped);
        assert_eq!(w.best_nonce, w.nonces_hashed - 1);
        assert!(stop.load(std::sync::atomic::Ordering::Relaxed));
    } else {
        assert_eq!(w.exit, WorkerExit::RangeDone);
    }
}

#[test]
fn zero_cutoff_stops_at_the_first_clock_check_with_a_solution() {
    let challenge = [9u8; 32];
    let mut memory = SolverMemory::new();
    let running = AtomicBool::new(true);
    let stop = AtomicBool::new(false);
    let (tx, _rx) = tokio::sync::mpsc::unbounded_channel::<MessageSubmissionSystem>();
    let w = mine_worker(&mut memory, &challenge, 0, 20, 0, &Instant::now(), &running, &stop, &tx);
    assert!(w.nonces_hashed >= 1);
    if w.exit == WorkerExit::Deadline {
        assert_eq!(w.nonces_hashed, 1);
        assert!(w.best_difficulty >= 8);
    } else {
        assert_eq!(w.exit, WorkerExit::RangeDone);
    }
}

#[test]
fn aggregate_takes_best_and_sums_hashes() {
    let rs = vec![Some(result(9, 100)), None, Some(result(12, 50)), Some(result(3, u64::MAX))];
    let t = aggregate(&rs);
    assert_eq!(t.best_difficulty, 12);
    assert_eq!(t.total_hashes, u64::MAX);
    let t2 = aggregate(&vec![Some(result(9, 100)), Some(result(8, 23))]);
    assert_eq!(t2.best_difficulty, 9);
    assert_eq!(t2.total_hashes, 123);
    let t3 = aggregate(&vec![None, None]);
    assert_eq!(t3.best_difficulty, 0);
    assert_eq!(t3.total_hashes, 0);
}

#[test]
fn adapter_reports_drillx_digests_and_difficulties() {
    let challenge = [5u8; 32];
    let mut memory = SolverMemory::new();
    for nonce in [0u64, 1, 77] {
        let ours = iterate(&mut memory, &challenge, nonce);
        let theirs = drillx_2::get_hashes_with_memory(&mut memory, &challenge, &nonce.to_le_bytes());
        assert_eq!(ours.len(), theirs.len());
        for (a, b) in ours.iter().zip(theirs.iter()) {
            assert_eq!(a.digest, b.d);
            assert_eq!(a.difficulty, b.difficulty());
            let mut zeros = 0u32;
            for byte in b.h {
                zeros += byte.leading_zeros();
                if byte != 0 {
                    break;
                }
            }
            assert_eq!(a.difficulty, zeros);
        }
    }
}
