use excalivator::submission::{MessageSubmissionSystem, SubmissionStep, SubmissionSystem, ThreadSubmission};

fn sub(nonce: u64, difficulty: u32) -> MessageSubmissionSystem {
    MessageSubmissionSystem::Submission(ThreadSubmission { nonce, difficulty, d: [nonce as u8; 16] })
}

#[test]
fn happy_round_forwards_each_improvement_once() {
    let mut g = SubmissionSystem::new();
    let mut sent = vec![];
    for m in [sub(12345, 10), sub(20000, 9), sub(67890, 12), sub(70000, 12)] {
        if let SubmissionStep::Send(s) = g.handle(m) {
            sent.push((s.nonce, s.difficulty));
        }
    }
    assert_eq!(sent, vec![(12345, 10), (67890, 12)]);
    assert_eq!(g.best_diff, 12);
}

#[test]
fn reset_starts_the_round_over_after_a_cooldown() {
    let mut g = SubmissionSystem::new();
    assert!(matches!(g.handle(sub(1, 20)), SubmissionStep::Send(_)));
    assert!(matches!(g.handle(MessageSubmissionSystem::Reset), SubmissionStep::Cooldown));
    assert_eq!(g.best_diff, 0);
    assert!(matches!(g.handle(sub(2, 9)), SubmissionStep::Send(_)));
}

#[test]
fn after_finish_submissions_are_discarded() {
    let mut g = SubmissionSystem::new();
    assert!(matches!(g.handle(MessageSubmissionSystem::Finish), SubmissionStep::Stop));
    assert!(matches!(g.handle(sub(3, 30)), SubmissionStep::Drop));
    assert!(matches!(g.handle(MessageSubmissionSystem::Finish), SubmissionStep::Stop));
    assert!(g.finished);
}

#[test]
fn failed_sink_abandons_the_round_until_reset() {
    let mut g = SubmissionSystem::new();
    assert!(matches!(g.handle(sub(1, 10)), SubmissionStep::Send(_)));
    assert!(matches!(g.sink_failed(), SubmissionStep::AbandonRound));
    assert!(matches!(g.handle(sub(2, 30)), SubmissionStep::Drop));
    assert!(matches!(g.handle(MessageSubmissionSystem::Reset), SubmissionStep::Cooldown));
    assert!(matches!(g.handle(sub(3, 9)), SubmissionStep::Send(_)));
}
