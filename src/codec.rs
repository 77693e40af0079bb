//! Binary frames exchanged with the coordinator.
//!
//! Inbound: `StartMining` (type 0) and `PoolSubmissionResult` (type 1).
//! Outbound: `Ready` (type 0) and `BestSolution` (type 2).
use vstd::prelude::*;

use crate::bytes::{le_bytes, le_value, lemma_le_round_trip, push_all, push_u64_le, read_u64_le};

verus! {

/// Shortest `StartMining` frame that is accepted: type, challenge, cutoff, nonce start.
pub const START_MINING_LEN: usize = 49;

/// Length of a complete `StartMining` frame: type, challenge, cutoff, nonce start, nonce end.
pub const START_MINING_FULL_LEN: usize = 57;

/// Length of an unsigned `Ready` frame: type, public key, timestamp.
pub const READY_LEN: usize = 41;

/// Length of an unsigned `BestSolution` frame: type, digest, nonce, public key.
pub const BEST_SOLUTION_LEN: usize = 57;

pub const TYPE_START_MINING: u8 = 0;

pub const TYPE_POOL_SUBMISSION_RESULT: u8 = 1;

pub const TYPE_READY: u8 = 0;

pub const TYPE_BEST_SOLUTION: u8 = 2;

/// A decoded message of the coordinator.
#[derive(Debug)]
pub enum ServerMessage {
    /// A new round: its challenge, the nonce window `[nonce_start, nonce_end)` and the
    /// cutoff in seconds.
    StartMining { challenge: [u8; 32], nonce_start: u64, nonce_end: u64, cutoff: u64 },
    /// The outcome of a round, still in the coordinator's serialized form.
    PoolSubmissionResult(Vec<u8>),
}

/// What an inbound binary frame holds.
#[derive(Debug)]
pub enum Inbound {
    Message(ServerMessage),
    /// Type 0, but shorter than a `StartMining` frame.
    ShortStartMining,
    UnknownType(u8),
    Empty,
}

/// A message of the duplex transport, as the client sees it.
#[derive(Debug)]
pub enum TransportMessage {
    Text(String),
    Binary(Vec<u8>),
    Ping,
    Pong,
    Close,
    Other,
}

/// What the reader does with one transport message.
#[derive(Debug)]
pub enum ReaderAction {
    /// A binary frame was read.
    Frame(Inbound),
    /// A text frame: shown, otherwise ignored.
    Print(String),
    /// Handled by the transport itself.
    Ignore,
    /// The peer closed the session.
    Close,
}

/// The bytes of a `StartMining` frame.
pub open spec fn start_mining_layout(challenge: Seq<u8>, cutoff: u64, start: u64, end: u64) -> Seq<
    u8,
> {
    seq![TYPE_START_MINING] + challenge + le_bytes(cutoff) + le_bytes(start) + le_bytes(end)
}

/// The eight bytes of `b` from `off` on, where those past the end count as zero.
pub open spec fn padded8(b: Seq<u8>, off: int) -> Seq<u8> {
    Seq::new(8, |j: int| if off + j < b.len() { b[off + j] } else { 0u8 })
}

/// The challenge, cutoff, nonce start and nonce end that a `StartMining` frame carries.
/// A frame cut short after the nonce start reads its missing nonce-end bytes as zero.
pub open spec fn start_mining_fields(b: Seq<u8>) -> (Seq<u8>, u64, u64, u64) {
    (
        b.subrange(1, 33),
        le_value(b.subrange(33, 41)),
        le_value(b.subrange(41, 49)),
        le_value(padded8(b, 49)),
    )
}

/// The bytes of a `Ready` frame; `signature` is empty for a delegated session.
pub open spec fn ready_layout(pubkey: Seq<u8>, timestamp: u64, signature: Seq<u8>) -> Seq<u8> {
    seq![TYPE_READY] + pubkey + le_bytes(timestamp) + signature
}

/// The 24 bytes that an owner signs for a `BestSolution`: digest, then nonce.
pub open spec fn solution_message_layout(digest: Seq<u8>, nonce: u64) -> Seq<u8> {
    digest + le_bytes(nonce)
}

/// The bytes of a `BestSolution` frame; `signature` is empty for a delegated session.
pub open spec fn best_solution_layout(
    digest: Seq<u8>,
    nonce: u64,
    pubkey: Seq<u8>,
    signature: Seq<u8>,
) -> Seq<u8> {
    seq![TYPE_BEST_SOLUTION] + digest + le_bytes(nonce) + pubkey + signature
}

/// `r` is what the binary frame `b` decodes to.
pub open spec fn decodes_to(b: Seq<u8>, r: Inbound) -> bool {
    match r {
        Inbound::Empty => b.len() == 0,
        Inbound::ShortStartMining => b.len() > 0 && b[0] == TYPE_START_MINING && b.len()
            < START_MINING_LEN,
        Inbound::UnknownType(t) => b.len() > 0 && b[0] > TYPE_POOL_SUBMISSION_RESULT && t == b[0],
        Inbound::Message(ServerMessage::StartMining { challenge, nonce_start, nonce_end, cutoff }) => {
            &&& b.len() >= START_MINING_LEN
            &&& b[0] == TYPE_START_MINING
            &&& start_mining_fields(b) == (challenge@, cutoff, nonce_start, nonce_end)
        },
        Inbound::Message(ServerMessage::PoolSubmissionResult(payload)) => {
            &&& b.len() > 0
            &&& b[0] == TYPE_POOL_SUBMISSION_RESULT
            &&& payload@ == b.drop_first()
        },
    }
}

/// Decodes one inbound binary frame.
pub fn decode_inbound(b: &Vec<u8>) -> (r: Inbound)
    ensures
        decodes_to(b@, r),
{
    let n: usize = b.len();
    if n == 0 {
        return Inbound::Empty;
    }
    let kind: u8 = b[0];
    if kind == TYPE_START_MINING {
        if n < START_MINING_LEN {
            return Inbound::ShortStartMining;
        }
        let mut challenge = [0u8; 32];
        let mut i: usize = 0;
        while i < 32
            invariant
                i <= 32,
                n == b@.len(),
                n >= START_MINING_LEN,
                forall|j: int| 0 <= j < i ==> challenge@[j] == b@[1 + j],
            decreases 32 - i,
        {
            challenge[i] = b[1 + i];
            i = i + 1;
        }
        assert(challenge@ =~= b@.subrange(1, 33));
        let cutoff: u64 = read_u64_le(b, 33);
        let nonce_start: u64 = read_u64_le(b, 41);
        let mut tail: Vec<u8> = Vec::new();
        let mut k: usize = 0;
        while k < 8
            invariant
                k <= 8,
                n == b@.len(),
                tail@.len() == k,
                forall|j: int| 0 <= j < k ==> tail@[j] == padded8(b@, 49)[j],
            decreases 8 - k,
        {
            if 49 + k < n {
                tail.push(b[49 + k]);
            } else {
                tail.push(0u8);
            }
            k = k + 1;
        }
        assert(tail@ =~= padded8(b@, 49));
        let nonce_end: u64 = read_u64_le(&tail, 0);
        assert(tail@.subrange(0, 8) =~= tail@);
        Inbound::Message(ServerMessage::StartMining { challenge, nonce_start, nonce_end, cutoff })
    } else if kind == TYPE_POOL_SUBMISSION_RESULT {
        let mut payload: Vec<u8> = Vec::new();
        let mut i: usize = 1;
        while i < n
            invariant
                1 <= i <= n,
                n == b@.len(),
                payload@ == b@.subrange(1, i as int),
            decreases n - i,
        {
            payload.push(b[i]);
            i = i + 1;
            assert(payload@ =~= b@.subrange(1, i as int));
        }
        assert(payload@ =~= b@.drop_first());
        Inbound::Message(ServerMessage::PoolSubmissionResult(payload))
    } else {
        Inbound::UnknownType(kind)
    }
}

/// Encodes a `StartMining` frame: the complete 57-byte form.
pub fn encode_start_mining(challenge: &[u8; 32], nonce_start: u64, nonce_end: u64, cutoff: u64) -> (r:
    Vec<u8>)
    ensures
        r@ == start_mining_layout(challenge@, cutoff, nonce_start, nonce_end),
        r@.len() == START_MINING_FULL_LEN,
{
    let mut out: Vec<u8> = Vec::new();
    out.push(TYPE_START_MINING);
    push_all(&mut out, challenge);
    push_u64_le(&mut out, cutoff);
    push_u64_le(&mut out, nonce_start);
    push_u64_le(&mut out, nonce_end);
    proof {
        lemma_le_round_trip(cutoff);
        lemma_le_round_trip(nonce_start);
        lemma_le_round_trip(nonce_end);
    }
    out
}

/// Encodes a `Ready` frame. `signature` is empty in a delegated session and holds the
/// signature of the timestamp's eight bytes in an owner session.
pub fn encode_ready(pubkey: &[u8; 32], timestamp: u64, signature: &[u8]) -> (r: Vec<u8>)
    ensures
        r@ == ready_layout(pubkey@, timestamp, signature@),
        r@.len() == READY_LEN + signature@.len(),
        r@[0] == TYPE_READY,
        r@.subrange(1, 33) == pubkey@,
        r@.subrange(33, 41) == le_bytes(timestamp),
        r@.subrange(41, r@.len() as int) == signature@,
{
    let mut out: Vec<u8> = Vec::new();
    out.push(TYPE_READY);
    push_all(&mut out, pubkey);
    push_u64_le(&mut out, timestamp);
    push_all(&mut out, signature);
    proof {
        lemma_le_round_trip(timestamp);
        let r = out@;
        assert(r.subrange(1, 33) =~= pubkey@);
        assert(r.subrange(33, 41) =~= le_bytes(timestamp));
        assert(r.subrange(41, r.len() as int) =~= signature@);
    }
    out
}

/// The 24 bytes that an owner signs for a `BestSolution`: the digest, then the nonce.
pub fn solution_message(digest: &[u8; 16], nonce: u64) -> (r: Vec<u8>)
    ensures
        r@ == solution_message_layout(digest@, nonce),
        r@.len() == 24,
{
    let mut out: Vec<u8> = Vec::new();
    push_all(&mut out, digest);
    push_u64_le(&mut out, nonce);
    proof {
        lemma_le_round_trip(nonce);
        assert(out@ =~= solution_message_layout(digest@, nonce));
    }
    out
}

/// Encodes a `BestSolution` frame. `signature` is empty in a delegated session and holds
/// the signature of `solution_message(digest, nonce)` in an owner session.
pub fn encode_best_solution(digest: &[u8; 16], nonce: u64, pubkey: &[u8; 32], signature: &[u8]) -> (r:
    Vec<u8>)
    ensures
        r@ == best_solution_layout(digest@, nonce, pubkey@, signature@),
        r@.len() == BEST_SOLUTION_LEN + signature@.len(),
        r@[0] == TYPE_BEST_SOLUTION,
        r@.subrange(1, 17) == digest@,
        r@.subrange(17, 25) == le_bytes(nonce),
        r@.subrange(25, 57) == pubkey@,
        r@.subrange(57, r@.len() as int) == signature@,
{
    let mut out: Vec<u8> = Vec::new();
    out.push(TYPE_BEST_SOLUTION);
    push_all(&mut out, digest);
    push_u64_le(&mut out, nonce);
    push_all(&mut out, pubkey);
    push_all(&mut out, signature);
    proof {
        lemma_le_round_trip(nonce);
        let r = out@;
        assert(r.subrange(1, 17) =~= digest@);
        assert(r.subrange(17, 25) =~= le_bytes(nonce));
        assert(r.subrange(25, 57) =~= pubkey@);
        assert(r.subrange(57, r.len() as int) =~= signature@);
    }
    out
}

/// Sorts one transport message: binary frames are decoded, text is shown, a close ends
/// the session, and the rest is left to the transport.
pub fn process_message(msg: TransportMessage) -> (r: ReaderAction)
    ensures
        msg is Close <==> r is Close,
        msg matches TransportMessage::Text(t) ==> r == ReaderAction::Print(t),
        msg matches TransportMessage::Binary(b) ==> (r matches ReaderAction::Frame(f)
            && decodes_to(b@, f)),
        (msg is Ping || msg is Pong || msg is Other) <==> r is Ignore,
{
    match msg {
        TransportMessage::Text(t) => ReaderAction::Print(t),
        TransportMessage::Binary(b) => ReaderAction::Frame(decode_inbound(&b)),
        TransportMessage::Close => ReaderAction::Close,
        _ => ReaderAction::Ignore,
    }
}

/// Encoding a `StartMining` frame and decoding it gives back the challenge, the nonce
/// window and the cutoff.
pub proof fn lemma_start_mining_round_trip(challenge: Seq<u8>, cutoff: u64, start: u64, end: u64)
    requires
        challenge.len() == 32,
    ensures
        start_mining_layout(challenge, cutoff, start, end).len() == START_MINING_FULL_LEN,
        start_mining_layout(challenge, cutoff, start, end)[0] == TYPE_START_MINING,
        start_mining_fields(start_mining_layout(challenge, cutoff, start, end)) == (
            challenge,
            cutoff,
            start,
            end,
        ),
{
    lemma_le_round_trip(cutoff);
    lemma_le_round_trip(start);
    lemma_le_round_trip(end);
    let b = start_mining_layout(challenge, cutoff, start, end);
    assert(b.subrange(1, 33) =~= challenge);
    assert(b.subrange(33, 41) =~= le_bytes(cutoff));
    assert(b.subrange(41, 49) =~= le_bytes(start));
    assert(padded8(b, 49) =~= le_bytes(end));
}

} // verus!
