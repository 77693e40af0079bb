//! The proof-of-work hash, used through per-thread scratch memory.
use vstd::prelude::*;

use drillx_2::equix::SolverMemory;

verus! {

#[verifier::external_type_specification]
#[verifier::external_body]
pub struct ExSolverMemory(SolverMemory);

pub assume_specification[ SolverMemory::new ]() -> SolverMemory;

/// The (digest, hash) pairs that drillx yields for a challenge and the eight bytes of a
/// nonce.
pub uninterp spec fn drillx_hashes(challenge: Seq<u8>, nonce: u64) -> Seq<(Seq<u8>, Seq<u8>)>;

/// The number of leading zero bits of a byte.
pub open spec fn byte_leading_zeros(b: u8) -> nat {
    if b >= 128 {
        0
    } else if b >= 64 {
        1
    } else if b >= 32 {
        2
    } else if b >= 16 {
        3
    } else if b >= 8 {
        4
    } else if b >= 4 {
        5
    } else if b >= 2 {
        6
    } else if b >= 1 {
        7
    } else {
        8
    }
}

/// The number of leading zero bits of a byte string, first byte first.
pub open spec fn leading_zero_bits(h: Seq<u8>) -> nat
    decreases h.len(),
{
    if h.len() == 0 {
        0
    } else if h[0] == 0 {
        8 + leading_zero_bits(h.drop_first())
    } else {
        byte_leading_zeros(h[0])
    }
}

/// One result of the hash: the digest that a solution carries and its difficulty.
#[derive(Clone, Copy, Debug)]
pub struct Hashed {
    pub digest: [u8; 16],
    pub difficulty: u32,
}

/// Relies on `drillx_2::get_hashes_with_memory`: the hashes for `challenge` and the
/// little-endian bytes of `nonce`, which depend on those alone; `memory` is scratch
/// space. Each is handed out as its digest and its 32-byte hash.
#[verifier::external_body]
fn get_hashes(memory: &mut SolverMemory, challenge: &[u8; 32], nonce: u64) -> (r: Vec<([u8; 16], [u8; 32])>)
    ensures
        r@.len() == drillx_hashes(challenge@, nonce).len(),
        forall|i: int|
            0 <= i < r@.len() ==> (#[trigger] r@[i]).0@ == drillx_hashes(challenge@, nonce)[i].0
                && r@[i].1@ == drillx_hashes(challenge@, nonce)[i].1,
{
    drillx_2::get_hashes_with_memory(memory, challenge, &nonce.to_le_bytes())
        .into_iter()
        .map(|h| (h.d, h.h))
        .collect()
}

/// Relies on `drillx_2::difficulty`: the number of leading zero bits of the hash.
#[verifier::external_body]
fn difficulty_of(h: [u8; 32]) -> (r: u32)
    ensures
        r == leading_zero_bits(h@),
{
    drillx_2::difficulty(h)
}

/// The digests and difficulties that the hash yields for one nonce; none when the
/// input admits no solution.
pub fn iterate(memory: &mut SolverMemory, challenge: &[u8; 32], nonce: u64) -> (r: Vec<Hashed>)
    ensures
        r@.len() == drillx_hashes(challenge@, nonce).len(),
        forall|i: int|
            0 <= i < r@.len() ==> (#[trigger] r@[i]).digest@ == drillx_hashes(challenge@, nonce)[i].0
                && r@[i].difficulty == leading_zero_bits(drillx_hashes(challenge@, nonce)[i].1),
{
    let hs = get_hashes(memory, challenge, nonce);
    let mut out: Vec<Hashed> = Vec::new();
    let mut i: usize = 0;
    while i < hs.len()
        invariant
            i <= hs@.len(),
            hs@.len() == drillx_hashes(challenge@, nonce).len(),
            forall|k: int|
                0 <= k < hs@.len() ==> (#[trigger] hs@[k]).0@ == drillx_hashes(challenge@, nonce)[k].0
                    && hs@[k].1@ == drillx_hashes(challenge@, nonce)[k].1,
            out@.len() == i,
            forall|k: int|
                0 <= k < i ==> (#[trigger] out@[k]).digest@ == drillx_hashes(challenge@, nonce)[k].0
                    && out@[k].difficulty == leading_zero_bits(drillx_hashes(challenge@, nonce)[k].1),
        decreases hs@.len() - i,
    {
        let (d, h) = hs[i];
        let difficulty: u32 = difficulty_of(h);
        out.push(Hashed { digest: d, difficulty });
        i = i + 1;
    }
    out
}

} // verus!
