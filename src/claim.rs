//! The claim request: the bytes an owner signs, its URL, and how the coordinator's
//! answer reads.
use vstd::prelude::*;
use vstd::string::StringSliceAdditionalSpecFns;

use crate::bytes::{le_bytes, push_all, push_u64_le};
use crate::identity::{base58, base58_of};
use crate::net::{decimal_digits, digits_value, http_scheme, parse_u64, parses_u64, push_decimal, unsigned_digits};

verus! {

/// Seconds between two claims.
pub const CLAIM_COOLDOWN_SECS: u64 = 1800;

/// The bytes signed for a claim: timestamp, receiver, COAL, ORE and, when given,
/// CHROMIUM amounts, each amount and the timestamp as eight little-endian bytes.
pub open spec fn claim_message_spec(
    timestamp: u64,
    receiver: Seq<u8>,
    coal: u64,
    ore: u64,
    chromium: Option<u64>,
) -> Seq<u8> {
    le_bytes(timestamp) + receiver + le_bytes(coal) + le_bytes(ore) + match chromium {
        Some(c) => le_bytes(c),
        None => Seq::empty(),
    }
}

pub fn claim_message(timestamp: u64, receiver: &[u8; 32], coal: u64, ore: u64, chromium: Option<u64>) -> (r: Vec<u8>)
    ensures
        r@ == claim_message_spec(timestamp, receiver@, coal, ore, chromium),
{
    let mut out: Vec<u8> = Vec::new();
    push_u64_le(&mut out, timestamp);
    push_all(&mut out, receiver);
    push_u64_le(&mut out, coal);
    push_u64_le(&mut out, ore);
    match chromium {
        Some(c) => push_u64_le(&mut out, c),
        None => {},
    }
    assert(out@ =~= claim_message_spec(timestamp, receiver@, coal, ore, chromium));
    out
}

/// `{http}://{base}/v2/claim?timestamp=<t>&receiver_pubkey=<R>&amount_coal=<a>&amount_ore=<b>`,
/// and `&amount_chromium=<c>` when given.
pub open spec fn claim_url_spec(
    base: Seq<u8>,
    unsecure: bool,
    timestamp: u64,
    receiver: Seq<u8>,
    coal: u64,
    ore: u64,
    chromium: Option<u64>,
) -> Seq<u8> {
    http_scheme(unsecure) + base + "/v2/claim?timestamp=".spec_bytes() + decimal_digits(timestamp)
        + "&receiver_pubkey=".spec_bytes() + base58_of(receiver) + "&amount_coal=".spec_bytes()
        + decimal_digits(coal) + "&amount_ore=".spec_bytes() + decimal_digits(ore) + match chromium {
        Some(c) => "&amount_chromium=".spec_bytes() + decimal_digits(c),
        None => Seq::empty(),
    }
}

pub fn claim_url(
    base: &str,
    unsecure: bool,
    timestamp: u64,
    receiver: &[u8; 32],
    coal: u64,
    ore: u64,
    chromium: Option<u64>,
) -> (r: Vec<u8>)
    ensures
        r@ == claim_url_spec(base.spec_bytes(), unsecure, timestamp, receiver@, coal, ore, chromium),
{
    let mut out: Vec<u8> = Vec::new();
    if unsecure {
        push_all(&mut out, "http://".as_bytes());
    } else {
        push_all(&mut out, "https://".as_bytes());
    }
    push_all(&mut out, base.as_bytes());
    push_all(&mut out, "/v2/claim?timestamp=".as_bytes());
    push_decimal(&mut out, timestamp);
    push_all(&mut out, "&receiver_pubkey=".as_bytes());
    let r = base58(receiver);
    push_all(&mut out, r.as_slice());
    push_all(&mut out, "&amount_coal=".as_bytes());
    push_decimal(&mut out, coal);
    push_all(&mut out, "&amount_ore=".as_bytes());
    push_decimal(&mut out, ore);
    let ghost before = out@;
    match chromium {
        Some(c) => {
            push_all(&mut out, "&amount_chromium=".as_bytes());
            push_decimal(&mut out, c);
        },
        None => {},
    }
    assert(out@ =~= claim_url_spec(base.spec_bytes(), unsecure, timestamp, receiver@, coal, ore, chromium));
    out
}

/// How the coordinator answered a claim.
#[derive(Clone, Copy, Debug, PartialEq, Eq, Structural)]
pub enum ClaimResponse {
    Success,
    Queued,
    /// Too early: this many seconds have passed since the last claim.
    Cooldown(u64),
    Unexpected,
}

/// Reads the body of the claim endpoint: `SUCCESS`, `QUEUED`, or the seconds since the
/// last claim in decimal.
pub fn read_claim_response(body: &str) -> (r: ClaimResponse)
    ensures
        body.spec_bytes() == "SUCCESS".spec_bytes() ==> r == ClaimResponse::Success,
        body.spec_bytes() == "QUEUED".spec_bytes() ==> r == ClaimResponse::Queued,
        body.spec_bytes() != "SUCCESS".spec_bytes() && body.spec_bytes() != "QUEUED".spec_bytes()
            ==> (r is Cooldown <==> parses_u64(body.spec_bytes())) && (r matches ClaimResponse::Cooldown(
            v,
        ) ==> v == digits_value(unsigned_digits(body.spec_bytes()))) && (r is Success || r is Queued
            ==> false),
{
    let b = body.as_bytes();
    let success = "SUCCESS".as_bytes();
    let queued = "QUEUED".as_bytes();
    proof {
        reveal_strlit("SUCCESS");
        reveal_strlit("QUEUED");
        assert(vstd::string::is_ascii("SUCCESS"));
        assert(vstd::string::is_ascii("QUEUED"));
        vstd::string::is_ascii_spec_bytes("SUCCESS");
        vstd::string::is_ascii_spec_bytes("QUEUED");
    }
    assert(success@.len() != queued@.len());
    if bytes_eq(b, success) {
        ClaimResponse::Success
    } else if bytes_eq(b, queued) {
        ClaimResponse::Queued
    } else {
        match parse_u64(b) {
            Some(v) => ClaimResponse::Cooldown(v),
            None => ClaimResponse::Unexpected,
        }
    }
}

fn bytes_eq(a: &[u8], b: &[u8]) -> (r: bool)
    ensures
        r == (a@ == b@),
{
    if a.len() != b.len() {
        return false;
    }
    let mut i: usize = 0;
    while i < a.len()
        invariant
            i <= a@.len(),
            a@.len() == b@.len(),
            forall|k: int| 0 <= k < i ==> a@[k] == b@[k],
        decreases a@.len() - i,
    {
        if a[i] != b[i] {
            return false;
        }
        i = i + 1;
    }
    assert(a@ =~= b@);
    true
}

/// Minutes and seconds until the next claim, `elapsed` seconds after the last one;
/// zero once the cooldown has passed.
pub fn claim_time_left(elapsed: u64) -> (r: (u64, u64))
    ensures
        r.0 == ((if elapsed >= CLAIM_COOLDOWN_SECS { 0 } else { CLAIM_COOLDOWN_SECS - elapsed }) / 60) % 60,
        r.1 == (if elapsed >= CLAIM_COOLDOWN_SECS { 0 } else { CLAIM_COOLDOWN_SECS - elapsed }) % 60,
{
    let left: u64 = CLAIM_COOLDOWN_SECS.saturating_sub(elapsed);
    ((left / 60) % 60, left % 60)
}

} // verus!
