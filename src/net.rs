//! Text exchanged with the coordinator's HTTP and handshake endpoints: URLs, and the
//! decimal numbers in them and in response bodies.
use vstd::prelude::*;
use vstd::string::StringSliceAdditionalSpecFns;

use crate::bytes::push_all;
use crate::identity::{base58, base58_of, Identity};

verus! {

/// `http://` or `https://`.
pub open spec fn http_scheme(unsecure: bool) -> Seq<u8> {
    if unsecure {
        "http://".spec_bytes()
    } else {
        "https://".spec_bytes()
    }
}

/// `ws://` or `wss://`.
pub open spec fn ws_scheme(unsecure: bool) -> Seq<u8> {
    if unsecure {
        "ws://".spec_bytes()
    } else {
        "wss://".spec_bytes()
    }
}

pub open spec fn is_digit(c: u8) -> bool {
    48 <= c <= 57
}

/// The decimal digits of `n`, without leading zeros.
pub open spec fn decimal_digits(n: u64) -> Seq<u8>
    decreases n,
{
    if n < 10 {
        seq![(48 + n) as u8]
    } else {
        decimal_digits(n / 10) + seq![(48 + n % 10) as u8]
    }
}

/// The value of a string of decimal digits.
pub open spec fn digits_value(s: Seq<u8>) -> int
    decreases s.len(),
{
    if s.len() == 0 {
        0
    } else {
        digits_value(s.drop_last()) * 10 + (s.last() - 48)
    }
}

/// A decimal number as `u64`'s `FromStr` reads it: an optional `+`, then digits.
pub open spec fn unsigned_digits(s: Seq<u8>) -> Seq<u8> {
    if s.len() > 0 && s[0] == 43 {
        s.drop_first()
    } else {
        s
    }
}

/// Whether `s` reads as a `u64`.
pub open spec fn parses_u64(s: Seq<u8>) -> bool {
    let d = unsigned_digits(s);
    &&& d.len() > 0
    &&& forall|i: int| 0 <= i < d.len() ==> is_digit(#[trigger] d[i])
    &&& digits_value(d) <= u64::MAX
}

/// Appends the decimal digits of `n`.
pub fn push_decimal(out: &mut Vec<u8>, n: u64)
    ensures
        final(out)@ == old(out)@ + decimal_digits(n),
    decreases n,
{
    if n >= 10 {
        push_decimal(out, n / 10);
    }
    out.push((48 + n % 10) as u8);
    proof {
        if n >= 10 {
            assert(out@ =~= old(out)@ + decimal_digits(n));
        } else {
            assert(out@ =~= old(out)@ + decimal_digits(n));
        }
    }
}

proof fn lemma_digits_value_grows(s: Seq<u8>, k: int)
    requires
        0 <= k <= s.len(),
        forall|i: int| 0 <= i < s.len() ==> is_digit(#[trigger] s[i]),
    ensures
        0 <= digits_value(s.subrange(0, k)) <= digits_value(s),
    decreases s.len(),
{
    if s.len() > 0 {
        let p = s.drop_last();
        assert forall|i: int| 0 <= i < p.len() implies is_digit(#[trigger] p[i]) by {
            assert(p[i] == s[i]);
        }
        if k == s.len() {
            assert(s.subrange(0, k) =~= s);
            lemma_digits_value_grows(p, k - 1);
            assert(p.subrange(0, k - 1) =~= p);
        } else {
            lemma_digits_value_grows(p, k);
            assert(p.subrange(0, k) =~= s.subrange(0, k));
            lemma_digits_value_grows(p, p.len() as int);
            assert(p.subrange(0, p.len() as int) =~= p);
        }
    }
}

/// Reads a `u64` written in decimal, as `u64`'s `FromStr` does: an optional `+` and at
/// least one digit, nothing else, and a value that fits.
pub fn parse_u64(s: &[u8]) -> (r: Option<u64>)
    ensures
        r is Some <==> parses_u64(s@),
        r matches Some(v) ==> v == digits_value(unsigned_digits(s@)),
{
    let n: usize = s.len();
    let start: usize = if n > 0 && s[0] == 43 {
        1
    } else {
        0
    };
    let ghost d = unsigned_digits(s@);
    assert(d =~= s@.subrange(start as int, n as int));
    if start == n {
        return None;
    }
    let mut v: u64 = 0;
    let mut i: usize = start;
    while i < n
        invariant
            start <= i <= n,
            n == s@.len(),
            d == s@.subrange(start as int, n as int),
            d == unsigned_digits(s@),
            forall|k: int| 0 <= k < i - start ==> is_digit(#[trigger] d[k]),
            v == digits_value(d.subrange(0, i - start)),
        decreases n - i,
    {
        let c: u8 = s[i];
        assert(d[i - start] == s@[i as int]);
        if c < 48 || c > 57 {
            assert(!is_digit(d[i - start]));
            return None;
        }
        proof {
            let q = d.subrange(0, i - start + 1);
            assert(q.drop_last() =~= d.subrange(0, i - start));
            assert(q.last() == c);
            assert(digits_value(q) == v * 10 + (c - 48));
            assert(is_digit(d[i - start]) ==> forall|j: int|
                0 <= j <= i - start ==> is_digit(#[trigger] d[j]));
        }
        match v.checked_mul(10) {
            None => {
                proof {
                    lemma_not_parsed_when_prefix_too_big(d, i - start);
                }
                return None;
            },
            Some(m) => match m.checked_add((c - 48) as u64) {
                None => {
                    proof {
                        lemma_not_parsed_when_prefix_too_big(d, i - start);
                    }
                    return None;
                },
                Some(w) => {
                    v = w;
                },
            },
        }
        i = i + 1;
    }
    assert(d.subrange(0, i - start) =~= d);
    Some(v)
}

proof fn lemma_not_parsed_when_prefix_too_big(d: Seq<u8>, k: int)
    requires
        0 <= k < d.len(),
        forall|j: int| 0 <= j <= k ==> is_digit(#[trigger] d[j]),
        digits_value(d.subrange(0, k + 1)) > u64::MAX,
    ensures
        !((forall|i: int| 0 <= i < d.len() ==> is_digit(#[trigger] d[i])) && digits_value(d)
            <= u64::MAX),
{
    if forall|i: int| 0 <= i < d.len() ==> is_digit(#[trigger] d[i]) {
        lemma_digits_value_grows(d, k + 1);
    }
}

/// `{http}://{base}/timestamp`.
pub open spec fn timestamp_url_spec(base: Seq<u8>, unsecure: bool) -> Seq<u8> {
    http_scheme(unsecure) + base + "/timestamp".spec_bytes()
}

/// The URL of the coordinator's timestamp endpoint.
pub fn timestamp_url(base: &str, unsecure: bool) -> (r: Vec<u8>)
    ensures
        r@ == timestamp_url_spec(base.spec_bytes(), unsecure),
{
    let mut out: Vec<u8> = Vec::new();
    if unsecure {
        push_all(&mut out, "http://".as_bytes());
    } else {
        push_all(&mut out, "https://".as_bytes());
    }
    push_all(&mut out, base.as_bytes());
    push_all(&mut out, "/timestamp".as_bytes());
    out
}

/// The handshake URL: `{ws}://{base}/v2/ws?timestamp={t}` for an owner,
/// `{ws}://{base}/v2/ws-pubkey?pubkey={P}&timestamp={t}` for a delegated identity.
pub open spec fn handshake_url_spec(base: Seq<u8>, unsecure: bool, pubkey: Option<Seq<u8>>, timestamp: u64) -> Seq<u8> {
    match pubkey {
        None => ws_scheme(unsecure) + base + "/v2/ws?timestamp=".spec_bytes() + decimal_digits(
            timestamp,
        ),
        Some(p) => ws_scheme(unsecure) + base + "/v2/ws-pubkey?pubkey=".spec_bytes() + base58_of(p)
            + "&timestamp=".spec_bytes() + decimal_digits(timestamp),
    }
}

/// The URL that the duplex session is opened on.
pub fn handshake_url(base: &str, unsecure: bool, id: &Identity, timestamp: u64) -> (r: Vec<u8>)
    ensures
        id.keypair is Some ==> r@ == handshake_url_spec(base.spec_bytes(), unsecure, None, timestamp),
        id.keypair is None ==> r@ == handshake_url_spec(
            base.spec_bytes(),
            unsecure,
            Some(id.pubkey@),
            timestamp,
        ),
{
    let mut out: Vec<u8> = Vec::new();
    if unsecure {
        push_all(&mut out, "ws://".as_bytes());
    } else {
        push_all(&mut out, "wss://".as_bytes());
    }
    push_all(&mut out, base.as_bytes());
    if id.is_owner() {
        push_all(&mut out, "/v2/ws?timestamp=".as_bytes());
    } else {
        push_all(&mut out, "/v2/ws-pubkey?pubkey=".as_bytes());
        let text = base58(&id.pubkey);
        push_all(&mut out, text.as_slice());
        push_all(&mut out, "&timestamp=".as_bytes());
    }
    push_decimal(&mut out, timestamp);
    out
}

/// Reads the body of the timestamp endpoint: unix seconds in decimal.
pub fn parse_timestamp(body: &str) -> (r: Option<u64>)
    ensures
        r is Some <==> parses_u64(body.spec_bytes()),
        r matches Some(v) ==> v == digits_value(unsigned_digits(body.spec_bytes())),
{
    parse_u64(body.as_bytes())
}

} // verus!
