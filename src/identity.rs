//! Who the client mines for: a delegated public key, or an owner's keypair that signs
//! what it sends.
use vstd::prelude::*;

use base64::Engine;
use solana_sdk::signer::keypair::Keypair;
use solana_sdk::signer::Signer;

use crate::bytes::{le_bytes, push_all, push_u64_le};
use crate::codec::{
    best_solution_layout, encode_best_solution, encode_ready, ready_layout,
    solution_message, solution_message_layout,
};

verus! {

#[verifier::external_type_specification]
#[verifier::external_body]
pub struct ExKeypair(Keypair);

/// The value of a byte string read as a big-endian number.
pub open spec fn big_endian_value(b: Seq<u8>) -> nat
    decreases b.len(),
{
    if b.len() == 0 {
        0
    } else {
        (big_endian_value(b.drop_last()) * 256 + b.last()) as nat
    }
}

/// The number of zero bytes that `b` starts with.
pub open spec fn leading_zero_bytes(b: Seq<u8>) -> nat
    decreases b.len(),
{
    if b.len() == 0 || b[0] != 0 {
        0
    } else {
        1 + leading_zero_bytes(b.drop_first())
    }
}

/// The base58 alphabet `123456789ABCDEFGHJKLMNPQRSTUVWXYZabcdefghijkmnopqrstuvwxyz`.
pub open spec fn base58_digit(d: nat) -> u8 {
    if d < 9 {
        (49 + d) as u8
    } else if d < 17 {
        (65 + d - 9) as u8
    } else if d < 22 {
        (74 + d - 17) as u8
    } else if d < 33 {
        (80 + d - 22) as u8
    } else if d < 44 {
        (97 + d - 33) as u8
    } else {
        (109 + d - 44) as u8
    }
}

/// The base58 digits of `n`, most significant first; none for zero.
pub open spec fn base58_digits(n: nat) -> Seq<u8>
    decreases n,
{
    if n == 0 {
        Seq::empty()
    } else {
        base58_digits(n / 58).push(base58_digit(n % 58))
    }
}

/// The base58 text of a byte string, as ASCII bytes: a `1` for each leading zero byte,
/// then the digits of the number that the bytes spell.
pub open spec fn base58_of(b: Seq<u8>) -> Seq<u8> {
    Seq::new(leading_zero_bytes(b), |i: int| 49u8) + base58_digits(big_endian_value(b))
}

/// The character of a base64 value below 64, in the standard alphabet.
pub open spec fn base64_digit(v: int) -> u8 {
    if v < 26 {
        (65 + v) as u8
    } else if v < 52 {
        (97 + v - 26) as u8
    } else if v < 62 {
        (48 + v - 52) as u8
    } else if v == 62 {
        43u8
    } else {
        47u8
    }
}

/// The standard base64 encoding of `b`, padded with `=`, as ASCII bytes.
pub open spec fn base64_bytes(b: Seq<u8>) -> Seq<u8>
    decreases b.len(),
{
    if b.len() == 0 {
        Seq::empty()
    } else {
        let b0 = b[0] as int;
        let b1 = if b.len() > 1 { b[1] as int } else { 0 };
        let b2 = if b.len() > 2 { b[2] as int } else { 0 };
        let c0 = base64_digit(b0 / 4);
        let c1 = base64_digit((b0 % 4) * 16 + b1 / 16);
        let c2 = base64_digit((b1 % 16) * 4 + b2 / 64);
        let c3 = base64_digit(b2 % 64);
        if b.len() == 1 {
            seq![c0, c1, 61u8, 61u8]
        } else if b.len() == 2 {
            seq![c0, c1, c2, 61u8]
        } else {
            seq![c0, c1, c2, c3] + base64_bytes(b.subrange(3, b.len() as int))
        }
    }
}

/// The standard, padded base64 text of a byte string.
pub open spec fn base64_of(b: Seq<u8>) -> Seq<char> {
    Seq::new(base64_bytes(b).len(), |i: int| base64_bytes(b)[i] as char)
}

/// Relies on `bs58::encode(..).into_vec()` (re-exported by solana-sdk): the base58 text
/// of `b` in the Bitcoin alphabet. Public keys and signatures print this way.
#[verifier::external_body]
pub(crate) fn base58(b: &[u8]) -> (r: Vec<u8>)
    ensures
        r@ == base58_of(b@),
{
    solana_sdk::bs58::encode(b).into_vec()
}

/// Relies on base64's `BASE64_STANDARD.encode`: the padded standard encoding of `b`.
/// It panics only when the encoded length overflows `usize`.
#[verifier::external_body]
fn base64_text(b: &[u8]) -> (r: String)
    requires
        b@.len() <= usize::MAX / 2,
    ensures
        r@ == base64_of(b@),
{
    base64::prelude::BASE64_STANDARD.encode(b)
}

/// Whether solana-sdk's `Keypair::from_bytes` accepts these 64 bytes: a secret key
/// followed by the public key derived from it.
pub uninterp spec fn keypair_accepts(keypair: Seq<u8>) -> bool;

/// The 64-byte ed25519 signature of `message` by the keypair with these bytes.
pub uninterp spec fn signature_of(keypair: Seq<u8>, message: Seq<u8>) -> Seq<u8>;

/// Relies on solana-sdk's `Keypair::from_bytes` and `Signer::sign_message`: none when the
/// bytes are no keypair, else the signature of `message`, which depends on the keypair
/// and the message alone (ed25519 signing is deterministic).
#[verifier::external_body]
fn sign(keypair: &[u8; 64], message: &[u8]) -> (r: Option<[u8; 64]>)
    ensures
        r is Some <==> keypair_accepts(keypair@),
        r matches Some(s) ==> s@ == signature_of(keypair@, message@),
{
    match Keypair::from_bytes(keypair) {
        Ok(k) => Some(k.sign_message(message).into()),
        Err(_) => None,
    }
}

/// Relies on solana-sdk's `Keypair::to_bytes`: the secret key's 32 bytes, then the
/// public key's 32 bytes.
#[verifier::external_body]
fn keypair_bytes(key: &Keypair) -> (r: [u8; 64]) {
    key.to_bytes()
}

/// The identity that frames and the handshake carry. With `keypair` (its 64 bytes), the
/// session is an owner session and every outbound frame is signed; without, it is
/// delegated.
pub struct Identity {
    pub pubkey: [u8; 32],
    pub keypair: Option<[u8; 64]>,
}

/// The `Ready` frame of `pubkey` at `timestamp`, with the text of the 64-byte signature
/// `sig`, or without signature.
pub open spec fn ready_frame_with(pubkey: Seq<u8>, timestamp: u64, sig: Option<Seq<u8>>) -> Seq<u8> {
    match sig {
        Some(s) => ready_layout(pubkey, timestamp, base58_of(s)),
        None => ready_layout(pubkey, timestamp, Seq::empty()),
    }
}

/// The `BestSolution` frame for `digest` and `nonce` of `pubkey`, with the text of the
/// 64-byte signature `sig`, or without signature.
pub open spec fn best_solution_frame_with(
    digest: Seq<u8>,
    nonce: u64,
    pubkey: Seq<u8>,
    sig: Option<Seq<u8>>,
) -> Seq<u8> {
    match sig {
        Some(s) => best_solution_layout(digest, nonce, pubkey, base58_of(s)),
        None => best_solution_layout(digest, nonce, pubkey, Seq::empty()),
    }
}

/// The base64 token of an owner's `Authorization: Basic` header: the public key's text,
/// a colon, and the text of the signature `sig`.
pub open spec fn authorization_with(pubkey: Seq<u8>, sig: Seq<u8>) -> Seq<char> {
    base64_of(base58_of(pubkey) + seq![58u8] + base58_of(sig))
}

/// What an identity's frame with `message` signed is: unsigned for a delegated
/// identity; for an owner, signed with the keypair, and none when the keypair's bytes
/// are refused.
pub open spec fn signed(id: Identity, message: Seq<u8>) -> Option<Option<Seq<u8>>> {
    match id.keypair {
        None => Some(None),
        Some(k) => if keypair_accepts(k@) {
            Some(Some(signature_of(k@, message)))
        } else {
            None
        },
    }
}

impl Identity {
    /// A delegated identity: only the public key is known.
    pub fn delegated(pubkey: [u8; 32]) -> (r: Identity)
        ensures
            r.pubkey == pubkey,
            r.keypair is None,
    {
        Identity { pubkey, keypair: None }
    }

    /// An owner identity, which signs with `key`; its public key is the second half of
    /// the keypair's bytes.
    pub fn owner(key: Keypair) -> (r: Identity)
        ensures
            r.keypair matches Some(k) && r.pubkey@ == k@.subrange(32, 64),
    {
        let bytes = keypair_bytes(&key);
        let mut pubkey = [0u8; 32];
        let mut i: usize = 0;
        while i < 32
            invariant
                i <= 32,
                forall|j: int| 0 <= j < i ==> pubkey@[j] == bytes@[32 + j],
            decreases 32 - i,
        {
            pubkey[i] = bytes[32 + i];
            i = i + 1;
        }
        assert(pubkey@ =~= bytes@.subrange(32, 64));
        Identity { pubkey, keypair: Some(bytes) }
    }

    pub fn is_owner(&self) -> (r: bool)
        ensures
            r == self.keypair is Some,
    {
        self.keypair.is_some()
    }

    /// Signs `message` when the identity is an owner's.
    fn signature(&self, message: &[u8]) -> (r: Option<Option<[u8; 64]>>)
        ensures
            r is Some <==> signed(*self, message@) is Some,
            r matches Some(o) ==> (o is None <==> self.keypair is None) && (o matches Some(s) ==> signed(
                *self,
                message@,
            ) == Some(Some(s@))),
    {
        match &self.keypair {
            None => Some(None),
            Some(k) => match sign(k, message) {
                None => None,
                Some(s) => Some(Some(s)),
            },
        }
    }

    /// The `Ready` frame for `timestamp`: 41 bytes in a delegated session; in an owner
    /// session followed by the text of the keypair's signature of the timestamp's eight
    /// bytes. None when the keypair's bytes are refused.
    pub fn ready_frame(&self, timestamp: u64) -> (r: Option<Vec<u8>>)
        ensures
            r is Some <==> signed(*self, le_bytes(timestamp)) is Some,
            r matches Some(f) ==> f@ == ready_frame_with(
                self.pubkey@,
                timestamp,
                signed(*self, le_bytes(timestamp))->0,
            ),
    {
        let mut msg: Vec<u8> = Vec::new();
        push_u64_le(&mut msg, timestamp);
        assert(msg@ =~= le_bytes(timestamp));
        match self.signature(msg.as_slice()) {
            None => None,
            Some(None) => Some(encode_ready(&self.pubkey, timestamp, &[])),
            Some(Some(sig)) => {
                let text = base58(&sig);
                Some(encode_ready(&self.pubkey, timestamp, text.as_slice()))
            },
        }
    }

    /// The `BestSolution` frame for `digest` and `nonce`: 57 bytes in a delegated
    /// session; in an owner session followed by the text of the keypair's signature of
    /// the digest and the nonce. None when the keypair's bytes are refused.
    pub fn best_solution_frame(&self, digest: &[u8; 16], nonce: u64) -> (r: Option<Vec<u8>>)
        ensures
            r is Some <==> signed(*self, solution_message_layout(digest@, nonce)) is Some,
            r matches Some(f) ==> f@ == best_solution_frame_with(
                digest@,
                nonce,
                self.pubkey@,
                signed(*self, solution_message_layout(digest@, nonce))->0,
            ),
    {
        let msg = solution_message(digest, nonce);
        match self.signature(msg.as_slice()) {
            None => None,
            Some(None) => Some(encode_best_solution(digest, nonce, &self.pubkey, &[])),
            Some(Some(sig)) => {
                let text = base58(&sig);
                Some(encode_best_solution(digest, nonce, &self.pubkey, text.as_slice()))
            },
        }
    }

    /// The token of an `Authorization: Basic` header for `message`: none for a delegated
    /// identity or a refused keypair; for an owner, base64 of the public key's text, a
    /// colon and the text of the keypair's signature of `message`. None too in the case,
    /// out of reach in practice, where the text is too long to encode.
    pub fn authorization_for(&self, message: &[u8]) -> (r: Option<String>)
        ensures
            self.keypair is None ==> r is None,
            r is None ==> (signed(*self, message@) matches Some(Some(s)) ==> base58_of(
                self.pubkey@,
            ).len() + 1 + base58_of(s).len() > usize::MAX / 2),
            r matches Some(t) ==> signed(*self, message@) matches Some(Some(s)) && t@
                == authorization_with(self.pubkey@, s),
    {
        match self.signature(message) {
            Some(Some(sig)) => {
                let mut text = base58(&self.pubkey);
                text.push(58u8);
                let sig_text = base58(&sig);
                push_all(&mut text, sig_text.as_slice());
                assert(text@ =~= base58_of(self.pubkey@) + seq![58u8] + base58_of(sig@));
                if text.len() > usize::MAX / 2 {
                    return None;
                }
                Some(base64_text(text.as_slice()))
            },
            _ => None,
        }
    }

    /// The token of the handshake's `Authorization: Basic` header: what
    /// `authorization_for` gives for the timestamp's eight bytes.
    pub fn authorization(&self, timestamp: u64) -> (r: Option<String>)
        ensures
            self.keypair is None ==> r is None,
            r is None ==> (signed(*self, le_bytes(timestamp)) matches Some(Some(s)) ==> base58_of(
                self.pubkey@,
            ).len() + 1 + base58_of(s).len() > usize::MAX / 2),
            r matches Some(t) ==> signed(*self, le_bytes(timestamp)) matches Some(Some(s)) && t@
                == authorization_with(self.pubkey@, s),
    {
        let mut msg: Vec<u8> = Vec::new();
        push_u64_le(&mut msg, timestamp);
        assert(msg@ =~= le_bytes(timestamp));
        self.authorization_for(msg.as_slice())
    }
}

} // verus!
