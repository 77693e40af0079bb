use excalivator::claim::{claim_message, claim_time_left, claim_url, read_claim_response, ClaimResponse};
use excalivator::identity::Identity;
use excalivator::net::{handshake_url, parse_timestamp, parse_u64, push_decimal, timestamp_url};
use solana_sdk::pubkey::Pubkey;
use solana_sdk::signature::Keypair;

#[test]
fn timestamp_body_parses_as_u64() {
    assert_eq!(parse_timestamp("1700000000"), Some(1_700_000_000));
    assert_eq!(parse_timestamp("+12"), Some(12));
    assert_eq!(parse_timestamp("18446744073709551615"), Some(u64::MAX));
    assert_eq!(parse_timestamp("18446744073709551616"), None);
    assert_eq!(parse_timestamp(""), None);
    assert_eq!(parse_timestamp("+"), None);
    assert_eq!(parse_timestamp("12a"), None);
    assert_eq!(parse_timestamp("-1"), None);
    assert_eq!(parse_u64(b"007"), Some(7));
}

#[test]
fn decimal_text() {
    let mut out = vec![];
    push_decimal(&mut out, 0);
    push_decimal(&mut out, 1_700_000_000);
    assert_eq!(out, b"01700000000".to_vec());
}

#[test]
fn timestamp_urls() {
    assert_eq!(timestamp_url("pool.example:3000", true), b"http://pool.example:3000/timestamp".to_vec());
    assert_eq!(timestamp_url("pool.example", false), b"https://pool.example/timestamp".to_vec());
}

#[test]
fn delegated_handshake_url_names_the_pubkey() {
    let pk = Pubkey::new_unique();
    let id = Identity::delegated(pk.to_bytes());
    let url = String::from_utf8(handshake_url("pool.example", false, &id, 1_700_000_000)).unwrap();
    assert_eq!(url, format!("wss://pool.example/v2/ws-pubkey?pubkey={}&timestamp=1700000000", pk));
}

#[test]
fn owner_handshake_url_carries_the_timestamp_only() {
    let id = Identity::owner(Keypair::new());
    let url = String::from_utf8(handshake_url("localhost:3000", true, &id, 17)).unwrap();
    assert_eq!(url, "ws://localhost:3000/v2/ws?timestamp=17");
}

#[test]
fn claim_message_layout() {
    let m = claim_message(1, &[2u8; 32], 3, 4, Some(5));
    assert_eq!(m.len(), 8 + 32 + 24);
    assert_eq!(&m[..8], &1u64.to_le_bytes());
    assert_eq!(&m[8..40], &[2u8; 32]);
    assert_eq!(&m[40..48], &3u64.to_le_bytes());
    assert_eq!(&m[56..64], &5u64.to_le_bytes());
    assert_eq!(claim_message(1, &[2u8; 32], 3, 4, None).len(), 56);
}

#[test]
fn claim_url_lists_the_amounts() {
    let r = Pubkey::new_unique();
    let url = String::from_utf8(claim_url("pool.example", false, 9, &r.to_bytes(), 100, 200, Some(300))).unwrap();
    assert_eq!(
        url,
        format!(
            "https://pool.example/v2/claim?timestamp=9&receiver_pubkey={}&amount_coal=100&amount_ore=200&amount_chromium=300",
            r
        )
    );
}

#[test]
fn claim_responses() {
    assert_eq!(read_claim_response("SUCCESS"), ClaimResponse::Success);
    assert_eq!(read_claim_response("QUEUED"), ClaimResponse::Queued);
    assert_eq!(read_claim_response("600"), ClaimResponse::Cooldown(600));
    assert_eq!(read_claim_response("nope"), ClaimResponse::Unexpected);
    assert_eq!(claim_time_left(600), (20, 0));
    assert_eq!(claim_time_left(1799), (0, 1));
    assert_eq!(claim_time_left(5000), (0, 0));
    assert_eq!(claim_time_left(0), (30, 0));
}
