use std::str::FromStr;

use base64::Engine;
use excalivator::codec::solution_message;
use excalivator::identity::Identity;
use solana_sdk::pubkey::Pubkey;
use solana_sdk::signature::{Keypair, Signature};
use solana_sdk::signer::Signer;

#[test]
fn delegated_frames_carry_no_signature() {
    let pk = [4u8; 32];
    let id = Identity::delegated(pk);
    assert!(!id.is_owner());
    let ready = id.ready_frame(1_700_000_000).unwrap();
    assert_eq!(ready.len(), 41);
    assert_eq!(&ready[1..33], &pk);
    let best = id.best_solution_frame(&[6u8; 16], 67890).unwrap();
    assert_eq!(best.len(), 57);
    assert_eq!(best[0], 2);
    assert_eq!(&best[17..25], &67890u64.to_le_bytes());
    assert!(id.authorization(1).is_none());
}

#[test]
fn owner_frames_carry_a_valid_signature_text() {
    let key = Keypair::new();
    let pubkey = key.pubkey();
    let bytes = key.to_bytes();
    let id = Identity::owner(key);
    assert!(id.is_owner());
    assert_eq!(id.pubkey, pubkey.to_bytes());
    assert_eq!(id.keypair, Some(bytes));

    let best = id.best_solution_frame(&[6u8; 16], 67890).unwrap();
    assert!(best.len() > 57 && best.len() <= 57 + 88);
    assert_eq!(&best[25..57], &pubkey.to_bytes());
    let sig = Signature::from_str(std::str::from_utf8(&best[57..]).unwrap()).unwrap();
    assert!(sig.verify(&pubkey.to_bytes(), &solution_message(&[6u8; 16], 67890)));
    let expected = Keypair::from_bytes(&bytes).unwrap().sign_message(&solution_message(&[6u8; 16], 67890));
    assert_eq!(&best[57..], expected.to_string().as_bytes());

    let ready = id.ready_frame(42).unwrap();
    let sig = Signature::from_str(std::str::from_utf8(&ready[41..]).unwrap()).unwrap();
    assert!(sig.verify(&pubkey.to_bytes(), &42u64.to_le_bytes()));
}

#[test]
fn owner_authorization_is_base64_of_pubkey_colon_signature() {
    let key = Keypair::new();
    let pubkey = key.pubkey();
    let id = Identity::owner(key);
    let token = id.authorization(1_700_000_000).unwrap();
    let text = String::from_utf8(base64::prelude::BASE64_STANDARD.decode(token).unwrap()).unwrap();
    let (p, s) = text.split_once(':').unwrap();
    assert_eq!(Pubkey::from_str(p).unwrap(), pubkey);
    let sig = Signature::from_str(s).unwrap();
    assert!(sig.verify(&pubkey.to_bytes(), &1_700_000_000u64.to_le_bytes()));
}

#[test]
fn refused_keypair_bytes_give_no_frame() {
    let id = Identity { pubkey: [1u8; 32], keypair: Some([1u8; 64]) };
    assert!(id.ready_frame(1).is_none());
    assert!(id.best_solution_frame(&[0u8; 16], 1).is_none());
    assert!(id.authorization(1).is_none());
}
