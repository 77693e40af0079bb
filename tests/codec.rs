use excalivator::codec::{
    decode_inbound, encode_best_solution, encode_ready, encode_start_mining, process_message,
    solution_message, Inbound, ReaderAction, ServerMessage, TransportMessage,
};

fn start_frame(len: usize) -> Vec<u8> {
    let mut b = vec![0u8];
    for i in 0..32u8 {
        b.push(i + 1);
    }
    b.extend_from_slice(&5u64.to_le_bytes());
    b.extend_from_slice(&1_000u64.to_le_bytes());
    b.extend_from_slice(&1_000_000u64.to_le_bytes());
    b.truncate(len);
    b
}

#[test]
fn start_mining_of_57_bytes_decodes_every_field() {
    match decode_inbound(&start_frame(57)) {
        Inbound::Message(ServerMessage::StartMining { challenge, nonce_start, nonce_end, cutoff }) => {
            assert_eq!(challenge[0], 1);
            assert_eq!(challenge[31], 32);
            assert_eq!(cutoff, 5);
            assert_eq!(nonce_start, 1_000);
            assert_eq!(nonce_end, 1_000_000);
        }
        other => panic!("unexpected {:?}", other),
    }
}

#[test]
fn start_mining_of_exactly_49_bytes_is_accepted() {
    match decode_inbound(&start_frame(49)) {
        Inbound::Message(ServerMessage::StartMining { cutoff, nonce_start, nonce_end, .. }) => {
            assert_eq!(cutoff, 5);
            assert_eq!(nonce_start, 1_000);
            assert_eq!(nonce_end, 0);
        }
        other => panic!("unexpected {:?}", other),
    }
}

#[test]
fn start_mining_of_48_bytes_is_rejected() {
    assert!(matches!(decode_inbound(&start_frame(48)), Inbound::ShortStartMining));
}

#[test]
fn start_mining_round_trip() {
    let mut challenge = [0u8; 32];
    challenge[31] = 1;
    let frame = encode_start_mining(&challenge, 0, 1_000_000, 5);
    assert_eq!(frame.len(), 57);
    match decode_inbound(&frame) {
        Inbound::Message(ServerMessage::StartMining { challenge: c, nonce_start, nonce_end, cutoff }) => {
            assert_eq!(c, challenge);
            assert_eq!(nonce_start, 0);
            assert_eq!(nonce_end, 1_000_000);
            assert_eq!(cutoff, 5);
        }
        other => panic!("unexpected {:?}", other),
    }
}

#[test]
fn start_mining_round_trip_extremes() {
    let challenge = [0xffu8; 32];
    let frame = encode_start_mining(&challenge, u64::MAX, 7, u64::MAX - 1);
    match decode_inbound(&frame) {
        Inbound::Message(ServerMessage::StartMining { challenge: c, nonce_start, nonce_end, cutoff }) => {
            assert_eq!(c, challenge);
            assert_eq!(nonce_start, u64::MAX);
            assert_eq!(nonce_end, 7);
            assert_eq!(cutoff, u64::MAX - 1);
        }
        other => panic!("unexpected {:?}", other),
    }
}

#[test]
fn pool_result_frame_carries_its_payload() {
    match decode_inbound(&vec![1u8, 9, 8, 7]) {
        Inbound::Message(ServerMessage::PoolSubmissionResult(p)) => assert_eq!(p, vec![9u8, 8, 7]),
        other => panic!("unexpected {:?}", other),
    }
}

#[test]
fn unknown_and_empty_frames() {
    assert!(matches!(decode_inbound(&vec![7u8, 1]), Inbound::UnknownType(7)));
    assert!(matches!(decode_inbound(&vec![]), Inbound::Empty));
}

#[test]
fn best_solution_layout_unsigned() {
    let digest = [0xabu8; 16];
    let pubkey = [0x11u8; 32];
    let f = encode_best_solution(&digest, 0x0102030405060708, &pubkey, &[]);
    assert_eq!(f.len(), 57);
    assert_eq!(f[0], 2);
    assert_eq!(&f[1..17], &digest);
    assert_eq!(&f[17..25], &[8u8, 7, 6, 5, 4, 3, 2, 1]);
    assert_eq!(&f[25..57], &pubkey);
}

#[test]
fn best_solution_layout_signed() {
    let sig = vec![b'z'; 88];
    let f = encode_best_solution(&[1u8; 16], 12345, &[2u8; 32], &sig);
    assert_eq!(f.len(), 57 + 88);
    assert_eq!(&f[57..], sig.as_slice());
}

#[test]
fn ready_layout() {
    let f = encode_ready(&[3u8; 32], 1_700_000_000, &[]);
    assert_eq!(f.len(), 41);
    assert_eq!(f[0], 0);
    assert_eq!(&f[1..33], &[3u8; 32]);
    assert_eq!(&f[33..41], &1_700_000_000u64.to_le_bytes());
    let g = encode_ready(&[3u8; 32], 1, &[9u8; 64]);
    assert_eq!(g.len(), 41 + 64);
}

#[test]
fn solution_message_is_digest_then_nonce() {
    let m = solution_message(&[5u8; 16], 1);
    assert_eq!(m.len(), 24);
    assert_eq!(&m[..16], &[5u8; 16]);
    assert_eq!(&m[16..], &1u64.to_le_bytes());
}

#[test]
fn transport_messages_are_sorted() {
    assert!(matches!(process_message(TransportMessage::Close), ReaderAction::Close));
    assert!(matches!(process_message(TransportMessage::Ping), ReaderAction::Ignore));
    match process_message(TransportMessage::Text("hello".to_string())) {
        ReaderAction::Print(t) => assert_eq!(t, "hello"),
        other => panic!("unexpected {:?}", other),
    }
    assert!(matches!(
        process_message(TransportMessage::Binary(vec![0u8; 10])),
        ReaderAction::Frame(Inbound::ShortStartMining)
    ));
}
