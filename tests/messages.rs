use sardine::legacy::now_auth_srd_challenge::{NowAuthSrdChallenge, NOW_AUTH_SRD_CHALLENGE_ID};
use sardine::error::SrdError;
use sardine::mac::compute_mac;
use sardine::message_types::srd_accept::SrdAccept;
use sardine::message_types::srd_confirm::SrdConfirm;
use sardine::message_types::srd_initiate::SrdInitiate;
use sardine::message_types::srd_offer::SrdOffer;
use sardine::message_types::srd_result::SrdResult;
use sardine::wire::{SRD_ACCEPT_MSG_ID, SRD_FLAG_CBT, SRD_FLAG_MAC, SRD_SIGNATURE};

fn accept_sample(public_key: Vec<u8>, cbt: Option<[u8; 32]>) -> SrdAccept {
    SrdAccept::new(2, 1, 256, public_key, [7u8; 32], cbt, &Vec::new(), &[0u8; 32]).unwrap()
}

#[test]
fn accept_encoding() {
    let msg = SrdAccept::new(
        2,
        0,
        256,
        vec![0u8; 32],
        [0u8; 32],
        Some([0u8; 32]),
        &Vec::new(),
        &[0u8; 32],
    )
    .unwrap();
    assert_eq!(msg.id(), SRD_ACCEPT_MSG_ID);

    let mut buffer: Vec<u8> = Vec::new();
    msg.write_to(&mut buffer);

    match SrdAccept::read_from(buffer.as_slice()) {
        Ok(x) => {
            assert_eq!(x.signature, SRD_SIGNATURE);
            assert_eq!(x, msg);
        }
        Err(_) => assert!(false),
    };
}

#[test]
fn accept_round_trip() {
    let msg = accept_sample(vec![9u8; 32], Some([0u8; 32]));
    assert_eq!(msg.id(), SRD_ACCEPT_MSG_ID);
    let mut buffer: Vec<u8> = Vec::new();
    msg.write_to(&mut buffer);
    assert_eq!(buffer.len(), 16 + 32 + 96);
    let decoded = SrdAccept::read_from(&buffer).unwrap();
    assert_eq!(decoded.signature, SRD_SIGNATURE);
    assert_eq!(decoded, msg);
}

#[test]
fn accept_wire_prolog_is_little_endian() {
    let msg = accept_sample(vec![1u8; 32], None);
    let mut buffer: Vec<u8> = Vec::new();
    msg.write_to(&mut buffer);
    assert_eq!(&buffer[0..8], &[0x27, 0xF4, 0x35, 0x1C, 3, 2, 0x01, 0x00]);
    assert_eq!(&buffer[8..16], &[1, 0, 0, 0, 0x00, 0x01, 0, 0]);
}

#[test]
fn accept_pads_short_public_key() {
    let msg = accept_sample(vec![0xAB, 0xCD], None);
    assert_eq!(msg.public_key.len(), 32);
    assert_eq!(&msg.public_key[..30], &[0u8; 30][..]);
    assert_eq!(&msg.public_key[30..], &[0xAB, 0xCD]);
    assert!(!msg.has_cbt());
}

#[test]
fn accept_flags_follow_cbt() {
    let msg = accept_sample(vec![1u8; 32], Some([5u8; 32]));
    assert!(msg.has_cbt());
    assert_eq!(msg.flags, SRD_FLAG_MAC | SRD_FLAG_CBT);
    assert_eq!(msg.cbt, [5u8; 32]);
}

#[test]
fn accept_rejects_long_public_key() {
    let r = SrdAccept::new(2, 1, 256, vec![0u8; 33], [0u8; 32], None, &Vec::new(), &[0u8; 32]);
    assert_eq!(r, Err(SrdError::Malformed));
}

#[test]
fn accept_mac_covers_transcript() {
    let prev = vec![vec![1u8, 2, 3], vec![4u8, 5]];
    let key = [3u8; 32];
    let msg = SrdAccept::new(2, 1, 256, vec![1u8; 32], [7u8; 32], None, &prev, &key).unwrap();
    let mut inner: Vec<u8> = Vec::new();
    msg.write_inner_buffer(&mut inner);
    assert_eq!(msg.mac, compute_mac(&prev, &inner, &key));
    let mut all = vec![1u8, 2, 3, 4, 5];
    all.extend_from_slice(&inner);
    assert_eq!(msg.mac, compute_mac(&[], &all, &key));
}

#[test]
fn accept_decode_errors() {
    let msg = accept_sample(vec![1u8; 32], None);
    let mut good: Vec<u8> = Vec::new();
    msg.write_to(&mut good);

    let mut bad_sig = good.clone();
    bad_sig[0] ^= 1;
    assert_eq!(SrdAccept::read_from(&bad_sig), Err(SrdError::Malformed));

    let mut bad_type = good.clone();
    bad_type[4] = 7;
    assert_eq!(SrdAccept::read_from(&bad_type), Err(SrdError::Malformed));

    let mut bad_reserved = good.clone();
    bad_reserved[14] = 1;
    assert_eq!(SrdAccept::read_from(&bad_reserved), Err(SrdError::Malformed));

    assert_eq!(SrdAccept::read_from(&good[..good.len() - 1]), Err(SrdError::Malformed));
    assert_eq!(SrdAccept::read_from(&[]), Err(SrdError::Malformed));
}

#[test]
fn initiate_round_trip_and_bytes() {
    let msg = SrdInitiate::new(0, 0x03, 256);
    let mut buffer: Vec<u8> = Vec::new();
    msg.write_to(&mut buffer);
    assert_eq!(
        buffer,
        vec![0x27, 0xF4, 0x35, 0x1C, 1, 0, 0, 0, 3, 0, 0, 0, 0, 1, 0, 0]
    );
    assert_eq!(SrdInitiate::read_from(&buffer), Ok(msg));
}

#[test]
fn offer_round_trip() {
    let msg = SrdOffer::new(1, 0x02, 256, [2, 0], vec![0xFF; 32], vec![1, 2, 3], [4u8; 32], None)
        .unwrap();
    assert_eq!(msg.public_key.len(), 32);
    assert!(!msg.has_cbt());
    let mut buffer: Vec<u8> = Vec::new();
    msg.write_to(&mut buffer);
    assert_eq!(buffer.len(), 18 + 64 + 64);
    assert_eq!(SrdOffer::read_from(&buffer).unwrap(), msg);
}

#[test]
fn offer_rejects_wrong_prime_length() {
    let r = SrdOffer::new(1, 0x02, 256, [2, 0], vec![0xFF; 31], vec![1], [4u8; 32], None);
    assert_eq!(r, Err(SrdError::Malformed));
}

#[test]
fn confirm_and_result_round_trip() {
    let prev = vec![vec![1u8; 16]];
    let confirm = SrdConfirm::new(3, &prev, &[1u8; 32]);
    let mut buffer: Vec<u8> = Vec::new();
    confirm.write_to(&mut buffer);
    assert_eq!(buffer.len(), 40);
    assert_eq!(SrdConfirm::read_from(&buffer), Ok(confirm));

    let result = SrdResult::new(5, 4, &prev, &[1u8; 32]);
    assert!(!result.is_success());
    let mut buffer: Vec<u8> = Vec::new();
    result.write_to(&mut buffer);
    assert_eq!(buffer.len(), 44);
    assert_eq!(&buffer[8..12], &[4, 0, 0, 0]);
    assert_eq!(SrdResult::read_from(&buffer), Ok(result));
}

#[test]
fn sequence_numbers_follow_handshake_order() {
    let i = SrdInitiate::new(0, 1, 256);
    let o = SrdOffer::new(1, 1, 256, [2, 0], vec![1; 32], vec![1; 32], [0; 32], None).unwrap();
    let a = accept_sample(vec![1; 32], None);
    let c = SrdConfirm::new(3, &[], &[0; 32]);
    let r = SrdResult::new(5, 0, &[], &[0; 32]);
    assert_eq!((i.seq_num, o.seq_num, a.seq_num(), c.seq_num, r.seq_num), (0, 1, 2, 3, 5));
    assert!(r.is_success());
}

#[test]
fn legacy_challenge_round_trip() {
    let msg = NowAuthSrdChallenge::new(4, &[2, 0], vec![1, 2, 3, 4], vec![5, 6, 7, 8], [9u8; 32]);
    assert_eq!(msg.get_id(), NOW_AUTH_SRD_CHALLENGE_ID);
    assert_eq!(msg.get_size(), 48);
    let mut buffer: Vec<u8> = Vec::new();
    msg.write_to(&mut buffer);
    assert_eq!(buffer.len(), msg.get_size());
    let back = NowAuthSrdChallenge::read_from(&buffer).unwrap();
    assert_eq!(back.prime, vec![1, 2, 3, 4]);
    assert_eq!(back.public_key, vec![5, 6, 7, 8]);
    assert_eq!(back.generator, [2, 0]);
    assert_eq!(back.nonce, [9u8; 32]);
    assert!(NowAuthSrdChallenge::read_from(&buffer[..47]).is_err());
}

#[test]
fn reencoding_a_decoded_accept_gives_the_input() {
    let mut wire: Vec<u8> = Vec::new();
    accept_sample(vec![3u8; 32], Some([6u8; 32])).write_to(&mut wire);
    wire[5] = 9;
    wire[6] = 0x55;
    wire[120] ^= 0xAA;
    let n = wire.len();
    wire.extend_from_slice(&[1, 2, 3]);
    let decoded = SrdAccept::read_from(&wire).unwrap();
    let mut again: Vec<u8> = Vec::new();
    decoded.write_to(&mut again);
    assert_eq!(again, wire[..n].to_vec());
}
