use sardine::blob::SrdBlob;
use sardine::cipher::CipherSuite;
use sardine::error::SrdError;
use sardine::initiator::{packet_type, Initiator, InitiatorState};
use sardine::policy::{check_cbt, check_seq, Policy};
use sardine::responder::{Responder, ResponderState};

fn policy(ciphers: u32, cbt: Option<[u8; 32]>) -> Policy {
    Policy { key_size: 256, ciphers, require_cbt: false, cbt }
}

fn peers(ip: Policy, rp: Policy) -> (Initiator, Responder) {
    let creds = SrdBlob::new(b"alice".to_vec(), b"secret".to_vec());
    (Initiator::new(ip, [1u8; 32], creds), Responder::new(rp, [2u8; 32]))
}

fn shared() -> Vec<u8> {
    vec![0x5Au8; 32]
}

/// Runs INITIATE and OFFER; returns the OFFER bytes and the initiator's verdict on them.
fn open_exchange(ini: &mut Initiator, res: &mut Responder) -> (Vec<u8>, Result<(), SrdError>) {
    let m0 = ini.send_initiate().unwrap();
    res.receive_initiate(&m0).unwrap();
    let m1 = res.send_offer([2, 0], vec![0xC3; 32], vec![0x11; 32]).unwrap();
    let r = ini.receive_offer(&m1);
    (m1, r)
}

fn full_run(ip: Policy, rp: Policy) -> (Initiator, Responder, Vec<Vec<u8>>) {
    let (mut ini, mut res) = peers(ip, rp);
    let mut wire = Vec::new();
    let m0 = ini.send_initiate().unwrap();
    res.receive_initiate(&m0).unwrap();
    wire.push(m0);
    let m1 = res.send_offer([2, 0], vec![0xC3; 32], vec![0x11; 32]).unwrap();
    ini.receive_offer(&m1).unwrap();
    wire.push(m1);
    let m2 = ini.send_accept(vec![0x22; 32], shared()).unwrap();
    assert_eq!(res.receive_accept(&m2).unwrap(), vec![0x22; 32]);
    res.verify_accept(shared()).unwrap();
    wire.push(m2);
    let m3 = res.send_confirm().unwrap();
    ini.receive_confirm(&m3).unwrap();
    wire.push(m3);
    let m4 = ini.send_delegate().unwrap();
    res.receive_delegate(&m4).unwrap();
    wire.push(m4);
    let m5 = res.send_result(0).unwrap();
    assert_eq!(ini.receive_result(&m5), Ok(0));
    wire.push(m5);
    (ini, res, wire)
}

#[test]
fn happy_path_without_cbt() {
    let (ini, res, wire) = full_run(policy(0x01, None), policy(0x01, None));
    assert_eq!(ini.state, InitiatorState::GotResult);
    assert_eq!(res.state, ResponderState::SentResult);
    assert_eq!(ini.cipher, CipherSuite::Aes256Cbc);
    assert_eq!(res.credentials(), Some((b"alice".to_vec(), b"secret".to_vec())));
    assert_eq!(wire.len(), 6);
    for (i, m) in wire.iter().enumerate() {
        assert_eq!(&m[0..4], &[0x27, 0xF4, 0x35, 0x1C]);
        assert_eq!(m[4] as usize, i + 1);
        assert_eq!(m[5] as usize, i);
    }
}

#[test]
fn transcripts_equal_at_the_end() {
    let (ini, res, _) = full_run(policy(0x03, None), policy(0x03, None));
    assert_eq!(ini.transcript.len(), 6);
    assert_eq!(ini.transcript, res.transcript);
}

#[test]
fn cipher_negotiation_picks_xchacha() {
    let (ini, res, _) = full_run(policy(0x03, None), policy(0x02, None));
    assert_eq!(ini.cipher, CipherSuite::XChaCha20);
    assert_eq!(res.cipher, CipherSuite::XChaCha20);
    assert_eq!(res.credentials(), Some((b"alice".to_vec(), b"secret".to_vec())));
}

#[test]
fn cipher_mismatch_fails_after_offer() {
    let (mut ini, mut res) = peers(policy(0x01, None), policy(0x02, None));
    let (_, r) = open_exchange(&mut ini, &mut res);
    assert_eq!(r, Err(SrdError::NoCipher));
    assert_eq!(ini.state, InitiatorState::Failed);
    assert_eq!(ini.send_accept(vec![0x22; 32], shared()), Err(SrdError::InvalidState));
}

#[test]
fn cbt_mismatch_on_accept_reports_status_four() {
    let mut other = [9u8; 32];
    other[31] = 8;
    let (mut ini, mut res) = peers(policy(0x01, Some([9u8; 32])), policy(0x01, Some(other)));
    open_exchange(&mut ini, &mut res).1.unwrap();
    let m2 = ini.send_accept(vec![0x22; 32], shared()).unwrap();
    res.receive_accept(&m2).unwrap();
    assert_eq!(res.verify_accept(shared()), Err(SrdError::CbtMismatch));
    assert_eq!(res.state, ResponderState::Failed);
    let status = SrdError::CbtMismatch.status_code();
    assert_eq!(status, 4);
    let m5 = res.send_result(status).unwrap();
    assert_eq!(packet_type(&m5), Some(6));
    assert_eq!(ini.receive_result(&m5), Ok(4));
    assert_eq!(ini.state, InitiatorState::GotResult);
}

#[test]
fn matching_cbt_succeeds() {
    let (ini, res, _) = full_run(policy(0x01, Some([7u8; 32])), policy(0x01, Some([7u8; 32])));
    assert_eq!(ini.state, InitiatorState::GotResult);
    assert_eq!(res.state, ResponderState::SentResult);
}

#[test]
fn cbt_required_but_absent() {
    let mut strict = policy(0x01, None);
    strict.require_cbt = true;
    let (mut ini, mut res) = peers(strict, policy(0x01, None));
    let (_, r) = open_exchange(&mut ini, &mut res);
    assert_eq!(r, Err(SrdError::CbtRequired));
}

#[test]
fn tampered_delegate_is_mac_failure() {
    let (mut ini, mut res) = peers(policy(0x01, None), policy(0x01, None));
    open_exchange(&mut ini, &mut res).1.unwrap();
    let m2 = ini.send_accept(vec![0x22; 32], shared()).unwrap();
    res.receive_accept(&m2).unwrap();
    res.verify_accept(shared()).unwrap();
    let m3 = res.send_confirm().unwrap();
    ini.receive_confirm(&m3).unwrap();
    let mut m4 = ini.send_delegate().unwrap();
    m4[14] ^= 0x01;
    assert_eq!(res.receive_delegate(&m4), Err(SrdError::MacFailure));
    assert_eq!(res.credentials(), None);
    let m5 = res.send_result(SrdError::MacFailure.status_code()).unwrap();
    assert_eq!(&m5[8..12], &[1, 0, 0, 0]);
    // the responder's transcript holds the tampered DELEGATE, so the initiator's check of
    // this RESULT's MAC cannot succeed
    assert_eq!(ini.receive_result(&m5), Err(SrdError::MacFailure));
}

#[test]
fn replayed_offer_is_desync() {
    let (mut ini, mut res) = peers(policy(0x01, None), policy(0x01, None));
    let (m1, r) = open_exchange(&mut ini, &mut res);
    r.unwrap();
    ini.send_accept(vec![0x22; 32], shared()).unwrap();
    assert_eq!(ini.receive_confirm(&m1), Err(SrdError::Desync));
    assert_eq!(ini.state, InitiatorState::Failed);
}

#[test]
fn forged_confirm_is_mac_failure() {
    let (mut ini, mut res) = peers(policy(0x01, None), policy(0x01, None));
    open_exchange(&mut ini, &mut res).1.unwrap();
    let m2 = ini.send_accept(vec![0x22; 32], shared()).unwrap();
    res.receive_accept(&m2).unwrap();
    res.verify_accept(shared()).unwrap();
    let mut m3 = res.send_confirm().unwrap();
    m3[39] ^= 0xFF;
    assert_eq!(ini.receive_confirm(&m3), Err(SrdError::MacFailure));
}

#[test]
fn wrong_shared_secret_fails_accept_mac() {
    let (mut ini, mut res) = peers(policy(0x01, None), policy(0x01, None));
    open_exchange(&mut ini, &mut res).1.unwrap();
    let m2 = ini.send_accept(vec![0x22; 32], shared()).unwrap();
    res.receive_accept(&m2).unwrap();
    assert_eq!(res.verify_accept(vec![0x5B; 32]), Err(SrdError::MacFailure));
}

#[test]
fn responder_rejects_weak_key_size() {
    let mut weak = policy(0x01, None);
    weak.key_size = 128;
    let (mut ini, mut res) = peers(weak, policy(0x01, None));
    let m0 = ini.send_initiate().unwrap();
    assert_eq!(res.receive_initiate(&m0), Err(SrdError::InvalidKeySize));
}

#[test]
fn destroy_zeroes_keys() {
    let (mut ini, mut res, _) = full_run(policy(0x01, None), policy(0x01, None));
    ini.destroy();
    res.destroy();
    for k in [ini.keys.as_ref().unwrap(), res.keys.as_ref().unwrap()] {
        assert!(k.shared.iter().all(|b| *b == 0));
        assert_eq!(k.integrity_key, [0u8; 32]);
        assert_eq!(k.delegation_key, [0u8; 32]);
        assert_eq!(k.iv, [0u8; 32]);
    }
    assert_eq!(ini.state, InitiatorState::GotResult);
}

#[test]
fn policy_checks() {
    assert_eq!(check_seq(3, 3), Ok(()));
    assert_eq!(check_seq(1, 3), Err(SrdError::Desync));
    assert_eq!(check_cbt(false, &None, &None), Ok(()));
    assert_eq!(check_cbt(true, &None, &None), Err(SrdError::CbtRequired));
    assert_eq!(check_cbt(false, &Some([1; 32]), &None), Err(SrdError::CbtMismatch));
    assert_eq!(check_cbt(false, &Some([1; 32]), &Some([1; 32])), Ok(()));
    let mut b = [1u8; 32];
    b[0] = 2;
    assert_eq!(check_cbt(false, &Some([1; 32]), &Some(b)), Err(SrdError::CbtMismatch));
}
