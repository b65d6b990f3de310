use sardine::blob::SrdBlob;
use sardine::cipher::{decrypt_data, encrypt_data, select_cipher, xor_block, CipherSuite};
use sardine::error::SrdError;
use sardine::key_schedule::SrdKeys;
use sardine::mac::{compute_mac, mac_equal, verify_mac};
use sardine::message_types::srd_delegate::SrdDelegate;

fn hex(s: &str) -> Vec<u8> {
    (0..s.len()).step_by(2).map(|i| u8::from_str_radix(&s[i..i + 2], 16).unwrap()).collect()
}

#[test]
fn hmac_known_answer() {
    let mac = compute_mac(&[], b"what do ya want for nothing?", b"Jefe");
    assert_eq!(
        mac.to_vec(),
        hex("5bdcc146bf60754e6a042426089575c75a003f089d2739839dec58b964ec3843")
    );
}

#[test]
fn mac_changes_with_any_prior_byte() {
    let key = [1u8; 32];
    let prev = vec![vec![10u8, 11, 12], vec![13u8, 14]];
    let base = compute_mac(&prev, &[20, 21], &key);
    for k in 0..prev.len() {
        for j in 0..prev[k].len() {
            let mut changed = prev.clone();
            changed[k][j] ^= 0x80;
            assert_ne!(compute_mac(&changed, &[20, 21], &key), base);
            assert!(!verify_mac(&changed, &[20, 21], &key, &base));
        }
    }
    assert!(verify_mac(&prev, &[20, 21], &key, &base));
}

#[test]
fn mac_compare() {
    let a = [3u8; 32];
    let mut b = a;
    assert!(mac_equal(&a, &b));
    b[31] = 4;
    assert!(!mac_equal(&a, &b));
    b = a;
    b[0] = 0;
    assert!(!mac_equal(&a, &b));
}

#[test]
fn aes_known_answer() {
    let key = hex("603deb1015ca71be2b73aef0857d77811f352c073b6108d72d9810a30914dff4");
    let iv = hex("000102030405060708090a0b0c0d0e0f");
    let plain = hex("6bc1bee22e409f96e93d7e117393172a");
    let c = encrypt_data(CipherSuite::Aes256Cbc, &plain, &key, &iv).unwrap();
    assert_eq!(c, hex("f58c4c04d6e5f1ba779eabfb5f7bfbd6"));
    assert_eq!(decrypt_data(CipherSuite::Aes256Cbc, &c, &key, &iv).unwrap(), plain);
}

#[test]
fn cipher_round_trip_all_suites() {
    let key = [0x42u8; 32];
    let iv: Vec<u8> = (0u8..32).collect();
    for suite in [CipherSuite::Aes256Cbc, CipherSuite::XChaCha20] {
        for len in [0usize, 16, 32, 48, 256] {
            let p: Vec<u8> = (0..len).map(|i| (i * 7) as u8).collect();
            let c = encrypt_data(suite, &p, &key, &iv).unwrap();
            assert_eq!(c.len(), p.len());
            if len > 0 {
                assert_ne!(c, p);
            }
            assert_eq!(decrypt_data(suite, &c, &key, &iv).unwrap(), p);
        }
    }
    let odd: Vec<u8> = vec![1, 2, 3, 4, 5];
    let c = encrypt_data(CipherSuite::XChaCha20, &odd, &key, &iv).unwrap();
    assert_eq!(decrypt_data(CipherSuite::XChaCha20, &c, &key, &iv).unwrap(), odd);
}

#[test]
fn cipher_length_errors() {
    let key = [0u8; 32];
    let iv = [0u8; 32];
    assert_eq!(encrypt_data(CipherSuite::Aes256Cbc, &[0u8; 15], &key, &iv), Err(SrdError::Malformed));
    assert_eq!(decrypt_data(CipherSuite::Aes256Cbc, &[0u8; 17], &key, &iv), Err(SrdError::Malformed));
    assert_eq!(encrypt_data(CipherSuite::XChaCha20, &[0u8; 4], &key, &iv[..16]), Err(SrdError::Malformed));
    assert_eq!(encrypt_data(CipherSuite::Aes256Cbc, &[0u8; 16], &key[..31], &iv), Err(SrdError::Malformed));
}

#[test]
fn cipher_negotiation() {
    assert_eq!(select_cipher(0x03, 0x02), Ok(CipherSuite::XChaCha20));
    assert_eq!(select_cipher(0x03, 0x03), Ok(CipherSuite::XChaCha20));
    assert_eq!(select_cipher(0x01, 0x03), Ok(CipherSuite::Aes256Cbc));
    assert_eq!(select_cipher(0x01, 0x02), Err(SrdError::NoCipher));
    assert_eq!(CipherSuite::XChaCha20.iv_len(), 24);
    assert_eq!(CipherSuite::Aes256Cbc.iv_len(), 16);
}

#[test]
fn xor_block_values() {
    let a: Vec<u8> = (0u8..16).collect();
    let b = [0xFFu8; 16];
    let r = xor_block(&a, &b);
    for i in 0..16 {
        assert_eq!(r[i], (i as u8) ^ 0xFF);
    }
}

#[test]
fn blob_round_trip_and_padding() {
    let blob = SrdBlob::new(b"alice".to_vec(), b"secret".to_vec());
    let mut bytes: Vec<u8> = Vec::new();
    blob.write_to(&mut bytes);
    assert_eq!(bytes.len(), 32);
    assert_eq!(&bytes[0..12], &[0x53, 0x52, 0x42, 0x4C, 1, 0, 0, 0, 5, 0, 6, 0]);
    assert_eq!(&bytes[23..], &[0u8; 9]);
    assert_eq!(SrdBlob::read_from(&bytes), Ok(blob));
    let mut bad = bytes.clone();
    bad[0] = 0;
    assert_eq!(SrdBlob::read_from(&bad), Err(SrdError::Malformed));
    assert_eq!(SrdBlob::read_from(&bytes[..20]), Err(SrdError::Malformed));
}

fn keys() -> SrdKeys {
    SrdKeys::derive(vec![0x11u8; 32], &[1u8; 32], &[2u8; 32])
}

#[test]
fn key_schedule_distinct_and_zeroized() {
    let mut k = keys();
    assert_ne!(k.integrity_key, k.delegation_key);
    assert_ne!(k.integrity_key, k.iv);
    assert_eq!(k.integrity_key, keys().integrity_key);
    let other = SrdKeys::derive(vec![0x11u8; 32], &[2u8; 32], &[1u8; 32]);
    assert_ne!(other.integrity_key, k.integrity_key);
    k.zeroize();
    assert_eq!(k.shared, vec![0u8; 32]);
    assert_eq!(k.integrity_key, [0u8; 32]);
    assert_eq!(k.delegation_key, [0u8; 32]);
    assert_eq!(k.iv, [0u8; 32]);
}

#[test]
fn delegate_happy_path_both_suites() {
    let k = keys();
    let prev = vec![vec![1u8; 16], vec![2u8; 20]];
    let blob = SrdBlob::new(b"alice".to_vec(), b"secret".to_vec());
    for suite in [CipherSuite::Aes256Cbc, CipherSuite::XChaCha20] {
        let d = SrdDelegate::new(4, &blob, suite, &prev, &k.integrity_key, &k.delegation_key, &k.iv)
            .unwrap();
        assert_eq!(d.size as usize, d.encrypted_blob.len());
        assert_eq!(d.encrypted_blob.len(), 32);
        let mut wire: Vec<u8> = Vec::new();
        d.write_to(&mut wire);
        let back = SrdDelegate::read_from(&wire).unwrap();
        assert_eq!(back, d);
        let got = back.open(&prev, &k.integrity_key, suite, &k.delegation_key, &k.iv).unwrap();
        assert_eq!(got.username, b"alice".to_vec());
        assert_eq!(got.password, b"secret".to_vec());
    }
}

#[test]
fn delegate_tampered_blob_is_mac_failure() {
    let k = keys();
    let prev = vec![vec![1u8; 16]];
    let blob = SrdBlob::new(b"alice".to_vec(), b"secret".to_vec());
    let mut d = SrdDelegate::new(
        4,
        &blob,
        CipherSuite::Aes256Cbc,
        &prev,
        &k.integrity_key,
        &k.delegation_key,
        &k.iv,
    )
    .unwrap();
    d.encrypted_blob[3] ^= 1;
    let r = d.open(&prev, &k.integrity_key, CipherSuite::Aes256Cbc, &k.delegation_key, &k.iv);
    assert_eq!(r, Err(SrdError::MacFailure));
    assert_eq!(SrdError::MacFailure.status_code(), 1);
}

#[test]
fn delegate_wrong_key_lengths() {
    let blob = SrdBlob::new(b"a".to_vec(), b"b".to_vec());
    let r = SrdDelegate::new(4, &blob, CipherSuite::XChaCha20, &[], &[0u8; 32], &[0u8; 32], &[0u8; 16]);
    assert_eq!(r, Err(SrdError::Malformed));
}

#[test]
fn status_codes() {
    assert_eq!(SrdError::MacFailure.status_code(), 1);
    assert_eq!(SrdError::NoCipher.status_code(), 3);
    assert_eq!(SrdError::CbtMismatch.status_code(), 4);
    assert_eq!(SrdError::Malformed.status_code(), 5);
    assert_eq!(SrdError::CryptoFailure.status_code(), 6);
}

#[test]
fn only_the_iv_prefix_matters() {
    let key = [0x24u8; 32];
    let data: Vec<u8> = (0u8..48).collect();
    let mut iv1 = [3u8; 32];
    let mut iv2 = [3u8; 32];
    iv1[24] = 1;
    iv2[24] = 2;
    for suite in [CipherSuite::Aes256Cbc, CipherSuite::XChaCha20] {
        assert_eq!(encrypt_data(suite, &data, &key, &iv1), encrypt_data(suite, &data, &key, &iv2));
    }
    let mut iv3 = iv1;
    iv3[20] ^= 1;
    assert_eq!(
        encrypt_data(CipherSuite::Aes256Cbc, &data, &key, &iv1),
        encrypt_data(CipherSuite::Aes256Cbc, &data, &key, &iv3)
    );
    assert_ne!(
        encrypt_data(CipherSuite::XChaCha20, &data, &key, &iv1),
        encrypt_data(CipherSuite::XChaCha20, &data, &key, &iv3)
    );
}

#[test]
fn xchacha_is_its_own_inverse() {
    let key = [0x77u8; 32];
    let iv = [0x10u8; 24];
    for len in [1usize, 7, 63, 64, 65, 200] {
        let p: Vec<u8> = (0..len).map(|i| (i * 13) as u8).collect();
        let c = encrypt_data(CipherSuite::XChaCha20, &p, &key, &iv).unwrap();
        assert_eq!(decrypt_data(CipherSuite::XChaCha20, &p, &key, &iv).unwrap(), c);
        assert_eq!(encrypt_data(CipherSuite::XChaCha20, &c, &key, &iv).unwrap(), p);
    }
}
