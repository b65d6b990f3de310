//! The cryptographic primitives the protocol is built on, each one call into
//! an outside crate. Their results are named, not restated.
use vstd::prelude::*;
use aes_frast::{aes_core, aes_with_operation_mode};
use chacha::{ChaCha, KeyStream};
use hmac::{Hmac, Mac};
use sha2::Sha256;

verus! {

/// HMAC-SHA256 of `msg` under `key`.
pub uninterp spec fn hmac_sha256_of(key: Seq<u8>, msg: Seq<u8>) -> Seq<u8>;

/// AES round keys for encryption scheduled from `key`.
pub uninterp spec fn aes_encrypt_subkeys_of(key: Seq<u8>) -> Seq<u32>;

/// AES round keys for decryption scheduled from `key`.
pub uninterp spec fn aes_decrypt_subkeys_of(key: Seq<u8>) -> Seq<u32>;

/// AES-CBC encryption of `plain` under scheduled `subkeys` and `iv`, without padding.
pub uninterp spec fn cbc_encrypt_of(subkeys: Seq<u32>, iv: Seq<u8>, plain: Seq<u8>) -> Seq<u8>;

/// AES-CBC decryption of `cipher` under scheduled `subkeys` and `iv`, without padding.
pub uninterp spec fn cbc_decrypt_of(subkeys: Seq<u32>, iv: Seq<u8>, cipher: Seq<u8>) -> Seq<u8>;

/// The first `len` bytes of the XChaCha20 key stream for `key` and `nonce`.
pub uninterp spec fn xchacha20_keystream(key: Seq<u8>, nonce: Seq<u8>, len: nat) -> Seq<u8>;

/// Byte-wise exclusive or of `data` with the first `data.len()` bytes of `ks`.
pub open spec fn xor_seq(data: Seq<u8>, ks: Seq<u8>) -> Seq<u8> {
    Seq::new(data.len(), |i: int| data[i] ^ ks[i])
}

/// Relies on hmac's `Mac` for `Hmac<Sha256>`: the 32-byte tag of `msg` under `key`.
/// `new_from_slice` accepts keys of every length for HMAC.
#[verifier::external_body]
pub(crate) fn hmac_sha256(key: &[u8], msg: &[u8]) -> (r: [u8; 32])
    ensures
        r@ == hmac_sha256_of(key@, msg@),
{
    let mut mac = <Hmac<Sha256> as Mac>::new_from_slice(key).expect("any key length");
    mac.update(msg);
    let tag = mac.finalize().into_bytes();
    let mut r = [0u8; 32];
    r.copy_from_slice(&tag);
    r
}

/// Relies on aes_frast::aes_core::key_schedule_encrypt_auto: the 60 round keys of AES-256.
#[verifier::external_body]
pub(crate) fn aes256_schedule_encrypt(key: &[u8]) -> (r: Vec<u32>)
    requires
        key@.len() == 32,
    ensures
        r@ == aes_encrypt_subkeys_of(key@),
        r@.len() == 60,
{
    let mut w_keys = vec![0u32; 60];
    aes_core::key_schedule_encrypt_auto(key, &mut w_keys);
    w_keys
}

/// Relies on aes_frast::aes_core::key_schedule_decrypt_auto: the 60 round keys of AES-256.
#[verifier::external_body]
pub(crate) fn aes256_schedule_decrypt(key: &[u8]) -> (r: Vec<u32>)
    requires
        key@.len() == 32,
    ensures
        r@ == aes_decrypt_subkeys_of(key@),
        r@.len() == 60,
{
    let mut w_keys = vec![0u32; 60];
    aes_core::key_schedule_decrypt_auto(key, &mut w_keys);
    w_keys
}

/// Relies on aes_frast::aes_with_operation_mode::cbc_enc: every whole block of
/// `plain` is encrypted into an output of the same length.
#[verifier::external_body]
pub(crate) fn cbc_encrypt(plain: &[u8], subkeys: &[u32], iv: &[u8]) -> (r: Vec<u8>)
    requires
        subkeys@.len() == 60,
        iv@.len() == 16,
        plain@.len() % 16 == 0,
    ensures
        r@ == cbc_encrypt_of(subkeys@, iv@, plain@),
        r@.len() == plain@.len(),
{
    let mut cipher = vec![0u8; plain.len()];
    aes_with_operation_mode::cbc_enc(plain, &mut cipher, subkeys, iv);
    cipher
}

/// Relies on aes_frast::aes_with_operation_mode::cbc_dec: every whole block of
/// `cipher` is decrypted into an output of the same length, and decrypting with the
/// decryption schedule of a key undoes `cbc_enc` with that key's encryption schedule
/// and the same IV (the round trip of `cbc_enc`'s documented example).
#[verifier::external_body]
pub(crate) fn cbc_decrypt(cipher: &[u8], subkeys: &[u32], iv: &[u8]) -> (r: Vec<u8>)
    requires
        subkeys@.len() == 60,
        iv@.len() == 16,
        cipher@.len() % 16 == 0,
    ensures
        r@ == cbc_decrypt_of(subkeys@, iv@, cipher@),
        r@.len() == cipher@.len(),
        forall|key: Seq<u8>, plain: Seq<u8>|
            #![trigger aes_decrypt_subkeys_of(key), cbc_encrypt_of(aes_encrypt_subkeys_of(key), iv@, plain)]
            key.len() == 32 && plain.len() % 16 == 0 && subkeys@ == aes_decrypt_subkeys_of(key)
                && cipher@ == cbc_encrypt_of(aes_encrypt_subkeys_of(key), iv@, plain) ==> r@
                == plain,
{
    let mut plain = vec![0u8; cipher.len()];
    aes_with_operation_mode::cbc_dec(cipher, &mut plain, subkeys, iv);
    plain
}

/// Relies on chacha's `ChaCha::new_xchacha20` and `KeyStream::xor_read`: each byte of
/// `data` is xored with the key stream. An XChaCha20 stream has a 64-bit block counter
/// and ends only after 2^70 bytes, so `xor_read` succeeds on every buffer in memory.
#[verifier::external_body]
pub(crate) fn xchacha20_xor(key: &[u8], nonce: &[u8], data: &[u8]) -> (r: Vec<u8>)
    requires
        key@.len() == 32,
        nonce@.len() == 24,
    ensures
        r@ == xor_seq(data@, xchacha20_keystream(key@, nonce@, data@.len())),
{
    let mut key_ref = [0u8; 32];
    key_ref.copy_from_slice(key);
    let mut nonce_ref = [0u8; 24];
    nonce_ref.copy_from_slice(nonce);
    let mut stream = ChaCha::new_xchacha20(&key_ref, &nonce_ref);
    let mut buffer = data.to_vec();
    stream.xor_read(&mut buffer).expect("an XChaCha20 stream is 2^70 bytes long");
    buffer
}

} // verus!
