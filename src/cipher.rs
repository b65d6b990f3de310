//! Cipher suite negotiation and the encryption of the delegated credentials.
use vstd::prelude::*;
use crate::error::SrdError;
use crate::primitives::{
    aes256_schedule_decrypt, aes256_schedule_encrypt, aes_decrypt_subkeys_of,
    aes_encrypt_subkeys_of, cbc_decrypt, cbc_decrypt_of, cbc_encrypt, cbc_encrypt_of,
    xchacha20_keystream, xchacha20_xor, xor_seq,
};

verus! {

/// Bit of the cipher mask for AES-256-CBC.
pub const SRD_CIPHER_AES256: u32 = 0x01;
/// Bit of the cipher mask for XChaCha20.
pub const SRD_CIPHER_XCHACHA20: u32 = 0x02;

#[derive(Debug, Clone, Copy, PartialEq, Eq, Structural)]
pub enum CipherSuite {
    Aes256Cbc,
    XChaCha20,
}

/// The bit that names a suite in a cipher mask.
pub open spec fn spec_cipher_bit(c: CipherSuite) -> u32 {
    match c {
        CipherSuite::Aes256Cbc => SRD_CIPHER_AES256,
        CipherSuite::XChaCha20 => SRD_CIPHER_XCHACHA20,
    }
}

/// The suite both masks allow whose bit is highest.
pub open spec fn spec_select_cipher(local: u32, remote: u32) -> Option<CipherSuite> {
    let common = local & remote;
    if common & SRD_CIPHER_XCHACHA20 != 0 {
        Some(CipherSuite::XChaCha20)
    } else if common & SRD_CIPHER_AES256 != 0 {
        Some(CipherSuite::Aes256Cbc)
    } else {
        None
    }
}

impl CipherSuite {
    pub fn bit(&self) -> (r: u32)
        ensures
            r == spec_cipher_bit(*self),
    {
        match self {
            CipherSuite::Aes256Cbc => SRD_CIPHER_AES256,
            CipherSuite::XChaCha20 => SRD_CIPHER_XCHACHA20,
        }
    }

    /// The suite a single cipher value names, as chosen in ACCEPT.
    pub fn from_bit(cipher: u32) -> (r: Option<CipherSuite>)
        ensures
            r == (if cipher == SRD_CIPHER_AES256 {
                Some(CipherSuite::Aes256Cbc)
            } else if cipher == SRD_CIPHER_XCHACHA20 {
                Some(CipherSuite::XChaCha20)
            } else {
                None
            }),
    {
        if cipher == SRD_CIPHER_AES256 {
            Some(CipherSuite::Aes256Cbc)
        } else if cipher == SRD_CIPHER_XCHACHA20 {
            Some(CipherSuite::XChaCha20)
        } else {
            None
        }
    }

    /// Bytes of the derived IV this suite uses.
    pub fn iv_len(&self) -> (r: usize)
        ensures
            r == spec_iv_len(*self),
    {
        match self {
            CipherSuite::Aes256Cbc => 16,
            CipherSuite::XChaCha20 => 24,
        }
    }
}

pub open spec fn spec_iv_len(c: CipherSuite) -> nat {
    match c {
        CipherSuite::Aes256Cbc => 16,
        CipherSuite::XChaCha20 => 24,
    }
}

/// Picks the highest-bit suite present in both masks; `NoCipher` when they share none.
pub fn select_cipher(local: u32, remote: u32) -> (r: Result<CipherSuite, SrdError>)
    ensures
        r == (match spec_select_cipher(local, remote) {
            Some(c) => Ok(c),
            None => Err(SrdError::NoCipher),
        }),
{
    let common = local & remote;
    if common & SRD_CIPHER_XCHACHA20 != 0 {
        Ok(CipherSuite::XChaCha20)
    } else if common & SRD_CIPHER_AES256 != 0 {
        Ok(CipherSuite::Aes256Cbc)
    } else {
        Err(SrdError::NoCipher)
    }
}

/// Whether `key` and `iv` are long enough for `cipher`.
pub open spec fn key_material_ok(cipher: CipherSuite, key: Seq<u8>, iv: Seq<u8>) -> bool {
    key.len() == 32 && iv.len() >= spec_iv_len(cipher)
}

/// Whether `data` has a length `cipher` can take.
pub open spec fn length_ok(cipher: CipherSuite, data: Seq<u8>) -> bool {
    cipher == CipherSuite::XChaCha20 || data.len() % 16 == 0
}

/// AES-256-CBC encryption of block-aligned `data`.
pub open spec fn spec_aes_encrypt(data: Seq<u8>, key: Seq<u8>, iv: Seq<u8>) -> Seq<u8> {
    cbc_encrypt_of(aes_encrypt_subkeys_of(key), iv.subrange(0, 16), data)
}

/// AES-256-CBC decryption of block-aligned `data`.
pub open spec fn spec_aes_decrypt(data: Seq<u8>, key: Seq<u8>, iv: Seq<u8>) -> Seq<u8> {
    cbc_decrypt_of(aes_decrypt_subkeys_of(key), iv.subrange(0, 16), data)
}

/// XChaCha20 applied to `data`; encryption and decryption are the same operation.
pub open spec fn spec_xchacha(data: Seq<u8>, key: Seq<u8>, iv: Seq<u8>) -> Seq<u8> {
    xor_seq(data, xchacha20_keystream(key, iv.subrange(0, 24), data.len()))
}

/// Encryption of `data` under `cipher`.
pub open spec fn spec_encrypt(cipher: CipherSuite, data: Seq<u8>, key: Seq<u8>, iv: Seq<u8>) -> Seq<
    u8,
> {
    match cipher {
        CipherSuite::Aes256Cbc => spec_aes_encrypt(data, key, iv),
        CipherSuite::XChaCha20 => spec_xchacha(data, key, iv),
    }
}

/// Decryption of `data` under `cipher`.
pub open spec fn spec_decrypt(cipher: CipherSuite, data: Seq<u8>, key: Seq<u8>, iv: Seq<u8>) -> Seq<
    u8,
> {
    match cipher {
        CipherSuite::Aes256Cbc => spec_aes_decrypt(data, key, iv),
        CipherSuite::XChaCha20 => spec_xchacha(data, key, iv),
    }
}

/// Plaintext lengths that `cipher` encrypts whole.
pub open spec fn plain_len_ok(cipher: CipherSuite, p: Seq<u8>) -> bool {
    cipher == CipherSuite::XChaCha20 || p.len() % 16 == 0
}

/// `out` is every plaintext whose encryption under `cipher`, `key` and `iv` is `data`.
pub open spec fn inverts(
    cipher: CipherSuite,
    data: Seq<u8>,
    key: Seq<u8>,
    iv: Seq<u8>,
    out: Seq<u8>,
) -> bool {
    forall|p: Seq<u8>|
        #![trigger spec_encrypt(cipher, p, key, iv)]
        plain_len_ok(cipher, p) && data == spec_encrypt(cipher, p, key, iv) ==> out == p
}

/// Shared contract of `encrypt_data` and `decrypt_data`; `aes` is the AES-CBC direction.
pub open spec fn cipher_outcome(
    cipher: CipherSuite,
    data: Seq<u8>,
    key: Seq<u8>,
    iv: Seq<u8>,
    aes: Seq<u8>,
    r: Result<Vec<u8>, SrdError>,
) -> bool {
    if !key_material_ok(cipher, key, iv) || !length_ok(cipher, data) {
        r == Err::<Vec<u8>, SrdError>(SrdError::Malformed)
    } else {
        match cipher {
            CipherSuite::Aes256Cbc => r matches Ok(v) && v@ == aes,
            CipherSuite::XChaCha20 => r matches Ok(v) && v@ == spec_xchacha(data, key, iv),
        }
    }
}

fn check_material(cipher: CipherSuite, data: &[u8], key: &[u8], iv: &[u8]) -> (r: bool)
    ensures
        r == (key_material_ok(cipher, key@, iv@) && length_ok(cipher, data@)),
{
    if key.len() != 32 || iv.len() < cipher.iv_len() {
        return false;
    }
    match cipher {
        CipherSuite::Aes256Cbc => data.len() % 16 == 0,
        CipherSuite::XChaCha20 => true,
    }
}

/// Encrypts `data` under `cipher` with the delegation key and the derived IV, of
/// which AES-CBC uses the first 16 bytes and XChaCha20 the first 24.
pub fn encrypt_data(cipher: CipherSuite, data: &[u8], key: &[u8], iv: &[u8]) -> (r: Result<
    Vec<u8>,
    SrdError,
>)
    ensures
        cipher_outcome(cipher, data@, key@, iv@, spec_aes_encrypt(data@, key@, iv@), r),
        r matches Ok(v) ==> v@.len() == data@.len(),
{
    if !check_material(cipher, data, key, iv) {
        return Err(SrdError::Malformed);
    }
    match cipher {
        CipherSuite::Aes256Cbc => {
            let w_keys = aes256_schedule_encrypt(key);
            let short_iv = &iv[0..16];
            Ok(cbc_encrypt(data, w_keys.as_slice(), short_iv))
        },
        CipherSuite::XChaCha20 => Ok(xchacha20_xor(key, &iv[0..24], data)),
    }
}

/// Decrypts `data` under `cipher`; the inverse of `encrypt_data`.
pub fn decrypt_data(cipher: CipherSuite, data: &[u8], key: &[u8], iv: &[u8]) -> (r: Result<
    Vec<u8>,
    SrdError,
>)
    ensures
        cipher_outcome(cipher, data@, key@, iv@, spec_aes_decrypt(data@, key@, iv@), r),
        r matches Ok(v) ==> v@.len() == data@.len(),
        r matches Ok(v) ==> inverts(cipher, data@, key@, iv@, v@),
{
    if !check_material(cipher, data, key, iv) {
        return Err(SrdError::Malformed);
    }
    match cipher {
        CipherSuite::Aes256Cbc => {
            let w_keys = aes256_schedule_decrypt(key);
            let short_iv = &iv[0..16];
            let v = cbc_decrypt(data, w_keys.as_slice(), short_iv);
            assert(short_iv@ == iv@.subrange(0, 16));
            Ok(v)
        },
        CipherSuite::XChaCha20 => {
            let v = xchacha20_xor(key, &iv[0..24], data);
            assert forall|p: Seq<u8>|
                #![trigger spec_encrypt(cipher, p, key@, iv@)]
                plain_len_ok(cipher, p) && data@ == spec_encrypt(cipher, p, key@, iv@) implies v@
                == p by {
                lemma_xchacha_round_trip(p, key@, iv@);
            }
            Ok(v)
        },
    }
}

/// Exclusive or of two 16-byte blocks.
pub fn xor_block(a: &[u8], b: &[u8]) -> (r: [u8; 16])
    requires
        a@.len() >= 16,
        b@.len() >= 16,
    ensures
        forall|i: int| 0 <= i < 16 ==> r@[i] == a@[i] ^ b@[i],
{
    let mut result = [0u8; 16];
    let mut i: usize = 0;
    while i < 16
        invariant
            i <= 16,
            a@.len() >= 16,
            b@.len() >= 16,
            result@.len() == 16,
            forall|j: int| 0 <= j < i ==> result@[j] == a@[j] ^ b@[j],
        decreases 16 - i,
    {
        result[i] = a[i] ^ b[i];
        i = i + 1;
    }
    result
}

/// Applying XChaCha20 twice with the same key and IV gives the data back.
pub proof fn lemma_xchacha_round_trip(data: Seq<u8>, key: Seq<u8>, iv: Seq<u8>)
    ensures
        spec_xchacha(spec_xchacha(data, key, iv), key, iv) == data,
{
    let ks = xchacha20_keystream(key, iv.subrange(0, 24), data.len());
    let once = spec_xchacha(data, key, iv);
    assert forall|i: int| 0 <= i < data.len() implies #[trigger] xor_seq(once, ks)[i] == data[i] by {
        let d = data[i];
        let k = ks[i];
        assert((d ^ k) ^ k == d) by (bit_vector);
    }
    assert(spec_xchacha(once, key, iv) =~= data);
}

} // verus!
