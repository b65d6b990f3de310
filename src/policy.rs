//! The checks each peer applies to what the other advertises.
use vstd::prelude::*;
use crate::cipher::{spec_cipher_bit, spec_select_cipher, select_cipher, CipherSuite};
use crate::error::SrdError;

verus! {

/// What one peer accepts and advertises.
#[derive(Debug, Clone, Copy, PartialEq, Eq)]
pub struct Policy {
    /// Requested DH strength in bits for the initiator, the minimum accepted for the responder.
    pub key_size: u16,
    /// Acceptable cipher suites, as a mask.
    pub ciphers: u32,
    /// Reject handshakes without channel binding.
    pub require_cbt: bool,
    /// Channel binding hash to advertise.
    pub cbt: Option<[u8; 32]>,
}

pub open spec fn key_size_ok(key_size: u16) -> bool {
    key_size == 256 || key_size == 512 || key_size == 1024
}

/// Whether a key size in bits is one the protocol allows.
pub fn is_valid_key_size(key_size: u16) -> (r: bool)
    ensures
        r == key_size_ok(key_size),
{
    key_size == 256 || key_size == 512 || key_size == 1024
}

/// An inbound message must carry the sequence number of its place in the handshake.
pub fn check_seq(seq_num: u8, expected: u8) -> (r: Result<(), SrdError>)
    ensures
        r == (if seq_num == expected {
            Ok::<(), SrdError>(())
        } else {
            Err(SrdError::Desync)
        }),
{
    if seq_num == expected {
        Ok(())
    } else {
        Err(SrdError::Desync)
    }
}

/// The channel binding rule: when either side binds, both must carry the same hash.
pub open spec fn spec_check_cbt(
    require_cbt: bool,
    local: Option<Seq<u8>>,
    remote: Option<Seq<u8>>,
) -> Result<(), SrdError> {
    if require_cbt && remote is None {
        Err(SrdError::CbtRequired)
    } else {
        match (local, remote) {
            (None, None) => Ok(()),
            (Some(a), Some(b)) => if a == b {
                Ok(())
            } else {
                Err(SrdError::CbtMismatch)
            },
            _ => Err(SrdError::CbtMismatch),
        }
    }
}

pub open spec fn opt_view(o: Option<[u8; 32]>) -> Option<Seq<u8>> {
    match o {
        Some(a) => Some(a@),
        None => None,
    }
}

/// Checks the peer's channel binding against the local policy.
pub fn check_cbt(require_cbt: bool, local: &Option<[u8; 32]>, remote: &Option<[u8; 32]>) -> (r:
    Result<(), SrdError>)
    ensures
        r == spec_check_cbt(require_cbt, opt_view(*local), opt_view(*remote)),
{
    if require_cbt && remote.is_none() {
        return Err(SrdError::CbtRequired);
    }
    match local {
        None => if remote.is_none() {
            Ok(())
        } else {
            Err(SrdError::CbtMismatch)
        },
        Some(a) => match remote {
            None => Err(SrdError::CbtMismatch),
            Some(b) => if same_hash(a, b) {
                Ok(())
            } else {
                Err(SrdError::CbtMismatch)
            },
        },
    }
}

fn same_hash(a: &[u8; 32], b: &[u8; 32]) -> (r: bool)
    ensures
        r == (a@ == b@),
{
    let mut i: usize = 0;
    while i < 32
        invariant
            i <= 32,
            forall|j: int| 0 <= j < i ==> a@[j] == b@[j],
        decreases 32 - i,
    {
        if a[i] != b[i] {
            assert(a@[i as int] != b@[i as int]);
            return false;
        }
        i = i + 1;
    }
    assert(a@ =~= b@);
    true
}

/// The initiator's checks on OFFER: channel binding when its policy requires it, then a
/// common cipher. The hashes themselves are compared by the responder on ACCEPT.
pub open spec fn spec_check_offer(
    policy: Policy,
    offer_mask: u32,
    offer_cbt: Option<Seq<u8>>,
) -> Result<CipherSuite, SrdError> {
    if policy.require_cbt && offer_cbt is None {
        Err(SrdError::CbtRequired)
    } else {
        match spec_select_cipher(policy.ciphers, offer_mask) {
            Some(c) => Ok(c),
            None => Err(SrdError::NoCipher),
        }
    }
}

pub fn check_offer(policy: &Policy, offer_mask: u32, offer_cbt: &Option<[u8; 32]>) -> (r: Result<
    CipherSuite,
    SrdError,
>)
    ensures
        r == spec_check_offer(*policy, offer_mask, opt_view(*offer_cbt)),
{
    if policy.require_cbt && offer_cbt.is_none() {
        return Err(SrdError::CbtRequired);
    }
    select_cipher(policy.ciphers, offer_mask)
}

/// The responder's checks on ACCEPT: the chosen cipher is one it advertised, and the
/// channel binding matches.
pub open spec fn spec_check_accept(
    policy: Policy,
    chosen: u32,
    accept_cbt: Option<Seq<u8>>,
) -> Result<CipherSuite, SrdError> {
    let suite = if chosen == spec_cipher_bit(CipherSuite::Aes256Cbc) {
        Some(CipherSuite::Aes256Cbc)
    } else if chosen == spec_cipher_bit(CipherSuite::XChaCha20) {
        Some(CipherSuite::XChaCha20)
    } else {
        None
    };
    match suite {
        None => Err(SrdError::NoCipher),
        Some(c) => if policy.ciphers & chosen == 0 {
            Err(SrdError::NoCipher)
        } else {
            match spec_check_cbt(policy.require_cbt, opt_view(policy.cbt), accept_cbt) {
                Err(e) => Err(e),
                Ok(_) => Ok(c),
            }
        },
    }
}

pub fn check_accept(policy: &Policy, chosen: u32, accept_cbt: &Option<[u8; 32]>) -> (r: Result<
    CipherSuite,
    SrdError,
>)
    ensures
        r == spec_check_accept(*policy, chosen, opt_view(*accept_cbt)),
{
    let suite = match CipherSuite::from_bit(chosen) {
        None => {
            return Err(SrdError::NoCipher);
        },
        Some(c) => c,
    };
    if policy.ciphers & chosen == 0 {
        return Err(SrdError::NoCipher);
    }
    check_cbt(policy.require_cbt, &policy.cbt, accept_cbt)?;
    Ok(suite)
}

} // verus!
