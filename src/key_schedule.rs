//! Keys derived from the Diffie-Hellman shared secret and both nonces.
use vstd::prelude::*;
use crate::primitives::{hmac_sha256, hmac_sha256_of};
use crate::wire::write_all;

verus! {

/// Label of the integrity key: "integrity".
pub open spec fn integrity_label() -> Seq<u8> {
    seq![105u8, 110, 116, 101, 103, 114, 105, 116, 121]
}

/// Label of the delegation key: "delegation".
pub open spec fn delegation_label() -> Seq<u8> {
    seq![100u8, 101, 108, 101, 103, 97, 116, 105, 111, 110]
}

/// Label of the IV: "iv".
pub open spec fn iv_label() -> Seq<u8> {
    seq![105u8, 118]
}

/// HMAC-SHA256 under the shared secret of both nonces followed by `label`.
pub open spec fn spec_derive(
    shared: Seq<u8>,
    client_nonce: Seq<u8>,
    server_nonce: Seq<u8>,
    label: Seq<u8>,
) -> Seq<u8> {
    hmac_sha256_of(shared, client_nonce + server_nonce + label)
}

/// The keys of one handshake.
pub struct SrdKeys {
    pub shared: Vec<u8>,
    pub integrity_key: [u8; 32],
    pub delegation_key: [u8; 32],
    pub iv: [u8; 32],
}

/// Every byte of `s` is zero.
pub open spec fn all_zero(s: Seq<u8>) -> bool {
    forall|i: int| 0 <= i < s.len() ==> s[i] == 0
}

fn derive_one(shared: &[u8], client_nonce: &[u8; 32], server_nonce: &[u8; 32], label: &[u8]) -> (r:
    [u8; 32])
    ensures
        r@ == spec_derive(shared@, client_nonce@, server_nonce@, label@),
{
    let mut msg: Vec<u8> = Vec::new();
    write_all(&mut msg, client_nonce);
    write_all(&mut msg, server_nonce);
    write_all(&mut msg, label);
    hmac_sha256(shared, msg.as_slice())
}

fn zero_array(a: &mut [u8; 32])
    ensures
        all_zero(final(a)@),
        final(a)@.len() == 32,
{
    let mut i: usize = 0;
    while i < 32
        invariant
            i <= 32,
            a@.len() == 32,
            forall|j: int| 0 <= j < i ==> a@[j] == 0,
        decreases 32 - i,
    {
        a[i] = 0;
        i = i + 1;
    }
}

impl SrdKeys {
    /// Derives the integrity key, the delegation key and the IV from the shared secret.
    pub fn derive(shared: Vec<u8>, client_nonce: &[u8; 32], server_nonce: &[u8; 32]) -> (r:
        SrdKeys)
        ensures
            r.shared@ == shared@,
            r.integrity_key@ == spec_derive(
                shared@,
                client_nonce@,
                server_nonce@,
                integrity_label(),
            ),
            r.delegation_key@ == spec_derive(
                shared@,
                client_nonce@,
                server_nonce@,
                delegation_label(),
            ),
            r.iv@ == spec_derive(shared@, client_nonce@, server_nonce@, iv_label()),
    {
        let integrity: [u8; 9] = [105u8, 110, 116, 101, 103, 114, 105, 116, 121];
        let delegation: [u8; 10] = [100u8, 101, 108, 101, 103, 97, 116, 105, 111, 110];
        let iv_name: [u8; 2] = [105u8, 118];
        assert(integrity@ =~= integrity_label());
        assert(delegation@ =~= delegation_label());
        assert(iv_name@ =~= iv_label());
        let integrity_key = derive_one(shared.as_slice(), client_nonce, server_nonce, &integrity);
        let delegation_key = derive_one(
            shared.as_slice(),
            client_nonce,
            server_nonce,
            &delegation,
        );
        let iv = derive_one(shared.as_slice(), client_nonce, server_nonce, &iv_name);
        SrdKeys { shared, integrity_key, delegation_key, iv }
    }

    /// Overwrites the shared secret and every derived key with zeros.
    pub fn zeroize(&mut self)
        ensures
            final(self).shared@.len() == old(self).shared@.len(),
            all_zero(final(self).shared@),
            all_zero(final(self).integrity_key@),
            all_zero(final(self).delegation_key@),
            all_zero(final(self).iv@),
    {
        let n = self.shared.len();
        let mut i: usize = 0;
        while i < n
            invariant
                i <= n,
                n == self.shared@.len(),
                forall|j: int| 0 <= j < i ==> self.shared@[j] == 0,
            decreases n - i,
        {
            self.shared.set(i, 0u8);
            i = i + 1;
        }
        zero_array(&mut self.integrity_key);
        zero_array(&mut self.delegation_key);
        zero_array(&mut self.iv);
    }
}

} // verus!
