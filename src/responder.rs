//! The responder's side of the handshake. Between steps the caller does the outside
//! work: it draws the nonce, runs the Diffie-Hellman exchange and moves the bytes.
use vstd::prelude::*;
use crate::blob::{blob_parse, SrdBlob};
use crate::cipher::{spec_decrypt, CipherSuite};
use crate::error::SrdError;
use crate::initiator::to_vec;
use crate::key_schedule::{all_zero, integrity_label, spec_derive, SrdKeys};
use crate::mac::{spec_mac, verify_mac, views};
use crate::message_types::srd_accept::{
    accept_inner, accept_parse, key_bytes, AcceptModel, SrdAccept,
};
use crate::message_types::srd_confirm::{confirm_inner, confirm_parse, SrdConfirm};
use crate::message_types::srd_delegate::{
    delegate_inner, delegate_open_error, delegate_parse, SrdDelegate,
};
use crate::message_types::srd_initiate::{initiate_bytes, initiate_parse, SrdInitiate};
use crate::message_types::srd_offer::{offer_bytes, offer_parse, SrdOffer};
use crate::message_types::srd_result::{result_inner, result_parse, SrdResult};
use crate::policy::{check_accept, is_valid_key_size, key_size_ok, spec_check_accept, Policy};
use crate::wire::{spec_expand_start, SRD_FLAG_CBT};

verus! {

#[derive(Debug, Clone, Copy, PartialEq, Eq, Structural)]
pub enum ResponderState {
    WaitInitiate,
    GotInitiate,
    SentOffer,
    AcceptParsed,
    GotAccept,
    SentConfirm,
    GotDelegate,
    SentResult,
    Failed,
}

pub struct Responder {
    pub policy: Policy,
    pub state: ResponderState,
    /// Inner bytes of every message so far, in wire order.
    pub transcript: Vec<Vec<u8>>,
    pub nonce: [u8; 32],
    pub key_size: u16,
    pub accept: Option<SrdAccept>,
    pub cipher: CipherSuite,
    pub keys: Option<SrdKeys>,
    pub credentials: Option<SrdBlob>,
}

/// The channel binding an ACCEPT carries, if its flag says so.
pub open spec fn accept_cbt(m: AcceptModel) -> Option<Seq<u8>> {
    if m.flags & SRD_FLAG_CBT != 0 {
        Some(m.cbt)
    } else {
        None
    }
}

/// What receiving `b` as INITIATE yields: its key size, which the responder accepts when
/// it is a protocol size no weaker than its own minimum.
pub open spec fn initiate_outcome(state: ResponderState, policy: Policy, b: Seq<u8>) -> Result<
    SrdInitiate,
    SrdError,
> {
    if state != ResponderState::WaitInitiate {
        Err(SrdError::InvalidState)
    } else {
        match initiate_parse(b) {
            None => Err(SrdError::Malformed),
            Some(m) => if m.seq_num != 0 {
                Err(SrdError::Desync)
            } else if !key_size_ok(m.key_size) || m.key_size < policy.key_size {
                Err(SrdError::InvalidKeySize)
            } else {
                Ok(m)
            },
        }
    }
}

impl Responder {
    pub open spec fn tv(&self) -> Seq<Seq<u8>> {
        views(self.transcript@)
    }

    /// A session for `policy` with a fresh `nonce`.
    pub fn new(policy: Policy, nonce: [u8; 32]) -> (r: Responder)
        ensures
            r.state == ResponderState::WaitInitiate,
            r.tv() == Seq::<Seq<u8>>::empty(),
            r.policy == policy,
            r.nonce == nonce,
            r.keys is None,
            r.credentials is None,
    {
        let r = Responder {
            policy,
            state: ResponderState::WaitInitiate,
            transcript: Vec::new(),
            nonce,
            key_size: 0,
            accept: None,
            cipher: CipherSuite::Aes256Cbc,
            keys: None,
            credentials: None,
        };
        assert(r.tv() =~= Seq::<Seq<u8>>::empty());
        r
    }

    fn fail(&mut self, e: SrdError) -> (r: Result<(), SrdError>)
        ensures
            r == Err::<(), SrdError>(e),
            final(self).state == ResponderState::Failed,
            final(self).tv() == old(self).tv(),
            final(self).keys == old(self).keys,
            final(self).credentials == old(self).credentials,
    {
        self.state = ResponderState::Failed;
        Err(e)
    }

    /// Takes INITIATE and keeps the requested key size.
    pub fn receive_initiate(&mut self, bytes: &[u8]) -> (r: Result<(), SrdError>)
        ensures
            match initiate_outcome(old(self).state, old(self).policy, bytes@) {
                Err(e) => r == Err::<(), SrdError>(e) && final(self).state
                    == ResponderState::Failed,
                Ok(m) => {
                    &&& r is Ok
                    &&& final(self).state == ResponderState::GotInitiate
                    &&& final(self).key_size == m.key_size
                    &&& final(self).tv() == old(self).tv().push(initiate_bytes(m))
                },
            },
    {
        if self.state != ResponderState::WaitInitiate {
            return self.fail(SrdError::InvalidState);
        }
        let m = match SrdInitiate::read_from(bytes) {
            Ok(m) => m,
            Err(e) => {
                return self.fail(e);
            },
        };
        if m.seq_num != 0 {
            return self.fail(SrdError::Desync);
        }
        if !is_valid_key_size(m.key_size) || m.key_size < self.policy.key_size {
            return self.fail(SrdError::InvalidKeySize);
        }
        let mut full: Vec<u8> = Vec::new();
        m.write_to(&mut full);
        let ghost before = self.tv();
        self.transcript.push(full);
        assert(self.tv() =~= before.push(initiate_bytes(m)));
        self.key_size = m.key_size;
        self.state = ResponderState::GotInitiate;
        Ok(())
    }

    /// Sends OFFER with the DH group and the responder's public key.
    pub fn send_offer(&mut self, generator: [u8; 2], prime: Vec<u8>, public_key: Vec<u8>) -> (r:
        Result<Vec<u8>, SrdError>)
        ensures
            match r {
                Err(e) => final(self).state == ResponderState::Failed && (old(self).state
                    != ResponderState::GotInitiate ==> e == SrdError::InvalidState) && (old(
                    self,
                ).state == ResponderState::GotInitiate ==> e == SrdError::Malformed && (prime@.len()
                    != key_bytes(old(self).key_size) || public_key@.len() > key_bytes(
                    old(self).key_size,
                ))),
                Ok(b) => {
                    &&& old(self).state == ResponderState::GotInitiate
                    &&& offer_parse(b@) matches Some(o) && {
                        &&& o.seq_num == 1
                        &&& o.cipher_mask == old(self).policy.ciphers
                        &&& o.key_size == old(self).key_size
                        &&& o.generator == generator@
                        &&& o.prime == prime@
                        &&& o.nonce == old(self).nonce@
                        &&& o.public_key == spec_expand_start(
                            public_key@,
                            key_bytes(old(self).key_size),
                        )
                        &&& o.flags == (if old(self).policy.cbt is Some {
                            SRD_FLAG_CBT
                        } else {
                            0
                        })
                        &&& o.cbt == (match old(self).policy.cbt {
                            Some(c) => c@,
                            None => seq![0u8; 32],
                        })
                        &&& final(self).tv() == old(self).tv().push(offer_bytes(o))
                    }
                    &&& final(self).state == ResponderState::SentOffer
                },
            },
    {
        if self.state != ResponderState::GotInitiate {
            self.state = ResponderState::Failed;
            return Err(SrdError::InvalidState);
        }
        let offer = match SrdOffer::new(
            1,
            self.policy.ciphers,
            self.key_size,
            generator,
            prime,
            public_key,
            self.nonce,
            self.policy.cbt,
        ) {
            Ok(o) => o,
            Err(e) => {
                self.state = ResponderState::Failed;
                return Err(e);
            },
        };
        let mut full: Vec<u8> = Vec::new();
        offer.write_to(&mut full);
        proof {
            crate::message_types::srd_offer::lemma_offer_round_trip(offer@);
        }
        let ghost before = self.tv();
        self.transcript.push(to_vec(full.as_slice()));
        assert(self.tv() =~= before.push(full@));
        self.state = ResponderState::SentOffer;
        Ok(full)
    }

    /// Takes ACCEPT and returns the initiator's public key, with which the caller runs DH
    /// before `verify_accept`.
    pub fn receive_accept(&mut self, bytes: &[u8]) -> (r: Result<Vec<u8>, SrdError>)
        ensures
            match r {
                Err(e) => final(self).state == ResponderState::Failed && (old(self).state
                    != ResponderState::SentOffer ==> e == SrdError::InvalidState) && (old(
                    self,
                ).state == ResponderState::SentOffer ==> match accept_parse(bytes@) {
                    None => e == SrdError::Malformed,
                    Some(a) => (a.seq_num != 2 && e == SrdError::Desync) || (a.seq_num == 2
                        && a.key_size != old(self).key_size && e == SrdError::InvalidKeySize),
                }),
                Ok(pk) => {
                    &&& old(self).state == ResponderState::SentOffer
                    &&& accept_parse(bytes@) matches Some(a) && {
                        &&& a.seq_num == 2
                        &&& a.key_size == old(self).key_size
                        &&& pk@ == a.public_key
                        &&& final(self).accept matches Some(x) && x@ == a
                    }
                    &&& final(self).state == ResponderState::AcceptParsed
                    &&& final(self).tv() == old(self).tv()
                },
            },
    {
        if self.state != ResponderState::SentOffer {
            self.state = ResponderState::Failed;
            return Err(SrdError::InvalidState);
        }
        let accept = match SrdAccept::read_from(bytes) {
            Ok(a) => a,
            Err(e) => {
                self.state = ResponderState::Failed;
                return Err(e);
            },
        };
        if accept.seq_num != 2 {
            self.state = ResponderState::Failed;
            return Err(SrdError::Desync);
        }
        if accept.key_size != self.key_size {
            self.state = ResponderState::Failed;
            return Err(SrdError::InvalidKeySize);
        }
        let pk = to_vec(accept.public_key.as_slice());
        self.accept = Some(accept);
        self.state = ResponderState::AcceptParsed;
        Ok(pk)
    }

    /// Derives the keys from the DH secret `shared`, then checks ACCEPT: the chosen cipher
    /// was advertised, the channel binding matches, and its MAC covers the transcript.
    pub fn verify_accept(&mut self, shared: Vec<u8>) -> (r: Result<(), SrdError>)
        ensures
            (old(self).state != ResponderState::AcceptParsed || old(self).accept is None) ==> r
                == Err::<(), SrdError>(SrdError::InvalidState) && final(self).state
                == ResponderState::Failed,
            old(self).state == ResponderState::AcceptParsed ==> match old(self).accept {
                None => true,
                Some(a) => final(self).keys matches Some(k) && {
                    &&& k.integrity_key@ == spec_derive(
                        shared@,
                        a.nonce@,
                        old(self).nonce@,
                        integrity_label(),
                    )
                    &&& match spec_check_accept(old(self).policy, a.cipher, accept_cbt(a@)) {
                        Err(e) => r == Err::<(), SrdError>(e) && final(self).state
                            == ResponderState::Failed && final(self).tv() == old(self).tv().push(
                            accept_inner(a@),
                        ),
                        Ok(c) => if a.mac@ == spec_mac(
                            k.integrity_key@,
                            old(self).tv(),
                            accept_inner(a@),
                        ) {
                            &&& r is Ok
                            &&& final(self).state == ResponderState::GotAccept
                            &&& final(self).cipher == c
                            &&& final(self).tv() == old(self).tv().push(accept_inner(a@))
                        } else {
                            r == Err::<(), SrdError>(SrdError::MacFailure) && final(self).state
                                == ResponderState::Failed
                        },
                    }
                },
            },
    {
        if self.state != ResponderState::AcceptParsed {
            return self.fail(SrdError::InvalidState);
        }
        let (client_nonce, chosen, remote_cbt) = match &self.accept {
            Some(a) => (a.nonce, a.cipher, if a.has_cbt() {
                Some(a.cbt)
            } else {
                None
            }),
            None => {
                return self.fail(SrdError::InvalidState);
            },
        };
        let keys = SrdKeys::derive(shared, &client_nonce, &self.nonce);
        self.keys = Some(keys);
        let mut inner: Vec<u8> = Vec::new();
        let ok = match (&self.accept, &self.keys) {
            (Some(a), Some(k)) => {
                a.write_inner_buffer(&mut inner);
                verify_mac(self.transcript.as_slice(), inner.as_slice(), &k.integrity_key, &a.mac)
            },
            _ => false,
        };
        let cipher = match check_accept(&self.policy, chosen, &remote_cbt) {
            Ok(c) => c,
            Err(e) => {
                // the RESULT that reports this failure covers ACCEPT too
                let ghost before = self.tv();
                self.transcript.push(inner);
                assert(self.tv() =~= before.push(inner@));
                return self.fail(e);
            },
        };
        if !ok {
            return self.fail(SrdError::MacFailure);
        }
        let ghost before = self.tv();
        self.transcript.push(inner);
        assert(self.tv() =~= before.push(inner@));
        self.cipher = cipher;
        self.state = ResponderState::GotAccept;
        Ok(())
    }
    /// Sends CONFIRM, whose MAC covers the whole transcript.
    pub fn send_confirm(&mut self) -> (r: Result<Vec<u8>, SrdError>)
        ensures
            match r {
                Err(e) => e == SrdError::InvalidState && final(self).state == ResponderState::Failed
                    && (old(self).state != ResponderState::GotAccept || old(self).keys is None),
                Ok(b) => {
                    &&& old(self).state == ResponderState::GotAccept
                    &&& old(self).keys matches Some(k) && confirm_parse(b@) matches Some(c) && {
                        &&& c.seq_num == 3
                        &&& c.mac == spec_mac(k.integrity_key@, old(self).tv(), confirm_inner(c))
                        &&& final(self).tv() == old(self).tv().push(confirm_inner(c))
                    }
                    &&& final(self).state == ResponderState::SentConfirm
                    &&& final(self).keys == old(self).keys
                },
            },
    {
        if self.state != ResponderState::GotAccept {
            self.state = ResponderState::Failed;
            return Err(SrdError::InvalidState);
        }
        let confirm = match &self.keys {
            Some(k) => SrdConfirm::new(3, self.transcript.as_slice(), &k.integrity_key),
            None => {
                self.state = ResponderState::Failed;
                return Err(SrdError::InvalidState);
            },
        };
        let mut inner: Vec<u8> = Vec::new();
        confirm.write_inner_buffer(&mut inner);
        let mut full: Vec<u8> = Vec::new();
        confirm.write_to(&mut full);
        proof {
            crate::message_types::srd_confirm::lemma_confirm_round_trip(confirm@);
        }
        let ghost before = self.tv();
        self.transcript.push(inner);
        assert(self.tv() =~= before.push(confirm_inner(confirm@)));
        self.state = ResponderState::SentConfirm;
        Ok(full)
    }

    /// Takes DELEGATE: its MAC is checked before anything is decrypted, then the
    /// credentials are kept.
    pub fn receive_delegate(&mut self, bytes: &[u8]) -> (r: Result<(), SrdError>)
        ensures
            match r {
                Err(e) => final(self).state == ResponderState::Failed && final(self).credentials
                    is None && final(self).keys == old(self).keys && (
                (old(self).state != ResponderState::SentConfirm || old(self).keys is None)
                    ==> e == SrdError::InvalidState),
                Ok(_) => {
                    &&& old(self).state == ResponderState::SentConfirm
                    &&& old(self).keys matches Some(k) && delegate_parse(bytes@) matches Some(d)
                        && {
                        &&& d.seq_num == 4
                        &&& d.mac == spec_mac(k.integrity_key@, old(self).tv(), delegate_inner(d))
                        &&& final(self).credentials matches Some(c) && blob_parse(
                            spec_decrypt(old(self).cipher, d.encrypted_blob, k.delegation_key@, k.iv@),
                        ) == Some(c@)
                        &&& final(self).tv() == old(self).tv().push(delegate_inner(d))
                    }
                    &&& final(self).state == ResponderState::GotDelegate
                    &&& final(self).keys == old(self).keys
                },
            },
            old(self).state == ResponderState::SentConfirm ==> (old(self).keys matches Some(k) ==> match
            delegate_parse(bytes@) {
                None => r == Err::<(), SrdError>(SrdError::Malformed),
                Some(d) => if d.seq_num != 4 {
                    r == Err::<(), SrdError>(SrdError::Desync)
                } else {
                    if d.mac != spec_mac(k.integrity_key@, old(self).tv(), delegate_inner(d)) {
                        r == Err::<(), SrdError>(SrdError::MacFailure)
                    } else {
                        r matches Err(e) ==> delegate_open_error(
                            old(self).cipher,
                            d.encrypted_blob,
                            k.delegation_key@,
                            k.iv@,
                            e,
                        )
                    }
                },
            }),
    {
        if self.state != ResponderState::SentConfirm || self.keys.is_none() {
            self.credentials = None;
            return self.fail(SrdError::InvalidState);
        }
        let delegate = match SrdDelegate::read_from(bytes) {
            Ok(d) => d,
            Err(e) => {
                self.credentials = None;
                return self.fail(e);
            },
        };
        if delegate.seq_num != 4 {
            self.credentials = None;
            return self.fail(SrdError::Desync);
        }
        let opened = match &self.keys {
            Some(k) => delegate.open(
                self.transcript.as_slice(),
                &k.integrity_key,
                self.cipher,
                &k.delegation_key,
                &k.iv,
            ),
            None => Err(SrdError::InvalidState),
        };
        let blob = match opened {
            Ok(b) => b,
            Err(e) => {
                self.credentials = None;
                return self.fail(e);
            },
        };
        let mut inner: Vec<u8> = Vec::new();
        delegate.write_inner_buffer(&mut inner);
        let ghost before = self.tv();
        self.transcript.push(inner);
        assert(self.tv() =~= before.push(delegate_inner(delegate@)));
        self.credentials = Some(blob);
        self.state = ResponderState::GotDelegate;
        Ok(())
    }

    /// Sends RESULT with `status`. Once keys exist this ends every exchange, also a
    /// failed one, so that the initiator learns the status.
    pub fn send_result(&mut self, status: u32) -> (r: Result<Vec<u8>, SrdError>)
        ensures
            match r {
                Err(e) => e == SrdError::InvalidState && final(self).state == ResponderState::Failed
                    && (old(self).keys is None || old(self).state == ResponderState::SentResult),
                Ok(b) => {
                    &&& old(self).state != ResponderState::SentResult
                    &&& old(self).keys matches Some(k) && result_parse(b@) matches Some(m) && {
                        &&& m.seq_num == 5
                        &&& m.status == status
                        &&& m.mac == spec_mac(k.integrity_key@, old(self).tv(), result_inner(m))
                        &&& final(self).tv() == old(self).tv().push(result_inner(m))
                    }
                    &&& final(self).state == if old(self).state == ResponderState::GotDelegate
                        && status == 0 {
                        ResponderState::SentResult
                    } else {
                        ResponderState::Failed
                    }
                },
            },
    {
        if self.state == ResponderState::SentResult {
            self.state = ResponderState::Failed;
            return Err(SrdError::InvalidState);
        }
        let result = match &self.keys {
            Some(k) => SrdResult::new(5, status, self.transcript.as_slice(), &k.integrity_key),
            None => {
                self.state = ResponderState::Failed;
                return Err(SrdError::InvalidState);
            },
        };
        let mut inner: Vec<u8> = Vec::new();
        result.write_inner_buffer(&mut inner);
        let mut full: Vec<u8> = Vec::new();
        result.write_to(&mut full);
        proof {
            crate::message_types::srd_result::lemma_result_round_trip(result@);
        }
        let ghost before = self.tv();
        self.transcript.push(inner);
        assert(self.tv() =~= before.push(result_inner(result@)));
        if self.state == ResponderState::GotDelegate && status == 0 {
            self.state = ResponderState::SentResult;
        } else {
            self.state = ResponderState::Failed;
        }
        Ok(full)
    }

    /// The delegated user name and password, once DELEGATE has been accepted.
    pub fn credentials(&self) -> (r: Option<(Vec<u8>, Vec<u8>)>)
        ensures
            match r {
                None => !(self.state == ResponderState::GotDelegate || self.state
                    == ResponderState::SentResult) || self.credentials is None,
                Some((u, p)) => (self.state == ResponderState::GotDelegate || self.state
                    == ResponderState::SentResult) && (self.credentials matches Some(c) && u@
                    == c.username@ && p@ == c.password@),
            },
    {
        if self.state != ResponderState::GotDelegate && self.state != ResponderState::SentResult {
            return None;
        }
        match &self.credentials {
            Some(c) => Some((to_vec(c.username.as_slice()), to_vec(c.password.as_slice()))),
            None => None,
        }
    }

    /// Ends the session: the shared secret and every derived key are overwritten with zeros.
    pub fn destroy(&mut self)
        ensures
            final(self).state == ResponderState::Failed || final(self).state
                == ResponderState::SentResult,
            old(self).keys is Some ==> final(self).keys is Some,
            final(self).keys matches Some(k) ==> all_zero(k.shared@) && all_zero(
                k.integrity_key@,
            ) && all_zero(k.delegation_key@) && all_zero(k.iv@),
    {
        match &mut self.keys {
            Some(k) => k.zeroize(),
            None => (),
        }
        if self.state != ResponderState::SentResult {
            self.state = ResponderState::Failed;
        }
    }
}

} // verus!
