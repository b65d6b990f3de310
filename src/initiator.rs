//! The initiator's side of the handshake. Between steps the caller does the outside
//! work: it draws the nonce, runs the Diffie-Hellman exchange and moves the bytes.
use vstd::prelude::*;
use crate::blob::SrdBlob;
use crate::cipher::{spec_cipher_bit, CipherSuite};
use crate::error::SrdError;
use crate::key_schedule::{all_zero, integrity_label, spec_derive, SrdKeys};
use crate::mac::{spec_mac, verify_mac, views};
use crate::message_types::srd_accept::{accept_inner, accept_parse, key_bytes, SrdAccept};
use crate::message_types::srd_confirm::{confirm_inner, confirm_parse, SrdConfirm};
use crate::message_types::srd_delegate::{
    delegate_inner, delegate_new_error, delegate_parse, SrdDelegate,
};
use crate::message_types::srd_initiate::{initiate_bytes, SrdInitiate};
use crate::message_types::srd_offer::{offer_bytes, offer_parse, OfferModel, SrdOffer};
use crate::message_types::srd_result::{result_inner, result_parse, SrdResult};
use crate::policy::{check_offer, opt_view, spec_check_offer, Policy};
use crate::wire::{
    spec_expand_start, SRD_FLAG_CBT, SRD_FLAG_MAC, SRD_INITIATE_MSG_ID, SRD_SIGNATURE,
};

verus! {

#[derive(Debug, Clone, Copy, PartialEq, Eq, Structural)]
pub enum InitiatorState {
    Init,
    SentInitiate,
    GotOffer,
    SentAccept,
    GotConfirm,
    SentDelegate,
    GotResult,
    Failed,
}

pub struct Initiator {
    pub policy: Policy,
    pub state: InitiatorState,
    /// Inner bytes of every message so far, in wire order.
    pub transcript: Vec<Vec<u8>>,
    pub nonce: [u8; 32],
    pub credentials: SrdBlob,
    pub offer: Option<SrdOffer>,
    pub cipher: CipherSuite,
    pub keys: Option<SrdKeys>,
}

/// The channel binding an OFFER carries, if its flag says so.
pub open spec fn offer_cbt(m: OfferModel) -> Option<Seq<u8>> {
    if m.flags & SRD_FLAG_CBT != 0 {
        Some(m.cbt)
    } else {
        None
    }
}

/// What receiving `b` as OFFER yields in `state`: the message and the chosen cipher.
pub open spec fn offer_outcome(state: InitiatorState, policy: Policy, b: Seq<u8>) -> Result<
    (OfferModel, CipherSuite),
    SrdError,
> {
    if state != InitiatorState::SentInitiate {
        Err(SrdError::InvalidState)
    } else {
        match offer_parse(b) {
            None => Err(SrdError::Malformed),
            Some(m) => if m.seq_num != 1 {
                Err(SrdError::Desync)
            } else if m.key_size != policy.key_size {
                Err(SrdError::InvalidKeySize)
            } else {
                match spec_check_offer(policy, m.cipher_mask, offer_cbt(m)) {
                    Err(e) => Err(e),
                    Ok(c) => Ok((m, c)),
                }
            },
        }
    }
}

/// States in which RESULT may arrive: any after ACCEPT was sent, before the end.
pub open spec fn awaits_result(state: InitiatorState) -> bool {
    state == InitiatorState::SentAccept || state == InitiatorState::GotConfirm || state
        == InitiatorState::SentDelegate
}

/// The packet type of a framed message, read from its prolog.
pub fn packet_type(bytes: &[u8]) -> (r: Option<u8>)
    ensures
        r == (if bytes@.len() >= 8 {
            Some(bytes@[4])
        } else {
            None
        }),
{
    if bytes.len() >= 8 {
        Some(bytes[4])
    } else {
        None
    }
}

pub(crate) fn to_vec(b: &[u8]) -> (r: Vec<u8>)
    ensures
        r@ == b@,
{
    let r = crate::wire::read_bytes(b, 0, b.len());
    assert(r@ =~= b@);
    r
}

impl Initiator {
    pub open spec fn tv(&self) -> Seq<Seq<u8>> {
        views(self.transcript@)
    }

    /// A session for `policy` that will delegate `credentials`, with a fresh `nonce`.
    pub fn new(policy: Policy, nonce: [u8; 32], credentials: SrdBlob) -> (r: Initiator)
        ensures
            r.state == InitiatorState::Init,
            r.tv() == Seq::<Seq<u8>>::empty(),
            r.policy == policy,
            r.nonce == nonce,
            r.credentials@ == credentials@,
            r.keys is None,
    {
        let r = Initiator {
            policy,
            state: InitiatorState::Init,
            transcript: Vec::new(),
            nonce,
            credentials,
            offer: None,
            cipher: CipherSuite::Aes256Cbc,
            keys: None,
        };
        assert(r.tv() =~= Seq::<Seq<u8>>::empty());
        r
    }

    fn fail(&mut self, e: SrdError) -> (r: Result<(), SrdError>)
        ensures
            r == Err::<(), SrdError>(e),
            final(self).state == InitiatorState::Failed,
            final(self).tv() == old(self).tv(),
            final(self).keys == old(self).keys,
    {
        self.state = InitiatorState::Failed;
        Err(e)
    }

    /// Opens the handshake with INITIATE.
    pub fn send_initiate(&mut self) -> (r: Result<Vec<u8>, SrdError>)
        ensures
            match r {
                Err(e) => old(self).state != InitiatorState::Init && e == SrdError::InvalidState
                    && final(self).state == InitiatorState::Failed,
                Ok(b) => {
                    &&& old(self).state == InitiatorState::Init
                    &&& b@ == initiate_bytes(
                        SrdInitiate {
                            signature: SRD_SIGNATURE,
                            packet_type: SRD_INITIATE_MSG_ID,
                            seq_num: 0,
                            flags: 0,
                            cipher_mask: old(self).policy.ciphers,
                            key_size: old(self).policy.key_size,
                            reserved: 0,
                        },
                    )
                    &&& final(self).state == InitiatorState::SentInitiate
                    &&& final(self).tv() == old(self).tv().push(b@)
                },
            },
    {
        if self.state != InitiatorState::Init {
            self.state = InitiatorState::Failed;
            return Err(SrdError::InvalidState);
        }
        let msg = SrdInitiate::new(0, self.policy.ciphers, self.policy.key_size);
        let mut bytes: Vec<u8> = Vec::new();
        msg.write_to(&mut bytes);
        let ghost before = self.tv();
        self.transcript.push(to_vec(bytes.as_slice()));
        assert(self.tv() =~= before.push(bytes@));
        self.state = InitiatorState::SentInitiate;
        Ok(bytes)
    }

    /// Takes OFFER: checks its place, its key size, the channel binding and picks the
    /// cipher. The caller then runs DH with the offered group and public key.
    pub fn receive_offer(&mut self, bytes: &[u8]) -> (r: Result<(), SrdError>)
        ensures
            match offer_outcome(old(self).state, old(self).policy, bytes@) {
                Err(e) => r == Err::<(), SrdError>(e) && final(self).state == InitiatorState::Failed,
                Ok((m, c)) => {
                    &&& r is Ok
                    &&& final(self).state == InitiatorState::GotOffer
                    &&& final(self).cipher == c
                    &&& final(self).offer matches Some(o) && o@ == m
                    &&& final(self).tv() == old(self).tv().push(offer_bytes(m))
                    &&& final(self).nonce == old(self).nonce
                    &&& final(self).policy == old(self).policy
                },
            },
    {
        if self.state != InitiatorState::SentInitiate {
            return self.fail(SrdError::InvalidState);
        }
        let offer = match SrdOffer::read_from(bytes) {
            Ok(o) => o,
            Err(e) => {
                return self.fail(e);
            },
        };
        if offer.seq_num != 1 {
            return self.fail(SrdError::Desync);
        }
        if offer.key_size != self.policy.key_size {
            return self.fail(SrdError::InvalidKeySize);
        }
        let remote_cbt = if offer.has_cbt() {
            Some(offer.cbt)
        } else {
            None
        };
        assert(opt_view(remote_cbt) == offer_cbt(offer@));
        let cipher = match check_offer(&self.policy, offer.cipher_mask, &remote_cbt) {
            Ok(c) => c,
            Err(e) => {
                return self.fail(e);
            },
        };
        let mut full: Vec<u8> = Vec::new();
        offer.write_to(&mut full);
        let ghost before = self.tv();
        self.transcript.push(full);
        assert(self.tv() =~= before.push(offer_bytes(offer@)));
        self.cipher = cipher;
        self.offer = Some(offer);
        self.state = InitiatorState::GotOffer;
        Ok(())
    }
    /// Sends ACCEPT with the initiator's DH public key; `shared` is the DH secret agreed
    /// with the offered public key. The keys are derived here.
    pub fn send_accept(&mut self, public_key: Vec<u8>, shared: Vec<u8>) -> (r: Result<
        Vec<u8>,
        SrdError,
    >)
        ensures
            match r {
                Err(e) => final(self).state == InitiatorState::Failed && (
                (old(self).state != InitiatorState::GotOffer || old(self).offer is None)
                    ==> e == SrdError::InvalidState) && ((old(self).state
                    == InitiatorState::GotOffer && old(self).offer is Some) ==> (e
                    == SrdError::Malformed && public_key@.len() > key_bytes(
                    old(self).policy.key_size,
                ))),
                Ok(b) => {
                    &&& old(self).state == InitiatorState::GotOffer
                    &&& old(self).offer matches Some(o) && final(self).keys matches Some(k) && {
                        &&& k.integrity_key@ == spec_derive(
                            shared@,
                            old(self).nonce@,
                            o.nonce@,
                            integrity_label(),
                        )
                        &&& accept_parse(b@) matches Some(a) && {
                            &&& a.seq_num == 2
                            &&& a.cipher == spec_cipher_bit(old(self).cipher)
                            &&& a.key_size == old(self).policy.key_size
                            &&& a.public_key == spec_expand_start(
                                public_key@,
                                key_bytes(old(self).policy.key_size),
                            )
                            &&& a.nonce == old(self).nonce@
                            &&& a.flags == (match old(self).policy.cbt {
                                Some(_) => SRD_FLAG_MAC | SRD_FLAG_CBT,
                                None => SRD_FLAG_MAC,
                            })
                            &&& a.cbt == (match old(self).policy.cbt {
                                Some(c) => c@,
                                None => seq![0u8; 32],
                            })
                            &&& a.mac == spec_mac(k.integrity_key@, old(self).tv(), accept_inner(a))
                            &&& final(self).tv() == old(self).tv().push(accept_inner(a))
                        }
                    }
                    &&& final(self).state == InitiatorState::SentAccept
                },
            },
    {
        if self.state != InitiatorState::GotOffer {
            self.state = InitiatorState::Failed;
            return Err(SrdError::InvalidState);
        }
        let server_nonce = match &self.offer {
            Some(o) => o.nonce,
            None => {
                self.state = InitiatorState::Failed;
                return Err(SrdError::InvalidState);
            },
        };
        let keys = SrdKeys::derive(shared, &self.nonce, &server_nonce);
        let accept = match SrdAccept::new(
            2,
            self.cipher.bit(),
            self.policy.key_size,
            public_key,
            self.nonce,
            self.policy.cbt,
            self.transcript.as_slice(),
            &keys.integrity_key,
        ) {
            Ok(a) => a,
            Err(e) => {
                self.state = InitiatorState::Failed;
                return Err(e);
            },
        };
        let mut inner: Vec<u8> = Vec::new();
        accept.write_inner_buffer(&mut inner);
        let mut full: Vec<u8> = Vec::new();
        accept.write_to(&mut full);
        proof {
            crate::message_types::srd_accept::lemma_accept_round_trip(accept@);
        }
        let ghost before = self.tv();
        self.transcript.push(inner);
        assert(self.tv() =~= before.push(accept_inner(accept@)));
        self.keys = Some(keys);
        self.state = InitiatorState::SentAccept;
        Ok(full)
    }

    /// Takes CONFIRM and checks its MAC over the whole transcript.
    pub fn receive_confirm(&mut self, bytes: &[u8]) -> (r: Result<(), SrdError>)
        ensures
            match r {
                Err(e) => final(self).state == InitiatorState::Failed && (
                (old(self).state != InitiatorState::SentAccept || old(self).keys is None)
                    ==> e == SrdError::InvalidState),
                Ok(_) => {
                    &&& old(self).state == InitiatorState::SentAccept
                    &&& old(self).keys matches Some(k) && confirm_parse(bytes@) matches Some(c) && {
                        &&& c.seq_num == 3
                        &&& c.mac == spec_mac(k.integrity_key@, old(self).tv(), confirm_inner(c))
                        &&& final(self).tv() == old(self).tv().push(confirm_inner(c))
                    }
                    &&& final(self).state == InitiatorState::GotConfirm
                    &&& final(self).keys == old(self).keys
                },
            },
            old(self).state == InitiatorState::SentAccept ==> (old(self).keys matches Some(k)
                ==> match confirm_parse(bytes@) {
                None => r == Err::<(), SrdError>(SrdError::Malformed),
                Some(c) => if c.seq_num != 3 {
                    r == Err::<(), SrdError>(SrdError::Desync)
                } else {
                    c.mac != spec_mac(k.integrity_key@, old(self).tv(), confirm_inner(c)) <==> r
                        == Err::<(), SrdError>(SrdError::MacFailure)
                },
            }),
    {
        if self.state != InitiatorState::SentAccept || self.keys.is_none() {
            return self.fail(SrdError::InvalidState);
        }
        let confirm = match SrdConfirm::read_from(bytes) {
            Ok(c) => c,
            Err(e) => {
                return self.fail(e);
            },
        };
        if confirm.seq_num != 3 {
            return self.fail(SrdError::Desync);
        }
        let mut inner: Vec<u8> = Vec::new();
        confirm.write_inner_buffer(&mut inner);
        let ok = match &self.keys {
            Some(k) => verify_mac(self.transcript.as_slice(), inner.as_slice(), &k.integrity_key, &confirm.mac),
            None => false,
        };
        if !ok {
            return self.fail(SrdError::MacFailure);
        }
        let ghost before = self.tv();
        self.transcript.push(inner);
        assert(self.tv() =~= before.push(confirm_inner(confirm@)));
        self.state = InitiatorState::GotConfirm;
        Ok(())
    }

    /// Sends DELEGATE: the credentials encrypted under the negotiated cipher.
    pub fn send_delegate(&mut self) -> (r: Result<Vec<u8>, SrdError>)
        ensures
            match r {
                Err(e) => final(self).state == InitiatorState::Failed && (
                (old(self).state != InitiatorState::GotConfirm || old(self).keys is None)
                    ==> e == SrdError::InvalidState) && (old(self).state
                    == InitiatorState::GotConfirm ==> (old(self).keys matches Some(k)
                    ==> delegate_new_error(
                    old(self).credentials@,
                    old(self).cipher,
                    k.delegation_key@,
                    k.iv@,
                    e,
                ))),
                Ok(b) => {
                    &&& old(self).state == InitiatorState::GotConfirm
                    &&& old(self).keys matches Some(k) && delegate_parse(b@) matches Some(d) && {
                        &&& d.seq_num == 4
                        &&& d.encrypted_blob == crate::cipher::spec_encrypt(
                            old(self).cipher,
                            crate::blob::blob_bytes(
                                old(self).credentials@.0,
                                old(self).credentials@.1,
                            ),
                            k.delegation_key@,
                            k.iv@,
                        )
                        &&& d.mac == spec_mac(k.integrity_key@, old(self).tv(), delegate_inner(d))
                        &&& final(self).tv() == old(self).tv().push(delegate_inner(d))
                    }
                    &&& final(self).state == InitiatorState::SentDelegate
                },
            },
    {
        if self.state != InitiatorState::GotConfirm || self.keys.is_none() {
            self.state = InitiatorState::Failed;
            return Err(SrdError::InvalidState);
        }
        let made = match &self.keys {
            Some(k) => SrdDelegate::new(
                4,
                &self.credentials,
                self.cipher,
                self.transcript.as_slice(),
                &k.integrity_key,
                &k.delegation_key,
                &k.iv,
            ),
            None => Err(SrdError::InvalidState),
        };
        let delegate = match made {
            Ok(d) => d,
            Err(e) => {
                self.state = InitiatorState::Failed;
                return Err(e);
            },
        };
        let mut inner: Vec<u8> = Vec::new();
        delegate.write_inner_buffer(&mut inner);
        let mut full: Vec<u8> = Vec::new();
        delegate.write_to(&mut full);
        proof {
            crate::message_types::srd_delegate::lemma_delegate_round_trip(delegate@);
        }
        let ghost before = self.tv();
        self.transcript.push(inner);
        assert(self.tv() =~= before.push(delegate_inner(delegate@)));
        self.state = InitiatorState::SentDelegate;
        Ok(full)
    }

    /// Takes RESULT, checks its MAC and returns its status: 0 for success. The responder
    /// may answer with RESULT at any point after ACCEPT to report a failure.
    pub fn receive_result(&mut self, bytes: &[u8]) -> (r: Result<u32, SrdError>)
        ensures
            match r {
                Err(e) => final(self).state == InitiatorState::Failed && (
                (!awaits_result(old(self).state) || old(self).keys is None)
                    ==> e == SrdError::InvalidState),
                Ok(status) => {
                    &&& awaits_result(old(self).state)
                    &&& old(self).keys matches Some(k) && result_parse(bytes@) matches Some(m) && {
                        &&& m.seq_num == 5
                        &&& m.status == status
                        &&& m.mac == spec_mac(k.integrity_key@, old(self).tv(), result_inner(m))
                        &&& final(self).tv() == old(self).tv().push(result_inner(m))
                    }
                    &&& final(self).state == InitiatorState::GotResult
                },
            },
            awaits_result(old(self).state) ==> (old(self).keys matches Some(k) ==> match
            result_parse(bytes@) {
                None => r == Err::<u32, SrdError>(SrdError::Malformed),
                Some(m) => if m.seq_num != 5 {
                    r == Err::<u32, SrdError>(SrdError::Desync)
                } else {
                    m.mac != spec_mac(k.integrity_key@, old(self).tv(), result_inner(m)) <==> r
                        == Err::<u32, SrdError>(SrdError::MacFailure)
                },
            }),
    {
        let waiting = self.state == InitiatorState::SentAccept || self.state
            == InitiatorState::GotConfirm || self.state == InitiatorState::SentDelegate;
        if !waiting || self.keys.is_none() {
            self.state = InitiatorState::Failed;
            return Err(SrdError::InvalidState);
        }
        let result = match SrdResult::read_from(bytes) {
            Ok(m) => m,
            Err(e) => {
                self.state = InitiatorState::Failed;
                return Err(e);
            },
        };
        if result.seq_num != 5 {
            self.state = InitiatorState::Failed;
            return Err(SrdError::Desync);
        }
        let mut inner: Vec<u8> = Vec::new();
        result.write_inner_buffer(&mut inner);
        let ok = match &self.keys {
            Some(k) => verify_mac(self.transcript.as_slice(), inner.as_slice(), &k.integrity_key, &result.mac),
            None => false,
        };
        if !ok {
            self.state = InitiatorState::Failed;
            return Err(SrdError::MacFailure);
        }
        let ghost before = self.tv();
        self.transcript.push(inner);
        assert(self.tv() =~= before.push(result_inner(result@)));
        self.state = InitiatorState::GotResult;
        Ok(result.status)
    }

    /// Ends the session: the shared secret and every derived key are overwritten with zeros.
    pub fn destroy(&mut self)
        ensures
            final(self).state == InitiatorState::Failed || final(self).state
                == InitiatorState::GotResult,
            old(self).keys is Some ==> final(self).keys is Some,
            final(self).keys matches Some(k) ==> all_zero(k.shared@) && all_zero(
                k.integrity_key@,
            ) && all_zero(k.delegation_key@) && all_zero(k.iv@),
    {
        match &mut self.keys {
            Some(k) => k.zeroize(),
            None => (),
        }
        if self.state != InitiatorState::GotResult {
            self.state = InitiatorState::Failed;
        }
    }
}

} // verus!
