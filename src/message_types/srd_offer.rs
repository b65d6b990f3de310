use vstd::prelude::*;
use crate::error::SrdError;
use crate::message_types::prolog::{lemma_prolog, prolog_bytes, prolog_ok, write_prolog};
use crate::message_types::srd_accept::key_bytes;
use crate::wire::{
    expand_start, le_u16_at, le_u32_at, lemma_u16_at, lemma_u32_at, read_array32, read_bytes,
    read_u16_le, read_u32_le, spec_expand_start, u16_le, u32_le, write_all, write_u16_le,
    write_u32_le, SRD_FLAG_CBT, SRD_OFFER_MSG_ID, SRD_SIGNATURE,
};

verus! {

/// OFFER: the responder's DH group, public key, nonce and channel binding.
#[derive(Debug, PartialEq, Eq, Clone)]
pub struct SrdOffer {
    pub signature: u32,
    pub packet_type: u8,
    pub seq_num: u8,
    pub flags: u16,
    pub cipher_mask: u32,
    pub key_size: u16,
    pub reserved: u16,
    pub generator: [u8; 2],
    pub prime: Vec<u8>,
    pub public_key: Vec<u8>,
    pub nonce: [u8; 32],
    pub cbt: [u8; 32],
}

/// The fields of an OFFER message as mathematical values.
pub struct OfferModel {
    pub signature: u32,
    pub packet_type: u8,
    pub seq_num: u8,
    pub flags: u16,
    pub cipher_mask: u32,
    pub key_size: u16,
    pub reserved: u16,
    pub generator: Seq<u8>,
    pub prime: Seq<u8>,
    pub public_key: Seq<u8>,
    pub nonce: Seq<u8>,
    pub cbt: Seq<u8>,
}

impl View for SrdOffer {
    type V = OfferModel;

    open spec fn view(&self) -> OfferModel {
        OfferModel {
            signature: self.signature,
            packet_type: self.packet_type,
            seq_num: self.seq_num,
            flags: self.flags,
            cipher_mask: self.cipher_mask,
            key_size: self.key_size,
            reserved: self.reserved,
            generator: self.generator@,
            prime: self.prime@,
            public_key: self.public_key@,
            nonce: self.nonce@,
            cbt: self.cbt@,
        }
    }
}

pub open spec fn offer_valid(m: OfferModel) -> bool {
    &&& m.signature == SRD_SIGNATURE
    &&& 1 <= m.packet_type <= 6
    &&& m.reserved == 0
    &&& m.generator.len() == 2
    &&& m.prime.len() == key_bytes(m.key_size)
    &&& m.public_key.len() == key_bytes(m.key_size)
    &&& m.nonce.len() == 32
    &&& m.cbt.len() == 32
}

pub open spec fn offer_bytes(m: OfferModel) -> Seq<u8> {
    prolog_bytes(m.signature, m.packet_type, m.seq_num, m.flags) + u32_le(m.cipher_mask) + u16_le(
        m.key_size,
    ) + u16_le(m.reserved) + m.generator + m.prime + m.public_key + m.nonce + m.cbt
}

/// What the decoder makes of `b`: `None` when the framing is wrong.
pub open spec fn offer_parse(b: Seq<u8>) -> Option<OfferModel> {
    if b.len() < 16 || !prolog_ok(b) || le_u16_at(b, 14) != 0 {
        None
    } else {
        let n = key_bytes(le_u16_at(b, 12)) as int;
        if b.len() < 82 + 2 * n {
            None
        } else {
            Some(
                OfferModel {
                    signature: le_u32_at(b, 0),
                    packet_type: b[4],
                    seq_num: b[5],
                    flags: le_u16_at(b, 6),
                    cipher_mask: le_u32_at(b, 8),
                    key_size: le_u16_at(b, 12),
                    reserved: le_u16_at(b, 14),
                    generator: b.subrange(16, 18),
                    prime: b.subrange(18, 18 + n),
                    public_key: b.subrange(18 + n, 18 + 2 * n),
                    nonce: b.subrange(18 + 2 * n, 50 + 2 * n),
                    cbt: b.subrange(50 + 2 * n, 82 + 2 * n),
                },
            )
        }
    }
}

/// Decoding an encoded valid OFFER gives the same message back.
pub proof fn lemma_offer_round_trip(m: OfferModel)
    requires
        offer_valid(m),
    ensures
        offer_parse(offer_bytes(m)) == Some(m),
{
    let b = offer_bytes(m);
    let n = m.prime.len() as int;
    assert(b.subrange(0, 8) =~= prolog_bytes(m.signature, m.packet_type, m.seq_num, m.flags));
    lemma_prolog(b, m.signature, m.packet_type, m.seq_num, m.flags);
    assert(b.subrange(8, 12) =~= u32_le(m.cipher_mask));
    assert(b.subrange(12, 14) =~= u16_le(m.key_size));
    assert(b.subrange(14, 16) =~= u16_le(m.reserved));
    lemma_u32_at(b, 8, m.cipher_mask);
    lemma_u16_at(b, 12, m.key_size);
    lemma_u16_at(b, 14, m.reserved);
    assert(b.subrange(16, 18) =~= m.generator);
    assert(b.subrange(18, 18 + n) =~= m.prime);
    assert(b.subrange(18 + n, 18 + 2 * n) =~= m.public_key);
    assert(b.subrange(18 + 2 * n, 50 + 2 * n) =~= m.nonce);
    assert(b.subrange(50 + 2 * n, 82 + 2 * n) =~= m.cbt);
}

impl SrdOffer {
    /// Builds an OFFER; the public key is left-padded to `key_size / 8` bytes, and the
    /// prime must already be that long.
    pub fn new(
        seq_num: u8,
        cipher_mask: u32,
        key_size: u16,
        generator: [u8; 2],
        prime: Vec<u8>,
        public_key: Vec<u8>,
        nonce: [u8; 32],
        cbt_opt: Option<[u8; 32]>,
    ) -> (r: Result<SrdOffer, SrdError>)
        ensures
            match r {
                Err(e) => e == SrdError::Malformed && (prime@.len() != key_bytes(key_size)
                    || public_key@.len() > key_bytes(key_size)),
                Ok(o) => {
                    &&& prime@.len() == key_bytes(key_size)
                    &&& public_key@.len() <= key_bytes(key_size)
                    &&& o@.signature == SRD_SIGNATURE
                    &&& o@.packet_type == SRD_OFFER_MSG_ID
                    &&& o@.seq_num == seq_num
                    &&& o@.flags == (if cbt_opt is Some {
                        SRD_FLAG_CBT
                    } else {
                        0
                    })
                    &&& o@.cipher_mask == cipher_mask
                    &&& o@.key_size == key_size
                    &&& o@.reserved == 0
                    &&& o@.generator == generator@
                    &&& o@.prime == prime@
                    &&& o@.public_key == spec_expand_start(public_key@, key_bytes(key_size))
                    &&& o@.nonce == nonce@
                    &&& o@.cbt == (match cbt_opt {
                        Some(c) => c@,
                        None => seq![0u8; 32],
                    })
                    &&& offer_valid(o@)
                },
            },
    {
        let width = (key_size / 8) as usize;
        if prime.len() != width || public_key.len() > width {
            return Err(SrdError::Malformed);
        }
        let mut public_key = public_key;
        expand_start(&mut public_key, width);
        let (flags, cbt) = match cbt_opt {
            Some(c) => (SRD_FLAG_CBT, c),
            None => (0u16, [0u8; 32]),
        };
        assert(cbt_opt is None ==> cbt@ =~= seq![0u8; 32]);
        Ok(
            SrdOffer {
                signature: SRD_SIGNATURE,
                packet_type: SRD_OFFER_MSG_ID,
                seq_num,
                flags,
                cipher_mask,
                key_size,
                reserved: 0,
                generator,
                prime,
                public_key,
                nonce,
                cbt,
            },
        )
    }

    /// Whether the message carries a channel binding token.
    pub fn has_cbt(&self) -> (r: bool)
        ensures
            r == (self.flags & SRD_FLAG_CBT != 0),
    {
        self.flags & SRD_FLAG_CBT != 0
    }

    /// Appends the message; it carries no MAC.
    pub fn write_to(&self, buffer: &mut Vec<u8>)
        ensures
            final(buffer)@ == old(buffer)@ + offer_bytes(self@),
    {
        let ghost start = buffer@;
        write_prolog(buffer, self.signature, self.packet_type, self.seq_num, self.flags);
        write_u32_le(buffer, self.cipher_mask);
        write_u16_le(buffer, self.key_size);
        write_u16_le(buffer, self.reserved);
        write_all(buffer, &self.generator);
        write_all(buffer, self.prime.as_slice());
        write_all(buffer, self.public_key.as_slice());
        write_all(buffer, &self.nonce);
        write_all(buffer, &self.cbt);
        assert(buffer@ =~= start + offer_bytes(self@));
    }

    /// Reads an OFFER from the start of `buffer`.
    pub fn read_from(buffer: &[u8]) -> (r: Result<SrdOffer, SrdError>)
        ensures
            match offer_parse(buffer@) {
                Some(m) => r matches Ok(o) && o@ == m,
                None => r == Err::<SrdOffer, SrdError>(SrdError::Malformed),
            },
    {
        let len = buffer.len();
        if len < 16 {
            return Err(SrdError::Malformed);
        }
        let signature = read_u32_le(buffer, 0);
        let packet_type = buffer[4];
        let reserved = read_u16_le(buffer, 14);
        if signature != SRD_SIGNATURE || packet_type < 1 || packet_type > 6 || reserved != 0 {
            return Err(SrdError::Malformed);
        }
        let key_size = read_u16_le(buffer, 12);
        let n = (key_size / 8) as usize;
        if len < 82 || (len - 82) / 2 < n {
            return Err(SrdError::Malformed);
        }
        let generator: [u8; 2] = [buffer[16], buffer[17]];
        assert(generator@ =~= buffer@.subrange(16, 18));
        let prime = read_bytes(buffer, 18, n);
        let public_key = read_bytes(buffer, 18 + n, n);
        let nonce = read_array32(buffer, 18 + 2 * n);
        let cbt = read_array32(buffer, 50 + 2 * n);
        Ok(
            SrdOffer {
                signature,
                packet_type,
                seq_num: buffer[5],
                flags: read_u16_le(buffer, 6),
                cipher_mask: read_u32_le(buffer, 8),
                key_size,
                reserved,
                generator,
                prime,
                public_key,
                nonce,
                cbt,
            },
        )
    }
}

} // verus!
