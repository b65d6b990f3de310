use vstd::prelude::*;
use crate::error::SrdError;
use crate::message_types::prolog::{lemma_prolog, prolog_bytes, prolog_ok, write_prolog};
use crate::wire::{
    le_u16_at, le_u32_at, lemma_u16_at, lemma_u32_at, read_u16_le, read_u32_le, u16_le, u32_le,
    write_u16_le, write_u32_le, SRD_INITIATE_MSG_ID, SRD_SIGNATURE,
};

verus! {

/// INITIATE: the initiator's supported ciphers and requested key size.
#[derive(Debug, PartialEq, Eq, Clone, Copy, Structural)]
pub struct SrdInitiate {
    pub signature: u32,
    pub packet_type: u8,
    pub seq_num: u8,
    pub flags: u16,
    pub cipher_mask: u32,
    pub key_size: u16,
    pub reserved: u16,
}

pub open spec fn initiate_valid(m: SrdInitiate) -> bool {
    m.signature == SRD_SIGNATURE && 1 <= m.packet_type <= 6 && m.reserved == 0
}

pub open spec fn initiate_bytes(m: SrdInitiate) -> Seq<u8> {
    prolog_bytes(m.signature, m.packet_type, m.seq_num, m.flags) + u32_le(m.cipher_mask) + u16_le(
        m.key_size,
    ) + u16_le(m.reserved)
}

/// What the decoder makes of `b`: `None` when the framing is wrong.
pub open spec fn initiate_parse(b: Seq<u8>) -> Option<SrdInitiate> {
    if b.len() < 16 || !prolog_ok(b) || le_u16_at(b, 14) != 0 {
        None
    } else {
        Some(
            SrdInitiate {
                signature: le_u32_at(b, 0),
                packet_type: b[4],
                seq_num: b[5],
                flags: le_u16_at(b, 6),
                cipher_mask: le_u32_at(b, 8),
                key_size: le_u16_at(b, 12),
                reserved: le_u16_at(b, 14),
            },
        )
    }
}

/// Decoding an encoded valid INITIATE gives the same message back.
pub proof fn lemma_initiate_round_trip(m: SrdInitiate)
    requires
        initiate_valid(m),
    ensures
        initiate_parse(initiate_bytes(m)) == Some(m),
{
    let b = initiate_bytes(m);
    assert(b.subrange(0, 8) =~= prolog_bytes(m.signature, m.packet_type, m.seq_num, m.flags));
    lemma_prolog(b, m.signature, m.packet_type, m.seq_num, m.flags);
    assert(b.subrange(8, 12) =~= u32_le(m.cipher_mask));
    assert(b.subrange(12, 14) =~= u16_le(m.key_size));
    assert(b.subrange(14, 16) =~= u16_le(m.reserved));
    lemma_u32_at(b, 8, m.cipher_mask);
    lemma_u16_at(b, 12, m.key_size);
    lemma_u16_at(b, 14, m.reserved);
}

impl SrdInitiate {
    pub fn new(seq_num: u8, cipher_mask: u32, key_size: u16) -> (r: SrdInitiate)
        ensures
            r == (SrdInitiate {
                signature: SRD_SIGNATURE,
                packet_type: SRD_INITIATE_MSG_ID,
                seq_num,
                flags: 0,
                cipher_mask,
                key_size,
                reserved: 0,
            }),
    {
        SrdInitiate {
            signature: SRD_SIGNATURE,
            packet_type: SRD_INITIATE_MSG_ID,
            seq_num,
            flags: 0,
            cipher_mask,
            key_size,
            reserved: 0,
        }
    }

    /// Appends the message; it carries no MAC.
    pub fn write_to(&self, buffer: &mut Vec<u8>)
        ensures
            final(buffer)@ == old(buffer)@ + initiate_bytes(*self),
    {
        let ghost start = buffer@;
        write_prolog(buffer, self.signature, self.packet_type, self.seq_num, self.flags);
        write_u32_le(buffer, self.cipher_mask);
        write_u16_le(buffer, self.key_size);
        write_u16_le(buffer, self.reserved);
        assert(buffer@ =~= start + initiate_bytes(*self));
    }

    /// Reads an INITIATE from the start of `buffer`.
    pub fn read_from(buffer: &[u8]) -> (r: Result<SrdInitiate, SrdError>)
        ensures
            r == (match initiate_parse(buffer@) {
                Some(m) => Ok(m),
                None => Err(SrdError::Malformed),
            }),
    {
        if buffer.len() < 16 {
            return Err(SrdError::Malformed);
        }
        let signature = read_u32_le(buffer, 0);
        let packet_type = buffer[4];
        let reserved = read_u16_le(buffer, 14);
        if signature != SRD_SIGNATURE || packet_type < 1 || packet_type > 6 || reserved != 0 {
            return Err(SrdError::Malformed);
        }
        Ok(
            SrdInitiate {
                signature,
                packet_type,
                seq_num: buffer[5],
                flags: read_u16_le(buffer, 6),
                cipher_mask: read_u32_le(buffer, 8),
                key_size: read_u16_le(buffer, 12),
                reserved,
            },
        )
    }
}

} // verus!
