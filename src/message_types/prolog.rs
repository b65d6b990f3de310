//! The eight bytes that open every message.
use vstd::prelude::*;
use crate::wire::{
    le_u16_at, le_u32_at, lemma_u16_at, lemma_u32_at, u16_le, u32_le, write_u16_le, write_u32_le,
    write_u8, SRD_SIGNATURE,
};

verus! {

/// Signature, packet type, sequence number and flags.
pub open spec fn prolog_bytes(signature: u32, packet_type: u8, seq_num: u8, flags: u16) -> Seq<
    u8,
> {
    u32_le(signature) + seq![packet_type] + seq![seq_num] + u16_le(flags)
}

/// The decoder's checks on a prolog: the magic signature and a known packet type.
pub open spec fn prolog_ok(b: Seq<u8>) -> bool {
    b.len() >= 8 && le_u32_at(b, 0) == SRD_SIGNATURE && 1 <= b[4] <= 6
}

/// A prolog read back from bytes that start with it gives its fields.
pub proof fn lemma_prolog(b: Seq<u8>, signature: u32, packet_type: u8, seq_num: u8, flags: u16)
    requires
        b.len() >= 8,
        b.subrange(0, 8) == prolog_bytes(signature, packet_type, seq_num, flags),
    ensures
        le_u32_at(b, 0) == signature,
        b[4] == packet_type,
        b[5] == seq_num,
        le_u16_at(b, 6) == flags,
{
    let p = prolog_bytes(signature, packet_type, seq_num, flags);
    assert(b.subrange(0, 4) =~= u32_le(signature)) by {
        assert(b.subrange(0, 4) =~= p.subrange(0, 4));
    }
    assert(b.subrange(6, 8) =~= u16_le(flags)) by {
        assert(b.subrange(6, 8) =~= p.subrange(6, 8));
    }
    assert(b[4] == p[4] && b[5] == p[5]);
    lemma_u32_at(b, 0, signature);
    lemma_u16_at(b, 6, flags);
}

pub fn write_prolog(buffer: &mut Vec<u8>, signature: u32, packet_type: u8, seq_num: u8, flags: u16)
    ensures
        final(buffer)@ == old(buffer)@ + prolog_bytes(signature, packet_type, seq_num, flags),
{
    let ghost start = buffer@;
    write_u32_le(buffer, signature);
    write_u8(buffer, packet_type);
    write_u8(buffer, seq_num);
    write_u16_le(buffer, flags);
    assert(buffer@ =~= start + prolog_bytes(signature, packet_type, seq_num, flags));
}

} // verus!
