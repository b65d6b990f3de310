use vstd::prelude::*;
use crate::error::SrdError;
use crate::mac::{compute_mac, spec_mac, views};
use crate::message_types::prolog::{lemma_prolog, prolog_bytes, prolog_ok, write_prolog};
use crate::wire::{
    le_u16_at, le_u32_at, read_array32, read_u16_le, read_u32_le, write_all, SRD_CONFIRM_MSG_ID,
    SRD_FLAG_MAC, SRD_SIGNATURE,
};

verus! {

/// CONFIRM: the responder's first MAC over the transcript.
#[derive(Debug, PartialEq, Eq, Clone, Copy)]
pub struct SrdConfirm {
    pub signature: u32,
    pub packet_type: u8,
    pub seq_num: u8,
    pub flags: u16,
    pub mac: [u8; 32],
}

/// The fields of a CONFIRM message as mathematical values.
pub struct ConfirmModel {
    pub signature: u32,
    pub packet_type: u8,
    pub seq_num: u8,
    pub flags: u16,
    pub mac: Seq<u8>,
}

impl View for SrdConfirm {
    type V = ConfirmModel;

    open spec fn view(&self) -> ConfirmModel {
        ConfirmModel {
            signature: self.signature,
            packet_type: self.packet_type,
            seq_num: self.seq_num,
            flags: self.flags,
            mac: self.mac@,
        }
    }
}

pub open spec fn confirm_valid(m: ConfirmModel) -> bool {
    m.signature == SRD_SIGNATURE && 1 <= m.packet_type <= 6 && m.mac.len() == 32
}

/// The message without its MAC trailer.
pub open spec fn confirm_inner(m: ConfirmModel) -> Seq<u8> {
    prolog_bytes(m.signature, m.packet_type, m.seq_num, m.flags)
}

pub open spec fn confirm_bytes(m: ConfirmModel) -> Seq<u8> {
    confirm_inner(m) + m.mac
}

/// What the decoder makes of `b`: `None` when the framing is wrong.
pub open spec fn confirm_parse(b: Seq<u8>) -> Option<ConfirmModel> {
    if b.len() < 40 || !prolog_ok(b) {
        None
    } else {
        Some(
            ConfirmModel {
                signature: le_u32_at(b, 0),
                packet_type: b[4],
                seq_num: b[5],
                flags: le_u16_at(b, 6),
                mac: b.subrange(8, 40),
            },
        )
    }
}

/// Decoding an encoded valid CONFIRM gives the same message back.
pub proof fn lemma_confirm_round_trip(m: ConfirmModel)
    requires
        confirm_valid(m),
    ensures
        confirm_parse(confirm_bytes(m)) == Some(m),
{
    let b = confirm_bytes(m);
    assert(b.subrange(0, 8) =~= confirm_inner(m));
    lemma_prolog(b, m.signature, m.packet_type, m.seq_num, m.flags);
    assert(b.subrange(8, 40) =~= m.mac);
}

impl SrdConfirm {
    /// A CONFIRM whose MAC covers `previous_messages` and its own prolog.
    pub fn new(seq_num: u8, previous_messages: &[Vec<u8>], integrity_key: &[u8]) -> (r: SrdConfirm)
        ensures
            r@.signature == SRD_SIGNATURE,
            r@.packet_type == SRD_CONFIRM_MSG_ID,
            r@.seq_num == seq_num,
            r@.flags == SRD_FLAG_MAC,
            r@.mac == spec_mac(integrity_key@, views(previous_messages@), confirm_inner(r@)),
    {
        let mut response = SrdConfirm {
            signature: SRD_SIGNATURE,
            packet_type: SRD_CONFIRM_MSG_ID,
            seq_num,
            flags: SRD_FLAG_MAC,
            mac: [0u8; 32],
        };
        let mut inner: Vec<u8> = Vec::new();
        response.write_inner_buffer(&mut inner);
        assert(inner@ =~= confirm_inner(response@));
        response.mac = compute_mac(previous_messages, inner.as_slice(), integrity_key);
        response
    }

    pub fn write_inner_buffer(&self, buffer: &mut Vec<u8>)
        ensures
            final(buffer)@ == old(buffer)@ + confirm_inner(self@),
    {
        write_prolog(buffer, self.signature, self.packet_type, self.seq_num, self.flags);
    }

    pub fn write_to(&self, buffer: &mut Vec<u8>)
        ensures
            final(buffer)@ == old(buffer)@ + confirm_bytes(self@),
    {
        let ghost start = buffer@;
        self.write_inner_buffer(buffer);
        write_all(buffer, &self.mac);
        assert(buffer@ =~= start + confirm_bytes(self@));
    }

    /// Reads a CONFIRM from the start of `buffer`.
    pub fn read_from(buffer: &[u8]) -> (r: Result<SrdConfirm, SrdError>)
        ensures
            match confirm_parse(buffer@) {
                Some(m) => r matches Ok(c) && c@ == m,
                None => r == Err::<SrdConfirm, SrdError>(SrdError::Malformed),
            },
    {
        if buffer.len() < 40 {
            return Err(SrdError::Malformed);
        }
        let signature = read_u32_le(buffer, 0);
        let packet_type = buffer[4];
        if signature != SRD_SIGNATURE || packet_type < 1 || packet_type > 6 {
            return Err(SrdError::Malformed);
        }
        Ok(
            SrdConfirm {
                signature,
                packet_type,
                seq_num: buffer[5],
                flags: read_u16_le(buffer, 6),
                mac: read_array32(buffer, 8),
            },
        )
    }
}

} // verus!
