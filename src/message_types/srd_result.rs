use vstd::prelude::*;
use crate::error::SrdError;
use crate::mac::{compute_mac, spec_mac, views};
use crate::message_types::prolog::{lemma_prolog, prolog_bytes, prolog_ok, write_prolog};
use crate::wire::{
    le_u16_at, le_u32_at, lemma_u32_at, read_array32, read_u16_le, read_u32_le, u32_le, write_all,
    write_u32_le, SRD_FLAG_MAC, SRD_RESULT_MSG_ID, SRD_SIGNATURE,
};

verus! {

/// RESULT: the responder's status, 0 for success.
#[derive(Debug, PartialEq, Eq, Clone, Copy)]
pub struct SrdResult {
    pub signature: u32,
    pub packet_type: u8,
    pub seq_num: u8,
    pub flags: u16,
    pub status: u32,
    pub mac: [u8; 32],
}

/// The fields of a RESULT message as mathematical values.
pub struct ResultModel {
    pub signature: u32,
    pub packet_type: u8,
    pub seq_num: u8,
    pub flags: u16,
    pub status: u32,
    pub mac: Seq<u8>,
}

impl View for SrdResult {
    type V = ResultModel;

    open spec fn view(&self) -> ResultModel {
        ResultModel {
            signature: self.signature,
            packet_type: self.packet_type,
            seq_num: self.seq_num,
            flags: self.flags,
            status: self.status,
            mac: self.mac@,
        }
    }
}

pub open spec fn result_valid(m: ResultModel) -> bool {
    m.signature == SRD_SIGNATURE && 1 <= m.packet_type <= 6 && m.mac.len() == 32
}

/// The message without its MAC trailer.
pub open spec fn result_inner(m: ResultModel) -> Seq<u8> {
    prolog_bytes(m.signature, m.packet_type, m.seq_num, m.flags) + u32_le(m.status)
}

pub open spec fn result_bytes(m: ResultModel) -> Seq<u8> {
    result_inner(m) + m.mac
}

/// What the decoder makes of `b`: `None` when the framing is wrong.
pub open spec fn result_parse(b: Seq<u8>) -> Option<ResultModel> {
    if b.len() < 44 || !prolog_ok(b) {
        None
    } else {
        Some(
            ResultModel {
                signature: le_u32_at(b, 0),
                packet_type: b[4],
                seq_num: b[5],
                flags: le_u16_at(b, 6),
                status: le_u32_at(b, 8),
                mac: b.subrange(12, 44),
            },
        )
    }
}

/// Decoding an encoded valid RESULT gives the same message back.
pub proof fn lemma_result_round_trip(m: ResultModel)
    requires
        result_valid(m),
    ensures
        result_parse(result_bytes(m)) == Some(m),
{
    let b = result_bytes(m);
    assert(b.subrange(0, 8) =~= prolog_bytes(m.signature, m.packet_type, m.seq_num, m.flags));
    lemma_prolog(b, m.signature, m.packet_type, m.seq_num, m.flags);
    assert(b.subrange(8, 12) =~= u32_le(m.status));
    lemma_u32_at(b, 8, m.status);
    assert(b.subrange(12, 44) =~= m.mac);
}

/// Status of a successful handshake.
pub const SRD_STATUS_OK: u32 = 0;

impl SrdResult {
    /// Whether the peer reported success.
    pub fn is_success(&self) -> (r: bool)
        ensures
            r == (self.status == SRD_STATUS_OK),
    {
        self.status == SRD_STATUS_OK
    }

    /// A RESULT carrying `status`, whose MAC covers `previous_messages` and its own inner bytes.
    pub fn new(seq_num: u8, status: u32, previous_messages: &[Vec<u8>], integrity_key: &[u8]) -> (r:
        SrdResult)
        ensures
            r@.signature == SRD_SIGNATURE,
            r@.packet_type == SRD_RESULT_MSG_ID,
            r@.seq_num == seq_num,
            r@.flags == SRD_FLAG_MAC,
            r@.status == status,
            r@.mac == spec_mac(integrity_key@, views(previous_messages@), result_inner(r@)),
    {
        let mut response = SrdResult {
            signature: SRD_SIGNATURE,
            packet_type: SRD_RESULT_MSG_ID,
            seq_num,
            flags: SRD_FLAG_MAC,
            status,
            mac: [0u8; 32],
        };
        let mut inner: Vec<u8> = Vec::new();
        response.write_inner_buffer(&mut inner);
        assert(inner@ =~= result_inner(response@));
        response.mac = compute_mac(previous_messages, inner.as_slice(), integrity_key);
        response
    }

    pub fn write_inner_buffer(&self, buffer: &mut Vec<u8>)
        ensures
            final(buffer)@ == old(buffer)@ + result_inner(self@),
    {
        let ghost start = buffer@;
        write_prolog(buffer, self.signature, self.packet_type, self.seq_num, self.flags);
        write_u32_le(buffer, self.status);
        assert(buffer@ =~= start + result_inner(self@));
    }

    pub fn write_to(&self, buffer: &mut Vec<u8>)
        ensures
            final(buffer)@ == old(buffer)@ + result_bytes(self@),
    {
        let ghost start = buffer@;
        self.write_inner_buffer(buffer);
        write_all(buffer, &self.mac);
        assert(buffer@ =~= start + result_bytes(self@));
    }

    /// Reads a RESULT from the start of `buffer`.
    pub fn read_from(buffer: &[u8]) -> (r: Result<SrdResult, SrdError>)
        ensures
            match result_parse(buffer@) {
                Some(m) => r matches Ok(c) && c@ == m,
                None => r == Err::<SrdResult, SrdError>(SrdError::Malformed),
            },
    {
        if buffer.len() < 44 {
            return Err(SrdError::Malformed);
        }
        let signature = read_u32_le(buffer, 0);
        let packet_type = buffer[4];
        if signature != SRD_SIGNATURE || packet_type < 1 || packet_type > 6 {
            return Err(SrdError::Malformed);
        }
        Ok(
            SrdResult {
                signature,
                packet_type,
                seq_num: buffer[5],
                flags: read_u16_le(buffer, 6),
                status: read_u32_le(buffer, 8),
                mac: read_array32(buffer, 12),
            },
        )
    }
}

} // verus!
