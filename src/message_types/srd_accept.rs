use vstd::prelude::*;
use crate::error::SrdError;
use crate::mac::{compute_mac, spec_mac, views};
use crate::wire::{
    expand_start, le_u16_at, le_u32_at, lemma_u16_at, lemma_u16_le_of_read, lemma_u32_at,
    lemma_u32_le_of_read, read_array32, read_bytes,
    read_u16_le, read_u32_le, spec_expand_start, u16_le, u32_le, write_all, write_u16_le,
    write_u32_le, write_u8, SRD_ACCEPT_MSG_ID, SRD_FLAG_CBT, SRD_FLAG_MAC, SRD_SIGNATURE,
};

verus! {

/// ACCEPT: the initiator's chosen cipher, public key, nonce and channel binding.
#[derive(Debug, PartialEq, Eq, Clone)]
pub struct SrdAccept {
    pub signature: u32,
    pub packet_type: u8,
    pub seq_num: u8,
    pub flags: u16,
    pub cipher: u32,
    pub key_size: u16,
    pub reserved: u16,
    pub public_key: Vec<u8>,
    pub nonce: [u8; 32],
    pub cbt: [u8; 32],
    pub mac: [u8; 32],
}

/// The fields of an ACCEPT message as mathematical values.
pub struct AcceptModel {
    pub signature: u32,
    pub packet_type: u8,
    pub seq_num: u8,
    pub flags: u16,
    pub cipher: u32,
    pub key_size: u16,
    pub reserved: u16,
    pub public_key: Seq<u8>,
    pub nonce: Seq<u8>,
    pub cbt: Seq<u8>,
    pub mac: Seq<u8>,
}

impl View for SrdAccept {
    type V = AcceptModel;

    open spec fn view(&self) -> AcceptModel {
        AcceptModel {
            signature: self.signature,
            packet_type: self.packet_type,
            seq_num: self.seq_num,
            flags: self.flags,
            cipher: self.cipher,
            key_size: self.key_size,
            reserved: self.reserved,
            public_key: self.public_key@,
            nonce: self.nonce@,
            cbt: self.cbt@,
            mac: self.mac@,
        }
    }
}

/// Bytes of the public key for a key size in bits.
pub open spec fn key_bytes(key_size: u16) -> nat {
    (key_size / 8) as nat
}

/// A message that the framing can carry and read back unchanged.
pub open spec fn accept_valid(m: AcceptModel) -> bool {
    &&& m.signature == SRD_SIGNATURE
    &&& 1 <= m.packet_type <= 6
    &&& m.reserved == 0
    &&& m.public_key.len() == key_bytes(m.key_size)
    &&& m.nonce.len() == 32
    &&& m.cbt.len() == 32
    &&& m.mac.len() == 32
}

/// The message without its MAC trailer.
pub open spec fn accept_inner(m: AcceptModel) -> Seq<u8> {
    u32_le(m.signature) + seq![m.packet_type] + seq![m.seq_num] + u16_le(m.flags) + u32_le(
        m.cipher,
    ) + u16_le(m.key_size) + u16_le(m.reserved) + m.public_key + m.nonce + m.cbt
}

/// The message as it goes on the wire.
pub open spec fn accept_bytes(m: AcceptModel) -> Seq<u8> {
    accept_inner(m) + m.mac
}

/// What the decoder makes of `b`: `None` when the framing is wrong.
pub open spec fn accept_parse(b: Seq<u8>) -> Option<AcceptModel> {
    if b.len() < 16 {
        None
    } else {
        let n = key_bytes(le_u16_at(b, 12)) as int;
        if b.len() < 112 + n || le_u32_at(b, 0) != SRD_SIGNATURE || !(1 <= b[4] <= 6)
            || le_u16_at(b, 14) != 0 {
            None
        } else {
            Some(
                AcceptModel {
                    signature: le_u32_at(b, 0),
                    packet_type: b[4],
                    seq_num: b[5],
                    flags: le_u16_at(b, 6),
                    cipher: le_u32_at(b, 8),
                    key_size: le_u16_at(b, 12),
                    reserved: le_u16_at(b, 14),
                    public_key: b.subrange(16, 16 + n),
                    nonce: b.subrange(16 + n, 48 + n),
                    cbt: b.subrange(48 + n, 80 + n),
                    mac: b.subrange(80 + n, 112 + n),
                },
            )
        }
    }
}

/// Decoding an encoded valid ACCEPT gives the same message back.
pub proof fn lemma_accept_round_trip(m: AcceptModel)
    requires
        accept_valid(m),
    ensures
        accept_parse(accept_bytes(m)) == Some(m),
{
    let b = accept_bytes(m);
    let n = m.public_key.len() as int;
    assert(b.subrange(0, 4) =~= u32_le(m.signature));
    assert(b.subrange(6, 8) =~= u16_le(m.flags));
    assert(b.subrange(8, 12) =~= u32_le(m.cipher));
    assert(b.subrange(12, 14) =~= u16_le(m.key_size));
    assert(b.subrange(14, 16) =~= u16_le(m.reserved));
    lemma_u32_at(b, 0, m.signature);
    lemma_u16_at(b, 6, m.flags);
    lemma_u32_at(b, 8, m.cipher);
    lemma_u16_at(b, 12, m.key_size);
    lemma_u16_at(b, 14, m.reserved);
    assert(b.subrange(16, 16 + n) =~= m.public_key);
    assert(b.subrange(16 + n, 48 + n) =~= m.nonce);
    assert(b.subrange(48 + n, 80 + n) =~= m.cbt);
    assert(b.subrange(80 + n, 112 + n) =~= m.mac);
}

/// Encoding a decoded ACCEPT gives back exactly the bytes the decoder consumed.
pub proof fn lemma_accept_reencode(b: Seq<u8>)
    requires
        accept_parse(b) is Some,
    ensures
        accept_bytes(accept_parse(b)->0) == b.subrange(
            0,
            112 + key_bytes(le_u16_at(b, 12)) as int,
        ),
{
    let m = accept_parse(b)->0;
    let n = key_bytes(le_u16_at(b, 12)) as int;
    lemma_u32_le_of_read(b, 0);
    lemma_u16_le_of_read(b, 6);
    lemma_u32_le_of_read(b, 8);
    lemma_u16_le_of_read(b, 12);
    lemma_u16_le_of_read(b, 14);
    let e = accept_bytes(m);
    assert forall|i: int| 0 <= i < 112 + n implies e[i] == b[i] by {
        if i < 4 {
            assert(e[i] == u32_le(m.signature)[i]);
            assert(b.subrange(0, 4)[i] == b[i]);
        } else if i < 6 {
        } else if i < 8 {
            assert(e[i] == u16_le(m.flags)[i - 6]);
            assert(b.subrange(6, 8)[i - 6] == b[i]);
        } else if i < 12 {
            assert(e[i] == u32_le(m.cipher)[i - 8]);
            assert(b.subrange(8, 12)[i - 8] == b[i]);
        } else if i < 14 {
            assert(e[i] == u16_le(m.key_size)[i - 12]);
            assert(b.subrange(12, 14)[i - 12] == b[i]);
        } else if i < 16 {
            assert(e[i] == u16_le(m.reserved)[i - 14]);
            assert(b.subrange(14, 16)[i - 14] == b[i]);
        }
    }
    assert(e =~= b.subrange(0, 112 + n));
}

impl SrdAccept {
    /// Builds an ACCEPT whose public key is left-padded to `key_size / 8` bytes and whose
    /// MAC covers `previous_messages` and the new message's inner bytes.
    pub fn new(
        seq_num: u8,
        cipher: u32,
        key_size: u16,
        public_key: Vec<u8>,
        nonce: [u8; 32],
        cbt_opt: Option<[u8; 32]>,
        previous_messages: &[Vec<u8>],
        integrity_key: &[u8],
    ) -> (r: Result<Self, SrdError>)
        ensures
            match r {
                Err(e) => public_key@.len() > key_bytes(key_size) && e == SrdError::Malformed,
                Ok(a) => public_key@.len() <= key_bytes(key_size) && {
                &&& a@.signature == SRD_SIGNATURE
                &&& a@.packet_type == SRD_ACCEPT_MSG_ID
                &&& a@.seq_num == seq_num
                &&& a@.flags == (match cbt_opt {
                    Some(_) => SRD_FLAG_MAC | SRD_FLAG_CBT,
                    None => SRD_FLAG_MAC,
                })
                &&& a@.cipher == cipher
                &&& a@.key_size == key_size
                &&& a@.reserved == 0
                &&& a@.public_key == spec_expand_start(public_key@, key_bytes(key_size))
                &&& a@.nonce == nonce@
                &&& a@.cbt == (match cbt_opt {
                    Some(c) => c@,
                    None => seq![0u8; 32],
                })
                &&& a@.mac == spec_mac(integrity_key@, views(previous_messages@), accept_inner(a@))
                &&& accept_valid(a@)
                },
            },
    {
        let width = (key_size / 8) as usize;
        if public_key.len() > width {
            return Err(SrdError::Malformed);
        }
        let mut public_key = public_key;
        expand_start(&mut public_key, width);
        let mut cbt = [0u8; 32];
        let mut flags = SRD_FLAG_MAC;
        match cbt_opt {
            None => (),
            Some(c) => {
                flags = flags | SRD_FLAG_CBT;
                cbt = c;
            },
        }
        let mut response = SrdAccept {
            signature: SRD_SIGNATURE,
            packet_type: SRD_ACCEPT_MSG_ID,
            seq_num,
            flags,
            cipher,
            key_size,
            reserved: 0,
            public_key,
            nonce,
            cbt,
            mac: [0u8; 32],
        };
        assert(cbt_opt is None ==> cbt@ =~= seq![0u8; 32]);
        let mut inner: Vec<u8> = Vec::new();
        response.write_inner_buffer(&mut inner);
        let mac = compute_mac(previous_messages, inner.as_slice(), integrity_key);
        response.set_mac(&mac);
        assert(accept_inner(response@) == inner@);
        Ok(response)
    }

    /// Appends the message without its MAC trailer.
    pub fn write_inner_buffer(&self, buffer: &mut Vec<u8>)
        ensures
            final(buffer)@ == old(buffer)@ + accept_inner(self@),
    {
        let ghost start = buffer@;
        write_u32_le(buffer, self.signature);
        write_u8(buffer, self.packet_type);
        write_u8(buffer, self.seq_num);
        write_u16_le(buffer, self.flags);
        write_u32_le(buffer, self.cipher);
        write_u16_le(buffer, self.key_size);
        write_u16_le(buffer, self.reserved);
        write_all(buffer, self.public_key.as_slice());
        write_all(buffer, &self.nonce);
        write_all(buffer, &self.cbt);
        assert(buffer@ =~= start + accept_inner(self@));
    }

    /// Appends the whole message, MAC trailer included.
    pub fn write_to(&self, buffer: &mut Vec<u8>)
        ensures
            final(buffer)@ == old(buffer)@ + accept_bytes(self@),
    {
        let ghost start = buffer@;
        self.write_inner_buffer(buffer);
        write_all(buffer, &self.mac);
        assert(buffer@ =~= start + accept_bytes(self@));
    }

    /// Reads an ACCEPT from the start of `buffer`; bytes after it are left alone.
    pub fn read_from(buffer: &[u8]) -> (r: Result<Self, SrdError>)
        ensures
            match accept_parse(buffer@) {
                Some(m) => r matches Ok(a) && a@ == m,
                None => r == Err::<Self, SrdError>(SrdError::Malformed),
            },
    {
        let len = buffer.len();
        if len < 16 {
            return Err(SrdError::Malformed);
        }
        let signature = read_u32_le(buffer, 0);
        let packet_type = buffer[4];
        let seq_num = buffer[5];
        let flags = read_u16_le(buffer, 6);
        let cipher = read_u32_le(buffer, 8);
        let key_size = read_u16_le(buffer, 12);
        let reserved = read_u16_le(buffer, 14);
        let n = (key_size / 8) as usize;
        if len < 112 || len - 112 < n || signature != SRD_SIGNATURE || packet_type < 1
            || packet_type > 6 || reserved != 0 {
            return Err(SrdError::Malformed);
        }
        let public_key = read_bytes(buffer, 16, n);
        let nonce = read_array32(buffer, 16 + n);
        let cbt = read_array32(buffer, 48 + n);
        let mac = read_array32(buffer, 80 + n);
        Ok(
            SrdAccept {
                signature,
                packet_type,
                seq_num,
                flags,
                cipher,
                key_size,
                reserved,
                public_key,
                nonce,
                cbt,
                mac,
            },
        )
    }

    pub fn id(&self) -> (r: u8)
        ensures
            r == SRD_ACCEPT_MSG_ID,
    {
        SRD_ACCEPT_MSG_ID
    }

    pub fn signature(&self) -> (r: u32)
        ensures
            r == self.signature,
    {
        self.signature
    }

    pub fn seq_num(&self) -> (r: u8)
        ensures
            r == self.seq_num,
    {
        self.seq_num
    }

    pub fn mac(&self) -> (r: &[u8; 32])
        ensures
            r@ == self.mac@,
    {
        &self.mac
    }

    pub fn set_mac(&mut self, mac: &[u8; 32])
        ensures
            final(self)@ == (AcceptModel { mac: mac@, ..old(self)@ }),
    {
        self.mac = *mac;
    }

    /// Whether the message carries a channel binding token.
    pub fn has_cbt(&self) -> (r: bool)
        ensures
            r == (self.flags & SRD_FLAG_CBT != 0),
    {
        self.flags & SRD_FLAG_CBT != 0
    }
}

} // verus!
