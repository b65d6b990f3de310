//! The credential blob carried, encrypted, by DELEGATE.
use vstd::prelude::*;
use crate::error::SrdError;
use crate::wire::{
    le_u16_at, le_u32_at, lemma_u16_at, lemma_u32_at, read_bytes, read_u16_le, read_u32_le,
    u16_le, u32_le, write_all, write_u16_le, write_u32_le,
};

verus! {

/// Magic number that opens a credential blob.
pub const SRD_BLOB_MAGIC: u32 = 0x4C425253;
/// Kind of a blob holding a user name and a password.
pub const SRD_BLOB_BASIC_LOGON: u32 = 1;

/// A `BasicLogon` credential: UTF-8 user name and password, without trailing NUL.
#[derive(Debug, PartialEq, Eq, Clone)]
pub struct SrdBlob {
    pub username: Vec<u8>,
    pub password: Vec<u8>,
}

impl View for SrdBlob {
    type V = (Seq<u8>, Seq<u8>);

    open spec fn view(&self) -> (Seq<u8>, Seq<u8>) {
        (self.username@, self.password@)
    }
}

/// Both lengths fit their 16-bit length fields.
pub open spec fn blob_valid(u: Seq<u8>, p: Seq<u8>) -> bool {
    u.len() <= 0xffff && p.len() <= 0xffff
}

/// Zero bytes that bring `n` up to a multiple of 16.
pub open spec fn pad_len(n: nat) -> nat {
    ((16 - n % 16) % 16) as nat
}

/// The blob in plaintext, zero-padded to a multiple of 16 bytes.
pub open spec fn blob_bytes(u: Seq<u8>, p: Seq<u8>) -> Seq<u8> {
    let body = u32_le(SRD_BLOB_MAGIC) + u32_le(SRD_BLOB_BASIC_LOGON) + u16_le(u.len() as u16)
        + u16_le(p.len() as u16) + u + p;
    body + Seq::new(pad_len(body.len()), |_i: int| 0u8)
}

/// The user name and password read from `b`; `None` when `b` is no `BasicLogon` blob.
/// Bytes after the password are padding and are ignored.
pub open spec fn blob_parse(b: Seq<u8>) -> Option<(Seq<u8>, Seq<u8>)> {
    if b.len() < 12 || le_u32_at(b, 0) != SRD_BLOB_MAGIC || le_u32_at(b, 4)
        != SRD_BLOB_BASIC_LOGON {
        None
    } else {
        let ul = le_u16_at(b, 8) as int;
        let pl = le_u16_at(b, 10) as int;
        if b.len() < 12 + ul + pl {
            None
        } else {
            Some((b.subrange(12, 12 + ul), b.subrange(12 + ul, 12 + ul + pl)))
        }
    }
}

/// Parsing the bytes of a valid blob gives back its user name and password.
pub proof fn lemma_blob_round_trip(u: Seq<u8>, p: Seq<u8>)
    requires
        blob_valid(u, p),
    ensures
        blob_parse(blob_bytes(u, p)) == Some((u, p)),
        blob_bytes(u, p).len() % 16 == 0,
{
    let b = blob_bytes(u, p);
    assert(b.subrange(0, 4) =~= u32_le(SRD_BLOB_MAGIC));
    assert(b.subrange(4, 8) =~= u32_le(SRD_BLOB_BASIC_LOGON));
    assert(b.subrange(8, 10) =~= u16_le(u.len() as u16));
    assert(b.subrange(10, 12) =~= u16_le(p.len() as u16));
    lemma_u32_at(b, 0, SRD_BLOB_MAGIC);
    lemma_u32_at(b, 4, SRD_BLOB_BASIC_LOGON);
    lemma_u16_at(b, 8, u.len() as u16);
    lemma_u16_at(b, 10, p.len() as u16);
    let ul = u.len() as int;
    let pl = p.len() as int;
    assert(b.subrange(12, 12 + ul) =~= u);
    assert(b.subrange(12 + ul, 12 + ul + pl) =~= p);
}

/// A valid blob's bytes fill whole 16-byte blocks and fit a 32-bit length.
pub proof fn lemma_blob_len(u: Seq<u8>, p: Seq<u8>)
    requires
        blob_valid(u, p),
    ensures
        blob_bytes(u, p).len() % 16 == 0,
        blob_bytes(u, p).len() <= 0x20020,
{
}

impl SrdBlob {
    pub fn new(username: Vec<u8>, password: Vec<u8>) -> (r: SrdBlob)
        ensures
            r@ == (username@, password@),
    {
        SrdBlob { username, password }
    }

    /// Whether the lengths fit the blob's length fields.
    pub fn is_valid(&self) -> (r: bool)
        ensures
            r == blob_valid(self.username@, self.password@),
    {
        self.username.len() <= 0xffff && self.password.len() <= 0xffff
    }

    /// Appends the blob, padded with zeros to a multiple of 16 bytes.
    pub fn write_to(&self, buffer: &mut Vec<u8>)
        requires
            blob_valid(self.username@, self.password@),
        ensures
            final(buffer)@ == old(buffer)@ + blob_bytes(self.username@, self.password@),
    {
        let ghost start = buffer@;
        let ul = self.username.len();
        let pl = self.password.len();
        write_u32_le(buffer, SRD_BLOB_MAGIC);
        write_u32_le(buffer, SRD_BLOB_BASIC_LOGON);
        write_u16_le(buffer, ul as u16);
        write_u16_le(buffer, pl as u16);
        write_all(buffer, self.username.as_slice());
        write_all(buffer, self.password.as_slice());
        let body_len = 12 + ul + pl;
        let pad = (16 - body_len % 16) % 16;
        let ghost body = buffer@;
        let mut i: usize = 0;
        while i < pad
            invariant
                i <= pad,
                buffer@ == body + Seq::new(i as nat, |_j: int| 0u8),
            decreases pad - i,
        {
            buffer.push(0u8);
            i = i + 1;
            assert(buffer@ =~= body + Seq::new(i as nat, |_j: int| 0u8));
        }
        assert(buffer@ =~= start + blob_bytes(self.username@, self.password@));
    }

    /// Reads a `BasicLogon` blob, recovering the exact lengths from its length fields.
    pub fn read_from(buffer: &[u8]) -> (r: Result<SrdBlob, SrdError>)
        ensures
            match blob_parse(buffer@) {
                Some(v) => r matches Ok(b) && b@ == v,
                None => r == Err::<SrdBlob, SrdError>(SrdError::Malformed),
            },
    {
        let len = buffer.len();
        if len < 12 {
            return Err(SrdError::Malformed);
        }
        if read_u32_le(buffer, 0) != SRD_BLOB_MAGIC || read_u32_le(buffer, 4)
            != SRD_BLOB_BASIC_LOGON {
            return Err(SrdError::Malformed);
        }
        let ul = read_u16_le(buffer, 8) as usize;
        let pl = read_u16_le(buffer, 10) as usize;
        if len - 12 < ul + pl {
            return Err(SrdError::Malformed);
        }
        let username = read_bytes(buffer, 12, ul);
        let password = read_bytes(buffer, 12 + ul, pl);
        Ok(SrdBlob { username, password })
    }
}

} // verus!
