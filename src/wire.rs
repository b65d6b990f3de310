//! Little-endian integer framing and the constants shared by every message.
use vstd::prelude::*;

verus! {

/// Magic signature that opens every message.
pub const SRD_SIGNATURE: u32 = 0x1C35F427;

pub const SRD_INITIATE_MSG_ID: u8 = 1;
pub const SRD_OFFER_MSG_ID: u8 = 2;
pub const SRD_ACCEPT_MSG_ID: u8 = 3;
pub const SRD_CONFIRM_MSG_ID: u8 = 4;
pub const SRD_DELEGATE_MSG_ID: u8 = 5;
pub const SRD_RESULT_MSG_ID: u8 = 6;

/// The message carries a MAC trailer.
pub const SRD_FLAG_MAC: u16 = 0x0001;
/// The message carries a channel binding token.
pub const SRD_FLAG_CBT: u16 = 0x0002;

pub open spec fn u16_le(x: u16) -> Seq<u8> {
    seq![(x & 0xff) as u8, ((x >> 8u16) & 0xff) as u8]
}

pub open spec fn u32_le(x: u32) -> Seq<u8> {
    seq![
        (x & 0xff) as u8,
        ((x >> 8u32) & 0xff) as u8,
        ((x >> 16u32) & 0xff) as u8,
        ((x >> 24u32) & 0xff) as u8,
    ]
}

/// The 16-bit little-endian integer whose bytes start at `off`.
pub open spec fn le_u16_at(b: Seq<u8>, off: int) -> u16 {
    (b[off] as u16) | ((b[off + 1] as u16) << 8u16)
}

/// The 32-bit little-endian integer whose bytes start at `off`.
pub open spec fn le_u32_at(b: Seq<u8>, off: int) -> u32 {
    (b[off] as u32) | ((b[off + 1] as u32) << 8u32) | ((b[off + 2] as u32) << 16u32) | ((
    b[off + 3] as u32) << 24u32)
}

/// Reading back the two bytes of `u16_le(x)` gives `x`.
pub proof fn lemma_u16_at(b: Seq<u8>, off: int, x: u16)
    requires
        0 <= off,
        off + 2 <= b.len(),
        b.subrange(off, off + 2) == u16_le(x),
    ensures
        le_u16_at(b, off) == x,
{
    assert(b[off] == b.subrange(off, off + 2)[0]);
    assert(b[off + 1] == b.subrange(off, off + 2)[1]);
    let b0 = b[off];
    let b1 = b[off + 1];
    assert(((b0 as u16) | ((b1 as u16) << 8u16)) == x) by (bit_vector)
        requires
            b0 == (x & 0xff) as u8,
            b1 == ((x >> 8u16) & 0xff) as u8,
    ;
}

/// Reading back the four bytes of `u32_le(x)` gives `x`.
pub proof fn lemma_u32_at(b: Seq<u8>, off: int, x: u32)
    requires
        0 <= off,
        off + 4 <= b.len(),
        b.subrange(off, off + 4) == u32_le(x),
    ensures
        le_u32_at(b, off) == x,
{
    let s = b.subrange(off, off + 4);
    assert(b[off] == s[0] && b[off + 1] == s[1] && b[off + 2] == s[2] && b[off + 3] == s[3]);
    let b0 = b[off];
    let b1 = b[off + 1];
    let b2 = b[off + 2];
    let b3 = b[off + 3];
    assert(((b0 as u32) | ((b1 as u32) << 8u32) | ((b2 as u32) << 16u32) | ((b3 as u32)
        << 24u32)) == x) by (bit_vector)
        requires
            b0 == (x & 0xff) as u8,
            b1 == ((x >> 8u32) & 0xff) as u8,
            b2 == ((x >> 16u32) & 0xff) as u8,
            b3 == ((x >> 24u32) & 0xff) as u8,
    ;
}

/// Re-encoding the 16-bit integer read at `off` gives back its two bytes.
pub proof fn lemma_u16_le_of_read(b: Seq<u8>, off: int)
    requires
        0 <= off,
        off + 2 <= b.len(),
    ensures
        u16_le(le_u16_at(b, off)) == b.subrange(off, off + 2),
{
    let b0 = b[off];
    let b1 = b[off + 1];
    let x = le_u16_at(b, off);
    assert((x & 0xff) as u8 == b0 && ((x >> 8u16) & 0xff) as u8 == b1) by (bit_vector)
        requires
            x == (b0 as u16) | ((b1 as u16) << 8u16),
    ;
    assert(u16_le(x) =~= b.subrange(off, off + 2));
}

/// Re-encoding the 32-bit integer read at `off` gives back its four bytes.
pub proof fn lemma_u32_le_of_read(b: Seq<u8>, off: int)
    requires
        0 <= off,
        off + 4 <= b.len(),
    ensures
        u32_le(le_u32_at(b, off)) == b.subrange(off, off + 4),
{
    let b0 = b[off];
    let b1 = b[off + 1];
    let b2 = b[off + 2];
    let b3 = b[off + 3];
    let x = le_u32_at(b, off);
    assert((x & 0xff) as u8 == b0 && ((x >> 8u32) & 0xff) as u8 == b1 && ((x >> 16u32) & 0xff)
        as u8 == b2 && ((x >> 24u32) & 0xff) as u8 == b3) by (bit_vector)
        requires
            x == (b0 as u32) | ((b1 as u32) << 8u32) | ((b2 as u32) << 16u32) | ((b3 as u32)
                << 24u32),
    ;
    assert(u32_le(x) =~= b.subrange(off, off + 4));
}

pub fn write_u8(buffer: &mut Vec<u8>, x: u8)
    ensures
        final(buffer)@ == old(buffer)@.push(x),
{
    buffer.push(x);
}

pub fn write_u16_le(buffer: &mut Vec<u8>, x: u16)
    ensures
        final(buffer)@ == old(buffer)@ + u16_le(x),
{
    buffer.push((x & 0xff) as u8);
    buffer.push(((x >> 8u16) & 0xff) as u8);
    assert(final(buffer)@ =~= old(buffer)@ + u16_le(x));
}

pub fn write_u32_le(buffer: &mut Vec<u8>, x: u32)
    ensures
        final(buffer)@ == old(buffer)@ + u32_le(x),
{
    buffer.push((x & 0xff) as u8);
    buffer.push(((x >> 8u32) & 0xff) as u8);
    buffer.push(((x >> 16u32) & 0xff) as u8);
    buffer.push(((x >> 24u32) & 0xff) as u8);
    assert(final(buffer)@ =~= old(buffer)@ + u32_le(x));
}

/// Appends every byte of `bytes`.
pub fn write_all(buffer: &mut Vec<u8>, bytes: &[u8])
    ensures
        final(buffer)@ == old(buffer)@ + bytes@,
{
    let ghost start = buffer@;
    let mut i: usize = 0;
    while i < bytes.len()
        invariant
            i <= bytes@.len(),
            buffer@ == start + bytes@.subrange(0, i as int),
        decreases bytes@.len() - i,
    {
        buffer.push(bytes[i]);
        i = i + 1;
        assert(buffer@ =~= start + bytes@.subrange(0, i as int));
    }
    assert(bytes@.subrange(0, i as int) =~= bytes@);
}

pub fn read_u16_le(b: &[u8], off: usize) -> (r: u16)
    requires
        off + 2 <= b@.len(),
    ensures
        r == le_u16_at(b@, off as int),
{
    (b[off] as u16) | ((b[off + 1] as u16) << 8u16)
}

pub fn read_u32_le(b: &[u8], off: usize) -> (r: u32)
    requires
        off + 4 <= b@.len(),
    ensures
        r == le_u32_at(b@, off as int),
{
    (b[off] as u32) | ((b[off + 1] as u32) << 8u32) | ((b[off + 2] as u32) << 16u32) | ((b[off
        + 3] as u32) << 24u32)
}

/// Copies `len` bytes starting at `off`.
pub fn read_bytes(b: &[u8], off: usize, len: usize) -> (r: Vec<u8>)
    requires
        off + len <= b@.len(),
    ensures
        r@ == b@.subrange(off as int, off + len),
{
    let mut r: Vec<u8> = Vec::with_capacity(len);
    let blen = b.len();
    let mut i: usize = 0;
    while i < len
        invariant
            i <= len,
            blen == b@.len(),
            off + len <= b@.len(),
            r@ == b@.subrange(off as int, off + i),
        decreases len - i,
    {
        r.push(b[off + i]);
        i = i + 1;
        assert(r@ =~= b@.subrange(off as int, off + i));
    }
    r
}

/// Copies the 32 bytes starting at `off`.
pub fn read_array32(b: &[u8], off: usize) -> (r: [u8; 32])
    requires
        off + 32 <= b@.len(),
    ensures
        r@ == b@.subrange(off as int, off + 32),
{
    let mut r = [0u8; 32];
    let blen = b.len();
    let mut i: usize = 0;
    while i < 32
        invariant
            i <= 32,
            blen == b@.len(),
            off + 32 <= b@.len(),
            r@.len() == 32,
            forall|j: int| 0 <= j < i ==> r@[j] == b@[off + j],
        decreases 32 - i,
    {
        r[i] = b[off + i];
        i = i + 1;
    }
    assert(r@ =~= b@.subrange(off as int, off + 32));
    r
}

/// `v` left-padded with zeros to `width` bytes; unchanged when already that wide.
pub open spec fn spec_expand_start(v: Seq<u8>, width: nat) -> Seq<u8> {
    if v.len() >= width {
        v
    } else {
        Seq::new((width - v.len()) as nat, |_i: int| 0u8) + v
    }
}

/// Left-pads `v` with zeros to `width` bytes.
pub fn expand_start(v: &mut Vec<u8>, width: usize)
    ensures
        final(v)@ == spec_expand_start(old(v)@, width as nat),
{
    if v.len() < width {
        let pad = width - v.len();
        let mut r: Vec<u8> = Vec::with_capacity(width);
        let mut i: usize = 0;
        while i < pad
            invariant
                i <= pad,
                r@ == Seq::new(i as nat, |_j: int| 0u8),
            decreases pad - i,
        {
            r.push(0u8);
            i = i + 1;
            assert(r@ =~= Seq::new(i as nat, |_j: int| 0u8));
        }
        let ghost old_v = v@;
        let mut tail: Vec<u8> = Vec::new();
        std::mem::swap(v, &mut tail);
        write_all(&mut r, tail.as_slice());
        assert(r@ =~= spec_expand_start(old_v, width as nat));
        *v = r;
    }
}

} // verus!
