//! The running transcript and the MAC chained over it.
use vstd::prelude::*;
use crate::primitives::{hmac_sha256, hmac_sha256_of};

verus! {

/// Concatenation of the inner bytes of every message, in order.
pub open spec fn transcript(msgs: Seq<Seq<u8>>) -> Seq<u8>
    decreases msgs.len(),
{
    if msgs.len() == 0 {
        Seq::empty()
    } else {
        transcript(msgs.drop_last()) + msgs.last()
    }
}

/// The messages' byte views.
pub open spec fn views(msgs: Seq<Vec<u8>>) -> Seq<Seq<u8>> {
    msgs.map_values(|m: Vec<u8>| m@)
}

/// What the MAC of a message covers: every earlier message's inner bytes, then its own.
pub open spec fn mac_input(previous: Seq<Seq<u8>>, inner: Seq<u8>) -> Seq<u8> {
    transcript(previous.push(inner))
}

/// The MAC a message carries.
pub open spec fn spec_mac(integrity_key: Seq<u8>, previous: Seq<Seq<u8>>, inner: Seq<u8>) -> Seq<
    u8,
> {
    hmac_sha256_of(integrity_key, mac_input(previous, inner))
}

/// The transcript of two runs of messages is the transcript of the first, then of the second.
pub proof fn lemma_transcript_append(a: Seq<Seq<u8>>, b: Seq<Seq<u8>>)
    ensures
        transcript(a + b) == transcript(a) + transcript(b),
    decreases b.len(),
{
    if b.len() == 0 {
        assert(a + b =~= a);
        assert(transcript(a) + transcript(b) =~= transcript(a));
    } else {
        lemma_transcript_append(a, b.drop_last());
        assert((a + b).drop_last() =~= a + b.drop_last());
        assert((a + b).last() == b.last());
        assert(transcript(a + b) =~= transcript(a) + transcript(b));
    }
}

proof fn lemma_transcript_single(m: Seq<u8>)
    ensures
        transcript(seq![m]) == m,
{
    let one = seq![m];
    assert(one.drop_last() =~= Seq::<Seq<u8>>::empty());
    assert(transcript(one.drop_last()) == Seq::<u8>::empty());
    assert(transcript(one) =~= m);
}

/// Changing one byte of any earlier message changes what the MAC of every later
/// message covers, whatever messages came between.
pub proof fn lemma_mac_chaining(
    previous: Seq<Seq<u8>>,
    k: int,
    j: int,
    byte: u8,
    between: Seq<Seq<u8>>,
    inner: Seq<u8>,
)
    requires
        0 <= k < previous.len(),
        0 <= j < previous[k].len(),
        byte != previous[k][j],
    ensures
        mac_input(previous + between, inner) != mac_input(
            previous.update(k, previous[k].update(j, byte)) + between,
            inner,
        ),
{
    let changed = previous.update(k, previous[k].update(j, byte));
    let head = previous.subrange(0, k);
    let tail = previous.subrange(k + 1, previous.len() as int);
    assert(previous =~= head + seq![previous[k]] + tail);
    assert(changed =~= head + seq![changed[k]] + tail);
    lemma_transcript_single(previous[k]);
    lemma_transcript_single(changed[k]);
    lemma_transcript_append(head + seq![previous[k]], tail);
    lemma_transcript_append(head, seq![previous[k]]);
    lemma_transcript_append(head + seq![changed[k]], tail);
    lemma_transcript_append(head, seq![changed[k]]);
    let rest = between.push(inner);
    lemma_transcript_append(previous, rest);
    lemma_transcript_append(changed, rest);
    assert((previous + between).push(inner) =~= previous + rest);
    assert((changed + between).push(inner) =~= changed + rest);
    let pos = transcript(head).len() + j;
    assert(mac_input(previous + between, inner)[pos] == previous[k][j]);
    assert(mac_input(changed + between, inner)[pos] == byte);
}

/// HMAC-SHA256 over the transcript of `previous_messages` followed by `inner`.
pub fn compute_mac(previous_messages: &[Vec<u8>], inner: &[u8], integrity_key: &[u8]) -> (r: [u8;
    32])
    ensures
        r@ == spec_mac(integrity_key@, views(previous_messages@), inner@),
{
    let mut data: Vec<u8> = Vec::new();
    let mut i: usize = 0;
    while i < previous_messages.len()
        invariant
            i <= previous_messages@.len(),
            data@ == transcript(views(previous_messages@.subrange(0, i as int))),
        decreases previous_messages@.len() - i,
    {
        let ghost before = data@;
        crate::wire::write_all(&mut data, previous_messages[i].as_slice());
        proof {
            let s = views(previous_messages@.subrange(0, i + 1));
            assert(s.drop_last() =~= views(previous_messages@.subrange(0, i as int)));
            assert(s.last() == previous_messages@[i as int]@);
        }
        i = i + 1;
    }
    crate::wire::write_all(&mut data, inner);
    proof {
        let all = views(previous_messages@);
        assert(previous_messages@.subrange(0, i as int) =~= previous_messages@);
        assert(all.push(inner@).drop_last() =~= all);
    }
    hmac_sha256(integrity_key, data.as_slice())
}

proof fn lemma_or_xor_zero(acc: u8, x: u8, y: u8)
    ensures
        ((acc | (x ^ y)) == 0) <==> (acc == 0 && x == y),
{
    assert(((acc | (x ^ y)) == 0) <==> (acc == 0 && x == y)) by (bit_vector);
}

/// Compares two MACs, visiting every byte whatever the position of the first difference.
pub fn mac_equal(expected: &[u8; 32], received: &[u8; 32]) -> (r: bool)
    ensures
        r == (expected@ == received@),
{
    let mut acc: u8 = 0;
    let mut i: usize = 0;
    while i < 32
        invariant
            i <= 32,
            expected@.len() == 32,
            received@.len() == 32,
            (acc == 0) == (forall|j: int| 0 <= j < i ==> expected@[j] == received@[j]),
        decreases 32 - i,
    {
        proof {
            lemma_or_xor_zero(acc, expected@[i as int], received@[i as int]);
        }
        acc = acc | (expected[i] ^ received[i]);
        i = i + 1;
    }
    if acc == 0 {
        assert(expected@ =~= received@);
        true
    } else {
        false
    }
}

/// Checks a received MAC against the one the transcript calls for.
pub fn verify_mac(
    previous_messages: &[Vec<u8>],
    inner: &[u8],
    integrity_key: &[u8],
    received: &[u8; 32],
) -> (r: bool)
    ensures
        r == (received@ == spec_mac(integrity_key@, views(previous_messages@), inner@)),
{
    let expected = compute_mac(previous_messages, inner, integrity_key);
    mac_equal(&expected, received)
}

} // verus!
