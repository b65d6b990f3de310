//! What the two peers record of each message they exchange.
use vstd::prelude::*;
use crate::message_types::srd_accept::{
    accept_bytes, accept_inner, accept_parse, accept_valid, lemma_accept_round_trip, AcceptModel,
};
use crate::message_types::srd_confirm::{
    confirm_bytes, confirm_inner, confirm_parse, confirm_valid, lemma_confirm_round_trip,
    ConfirmModel,
};
use crate::message_types::srd_delegate::{
    delegate_bytes, delegate_inner, delegate_parse, delegate_valid, lemma_delegate_round_trip,
    DelegateModel,
};
use crate::message_types::srd_initiate::{
    initiate_bytes, initiate_parse, initiate_valid, lemma_initiate_round_trip, SrdInitiate,
};
use crate::message_types::srd_offer::{
    lemma_offer_round_trip, offer_bytes, offer_parse, offer_valid, OfferModel,
};
use crate::message_types::srd_result::{
    lemma_result_round_trip, result_bytes, result_inner, result_parse, result_valid, ResultModel,
};

verus! {

/// The receiver of a message adds to its transcript exactly the entry its sender added:
/// the whole message for INITIATE and OFFER, the bytes before the MAC for the others.
/// Peers that start from equal transcripts therefore keep them equal at every step.
pub proof fn lemma_peers_record_same_entry(
    t: Seq<Seq<u8>>,
    i: SrdInitiate,
    o: OfferModel,
    a: AcceptModel,
    c: ConfirmModel,
    d: DelegateModel,
    r: ResultModel,
)
    requires
        initiate_valid(i),
        offer_valid(o),
        accept_valid(a),
        confirm_valid(c),
        delegate_valid(d),
        result_valid(r),
    ensures
        initiate_parse(initiate_bytes(i)) matches Some(x) && t.push(initiate_bytes(x)) == t.push(
            initiate_bytes(i),
        ),
        offer_parse(offer_bytes(o)) matches Some(x) && t.push(offer_bytes(x)) == t.push(
            offer_bytes(o),
        ),
        accept_parse(accept_bytes(a)) matches Some(x) && t.push(accept_inner(x)) == t.push(
            accept_inner(a),
        ),
        confirm_parse(confirm_bytes(c)) matches Some(x) && t.push(confirm_inner(x)) == t.push(
            confirm_inner(c),
        ),
        delegate_parse(delegate_bytes(d)) matches Some(x) && t.push(delegate_inner(x)) == t.push(
            delegate_inner(d),
        ),
        result_parse(result_bytes(r)) matches Some(x) && t.push(result_inner(x)) == t.push(
            result_inner(r),
        ),
{
    lemma_initiate_round_trip(i);
    lemma_offer_round_trip(o);
    lemma_accept_round_trip(a);
    lemma_confirm_round_trip(c);
    lemma_delegate_round_trip(d);
    lemma_result_round_trip(r);
}

} // verus!
