//! Laws that relate the engine's operations, proved from the same views the
//! operations' contracts use.

use vstd::prelude::*;

use crate::escrow::EscrowSc;
use crate::offer::{Address, Offer, OfferId};

verus! {

/// Every id the by-creator index lists for `a` is an open offer created by
/// `a`; an index entry never outlives or contradicts the stored record.
pub proof fn lemma_created_index_sound(s: EscrowSc, a: Address, i: int)
    requires
        s.wf(),
        0 <= i < s.created_ids(a).len(),
    ensures
        s.offers_map().dom().contains(s.created_ids(a)[i]),
        s.offers_map()[s.created_ids(a)[i]].creator == a,
{
}

/// Every id the by-counterparty index lists for `a` is an open offer whose
/// counterparty is `a`.
pub proof fn lemma_wanted_index_sound(s: EscrowSc, a: Address, i: int)
    requires
        s.wf(),
        0 <= i < s.wanted_ids(a).len(),
    ensures
        s.offers_map().dom().contains(s.wanted_ids(a)[i]),
        s.offers_map()[s.wanted_ids(a)[i]].accepted_address == a,
{
}

/// Every open offer is discoverable: its id sits in its creator's by-creator
/// bucket and in its counterparty's by-counterparty bucket.
pub proof fn lemma_store_indexed(s: EscrowSc, id: OfferId)
    requires
        s.wf(),
        s.offers_map().dom().contains(id),
    ensures
        s.created_ids(s.offers_map()[id].creator).contains(id),
        s.wanted_ids(s.offers_map()[id].accepted_address).contains(id),
{
}

/// A successful creation — by `create_offer`'s contract the store gained
/// exactly the new record under the returned id — means that looking that id
/// up (what `get_offer_by_id`'s contract reads from the same map) yields
/// exactly the record that was stored: the deposit and the requested terms.
pub proof fn lemma_create_then_get(pre: EscrowSc, post: EscrowSc, id: OfferId, offer: Offer)
    requires
        post.offers_map() == pre.offers_map().insert(id, offer),
    ensures
        post.offers_map().dom().contains(id),
        post.offers_map()[id] == offer,
{
}

/// Settlement and cancellation are final: once `accept_offer` or
/// `cancel_offer` has succeeded — by their contracts the store lost exactly
/// the settled id — that id is absent, so by the same contracts a second
/// call on it returns `OfferNotFound` and leaves every part of the state
/// unchanged.
pub proof fn lemma_settlement_is_final(pre: EscrowSc, post: EscrowSc, id: OfferId)
    requires
        post.offers_map() == pre.offers_map().remove(id),
    ensures
        !post.offers_map().dom().contains(id),
{
}

/// The sequence generator never hands out the same id twice, whatever
/// operations run in between: every id `create_offer` has returned is at
/// most the counter's value at that moment, every operation's contract keeps
/// the counter from decreasing, and the next id handed out is the counter's
/// successor — so it differs from every id returned before it.
pub proof fn lemma_ids_never_reused(earlier: EscrowSc, later: EscrowSc, id: OfferId)
    requires
        id <= earlier.last_id(),
        earlier.last_id() <= later.last_id(),
        later.last_id() < u64::MAX,
    ensures
        later.last_id() + 1 != id,
{
}

} // verus!
