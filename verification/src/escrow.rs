//! The escrow engine: the offer store, the id sequence, the two indexes, and
//! the operations that keep them consistent.
//!
//! Every operation validates before it mutates: a refused operation returns
//! an error with the state exactly as it was. Successful operations return
//! the ledger transfers the host must perform; the host's atomic-commit
//! discipline makes the state change and the transfers one indivisible unit.

use std::collections::HashMap;
use vstd::prelude::*;

use crate::index::{no_dups, OfferIndex};
use crate::offer::{Address, EscrowError, Offer, OfferId, Payment, Transfer};

verus! {

broadcast use vstd::std_specs::hash::group_hash_axioms;

/// The escrow engine's whole persisted state.
pub struct EscrowSc {
    offers: HashMap<u64, Offer>,
    created_offers: OfferIndex,
    wanted_offers: OfferIndex,
    last_offer_id: u64,
}

impl EscrowSc {
    /// The open offers, keyed by id; the single source of truth.
    pub closed spec fn offers_map(self) -> Map<OfferId, Offer> {
        self.offers@
    }

    /// The ids the by-creator index holds for `a`.
    pub closed spec fn created_ids(self, a: Address) -> Seq<OfferId> {
        self.created_offers.ids(a)
    }

    /// The ids the by-counterparty index holds for `a`.
    pub closed spec fn wanted_ids(self, a: Address) -> Seq<OfferId> {
        self.wanted_offers.ids(a)
    }

    /// The sequence generator's counter: the last id handed out, 0 initially.
    pub closed spec fn last_id(self) -> OfferId {
        self.last_offer_id
    }

    /// Every stored id was handed out by the sequence generator.
    pub open spec fn ids_bounded(self) -> bool {
        forall|id: OfferId|
            #[trigger] self.offers_map().dom().contains(id) ==> 1 <= id <= self.last_id()
    }

    /// Both payments of every open offer are positive.
    pub open spec fn amounts_positive(self) -> bool {
        forall|id: OfferId|
            self.offers_map().dom().contains(id) ==> ((#[trigger] self.offers_map()[id])
                .offered_payment.amount > 0 && self.offers_map()[id].accepted_payment.amount > 0)
    }

    /// Every id the by-creator index holds for `a` is an open offer created
    /// by `a`.
    pub open spec fn created_index_sound(self) -> bool {
        forall|a: Address, i: int|
            0 <= i < self.created_ids(a).len() ==> (self.offers_map().dom().contains(
                #[trigger] self.created_ids(a)[i],
            ) && self.offers_map()[self.created_ids(a)[i]].creator == a)
    }

    /// Every id the by-counterparty index holds for `a` is an open offer
    /// whose counterparty is `a`.
    pub open spec fn wanted_index_sound(self) -> bool {
        forall|a: Address, i: int|
            0 <= i < self.wanted_ids(a).len() ==> (self.offers_map().dom().contains(
                #[trigger] self.wanted_ids(a)[i],
            ) && self.offers_map()[self.wanted_ids(a)[i]].accepted_address == a)
    }

    /// Every open offer is listed in its creator's by-creator bucket and in
    /// its counterparty's by-counterparty bucket.
    pub open spec fn store_indexed(self) -> bool {
        forall|id: OfferId|
            #[trigger] self.offers_map().dom().contains(id) ==> (self.created_ids(
                self.offers_map()[id].creator,
            ).contains(id) && self.wanted_ids(self.offers_map()[id].accepted_address).contains(id))
    }

    /// No index bucket lists the same id twice.
    pub open spec fn indexes_dup_free(self) -> bool {
        &&& forall|a: Address| no_dups(#[trigger] self.created_ids(a))
        &&& forall|a: Address| no_dups(#[trigger] self.wanted_ids(a))
    }

    /// The joint invariant of store, sequence generator and indexes; every
    /// operation preserves it.
    pub open spec fn wf(self) -> bool {
        &&& self.ids_bounded()
        &&& self.amounts_positive()
        &&& self.created_index_sound()
        &&& self.wanted_index_sound()
        &&& self.store_indexed()
        &&& self.indexes_dup_free()
    }

    /// A fresh engine: no offers, empty indexes, counter at 0.
    pub fn init() -> (r: EscrowSc)
        ensures
            r.wf(),
            r.offers_map() == Map::<OfferId, Offer>::empty(),
            r.last_id() == 0,
            forall|a: Address| #[trigger] r.created_ids(a) == Seq::<OfferId>::empty(),
            forall|a: Address| #[trigger] r.wanted_ids(a) == Seq::<OfferId>::empty(),
    {
        EscrowSc {
            offers: HashMap::new(),
            created_offers: OfferIndex::new(),
            wanted_offers: OfferIndex::new(),
            last_offer_id: 0,
        }
    }

    /// The sequence generator's current value: the last id handed out.
    pub fn get_last_offer_id(&self) -> (r: OfferId)
        ensures
            r == self.last_id(),
    {
        self.last_offer_id
    }

    /// An id the sequence generator has not handed out yet sits in no index
    /// bucket: every indexed id is an open offer, and every open offer's id
    /// was handed out.
    proof fn lemma_fresh_not_indexed(self, id: OfferId)
        requires
            self.wf(),
            id > self.last_id(),
        ensures
            forall|a: Address| !(#[trigger] self.created_ids(a).contains(id)),
            forall|a: Address| !(#[trigger] self.wanted_ids(a).contains(id)),
    {
        assert forall|a: Address| !(#[trigger] self.created_ids(a).contains(id)) by {
            if self.created_ids(a).contains(id) {
                let i = choose|i: int|
                    0 <= i < self.created_ids(a).len() && self.created_ids(a)[i] == id;
                assert(self.offers_map().dom().contains(self.created_ids(a)[i]));
                assert(false);
            }
        }
        assert forall|a: Address| !(#[trigger] self.wanted_ids(a).contains(id)) by {
            if self.wanted_ids(a).contains(id) {
                let i = choose|i: int|
                    0 <= i < self.wanted_ids(a).len() && self.wanted_ids(a)[i] == id;
                assert(self.offers_map().dom().contains(self.wanted_ids(a)[i]));
                assert(false);
            }
        }
    }

    /// Records a new offer: `caller` has deposited `offered_payment` and
    /// demands the accepted payment from `accepted_address`. Assigns the next
    /// id, stores the record, and indexes it for both parties; the deposit
    /// itself was captured by the calling context, so no transfer is issued.
    pub fn create_offer(
        &mut self,
        caller: Address,
        offered_payment: Payment,
        accepted_token: u64,
        accepted_nonce: u64,
        accepted_amount: u128,
        accepted_address: Address,
    ) -> (r: Result<OfferId, EscrowError>)
        requires
            old(self).wf(),
            offered_payment.amount > 0,
        ensures
            final(self).wf(),
            final(self).last_id() >= old(self).last_id(),
            accepted_amount == 0 ==> (r == Err::<OfferId, EscrowError>(EscrowError::InvalidAmount)
                && *final(self) == *old(self)),
            accepted_amount > 0 && old(self).last_id() == u64::MAX ==> (r == Err::<
                OfferId,
                EscrowError,
            >(EscrowError::InternalError) && *final(self) == *old(self)),
            accepted_amount > 0 && old(self).last_id() < u64::MAX ==> ({
                let id = (old(self).last_id() + 1) as OfferId;
                let offer = Offer {
                    creator: caller,
                    offered_payment,
                    accepted_payment: Payment {
                        token_identifier: accepted_token,
                        token_nonce: accepted_nonce,
                        amount: accepted_amount,
                    },
                    accepted_address,
                };
                &&& r == Ok::<OfferId, EscrowError>(id)
                &&& !old(self).offers_map().dom().contains(id)
                &&& final(self).last_id() == id
                &&& final(self).offers_map() == old(self).offers_map().insert(id, offer)
                &&& final(self).created_ids(caller) == old(self).created_ids(caller).push(id)
                &&& final(self).wanted_ids(accepted_address) == old(self).wanted_ids(
                    accepted_address,
                ).push(id)
                &&& forall|a: Address|
                    a != caller ==> #[trigger] final(self).created_ids(a) == old(self).created_ids(
                        a,
                    )
                &&& forall|a: Address|
                    a != accepted_address ==> #[trigger] final(self).wanted_ids(a) == old(
                        self,
                    ).wanted_ids(a)
            }),
    {
        if accepted_amount == 0 {
            return Err(EscrowError::InvalidAmount);
        }
        if self.last_offer_id == u64::MAX {
            return Err(EscrowError::InternalError);
        }
        let ghost g0 = *old(self);
        let new_offer_id = self.get_new_offer_id();
        proof {
            g0.lemma_fresh_not_indexed(new_offer_id);
            assert forall|a: Address| no_dups(#[trigger] self.created_offers.ids(a)) by {
                assert(self.created_ids(a) == g0.created_ids(a));
                assert(no_dups(g0.created_ids(a)));
            }
            assert forall|a: Address| no_dups(#[trigger] self.wanted_offers.ids(a)) by {
                assert(self.wanted_ids(a) == g0.wanted_ids(a));
                assert(no_dups(g0.wanted_ids(a)));
            }
            assert forall|a: Address| #[trigger] self.created_offers.ids(a) == g0.created_ids(
                a,
            ) by {
                assert(self.created_ids(a) == g0.created_ids(a));
            }
            assert forall|a: Address| #[trigger] self.wanted_offers.ids(a) == g0.wanted_ids(a) by {
                assert(self.wanted_ids(a) == g0.wanted_ids(a));
            }
            assert(!self.created_offers.ids(caller).contains(new_offer_id));
            assert(!self.wanted_offers.ids(accepted_address).contains(new_offer_id));
        }
        self.created_offers.insert(caller, new_offer_id);
        proof {
            assert(self.created_offers.ids(caller) == g0.created_ids(caller).push(new_offer_id));
        }
        self.wanted_offers.insert(accepted_address, new_offer_id);
        proof {
            assert(self.wanted_offers.ids(accepted_address) == g0.wanted_ids(
                accepted_address,
            ).push(new_offer_id));
        }
        let offer = Offer::new(
            caller,
            offered_payment,
            accepted_token,
            accepted_nonce,
            accepted_amount,
            accepted_address,
        );
        self.offers.insert(new_offer_id, offer);
        proof {
            let nid = new_offer_id;
            assert(!g0.offers_map().dom().contains(nid));
            assert(self.offers_map() == g0.offers_map().insert(nid, offer));
            assert(self.created_ids(caller) == g0.created_ids(caller).push(nid));
            assert(self.wanted_ids(accepted_address) == g0.wanted_ids(accepted_address).push(nid));
            assert(self.ids_bounded());
            assert(self.amounts_positive());
            assert(self.created_index_sound()) by {
                assert forall|a: Address, i: int|
                    0 <= i < self.created_ids(a).len() implies (self.offers_map().dom().contains(
                    #[trigger] self.created_ids(a)[i],
                ) && self.offers_map()[self.created_ids(a)[i]].creator == a) by {
                    let e = self.created_ids(a)[i];
                    if a == caller && i == g0.created_ids(caller).len() {
                        assert(e == nid);
                    } else {
                        assert(e == g0.created_ids(a)[i]);
                        assert(g0.offers_map().dom().contains(e));
                        assert(e != nid);
                    }
                }
            }
            assert(self.wanted_index_sound()) by {
                assert forall|a: Address, i: int|
                    0 <= i < self.wanted_ids(a).len() implies (self.offers_map().dom().contains(
                    #[trigger] self.wanted_ids(a)[i],
                ) && self.offers_map()[self.wanted_ids(a)[i]].accepted_address == a) by {
                    let e = self.wanted_ids(a)[i];
                    if a == accepted_address && i == g0.wanted_ids(accepted_address).len() {
                        assert(e == nid);
                    } else {
                        assert(e == g0.wanted_ids(a)[i]);
                        assert(g0.offers_map().dom().contains(e));
                        assert(e != nid);
                    }
                }
            }
            assert(self.store_indexed()) by {
                assert forall|id: OfferId| #[trigger]
                    self.offers_map().dom().contains(id) implies (self.created_ids(
                    self.offers_map()[id].creator,
                ).contains(id) && self.wanted_ids(
                    self.offers_map()[id].accepted_address,
                ).contains(id)) by {
                    if id == nid {
                        let cs = self.created_ids(caller);
                        assert(cs[cs.len() - 1] == nid);
                        assert(cs.contains(nid));
                        let ws = self.wanted_ids(accepted_address);
                        assert(ws[ws.len() - 1] == nid);
                        assert(ws.contains(nid));
                    } else {
                        let o = g0.offers_map()[id];
                        assert(g0.created_ids(o.creator).contains(id));
                        let i = choose|i: int|
                            0 <= i < g0.created_ids(o.creator).len() && g0.created_ids(o.creator)[i]
                                == id;
                        assert(self.created_ids(o.creator)[i] == id);
                        assert(self.created_ids(o.creator).contains(id));
                        assert(g0.wanted_ids(o.accepted_address).contains(id));
                        let j = choose|j: int|
                            0 <= j < g0.wanted_ids(o.accepted_address).len() && g0.wanted_ids(
                                o.accepted_address,
                            )[j] == id;
                        assert(self.wanted_ids(o.accepted_address)[j] == id);
                        assert(self.wanted_ids(o.accepted_address).contains(id));
                    }
                }
            }
        }
        Ok(new_offer_id)
    }

    /// Removes an open offer from the store and from both of its index
    /// buckets, as one unit; no other offer, bucket, or the id sequence is
    /// touched.
    fn remove_open_offer(&mut self, offer_id: OfferId, offer: Offer)
        requires
            old(self).wf(),
            old(self).offers_map().dom().contains(offer_id),
            offer == old(self).offers_map()[offer_id],
        ensures
            final(self).wf(),
            final(self).last_id() == old(self).last_id(),
            final(self).offers_map() == old(self).offers_map().remove(offer_id),
            forall|x: OfferId|
                #[trigger] final(self).created_ids(offer.creator).contains(x) <==> (old(
                    self,
                ).created_ids(offer.creator).contains(x) && x != offer_id),
            forall|a: Address|
                a != offer.creator ==> #[trigger] final(self).created_ids(a) == old(
                    self,
                ).created_ids(a),
            forall|x: OfferId|
                #[trigger] final(self).wanted_ids(offer.accepted_address).contains(x) <==> (old(
                    self,
                ).wanted_ids(offer.accepted_address).contains(x) && x != offer_id),
            forall|a: Address|
                a != offer.accepted_address ==> #[trigger] final(self).wanted_ids(a) == old(
                    self,
                ).wanted_ids(a),
    {
        let ghost g0 = *old(self);
        self.offers.remove(&offer_id);
        proof {
            assert(self.offers_map() == g0.offers_map().remove(offer_id));
            assert forall|a: Address| #[trigger] self.created_offers.ids(a) == g0.created_ids(
                a,
            ) by {
                assert(self.created_ids(a) == g0.created_ids(a));
            }
            assert forall|a: Address| #[trigger] self.wanted_offers.ids(a) == g0.wanted_ids(a) by {
                assert(self.wanted_ids(a) == g0.wanted_ids(a));
            }
            assert forall|a: Address| no_dups(#[trigger] self.created_offers.ids(a)) by {
                assert(no_dups(g0.created_ids(a)));
            }
            assert forall|a: Address| no_dups(#[trigger] self.wanted_offers.ids(a)) by {
                assert(no_dups(g0.wanted_ids(a)));
            }
        }
        self.created_offers.swap_remove(offer.creator, offer_id);
        self.wanted_offers.swap_remove(offer.accepted_address, offer_id);
        proof {
            let c = offer.creator;
            let w = offer.accepted_address;
            assert forall|x: OfferId|
                #[trigger] self.created_ids(c).contains(x) <==> (g0.created_ids(c).contains(x) && x
                    != offer_id) by {
                assert(self.created_ids(c) == self.created_offers.ids(c));
            }
            assert forall|a: Address| a != c implies #[trigger] self.created_ids(a)
                == g0.created_ids(a) by {
                assert(self.created_offers.ids(a) == g0.created_ids(a));
            }
            assert forall|x: OfferId|
                #[trigger] self.wanted_ids(w).contains(x) <==> (g0.wanted_ids(w).contains(x) && x
                    != offer_id) by {
                assert(self.wanted_ids(w) == self.wanted_offers.ids(w));
            }
            assert forall|a: Address| a != w implies #[trigger] self.wanted_ids(a) == g0.wanted_ids(
                a,
            ) by {
                assert(self.wanted_offers.ids(a) == g0.wanted_ids(a));
            }
            assert(self.ids_bounded());
            assert(self.amounts_positive());
            assert(self.created_index_sound()) by {
                assert forall|a: Address, i: int|
                    0 <= i < self.created_ids(a).len() implies (self.offers_map().dom().contains(
                    #[trigger] self.created_ids(a)[i],
                ) && self.offers_map()[self.created_ids(a)[i]].creator == a) by {
                    let e = self.created_ids(a)[i];
                    assert(self.created_ids(a).contains(e));
                    if a == c {
                        assert(g0.created_ids(c).contains(e) && e != offer_id);
                        let j = choose|j: int|
                            0 <= j < g0.created_ids(c).len() && g0.created_ids(c)[j] == e;
                        assert(g0.offers_map().dom().contains(g0.created_ids(c)[j]));
                    } else {
                        assert(self.created_ids(a) == g0.created_ids(a));
                        assert(g0.offers_map().dom().contains(g0.created_ids(a)[i]));
                        assert(e != offer_id) by {
                            if e == offer_id {
                                assert(g0.offers_map()[offer_id].creator == a);
                                assert(false);
                            }
                        }
                    }
                }
            }
            assert(self.wanted_index_sound()) by {
                assert forall|a: Address, i: int|
                    0 <= i < self.wanted_ids(a).len() implies (self.offers_map().dom().contains(
                    #[trigger] self.wanted_ids(a)[i],
                ) && self.offers_map()[self.wanted_ids(a)[i]].accepted_address == a) by {
                    let e = self.wanted_ids(a)[i];
                    assert(self.wanted_ids(a).contains(e));
                    if a == w {
                        assert(g0.wanted_ids(w).contains(e) && e != offer_id);
                        let j = choose|j: int|
                            0 <= j < g0.wanted_ids(w).len() && g0.wanted_ids(w)[j] == e;
                        assert(g0.offers_map().dom().contains(g0.wanted_ids(w)[j]));
                    } else {
                        assert(self.wanted_ids(a) == g0.wanted_ids(a));
                        assert(g0.offers_map().dom().contains(g0.wanted_ids(a)[i]));
                        assert(e != offer_id) by {
                            if e == offer_id {
                                assert(g0.offers_map()[offer_id].accepted_address == a);
                                assert(false);
                            }
                        }
                    }
                }
            }
            assert(self.store_indexed()) by {
                assert forall|id: OfferId| #[trigger]
                    self.offers_map().dom().contains(id) implies (self.created_ids(
                    self.offers_map()[id].creator,
                ).contains(id) && self.wanted_ids(
                    self.offers_map()[id].accepted_address,
                ).contains(id)) by {
                    assert(g0.offers_map().dom().contains(id) && id != offer_id);
                    let o = g0.offers_map()[id];
                    assert(g0.created_ids(o.creator).contains(id));
                    assert(g0.wanted_ids(o.accepted_address).contains(id));
                    if o.creator == c {
                        assert(self.created_ids(c).contains(id));
                    } else {
                        assert(self.created_ids(o.creator) == g0.created_ids(o.creator));
                    }
                    if o.accepted_address == w {
                        assert(self.wanted_ids(w).contains(id));
                    } else {
                        assert(self.wanted_ids(o.accepted_address) == g0.wanted_ids(
                            o.accepted_address,
                        ));
                    }
                }
            }
            assert(self.indexes_dup_free()) by {
                assert forall|a: Address| no_dups(#[trigger] self.created_ids(a)) by {
                    assert(no_dups(self.created_offers.ids(a)));
                }
                assert forall|a: Address| no_dups(#[trigger] self.wanted_ids(a)) by {
                    assert(no_dups(self.wanted_offers.ids(a)));
                }
            }
        }
    }

    /// Cancels an open offer: only its creator may do so, and receives the
    /// escrowed deposit back through the returned transfer. The offer leaves
    /// the store and both indexes; a refused call changes nothing.
    pub fn cancel_offer(&mut self, caller: Address, offer_id: OfferId) -> (r: Result<
        Transfer,
        EscrowError,
    >)
        requires
            old(self).wf(),
        ensures
            final(self).wf(),
            final(self).last_id() == old(self).last_id(),
            !old(self).offers_map().dom().contains(offer_id) ==> (r == Err::<Transfer, EscrowError>(
                EscrowError::OfferNotFound,
            ) && *final(self) == *old(self)),
            old(self).offers_map().dom().contains(offer_id) && caller != old(self).offers_map()[offer_id].creator
                ==> (r == Err::<Transfer, EscrowError>(EscrowError::Unauthorized) && *final(self)
                == *old(self)),
            old(self).offers_map().dom().contains(offer_id) && caller == old(self).offers_map()[offer_id].creator
                ==> ({
                let offer = old(self).offers_map()[offer_id];
                &&& r == Ok::<Transfer, EscrowError>(
                    Transfer { to: caller, payment: offer.offered_payment },
                )
                &&& final(self).offers_map() == old(self).offers_map().remove(offer_id)
                &&& forall|x: OfferId|
                    #[trigger] final(self).created_ids(caller).contains(x) <==> (old(
                        self,
                    ).created_ids(caller).contains(x) && x != offer_id)
                &&& forall|a: Address|
                    a != caller ==> #[trigger] final(self).created_ids(a) == old(self).created_ids(
                        a,
                    )
                &&& forall|x: OfferId|
                    #[trigger] final(self).wanted_ids(offer.accepted_address).contains(x) <==> (old(
                        self,
                    ).wanted_ids(offer.accepted_address).contains(x) && x != offer_id)
                &&& forall|a: Address|
                    a != offer.accepted_address ==> #[trigger] final(self).wanted_ids(a) == old(
                        self,
                    ).wanted_ids(a)
            }),
    {
        let offer = match self.offers.get(&offer_id) {
            Some(o) => *o,
            None => { return Err(EscrowError::OfferNotFound) },
        };
        if caller != offer.creator {
            return Err(EscrowError::Unauthorized);
        }
        let transfer = Transfer { to: caller, payment: offer.offered_payment };
        self.remove_open_offer(offer_id, offer);
        Ok(transfer)
    }

    /// Settles an open offer: only the named counterparty may do so, and must
    /// attach a deposit equal to the offer's accepted payment in token,
    /// sub-unit, and amount. On success the two returned transfers pay the
    /// escrowed deposit to the caller and the caller's deposit to the
    /// creator, and the offer leaves the store and both indexes; a refused
    /// call changes nothing and instructs no transfer.
    pub fn accept_offer(&mut self, caller: Address, payment: Payment, offer_id: OfferId) -> (r:
        Result<(Transfer, Transfer), EscrowError>)
        requires
            old(self).wf(),
        ensures
            final(self).wf(),
            final(self).last_id() == old(self).last_id(),
            !old(self).offers_map().dom().contains(offer_id) ==> (r == Err::<
                (Transfer, Transfer),
                EscrowError,
            >(EscrowError::OfferNotFound) && *final(self) == *old(self)),
            old(self).offers_map().dom().contains(offer_id) && caller != old(self).offers_map()[offer_id].accepted_address
                ==> (r == Err::<(Transfer, Transfer), EscrowError>(EscrowError::Unauthorized)
                && *final(self) == *old(self)),
            old(self).offers_map().dom().contains(offer_id) && caller == old(self).offers_map()[offer_id].accepted_address
                && payment != old(self).offers_map()[offer_id].accepted_payment ==> (r == Err::<
                (Transfer, Transfer),
                EscrowError,
            >(EscrowError::PaymentMismatch) && *final(self) == *old(self)),
            old(self).offers_map().dom().contains(offer_id) && caller == old(self).offers_map()[offer_id].accepted_address
                && payment == old(self).offers_map()[offer_id].accepted_payment ==> ({
                let offer = old(self).offers_map()[offer_id];
                &&& r == Ok::<(Transfer, Transfer), EscrowError>(
                    (
                        Transfer { to: caller, payment: offer.offered_payment },
                        Transfer { to: offer.creator, payment: offer.accepted_payment },
                    ),
                )
                &&& final(self).offers_map() == old(self).offers_map().remove(offer_id)
                &&& forall|x: OfferId|
                    #[trigger] final(self).created_ids(offer.creator).contains(x) <==> (old(
                        self,
                    ).created_ids(offer.creator).contains(x) && x != offer_id)
                &&& forall|a: Address|
                    a != offer.creator ==> #[trigger] final(self).created_ids(a) == old(
                        self,
                    ).created_ids(a)
                &&& forall|x: OfferId|
                    #[trigger] final(self).wanted_ids(caller).contains(x) <==> (old(
                        self,
                    ).wanted_ids(caller).contains(x) && x != offer_id)
                &&& forall|a: Address|
                    a != caller ==> #[trigger] final(self).wanted_ids(a) == old(self).wanted_ids(a)
            }),
    {
        let offer = match self.offers.get(&offer_id) {
            Some(o) => *o,
            None => { return Err(EscrowError::OfferNotFound) },
        };
        if caller != offer.accepted_address {
            return Err(EscrowError::Unauthorized);
        }
        if payment != offer.accepted_payment {
            return Err(EscrowError::PaymentMismatch);
        }
        let to_caller = Transfer { to: caller, payment: offer.offered_payment };
        let to_creator = Transfer { to: offer.creator, payment: offer.accepted_payment };
        self.remove_open_offer(offer_id, offer);
        Ok((to_caller, to_creator))
    }

    /// The stored record of an open offer, or `OfferNotFound` for an id with
    /// none.
    pub fn get_offer_by_id(&self, offer_id: OfferId) -> (r: Result<Offer, EscrowError>)
        ensures
            self.offers_map().dom().contains(offer_id) ==> r == Ok::<Offer, EscrowError>(
                self.offers_map()[offer_id],
            ),
            !self.offers_map().dom().contains(offer_id) ==> r == Err::<Offer, EscrowError>(
                EscrowError::OfferNotFound,
            ),
    {
        match self.offers.get(&offer_id) {
            Some(o) => Ok(*o),
            None => Err(EscrowError::OfferNotFound),
        }
    }

    /// An id known to be open, paired with its stored record.
    pub fn get_offer_result(&self, offer_id: OfferId) -> (r: (OfferId, Offer))
        requires
            self.offers_map().dom().contains(offer_id),
        ensures
            r == (offer_id, self.offers_map()[offer_id]),
    {
        match self.offers.get(&offer_id) {
            Some(o) => (offer_id, *o),
            None => vstd::pervasive::unreached(),
        }
    }

    /// Every open offer `address` created, each id with its record, in the
    /// by-creator index's current (unspecified) order.
    pub fn get_created_offers(&self, address: Address) -> (r: Vec<(OfferId, Offer)>)
        requires
            self.wf(),
        ensures
            r@.len() == self.created_ids(address).len(),
            forall|i: int|
                0 <= i < r@.len() ==> #[trigger] r@[i] == (
                    self.created_ids(address)[i],
                    self.offers_map()[self.created_ids(address)[i]],
                ),
    {
        let ids = self.created_offers.list(address);
        let mut r: Vec<(OfferId, Offer)> = Vec::new();
        let mut i: usize = 0;
        while i < ids.len()
            invariant
                self.wf(),
                ids@ == self.created_ids(address),
                0 <= i <= ids@.len(),
                r@.len() == i,
                forall|j: int|
                    0 <= j < i ==> #[trigger] r@[j] == (
                        self.created_ids(address)[j],
                        self.offers_map()[self.created_ids(address)[j]],
                    ),
            decreases ids@.len() - i,
        {
            let id = ids[i];
            proof {
                assert(id == self.created_ids(address)[i as int]);
                assert(self.offers_map().dom().contains(self.created_ids(address)[i as int]));
            }
            let entry = self.get_offer_result(id);
            r.push(entry);
            i += 1;
        }
        r
    }

    /// Every open offer naming `address` as counterparty, each id with its
    /// record, in the by-counterparty index's current (unspecified) order.
    pub fn get_wanted_offers(&self, address: Address) -> (r: Vec<(OfferId, Offer)>)
        requires
            self.wf(),
        ensures
            r@.len() == self.wanted_ids(address).len(),
            forall|i: int|
                0 <= i < r@.len() ==> #[trigger] r@[i] == (
                    self.wanted_ids(address)[i],
                    self.offers_map()[self.wanted_ids(address)[i]],
                ),
    {
        let ids = self.wanted_offers.list(address);
        let mut r: Vec<(OfferId, Offer)> = Vec::new();
        let mut i: usize = 0;
        while i < ids.len()
            invariant
                self.wf(),
                ids@ == self.wanted_ids(address),
                0 <= i <= ids@.len(),
                r@.len() == i,
                forall|j: int|
                    0 <= j < i ==> #[trigger] r@[j] == (
                        self.wanted_ids(address)[j],
                        self.offers_map()[self.wanted_ids(address)[j]],
                    ),
            decreases ids@.len() - i,
        {
            let id = ids[i];
            proof {
                assert(id == self.wanted_ids(address)[i as int]);
                assert(self.offers_map().dom().contains(self.wanted_ids(address)[i as int]));
            }
            let entry = self.get_offer_result(id);
            r.push(entry);
            i += 1;
        }
        r
    }

    /// Advances the sequence generator and returns the new, never before
    /// handed out, id.
    pub fn get_new_offer_id(&mut self) -> (r: OfferId)
        requires
            old(self).last_id() < u64::MAX,
        ensures
            r == old(self).last_id() + 1,
            final(self).last_id() == r,
            final(self).offers_map() == old(self).offers_map(),
            forall|a: Address| #[trigger] final(self).created_ids(a) == old(self).created_ids(a),
            forall|a: Address| #[trigger] final(self).wanted_ids(a) == old(self).wanted_ids(a),
    {
        let new_offer_id = self.last_offer_id + 1;
        self.last_offer_id = new_offer_id;
        new_offer_id
    }
}

} // verus!
