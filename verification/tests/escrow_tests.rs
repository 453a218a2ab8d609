use escrow_sc::escrow::EscrowSc;
use escrow_sc::offer::{EscrowError, Offer, OfferId, Payment, Transfer};

const ALICE: u64 = 1;
const BOB: u64 = 2;
const CAROL: u64 = 3;
const TOKEN_X: u64 = 10;
const TOKEN_Y: u64 = 20;

fn offer_100x_for_50y() -> (EscrowSc, OfferId) {
    let mut e = EscrowSc::init();
    let deposit = Payment::new(TOKEN_X, 0, 100);
    let id = e
        .create_offer(ALICE, deposit, TOKEN_Y, 0, 50, BOB)
        .expect("creation with positive amounts succeeds");
    (e, id)
}

fn ids_of(entries: &Vec<(OfferId, Offer)>) -> Vec<OfferId> {
    entries.iter().map(|entry| entry.0).collect()
}

#[test]
fn fresh_engine_is_empty() {
    let e = EscrowSc::init();
    assert_eq!(e.get_last_offer_id(), 0);
    assert_eq!(e.get_offer_by_id(1), Err(EscrowError::OfferNotFound));
    assert!(e.get_created_offers(ALICE).is_empty());
    assert!(e.get_wanted_offers(BOB).is_empty());
}

#[test]
fn create_offer_stores_exact_record() {
    let (e, id) = offer_100x_for_50y();
    assert_eq!(id, 1);
    assert_eq!(e.get_last_offer_id(), 1);
    let record = e.get_offer_by_id(id).expect("the new id resolves");
    assert_eq!(
        record,
        Offer {
            creator: ALICE,
            offered_payment: Payment::new(TOKEN_X, 0, 100),
            accepted_payment: Payment::new(TOKEN_Y, 0, 50),
            accepted_address: BOB,
        }
    );
}

#[test]
fn create_offer_rejects_zero_accepted_amount() {
    let mut e = EscrowSc::init();
    let deposit = Payment::new(TOKEN_X, 0, 100);
    let r = e.create_offer(ALICE, deposit, TOKEN_Y, 0, 0, BOB);
    assert_eq!(r, Err(EscrowError::InvalidAmount));
    assert_eq!(e.get_last_offer_id(), 0);
    assert!(e.get_created_offers(ALICE).is_empty());
}

#[test]
fn cancel_by_non_creator_is_unauthorized() {
    let (mut e, id) = offer_100x_for_50y();
    assert_eq!(e.cancel_offer(BOB, id), Err(EscrowError::Unauthorized));
    assert!(e.get_offer_by_id(id).is_ok());
}

#[test]
fn cancel_by_creator_refunds_deposit() {
    let (mut e, id) = offer_100x_for_50y();
    let transfer = e.cancel_offer(ALICE, id).expect("the creator may cancel");
    assert_eq!(
        transfer,
        Transfer { to: ALICE, payment: Payment::new(TOKEN_X, 0, 100) }
    );
    assert_eq!(e.get_offer_by_id(id), Err(EscrowError::OfferNotFound));
    assert!(e.get_created_offers(ALICE).is_empty());
    assert!(e.get_wanted_offers(BOB).is_empty());
}

#[test]
fn cancel_twice_fails_not_found() {
    let (mut e, id) = offer_100x_for_50y();
    e.cancel_offer(ALICE, id).expect("first cancellation succeeds");
    let last = e.get_last_offer_id();
    assert_eq!(e.cancel_offer(ALICE, id), Err(EscrowError::OfferNotFound));
    assert_eq!(e.get_last_offer_id(), last);
    assert!(e.get_created_offers(ALICE).is_empty());
    assert!(e.get_wanted_offers(BOB).is_empty());
}

#[test]
fn accept_by_third_party_is_unauthorized() {
    let (mut e, id) = offer_100x_for_50y();
    let deposit = Payment::new(TOKEN_Y, 0, 50);
    assert_eq!(
        e.accept_offer(CAROL, deposit, id),
        Err(EscrowError::Unauthorized)
    );
    assert!(e.get_offer_by_id(id).is_ok());
}

#[test]
fn accept_by_counterparty_settles_both_ways() {
    let (mut e, id) = offer_100x_for_50y();
    let deposit = Payment::new(TOKEN_Y, 0, 50);
    let (to_caller, to_creator) = e
        .accept_offer(BOB, deposit, id)
        .expect("the counterparty with the exact deposit may accept");
    assert_eq!(
        to_caller,
        Transfer { to: BOB, payment: Payment::new(TOKEN_X, 0, 100) }
    );
    assert_eq!(
        to_creator,
        Transfer { to: ALICE, payment: Payment::new(TOKEN_Y, 0, 50) }
    );
    assert_eq!(e.get_offer_by_id(id), Err(EscrowError::OfferNotFound));
    assert!(e.get_created_offers(ALICE).is_empty());
    assert!(e.get_wanted_offers(BOB).is_empty());
}

#[test]
fn accept_twice_fails_not_found() {
    let (mut e, id) = offer_100x_for_50y();
    let deposit = Payment::new(TOKEN_Y, 0, 50);
    e.accept_offer(BOB, deposit, id).expect("first acceptance succeeds");
    assert_eq!(
        e.accept_offer(BOB, deposit, id),
        Err(EscrowError::OfferNotFound)
    );
}

#[test]
fn accept_with_wrong_amount_is_mismatch() {
    let (mut e, id) = offer_100x_for_50y();
    let deposit = Payment::new(TOKEN_Y, 0, 49);
    assert_eq!(
        e.accept_offer(BOB, deposit, id),
        Err(EscrowError::PaymentMismatch)
    );
    assert!(e.get_offer_by_id(id).is_ok());
}

#[test]
fn accept_with_wrong_token_is_mismatch() {
    let (mut e, id) = offer_100x_for_50y();
    let deposit = Payment::new(TOKEN_X, 0, 50);
    assert_eq!(
        e.accept_offer(BOB, deposit, id),
        Err(EscrowError::PaymentMismatch)
    );
    assert!(e.get_offer_by_id(id).is_ok());
}

#[test]
fn accept_with_wrong_sub_unit_is_mismatch() {
    let (mut e, id) = offer_100x_for_50y();
    let deposit = Payment::new(TOKEN_Y, 7, 50);
    assert_eq!(
        e.accept_offer(BOB, deposit, id),
        Err(EscrowError::PaymentMismatch)
    );
    assert!(e.get_offer_by_id(id).is_ok());
}

#[test]
fn ids_are_never_reused() {
    let mut e = EscrowSc::init();
    let deposit = Payment::new(TOKEN_X, 0, 100);
    let first = e.create_offer(ALICE, deposit, TOKEN_Y, 0, 50, BOB).unwrap();
    e.cancel_offer(ALICE, first).unwrap();
    let second = e.create_offer(ALICE, deposit, TOKEN_Y, 0, 50, BOB).unwrap();
    e.accept_offer(BOB, Payment::new(TOKEN_Y, 0, 50), second).unwrap();
    let third = e.create_offer(ALICE, deposit, TOKEN_Y, 0, 50, BOB).unwrap();
    assert_eq!((first, second, third), (1, 2, 3));
    assert_eq!(e.get_last_offer_id(), 3);
}

#[test]
fn created_offers_lists_both_then_the_remaining_one() {
    let mut e = EscrowSc::init();
    let first = e
        .create_offer(ALICE, Payment::new(TOKEN_X, 0, 100), TOKEN_Y, 0, 50, BOB)
        .unwrap();
    let second = e
        .create_offer(ALICE, Payment::new(TOKEN_X, 0, 30), TOKEN_Y, 0, 15, BOB)
        .unwrap();
    let created = e.get_created_offers(ALICE);
    assert_eq!(created.len(), 2);
    let listed = ids_of(&created);
    assert!(listed.contains(&first) && listed.contains(&second));
    for (id, offer) in &created {
        assert_eq!(e.get_offer_by_id(*id), Ok(*offer));
    }
    let wanted = e.get_wanted_offers(BOB);
    assert_eq!(ids_of(&wanted).len(), 2);

    e.accept_offer(BOB, Payment::new(TOKEN_Y, 0, 50), first).unwrap();
    let created = e.get_created_offers(ALICE);
    assert_eq!(created.len(), 1);
    assert_eq!(created[0].0, second);
    assert_eq!(
        created[0].1,
        Offer {
            creator: ALICE,
            offered_payment: Payment::new(TOKEN_X, 0, 30),
            accepted_payment: Payment::new(TOKEN_Y, 0, 15),
            accepted_address: BOB,
        }
    );
    assert_eq!(ids_of(&e.get_wanted_offers(BOB)), vec![second]);
}

#[test]
fn index_entries_always_resolve_to_matching_records() {
    let mut e = EscrowSc::init();
    e.create_offer(ALICE, Payment::new(TOKEN_X, 0, 1), TOKEN_Y, 0, 2, BOB).unwrap();
    e.create_offer(BOB, Payment::new(TOKEN_Y, 0, 3), TOKEN_X, 0, 4, ALICE).unwrap();
    e.create_offer(ALICE, Payment::new(TOKEN_X, 5, 6), TOKEN_Y, 7, 8, CAROL).unwrap();
    e.cancel_offer(ALICE, 1).unwrap();
    for (id, offer) in &e.get_created_offers(ALICE) {
        assert_eq!(offer.creator, ALICE);
        assert_eq!(e.get_offer_by_id(*id), Ok(*offer));
    }
    for (id, offer) in &e.get_wanted_offers(ALICE) {
        assert_eq!(offer.accepted_address, ALICE);
        assert_eq!(e.get_offer_by_id(*id), Ok(*offer));
    }
    for (id, offer) in &e.get_wanted_offers(CAROL) {
        assert_eq!(offer.accepted_address, CAROL);
        assert_eq!(e.get_offer_by_id(*id), Ok(*offer));
    }
}

#[test]
fn removal_may_reorder_but_keeps_the_others() {
    let mut e = EscrowSc::init();
    let first = e
        .create_offer(ALICE, Payment::new(TOKEN_X, 0, 1), TOKEN_Y, 0, 1, BOB)
        .unwrap();
    let second = e
        .create_offer(ALICE, Payment::new(TOKEN_X, 0, 2), TOKEN_Y, 0, 2, BOB)
        .unwrap();
    let third = e
        .create_offer(ALICE, Payment::new(TOKEN_X, 0, 3), TOKEN_Y, 0, 3, BOB)
        .unwrap();
    e.cancel_offer(ALICE, first).unwrap();
    let listed = ids_of(&e.get_created_offers(ALICE));
    assert_eq!(listed.len(), 2);
    assert!(listed.contains(&second) && listed.contains(&third));
    assert!(!listed.contains(&first));
}

#[test]
fn offer_new_builds_the_accepted_payment() {
    let offer = Offer::new(ALICE, Payment::new(TOKEN_X, 0, 100), TOKEN_Y, 9, 50, BOB);
    assert_eq!(offer.creator, ALICE);
    assert_eq!(offer.offered_payment, Payment::new(TOKEN_X, 0, 100));
    assert_eq!(offer.accepted_payment, Payment { token_identifier: TOKEN_Y, token_nonce: 9, amount: 50 });
    assert_eq!(offer.accepted_address, BOB);
}
