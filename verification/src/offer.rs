//! The data the engine persists and the values it exchanges with its host.

use vstd::prelude::*;

verus! {

/// Identifier an offer receives from the sequence generator; ids are assigned
/// monotonically starting at 1 and are never reused.
pub type OfferId = u64;

/// Opaque account identifier; the host resolves the calling party to one of
/// these before an operation runs.
pub type Address = u64;

/// A token quantity: a token class, a sub-unit distinguishing non-fungible or
/// semi-fungible instances (0 for purely fungible tokens), and an amount.
#[derive(Clone, Copy, Debug, PartialEq, Eq, Structural)]
pub struct Payment {
    pub token_identifier: u64,
    pub token_nonce: u64,
    pub amount: u128,
}

impl Payment {
    pub fn new(token_identifier: u64, token_nonce: u64, amount: u128) -> (r: Payment)
        ensures
            r == (Payment { token_identifier, token_nonce, amount }),
    {
        Payment { token_identifier, token_nonce, amount }
    }
}

/// An open offer: `creator` has `offered_payment` in escrow and demands
/// `accepted_payment` in return; `accepted_address` is the only account
/// permitted to fulfil the offer.
#[derive(Clone, Copy, Debug, PartialEq, Eq, Structural)]
pub struct Offer {
    pub creator: Address,
    pub offered_payment: Payment,
    pub accepted_payment: Payment,
    pub accepted_address: Address,
}

impl Offer {
    pub fn new(
        creator: Address,
        offered_payment: Payment,
        accepted_token: u64,
        accepted_nonce: u64,
        accepted_amount: u128,
        accepted_address: Address,
    ) -> (r: Offer)
        ensures
            r == (Offer {
                creator,
                offered_payment,
                accepted_payment: Payment {
                    token_identifier: accepted_token,
                    token_nonce: accepted_nonce,
                    amount: accepted_amount,
                },
                accepted_address,
            }),
    {
        Offer {
            creator,
            offered_payment,
            accepted_payment: Payment::new(accepted_token, accepted_nonce, accepted_amount),
            accepted_address,
        }
    }
}

/// One ledger transfer the engine instructs its host to perform: pay
/// `payment` out of escrow custody to `to`.
#[derive(Clone, Copy, Debug, PartialEq, Eq, Structural)]
pub struct Transfer {
    pub to: Address,
    pub payment: Payment,
}

/// Why an operation was refused. A refused operation changes no state and
/// instructs no transfer.
#[derive(Clone, Copy, Debug, PartialEq, Eq, Structural)]
pub enum EscrowError {
    /// The referenced id has no open offer.
    OfferNotFound,
    /// The caller lacks the required relationship to the offer.
    Unauthorized,
    /// The attached deposit differs from the offer's accepted payment in
    /// token, sub-unit, or amount.
    PaymentMismatch,
    /// A non-positive accepted amount was demanded at creation.
    InvalidAmount,
    /// The id sequence is exhausted; not expected in practice.
    InternalError,
}

} // verus!
