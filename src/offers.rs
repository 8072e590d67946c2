use vstd::prelude::*;

use crate::context::Address;

verus! {

/// An offer to buy a domain; its amount is held in the registry's custody.
#[derive(Clone, Copy, Debug, PartialEq, Eq)]
pub struct BuyOffer {
    pub buyer: Address,
    pub node: [u8; 32],
    pub amount: u128,
    /// The domain's snapshot when the offer was made or last raised.
    pub snapshot: u64,
}

/// The owner's asking price for a domain; nothing is escrowed for it.
#[derive(Clone, Copy, Debug, PartialEq, Eq)]
pub struct SaleOffer {
    pub node: [u8; 32],
    pub amount: u128,
    pub snapshot: u64,
}

#[derive(Clone, Copy, Debug, PartialEq, Eq)]
pub enum Offer {
    BuyOffer(BuyOffer),
    SaleOffer(SaleOffer),
}

/// Where an offer is kept: one key space per side, so a node has at most one
/// offer of each side.
#[derive(Clone, Copy, Debug, PartialEq, Eq)]
pub enum OffersDataKeys {
    BuyOffer([u8; 32]),
    SaleOffer([u8; 32]),
}

} // verus!
