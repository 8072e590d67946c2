use vstd::prelude::*;

verus! {

/// An identity: an account or a contract that can hold funds and prove control.
#[derive(Clone, Copy, Debug, PartialEq, Eq, Hash, Structural)]
pub struct Address(pub u64);

/// What the clock says when an operation runs: the ledger's close time in
/// seconds and its sequence number, which storage leases are counted in.
#[derive(Clone, Copy, Debug, PartialEq, Eq, Structural)]
pub struct Ledger {
    pub timestamp: u64,
    pub sequence: u32,
}

/// A movement of the collateral asset that an operation asks the asset ledger
/// to make. The operation's state change stands only if every one succeeds.
#[derive(Clone, Copy, Debug, PartialEq, Eq, Structural)]
pub struct Payment {
    pub from: Address,
    pub to: Address,
    pub amount: u128,
}

} // verus!
