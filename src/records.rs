use vstd::prelude::*;

use crate::context::Address;

verus! {

/// A root-level name, held against escrowed collateral.
#[derive(Clone, Copy, Debug, PartialEq, Eq)]
pub struct Domain {
    pub node: [u8; 32],
    /// Who may update, transfer and burn the domain.
    pub owner: Address,
    /// What the name resolves to.
    pub address: Address,
    /// The time after which the domain no longer resolves.
    pub exp_date: u64,
    /// What the owner escrowed, returned in full on burn.
    pub collateral: u128,
    /// The time of the last change of ownership; subdomains and offers made
    /// under another snapshot are stale.
    pub snapshot: u64,
}

/// A name under a domain, valid while it carries its parent's snapshot.
#[derive(Clone, Copy, Debug, PartialEq, Eq)]
pub struct SubDomain {
    pub node: [u8; 32],
    pub parent: [u8; 32],
    pub address: Address,
    pub snapshot: u64,
}

#[derive(Clone, Copy, Debug, PartialEq, Eq)]
pub enum Record {
    Domain(Domain),
    SubDomain(SubDomain),
}

/// Where a record is kept: domains and subdomains have key spaces of their own.
#[derive(Clone, Copy, Debug, PartialEq, Eq)]
pub enum RecordKeys {
    Record([u8; 32]),
    SubRecord([u8; 32]),
}

} // verus!
