use vstd::prelude::*;

use crate::context::Address;

verus! {

/// The registry's policy, set once and then changed by its administrator only.
#[derive(Clone, Debug)]
pub struct CoreData {
    pub adm: Address,
    /// Collateral asked per second of registration, before the size multiplier.
    pub node_rate: u128,
    /// The asset in which collateral and offers are paid.
    pub col_asset: Address,
    /// The shortest registration accepted, in seconds.
    pub min_duration: u64,
    /// The suffixes under which root domains may be registered.
    pub allowed_tlds: Vec<Vec<u8>>,
}

/// `CoreData` with its suffixes as byte sequences.
pub struct CorePolicy {
    pub adm: Address,
    pub node_rate: u128,
    pub col_asset: Address,
    pub min_duration: u64,
    pub allowed_tlds: Seq<Seq<u8>>,
}

impl View for CoreData {
    type V = CorePolicy;

    open spec fn view(&self) -> CorePolicy {
        CorePolicy {
            adm: self.adm,
            node_rate: self.node_rate,
            col_asset: self.col_asset,
            min_duration: self.min_duration,
            allowed_tlds: self.allowed_tlds@.map_values(|t: Vec<u8>| t@),
        }
    }
}

/// The marketplace's fee: `fee` parts per hundred million of the seller's
/// profit, paid to `fee_taker`.
#[derive(Clone, Copy, Debug, PartialEq, Eq, Structural)]
pub struct OffersConfig {
    pub fee_taker: Address,
    pub fee: u128,
}

/// The singleton configuration records of the registry.
#[derive(Clone, Copy, Debug, PartialEq, Eq, Structural)]
pub enum CoreDataKeys {
    CoreData,
    OffersConfig,
}

} // verus!
