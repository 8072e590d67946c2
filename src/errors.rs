use vstd::prelude::*;

verus! {

/// Why an operation of the registry did not proceed.
#[derive(Clone, Copy, Debug, PartialEq, Eq, Structural)]
pub enum ContractErrors {
    UnexpectedError,
    AlreadyStarted,
    RecordAlreadyExist,
    InvalidDuration,
    UnsupportedTLD,
    RecordDoesntExist,
    InvalidDomain,
    ExpiredDomain,
    InvalidParent,
    OutdatedSub,
    InvalidTransfer,
    InvalidOfferAmount,
    OutdatedOffer,
    OfferDoesntExist,
    /// The caller did not prove control of the identity the operation needs.
    NotAuthorized,
    /// The configuration the operation reads has not been set yet.
    NotInitialized,
    /// An amount does not fit the asset's signed 128-bit balance type.
    AmountTooLarge,
    /// A marketplace fee above one hundred percent.
    InvalidFeeRate,
}

} // verus!
