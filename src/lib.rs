//! A name registry with a marketplace: collateral-backed domains, subdomains
//! bound to their parent's snapshot, and a book of buy and sale offers.

pub mod config;
pub mod context;
pub mod errors;
pub mod fees;
pub mod laws;
pub mod node;
pub mod offers;
pub mod records;
pub mod registry;
pub mod store;
