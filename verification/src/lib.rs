//! Escrow-mediated payment custody for a two-sided marketplace.
//!
//! Sellers list priced datasets, buyers pay into a custody record
//! (an escrow), and funds move to the seller only after buyer
//! confirmation, a timeout-based automatic release, or administrative
//! dispute resolution. The library holds the whole state machine on
//! plain values; value transfers are returned to the caller as
//! [`model::Transfer`] instructions rather than performed here.

pub mod laws;
pub mod market;
pub mod model;

pub use market::compute_fee;
pub use market::MarketplaceContract;
pub use model::AccountId;
pub use model::Balance;
pub use model::Dataset;
pub use model::Escrow;
pub use model::EscrowId;
pub use model::EscrowStatus;
pub use model::MarketError;
pub use model::Purchase;
pub use model::Transfer;
pub use model::DAY_NS;
