//! Verified models of the StellarSpend Soroban contracts.
//!
//! Each contract is modelled as a value that holds its ledger storage, the
//! ledger timestamp it observes and the events it has published. Every entry
//! point is a verified method whose contract says exactly which error it
//! returns and how the storage changes; a rejected call leaves the whole
//! contract unchanged, as a reverted Soroban transaction does.

pub mod address;
pub mod store;
pub mod fees;
pub mod history;
pub mod archive;
pub mod snapshots;
pub mod memo;
pub mod transaction_metadata;
pub mod dependencies;
pub mod asset_control;
pub mod notification;
pub mod events;
