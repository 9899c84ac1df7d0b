//! A ledger of uniquely owned, bred digital assets ("kitties"), with
//! identifier allocation, genetic recombination, collateral reservation and
//! bounded per-owner inventories, every operation all-or-nothing.
pub mod types;
pub mod dna;
pub mod balances;
pub mod encoding;
pub mod randomness;
pub mod offchain;
pub mod pallet;
pub mod laws;
