//! Escrow-style swap offers that many acceptors can fill in part.
//!
//! The ledger keeps the fee configuration, the set of tokens that offers may
//! use, and every offer record. Each operation either fails with no change
//! or updates the ledger and returns the transfers that the caller must carry
//! out for it.
pub mod types;

pub mod fee;
pub mod allow;
pub mod book;
pub mod offer;
pub mod laws;
