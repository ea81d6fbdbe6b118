//! A pooled-contribution vault with a contribution-weighted draw.
//!
//! Parties deposit into a shared pool; a later distribution picks one
//! contributor by a weighted draw and pays out half or all of the pool.
//! Moving funds, reading the clock and checking who is calling are the
//! host's business: this crate holds the ledger, the draw and the rules
//! that decide what a request may do.

pub mod address;
pub mod error;
pub mod ledger;
pub mod vault;
pub mod selection;
pub mod rank;
pub mod distribution;
pub mod randomness;
pub mod query;
pub mod funds;
pub mod history;
