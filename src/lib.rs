//! A multi-asset ledger: balances, supply, approvals, freezes and bonded
//! deposits of independently administered fungible assets.
pub mod types;
pub mod table;
pub mod store;
pub mod host;
pub mod evaluate;
pub mod accounting;
pub mod admin;
pub mod metadata;
pub mod approvals;
pub mod calls;
pub mod extra;
pub mod conversion;
pub mod laws;
