//! Pools of single-use redemption codes, grouped into named collections.
//!
//! The crate keeps a ledger of codes with a used/unused flag per row, hands
//! out unused codes on demand without ever issuing one row twice, and
//! reports how many codes of each collection are left.

pub mod claim;
pub mod conformance;
pub mod error;
pub mod export;
pub mod flow;
pub mod laws;
pub mod message;
pub mod model;
pub mod report;
pub mod store;
pub mod text;
