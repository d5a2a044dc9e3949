//! Hash-chained, tamper-evident records.

pub mod chain;
pub mod laws;
pub mod ledger;
pub mod security;
