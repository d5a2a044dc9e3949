//! Deny-by-default policy: the declarative document and the engine that
//! enforces it.
//!
//! Every evaluation starts from "deny"; only a fully satisfied set of
//! conditions yields an allow, with a receipt. Decisions and receipts depend on
//! the document and the request alone.

pub mod document;
pub mod engine;
pub mod laws;
