//! The commands of the storage operator: they take what was read and give back
//! what is shown, with the exit code of a failure.
//!
//! Exit code 1 is a usage error, 2 a manifest that was not verified, and 3 a
//! downgrade. Every document is indented JSON with its members in alphabetical
//! order.

pub mod combiner;
pub mod laws;
pub mod manifest;
pub mod trust;
