//! The vocabulary that the whole platform shares: boot epochs, key classes,
//! manifests and unlock modes.
use vstd::prelude::*;

pub mod boot;
pub mod keys;
pub mod manifest;
pub mod policy;

verus! {

/// Version of the shared schema.
pub const SCHEMA_VERSION: u32 = 1;

} // verus!
