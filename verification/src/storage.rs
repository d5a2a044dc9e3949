//! Volume storage: cipher profiles, hybrid suites, the flat view of the key
//! hierarchy, and provisioning of unsigned manifests.

pub mod attestation;
pub mod key_hierarchy;
pub mod laws;
pub mod luks;
pub mod pqc;
pub mod provisioning;
