//! The control plane of quantum-resistant storage encryption.
//!
//! The disk cipher stays ordinary (AES-256-XTS, in the data plane). What is
//! quantum-ready is the control plane: algorithm-agile keyslots, a hybrid
//! classical and post-quantum key combiner, downgrade-resistant signed
//! manifests, a layered key hierarchy, and attested key release.

pub mod combiner;
pub mod crypto;
pub mod downgrade;
pub mod hierarchy;
pub mod keyslot;
pub mod laws;
pub mod manifest;
pub mod unlock;
