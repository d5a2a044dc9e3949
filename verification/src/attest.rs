//! Measured-boot state and attested key release.
//!
//! There is no hardware TPM or KMS here, only a deterministic simulator that
//! exercises the unlock decision and writes `key_release` receipts onto the
//! audit chain. A modified boot policy always blocks release.

pub mod kms;
pub mod laws;
pub mod pcr;
pub mod secret;
