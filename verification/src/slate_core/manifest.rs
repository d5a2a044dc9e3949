//! Boot policy and volume manifests.
use vstd::prelude::*;

verus! {

/// What a machine must show before it may boot.
#[derive(Debug, Clone, PartialEq, Eq)]
pub struct BootPolicyManifest {
    /// Schema version of this manifest.
    pub schema_version: u32,
    /// Stable policy identifier.
    pub policy_id: String,
    /// Oldest version that may boot.
    pub minimum_version: u64,
    /// Whether Secure Boot is required.
    pub secure_boot_required: bool,
    /// Whether measured boot is required.
    pub measured_boot_required: bool,
    /// Registers that take part in the policy.
    pub accepted_pcrs: Vec<u8>,
    /// Hash of the boot manifest.
    pub boot_manifest_hash: String,
    /// Signatures over this manifest.
    pub signatures: Vec<ManifestSignature>,
}

/// One signature over a manifest.
#[derive(Debug, Clone, PartialEq, Eq)]
pub struct ManifestSignature {
    /// Algorithm.
    pub alg: String,
    /// Signing key.
    pub key_id: String,
    /// Where the signature is kept.
    pub sig_ref: String,
    /// State of the signature.
    pub status: String,
}

/// How a volume is encrypted.
#[derive(Debug, Clone, PartialEq, Eq)]
pub struct VolumeManifest {
    /// Schema version of this manifest.
    pub schema_version: u32,
    /// Volume identifier.
    pub volume_id: String,
    /// Cipher.
    pub cipher: String,
    /// Sector size in bytes.
    pub sector_size: u32,
    /// Key slots.
    pub keyslots: Vec<KeyslotManifest>,
}

/// One key slot of a volume.
#[derive(Debug, Clone, PartialEq, Eq)]
pub struct KeyslotManifest {
    /// Slot index.
    pub slot: u32,
    /// Kind of slot.
    pub kind: String,
    /// State of the slot.
    pub status: String,
    /// Algorithm suite, where the slot has one.
    pub algorithm_suite: Option<String>,
}

} // verus!
