//! Key classes and key versions.
use vstd::prelude::*;

verus! {

/// What a key is for.
#[derive(Debug, Clone, Copy, PartialEq, Eq, Structural)]
pub enum KeyClass {
    /// Encrypts data sectors.
    DataEncryptionKey,
    /// Wraps the data key of a volume.
    VolumeMasterKey,
    /// Wraps other keys.
    KeyEncryptionKey,
    /// Bound to a device.
    DeviceKey,
    /// Bound to a user.
    UserKey,
    /// For recovery only.
    RecoveryKey,
    /// Sealed by hardware.
    HardwareSealedKey,
    /// Held by a remote key service.
    RemoteKmsKey,
    /// Wrapped by a classical and a post-quantum leg.
    HybridPqcWrappedKey,
    /// One share of a threshold scheme.
    ThresholdShare,
}

/// A key and the version of it.
#[derive(Debug, Clone, PartialEq, Eq)]
pub struct KeyVersion {
    /// Stable key identifier.
    pub key_id: &'static str,
    /// Version of the key.
    pub version: u64,
}

} // verus!
