//! Boot epochs and measurements.
use vstd::prelude::*;

verus! {

/// Which part of the platform is in control.
#[derive(Debug, Clone, Copy, PartialEq, Eq, Structural)]
pub enum BootEpoch {
    /// Firmware boot services are still available.
    UefiBootServices,
    /// Boot services have been left.
    AfterExitBootServices,
    /// The hypervisor runs as host.
    HypervisorHost,
    /// A guest runs.
    Guest,
}

/// A measurement in a platform configuration register.
#[derive(Debug, Clone, Copy, PartialEq, Eq, Structural)]
pub struct MeasurementRef {
    /// Register index.
    pub pcr: u8,
    /// Digest length in bytes.
    pub digest_len: usize,
}

} // verus!
