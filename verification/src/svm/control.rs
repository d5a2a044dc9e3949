//! Turning secure virtual machines on.
use vstd::prelude::*;

use crate::svm::msr::{EFER, EFER_SVME, VM_HSAVE_PA};

verus! {

/// What can go wrong with a virtual machine.
#[derive(Debug, Clone, Copy, PartialEq, Eq, Structural)]
pub enum SvmError {
    /// The processor has no support.
    NotSupported,
    /// The guest could not be entered.
    VmrunFailed,
    /// The control block is not valid.
    InvalidVmcb,
}

/// The register writes that turn secure virtual machines on, given what
/// [`EFER`] holds: first the enable bit is added, then the host save area is
/// set.
pub fn enable_svm_writes(efer: u64, host_save_pa: u64) -> (r: [(u32, u64); 2])
    ensures
        r@[0] == (EFER, efer | EFER_SVME),
        r@[1] == (VM_HSAVE_PA, host_save_pa),
{
    [(EFER, efer | EFER_SVME), (VM_HSAVE_PA, host_save_pa)]
}

/// Turning secure virtual machines on sets the enable bit, and leaves every
/// other bit of the register as it was.
pub proof fn enabling_keeps_other_bits(efer: u64)
    ensures
        (efer | EFER_SVME) & EFER_SVME == EFER_SVME,
        (efer | EFER_SVME) & !EFER_SVME == efer & !EFER_SVME,
{
    assert((efer | 0x1000u64) & 0x1000u64 == 0x1000u64) by (bit_vector);
    assert((efer | 0x1000u64) & !0x1000u64 == efer & !0x1000u64) by (bit_vector);
}

/// Turning secure virtual machines on twice is turning them on once.
pub proof fn enabling_is_idempotent(efer: u64)
    ensures
        (efer | EFER_SVME) | EFER_SVME == efer | EFER_SVME,
{
    assert((efer | 0x1000u64) | 0x1000u64 == efer | 0x1000u64) by (bit_vector);
}

} // verus!
