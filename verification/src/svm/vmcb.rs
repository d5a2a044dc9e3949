//! The control block of a virtual machine.
use vstd::prelude::*;

verus! {

/// A page that holds a control block.
pub struct VmcbPage {
    /// Its bytes.
    pub bytes: [u8; 4096],
}

/// The control area at the start of a control block, field by field in order.
pub struct VmcbControlArea {
    /// Reads of control registers that exit.
    pub intercept_cr_read: u32,
    /// Writes of control registers that exit.
    pub intercept_cr_write: u32,
    /// Reads of debug registers that exit.
    pub intercept_dr_read: u32,
    /// Writes of debug registers that exit.
    pub intercept_dr_write: u32,
    /// Exceptions that exit.
    pub intercept_exceptions: u32,
    /// Instructions that exit, first word.
    pub intercept_instr1: u32,
    /// Instructions that exit, second word.
    pub intercept_instr2: u32,
    /// Instructions that exit, third word.
    pub intercept_instr3: u32,
    /// Reserved.
    pub reserved_20: u32,
    /// Threshold of the pause filter.
    pub pause_filter_threshold: u16,
    /// Count of the pause filter.
    pub pause_filter_count: u16,
    /// Physical address of the port permission map.
    pub iopm_base_pa: u64,
    /// Physical address of the register permission map.
    pub msrpm_base_pa: u64,
    /// Offset that is added to the time stamp counter.
    pub tsc_offset: u64,
    /// Address space identifier of the guest.
    pub guest_asid: u32,
    /// Control of the translation buffer.
    pub tlb_control: u8,
    /// Reserved.
    pub reserved_45: [u8; 3],
    /// Control of virtual interrupts.
    pub int_ctl: u32,
    /// Virtual interrupt vector.
    pub int_vector: u32,
    /// Why the guest exited.
    pub exit_code: u64,
    /// Detail of the exit.
    pub exit_info1: u64,
    /// Detail of the exit.
    pub exit_info2: u64,
    /// Interrupt that was being delivered.
    pub exit_int_info: u64,
    /// Whether nested paging is on.
    pub np_enable: u64,
}

/// Exit on a halt.
pub const VMEXIT_HLT: u64 = 0x40;

/// Exit on a nested page fault.
pub const VMEXIT_NPF: u64 = 0x400;

} // verus!
