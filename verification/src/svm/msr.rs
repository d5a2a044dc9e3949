//! Model-specific registers: which ones, and how a value travels through the
//! two halves that the instructions use.
use vstd::prelude::*;

verus! {

/// Extended feature enable register.
pub const EFER: u32 = 0xC000_0080;

/// Physical address of the host save area.
pub const VM_HSAVE_PA: u32 = 0xC001_0117;

/// The bit of [`EFER`] that enables secure virtual machines.
pub const EFER_SVME: u64 = 0x1000;

/// The high half of a register value.
pub open spec fn high_half(val: u64) -> u32 {
    (val / 0x1_0000_0000) as u32
}

/// The low half of a register value.
pub open spec fn low_half(val: u64) -> u32 {
    (val % 0x1_0000_0000) as u32
}

/// The register value of two halves.
pub open spec fn of_halves(high: u32, low: u32) -> u64 {
    (high * 0x1_0000_0000 + low) as u64
}

/// The high and the low half of a register value, as they are written.
pub fn split_value(val: u64) -> (r: (u32, u32))
    ensures
        r == (high_half(val), low_half(val)),
{
    ((val / 0x1_0000_0000) as u32, (val % 0x1_0000_0000) as u32)
}

/// The register value of a high and a low half, as they are read.
pub fn join_value(high: u32, low: u32) -> (r: u64)
    ensures
        r == of_halves(high, low),
{
    high as u64 * 0x1_0000_0000 + low as u64
}

/// A value that is written in two halves and read back is the same value.
pub proof fn written_value_is_read_back(val: u64)
    ensures
        of_halves(high_half(val), low_half(val)) == val,
{
}

/// Two halves that are joined and split again are the same halves.
pub proof fn halves_are_kept(high: u32, low: u32)
    ensures
        high_half(of_halves(high, low)) == high,
        low_half(of_halves(high, low)) == low,
{
}

} // verus!
