//! Nested page table root.
use vstd::prelude::*;

verus! {

/// Root of a nested page table.
#[derive(Debug, Clone, Copy, PartialEq, Eq, Structural)]
pub struct NptRoot {
    /// Physical address of the top level table.
    pub pml4_pa: u64,
}

/// The plan of an identity map: no table has been placed yet, so the root is at
/// zero whatever range is asked for.
pub fn identity_map_plan(_start: u64, _len: u64) -> (r: NptRoot)
    ensures
        r == (NptRoot { pml4_pa: 0 }),
{
    NptRoot { pml4_pa: 0 }
}

} // verus!
