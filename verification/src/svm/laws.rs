//! What the register helpers are for, stated over their calls.
use vstd::prelude::*;

use crate::svm::control;
use crate::svm::iommu;
use crate::svm::msr;

verus! {

/// A value that is split and joined again is the same value, and its high half is
/// what is left above 32 bits.
pub proof fn split_and_joined_is_the_same(val: u64, halves: (u32, u32), back: u64)
    requires
        call_ensures(msr::split_value, (val,), halves),
        call_ensures(msr::join_value, (halves.0, halves.1), back),
    ensures
        back == val,
        halves.0 as int * 0x1_0000_0000 + halves.1 as int == val,
{
}

/// Enabling sets bit 12 of the feature register, keeps every other bit, and then
/// sets the save area as it was given.
pub proof fn enabling_sets_one_bit(efer: u64, save: u64, r: [(u32, u64); 2], bit: u64)
    requires
        call_ensures(control::enable_svm_writes, (efer, save), r),
        bit < 64,
    ensures
        r@[0].0 == 0xC000_0080u32,
        r@[1] == (0xC001_0117u32, save),
        (r@[0].1 >> bit) & 1 == (if bit == 12 {
            1u64
        } else {
            (efer >> bit) & 1
        }),
{
    assert(bit < 64 ==> ((efer | 0x1000u64) >> bit) & 1 == (if bit == 12 {
        1u64
    } else {
        (efer >> bit) & 1
    })) by (bit_vector);
}

/// A table is taken for an IVRS table exactly by its first four bytes.
pub proof fn table_is_known_by_four_bytes(bytes: &[u8], r: bool)
    requires
        call_ensures(iommu::looks_like_ivrs, (bytes,), r),
    ensures
        r <==> bytes@.len() >= 4 && bytes@[0] == 'I' as u8 && bytes@[1] == 'V' as u8 && bytes@[2]
            == 'R' as u8 && bytes@[3] == 'S' as u8,
{
    let sig = seq![0x49u8, 0x56u8, 0x52u8, 0x53u8];
    if bytes@.len() >= 4 {
        let front = bytes@.take(4);
        assert(front[0] == bytes@[0] && front[1] == bytes@[1]);
        assert(front[2] == bytes@[2] && front[3] == bytes@[3]);
        if bytes@[0] == 0x49 && bytes@[1] == 0x56 && bytes@[2] == 0x52 && bytes@[3] == 0x53 {
            assert(front =~= sig);
        }
    }
}

} // verus!
