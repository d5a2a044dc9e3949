//! The IVRS table of the input/output memory management unit.
use vstd::prelude::*;

verus! {

/// Header of an IVRS table.
#[derive(Debug, Clone, Copy, PartialEq, Eq, Structural)]
pub struct IvrsHeader {
    /// Length of the table.
    pub length: u32,
    /// Revision.
    pub revision: u8,
    /// Checksum.
    pub checksum: u8,
}

/// The bytes begin with the signature `IVRS`.
pub open spec fn begins_ivrs(bytes: Seq<u8>) -> bool {
    bytes.len() >= 4 && bytes.take(4) == seq![0x49u8, 0x56u8, 0x52u8, 0x53u8]
}

/// Whether the bytes begin with the signature `IVRS`.
pub fn looks_like_ivrs(bytes: &[u8]) -> (r: bool)
    ensures
        r == begins_ivrs(bytes@),
{
    let r = bytes.len() >= 4 && bytes[0] == 0x49 && bytes[1] == 0x56 && bytes[2] == 0x52
        && bytes[3] == 0x53;
    proof {
        let sig = seq![0x49u8, 0x56u8, 0x52u8, 0x53u8];
        if r {
            assert(bytes@.take(4) =~= sig);
        } else if begins_ivrs(bytes@) {
            assert(bytes@[0] == bytes@.take(4)[0]);
            assert(bytes@[1] == bytes@.take(4)[1]);
            assert(bytes@[2] == bytes@.take(4)[2]);
            assert(bytes@[3] == bytes@.take(4)[3]);
        }
    }
    r
}

} // verus!
