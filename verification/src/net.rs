//! Virtual networking: the policy document, the per-VM sandbox and the
//! policy-first switch between them.
use vstd::prelude::*;

use crate::primitives;

pub mod laws;
pub mod policy;
pub mod sandbox;
pub mod switch;

verus! {

/// `"sha384:<hex>"` of `bytes`.
pub fn net_hash(bytes: &[u8]) -> (r: String)
    ensures
        r@ == primitives::sha384_hex_spec(bytes@),
        r@.len() == 103,
{
    primitives::sha384_hex(bytes)
}

} // verus!
