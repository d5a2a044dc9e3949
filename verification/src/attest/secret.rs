//! Zeroizing secret handle for released key material.
use vstd::prelude::*;

use crate::primitives;
use crate::text;

verus! {

/// A length-revealing, content-hiding owner of secret bytes.
///
/// The buffer is zeroized both on an explicit [`SecretHandle::zeroize`] and
/// automatically on drop. The bytes are never shown.
pub struct SecretHandle {
    bytes: Vec<u8>,
}

impl View for SecretHandle {
    type V = Seq<u8>;

    closed spec fn view(&self) -> Seq<u8> {
        self.bytes@
    }
}

impl SecretHandle {
    /// Take ownership of `bytes` as a secret.
    pub fn new(bytes: Vec<u8>) -> (r: Self)
        ensures
            r@ == bytes@,
    {
        SecretHandle { bytes }
    }

    /// Number of secret bytes held.
    pub fn len(&self) -> (r: usize)
        ensures
            r == self@.len(),
    {
        self.bytes.len()
    }

    /// Whether the handle holds no bytes.
    pub fn is_empty(&self) -> (r: bool)
        ensures
            r == (self@.len() == 0),
    {
        self.bytes.len() == 0
    }

    /// Guarded read access to the secret: `f` is called once, on exactly the
    /// secret bytes, and its result is returned.
    pub fn expose<R, F: FnOnce(&[u8]) -> R>(&self, f: F) -> (r: R)
        requires
            forall|b: &[u8]| b@ == self@ ==> call_requires(f, (b,)),
        ensures
            exists|b: &[u8]| b@ == self@ && call_ensures(f, (b,), r),
    {
        f(self.bytes.as_slice())
    }

    /// Overwrite the secret buffer with zeros in place. Idempotent.
    pub fn zeroize(&mut self)
        ensures
            final(self)@ == Seq::new(old(self)@.len(), |i: int| 0u8),
    {
        let mut i: usize = 0;
        while i < self.bytes.len()
            invariant
                i <= self@.len(),
                self@.len() == old(self)@.len(),
                forall|j: int| 0 <= j < i ==> self@[j] == 0,
            decreases self@.len() - i,
        {
            self.bytes[i] = 0;
            i = i + 1;
        }
        assert(self@ =~= Seq::new(old(self)@.len(), |i: int| 0u8));
    }

    /// What may be shown of a secret: its length.
    pub fn redacted(&self) -> (r: String)
        ensures
            r@ == "SecretHandle { len: "@ + text::decimal(self@.len())
                + ", bytes: \"<redacted>\" }"@,
    {
        let mut out = "SecretHandle { len: ".to_string();
        out.append(text::decimal_text(self.bytes.len() as u64).as_str());
        out.append(", bytes: \"<redacted>\" }");
        out
    }
}

impl Drop for SecretHandle {
    fn drop(&mut self)
        opens_invariants none
        no_unwind
    {
        primitives::wipe(&mut self.bytes);
    }
}

} // verus!
