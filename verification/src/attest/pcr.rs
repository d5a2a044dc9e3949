//! PCR (Platform Configuration Register) banks and boot measurements.
use vstd::prelude::*;

use std::collections::BTreeMap;

use crate::json::{Json, JsonObject, JsonValue};
use crate::text;

verus! {

/// Firmware and platform code measurement register.
pub const PCR0: u8 = 0;

/// Secure Boot policy measurement register.
pub const PCR7: u8 = 7;

/// Unified-kernel and boot-aggregate measurement register.
pub const PCR11: u8 = 11;

/// An ordered map from PCR index to digest text.
#[derive(Debug, PartialEq, Eq)]
pub struct PcrBank {
    registers: BTreeMap<u8, String>,
}

impl View for PcrBank {
    type V = Map<u8, Seq<char>>;

    closed spec fn view(&self) -> Map<u8, Seq<char>> {
        self.registers@.map_values(|s: String| s@)
    }
}

impl Clone for PcrBank {
    fn clone(&self) -> (r: Self)
        ensures
            r@ == self@,
    {
        PcrBank { registers: self.registers.clone() }
    }
}

impl Default for PcrBank {
    fn default() -> (r: Self)
        ensures
            r@ == Map::<u8, Seq<char>>::empty(),
    {
        Self::new()
    }
}

/// The registers below `n` in ascending order, with their digests.
pub open spec fn registers_below(m: Map<u8, Seq<char>>, n: nat) -> Seq<(u8, Seq<char>)>
    decreases n,
{
    if n == 0 {
        Seq::empty()
    } else {
        let k = (n - 1) as u8;
        let before = registers_below(m, (n - 1) as nat);
        if m.contains_key(k) {
            before.push((k, m[k]))
        } else {
            before
        }
    }
}

/// All registers in ascending order, with their digests.
pub open spec fn registers_of(m: Map<u8, Seq<char>>) -> Seq<(u8, Seq<char>)> {
    registers_below(m, 256)
}

/// Register `k` is expected but missing or different in `actual`.
pub open spec fn mismatch_at(
    actual: Map<u8, Seq<char>>,
    expected: Map<u8, Seq<char>>,
    k: u8,
) -> bool {
    expected.contains_key(k) && !(actual.contains_key(k) && actual[k] == expected[k])
}

/// Every expected register is there with the expected digest.
pub open spec fn all_match(actual: Map<u8, Seq<char>>, expected: Map<u8, Seq<char>>) -> bool {
    forall|k: u8| !#[trigger] mismatch_at(actual, expected, k)
}

/// The lowest mismatching register.
pub open spec fn is_first_mismatch(
    actual: Map<u8, Seq<char>>,
    expected: Map<u8, Seq<char>>,
    k: u8,
) -> bool {
    &&& mismatch_at(actual, expected, k)
    &&& forall|j: u8| j < k ==> !#[trigger] mismatch_at(actual, expected, j)
}

/// A bank as a document: an object whose keys are the register numbers.
pub open spec fn bank_json(m: Map<u8, Seq<char>>) -> JsonValue {
    JsonValue::Object(
        registers_of(m).map_values(
            |e: (u8, Seq<char>)| (text::decimal(e.0 as nat), JsonValue::Text(e.1)),
        ),
    )
}

impl PcrBank {
    /// Create an empty bank.
    pub fn new() -> (r: Self)
        ensures
            r@ == Map::<u8, Seq<char>>::empty(),
    {
        let r = PcrBank { registers: BTreeMap::new() };
        assert(r@ =~= Map::empty());
        r
    }

    /// Record (or overwrite) the digest for a PCR index.
    pub fn set(&mut self, pcr: u8, digest: &str) -> (r: &mut Self)
        ensures
            r@ == old(self)@.insert(pcr, digest@),
            *final(self) == *final(r),
    {
        let ghost before = self@;
        self.registers.insert(pcr, digest.to_string());
        assert(self@ =~= before.insert(pcr, digest@));
        self
    }

    /// Read the digest recorded for a PCR index, if any.
    pub fn get(&self, pcr: u8) -> (r: Option<&str>)
        ensures
            match r {
                Some(d) => self@.contains_key(pcr) && self@[pcr] == d@,
                None => !self@.contains_key(pcr),
            },
    {
        match self.registers.get(&pcr) {
            Some(d) => Some(d.as_str()),
            None => None,
        }
    }

    /// Number of populated PCRs.
    pub fn len(&self) -> (r: usize)
        ensures
            r == self@.dom().len(),
    {
        assert(self@.dom() =~= self.registers@.dom());
        self.registers.len()
    }

    /// Whether no PCRs are populated.
    pub fn is_empty(&self) -> (r: bool)
        ensures
            r == (self@ == Map::<u8, Seq<char>>::empty()),
    {
        let r = self.registers.is_empty();
        proof {
            assert(self@.dom() =~= self.registers@.dom());
            if r {
                assert(self@ =~= Map::empty());
            } else if self@ == Map::<u8, Seq<char>>::empty() {
                assert(self.registers@ =~= Map::empty());
            }
        }
        r
    }

    /// The `(pcr, digest)` pairs in ascending PCR order.
    pub fn iter(&self) -> (r: Vec<(u8, &str)>)
        ensures
            r@.map_values(|e: (u8, &str)| (e.0, e.1@)) == registers_of(self@),
    {
        let mut out: Vec<(u8, &str)> = Vec::new();
        let mut n: u16 = 0;
        assert(out@.map_values(|e: (u8, &str)| (e.0, e.1@)) =~= registers_below(self@, 0));
        while n < 256
            invariant
                n <= 256,
                out@.map_values(|e: (u8, &str)| (e.0, e.1@)) == registers_below(self@, n as nat),
            decreases 256 - n,
        {
            let k: u8 = n as u8;
            if let Some(d) = self.get(k) {
                let ghost before = out@.map_values(|e: (u8, &str)| (e.0, e.1@));
                out.push((k, d));
                assert(out@.map_values(|e: (u8, &str)| (e.0, e.1@)) =~= before.push((k, d@)));
            }
            n = n + 1;
        }
        out
    }

    /// The first PCR index in `expected` whose digest is missing or differs in
    /// `self`, or `None` if `self` satisfies every expected register. A PCR
    /// expected but absent counts as a mismatch.
    pub fn first_mismatch(&self, expected: &PcrBank) -> (r: Option<u8>)
        ensures
            match r {
                Some(k) => is_first_mismatch(self@, expected@, k),
                None => all_match(self@, expected@),
            },
    {
        let mut n: u16 = 0;
        while n < 256
            invariant
                n <= 256,
                forall|j: u8| j < n ==> !#[trigger] mismatch_at(self@, expected@, j),
            decreases 256 - n,
        {
            let k: u8 = n as u8;
            if let Some(want) = expected.get(k) {
                let ok = match self.get(k) {
                    Some(have) => text::same(have, want),
                    None => false,
                };
                if !ok {
                    return Some(k);
                }
            }
            assert(!mismatch_at(self@, expected@, k));
            n = n + 1;
        }
        None
    }

    /// Whether `self` matches every register named in `expected`.
    pub fn satisfies(&self, expected: &PcrBank) -> (r: bool)
        ensures
            r == all_match(self@, expected@),
    {
        self.first_mismatch(expected).is_none()
    }

    /// The bank as a document.
    pub fn to_value(&self) -> (r: Json)
        ensures
            r@ == bank_json(self@),
    {
        let entries = self.iter();
        let ghost regs = registers_of(self@);
        let mut o = JsonObject::new();
        let mut i: usize = 0;
        while i < entries.len()
            invariant
                i <= entries@.len(),
                entries@.map_values(|e: (u8, &str)| (e.0, e.1@)) == regs,
                o@.len() == i,
                forall|k: int|
                    0 <= k < i ==> #[trigger] o@[k] == (
                        text::decimal(regs[k].0 as nat),
                        JsonValue::Text(regs[k].1),
                    ),
            decreases entries@.len() - i,
        {
            let e = entries[i];
            assert(regs[i as int] == (e.0, e.1@));
            o.put_text(text::decimal_text(e.0 as u64).as_str(), e.1);
            i = i + 1;
        }
        assert(regs.len() == entries@.len());
        assert(o@ =~= bank_json(self@)->Object_0);
        o.finish()
    }
}

/// A captured measured-boot record: the component digests and the extended
/// register state.
#[derive(Debug, PartialEq, Eq)]
pub struct BootMeasurement {
    pub uefi_app_hash: String,
    pub kernel_hash: String,
    pub boot_policy_hash: String,
    pub capsule_manifest_hash: String,
    pub pcrs: PcrBank,
}

impl Clone for BootMeasurement {
    fn clone(&self) -> (r: Self)
        ensures
            r.uefi_app_hash == self.uefi_app_hash,
            r.kernel_hash == self.kernel_hash,
            r.boot_policy_hash == self.boot_policy_hash,
            r.capsule_manifest_hash == self.capsule_manifest_hash,
            r.pcrs@ == self.pcrs@,
    {
        BootMeasurement {
            uefi_app_hash: self.uefi_app_hash.clone(),
            kernel_hash: self.kernel_hash.clone(),
            boot_policy_hash: self.boot_policy_hash.clone(),
            capsule_manifest_hash: self.capsule_manifest_hash.clone(),
            pcrs: self.pcrs.clone(),
        }
    }
}

impl BootMeasurement {
    /// Construct a boot measurement.
    pub fn new(
        uefi_app_hash: &str,
        kernel_hash: &str,
        boot_policy_hash: &str,
        capsule_manifest_hash: &str,
        pcrs: PcrBank,
    ) -> (r: Self)
        ensures
            r.uefi_app_hash@ == uefi_app_hash@,
            r.kernel_hash@ == kernel_hash@,
            r.boot_policy_hash@ == boot_policy_hash@,
            r.capsule_manifest_hash@ == capsule_manifest_hash@,
            r.pcrs == pcrs,
    {
        BootMeasurement {
            uefi_app_hash: uefi_app_hash.to_string(),
            kernel_hash: kernel_hash.to_string(),
            boot_policy_hash: boot_policy_hash.to_string(),
            capsule_manifest_hash: capsule_manifest_hash.to_string(),
            pcrs,
        }
    }
}

// ------------------------------------------------------------------- laws

/// The registers are listed in strictly ascending order, each with its digest,
/// and none is left out.
pub proof fn registers_ascend(m: Map<u8, Seq<char>>, n: nat)
    requires
        n <= 256,
    ensures
        forall|i: int, j: int|
            0 <= i < j < registers_below(m, n).len() ==> (#[trigger] registers_below(m, n)[i]).0
                < (#[trigger] registers_below(m, n)[j]).0,
        forall|i: int|
            0 <= i < registers_below(m, n).len() ==> {
                let e = #[trigger] registers_below(m, n)[i];
                e.0 < n && m.contains_key(e.0) && m[e.0] == e.1
            },
        forall|k: u8|
            k < n && #[trigger] m.contains_key(k) ==> registers_below(m, n).contains((k, m[k])),
    decreases n,
{
    if n > 0 {
        let before = registers_below(m, (n - 1) as nat);
        let all = registers_below(m, n);
        registers_ascend(m, (n - 1) as nat);
        assert forall|k: u8| k < n && #[trigger] m.contains_key(k) implies all.contains(
            (k, m[k]),
        ) by {
            if k < n - 1 {
                assert(before.contains((k, m[k])));
                let i = choose|i: int| 0 <= i < before.len() && before[i] == (k, m[k]);
                assert(all[i] == (k, m[k]));
            } else {
                assert(all[before.len() as int] == (k, m[k]));
            }
        }
    }
}

/// Registers that nothing is expected of do not matter.
pub proof fn extra_registers_are_allowed(
    actual: Map<u8, Seq<char>>,
    expected: Map<u8, Seq<char>>,
    k: u8,
    digest: Seq<char>,
)
    requires
        all_match(actual, expected),
        !expected.contains_key(k),
    ensures
        all_match(actual.insert(k, digest), expected),
{
    assert forall|j: u8| !#[trigger] mismatch_at(actual.insert(k, digest), expected, j) by {
        assert(!mismatch_at(actual, expected, j));
    }
}

} // verus!
