//! Hybrid suite selection for storage, and the context that a hybrid key is
//! bound to.
use vstd::prelude::*;

use crate::qrse::combiner::{CombinerContext, KemSuite};
use crate::text;

verus! {

/// A hybrid suite whose names are known at build time.
#[derive(Debug, Clone, Copy, PartialEq, Eq)]
pub struct HybridKemSuite {
    /// Classical leg.
    pub classical: &'static str,
    /// Post-quantum leg.
    pub pqc: &'static str,
    /// Combiner.
    pub combiner: &'static str,
}

/// The transition profile: X25519 and ML-KEM-768, combined with HKDF-SHA384.
pub fn default_transition_suite() -> (r: HybridKemSuite)
    ensures
        r.classical@ == "x25519"@,
        r.pqc@ == "ml-kem-768"@,
        r.combiner@ == "hkdf-sha384"@,
{
    HybridKemSuite { classical: "x25519", pqc: "ml-kem-768", combiner: "hkdf-sha384" }
}

/// The high-assurance profile: X25519 and ML-KEM-1024.
pub fn high_assurance_suite() -> (r: HybridKemSuite)
    ensures
        r.classical@ == "x25519"@,
        r.pqc@ == "ml-kem-1024"@,
        r.combiner@ == "hkdf-sha384"@,
{
    HybridKemSuite { classical: "x25519", pqc: "ml-kem-1024", combiner: "hkdf-sha384" }
}

impl HybridKemSuite {
    /// `k` names the same algorithms.
    pub open spec fn same_names(self, k: KemSuite) -> bool {
        &&& k.classical@ == self.classical@
        &&& k.pqc@ == self.pqc@
        &&& k.combiner@ == self.combiner@
    }

    /// The suite with owned names.
    pub fn to_kem_suite(&self) -> (r: KemSuite)
        ensures
            self.same_names(r),
    {
        KemSuite {
            classical: self.classical.to_string(),
            pqc: self.pqc.to_string(),
            combiner: self.combiner.to_string(),
        }
    }

    /// The suite in one word.
    pub open spec fn wire(self) -> Seq<char> {
        text::names_form(self.classical@, self.pqc@, self.combiner@)
    }

    /// Canonical, unambiguous wire form (that of the owned suite).
    pub fn canonical(&self) -> (r: String)
        ensures
            r@ == self.wire(),
            text::plain_name(self.classical@) && text::plain_name(self.pqc@) && text::plain_name(
                self.combiner@,
            ) ==> r@ == text::plus_joined(self.classical@, self.pqc@, self.combiner@),
    {
        text::names_text(self.classical, self.pqc, self.combiner)
    }
}

impl From<HybridKemSuite> for KemSuite {
    fn from(s: HybridKemSuite) -> (r: KemSuite)
        ensures
            s.same_names(r),
    {
        s.to_kem_suite()
    }
}

impl vstd::std_specs::convert::FromSpecImpl<HybridKemSuite> for KemSuite {
    open spec fn obeys_from_spec() -> bool {
        false
    }

    open spec fn from_spec(s: HybridKemSuite) -> KemSuite {
        arbitrary()
    }
}

impl From<&HybridKemSuite> for KemSuite {
    fn from(s: &HybridKemSuite) -> (r: KemSuite)
        ensures
            s.same_names(r),
    {
        s.to_kem_suite()
    }
}

impl vstd::std_specs::convert::FromSpecImpl<&HybridKemSuite> for KemSuite {
    open spec fn obeys_from_spec() -> bool {
        false
    }

    open spec fn from_spec(s: &HybridKemSuite) -> KemSuite {
        arbitrary()
    }
}

/// The context as one text.
pub fn combiner_context(volume_id: &str, device_id: &str, policy_version: u64) -> (r: String)
    ensures
        r@ == "chainnew-hyper-slate:v1:"@ + volume_id@ + ":"@ + device_id@ + ":"@ + text::decimal(
            policy_version as nat,
        ),
{
    let mut out = "chainnew-hyper-slate:v1:".to_string();
    out.append(volume_id);
    out.append(":");
    out.append(device_id);
    out.append(":");
    out.append(text::decimal_text(policy_version).as_str());
    out
}

/// The structured context that every hybrid key derivation is bound to. The
/// suite goes in unchanged, so a suite downgrade changes the context.
pub fn build_combiner_context(
    volume_id: &str,
    device_id: &str,
    policy_id: &str,
    policy_version: u64,
    suite: &HybridKemSuite,
    boot_measurement: &str,
) -> (r: CombinerContext)
    ensures
        r.volume_id@ == volume_id@,
        r.device_id@ == device_id@,
        r.policy_id@ == policy_id@,
        r.policy_version == policy_version,
        suite.same_names(r.algorithm_suite),
        r.boot_measurement@ == boot_measurement@,
{
    CombinerContext {
        volume_id: volume_id.to_string(),
        device_id: device_id.to_string(),
        policy_id: policy_id.to_string(),
        policy_version,
        algorithm_suite: suite.to_kem_suite(),
        boot_measurement: boot_measurement.to_string(),
    }
}

/// A suite and its owned form have one wire form.
pub proof fn owned_suite_has_same_wire_form(suite: HybridKemSuite, owned: KemSuite)
    requires
        suite.same_names(owned),
    ensures
        owned.wire() == suite.wire(),
{
}

/// The wire form is unambiguous: it pins the suite's three names.
pub proof fn wire_pins_hybrid_suite(a: HybridKemSuite, b: HybridKemSuite)
    requires
        a.wire() == b.wire(),
    ensures
        a.classical@ == b.classical@,
        a.pqc@ == b.pqc@,
        a.combiner@ == b.combiner@,
{
    text::names_form_pins_names(
        a.classical@,
        a.pqc@,
        a.combiner@,
        b.classical@,
        b.pqc@,
        b.combiner@,
    );
}

} // verus!
