//! KMS unlock simulator: attested key-release evaluation.
//!
//! [`KmsSimulator`] evaluates a [`KeyReleaseRequest`] against a [`KmsPolicy`]
//! and releases a (simulated) wrapped volume master key only when every
//! attestation gate passes:
//!
//! 1. the boot policy hash is the pinned one (a modified boot policy blocks
//!    release),
//! 2. all expected PCRs match,
//! 3. the capsule hash is allow-listed,
//! 4. the hypervisor version is at or above the minimum.
//!
//! Every decision is recorded as a `key_release` receipt on the audit chain.
use vstd::prelude::*;

use crate::attest::pcr;
use crate::attest::pcr::{PcrBank, PCR0, PCR11, PCR7};
use crate::attest::secret::SecretHandle;
use crate::json;
use crate::json::{Json, JsonObject, JsonValue};
use crate::primitives;
use crate::receipts::chain;
use crate::receipts::chain::{ReceiptChain, ReceiptEvent};
use crate::text;

verus! {

/// Policy id stamped onto key-release receipts.
pub const KMS_POLICY_ID: &'static str = "pol-kms-attested-unlock";

/// `format` tag stamped onto [`AttestedUnlockEvidence`] summaries.
pub const ATTESTED_UNLOCK_FORMAT: &'static str = "attested-hybrid-unlock-v1";

/// Errors raised while reading attestation documents.
#[derive(Debug, PartialEq, Eq)]
pub enum AttestError {
    Json(String),
}

impl AttestError {
    /// The error as one line of text.
    pub fn message(&self) -> (r: String)
        ensures
            match *self {
                AttestError::Json(d) => r@ == "json error: "@ + d@,
            },
    {
        match self {
            AttestError::Json(d) => {
                let mut out = "json error: ".to_string();
                out.append(d.as_str());
                out
            },
        }
    }
}

/// The algorithm suite a key-release request expects: the classical KEM, the
/// post-quantum KEM, and the combiner that derive the hybrid key.
#[derive(Debug, PartialEq, Eq)]
pub struct SuiteBinding {
    pub classical: String,
    pub pqc: String,
    pub combiner: String,
}

impl Clone for SuiteBinding {
    fn clone(&self) -> (r: Self)
        ensures
            r == *self,
    {
        SuiteBinding {
            classical: self.classical.clone(),
            pqc: self.pqc.clone(),
            combiner: self.combiner.clone(),
        }
    }
}

impl Default for SuiteBinding {
    fn default() -> (r: Self)
        ensures
            r.classical@ == ""@,
            r.pqc@ == ""@,
            r.combiner@ == ""@,
    {
        SuiteBinding::new("", "", "")
    }
}

impl SuiteBinding {
    /// Build a suite binding from its three identifiers.
    pub fn new(classical: &str, pqc: &str, combiner: &str) -> (r: Self)
        ensures
            r.classical@ == classical@,
            r.pqc@ == pqc@,
            r.combiner@ == combiner@,
    {
        SuiteBinding {
            classical: classical.to_string(),
            pqc: pqc.to_string(),
            combiner: combiner.to_string(),
        }
    }

    /// The default commercial transition profile: X25519 and ML-KEM-768.
    pub fn transition_768() -> (r: Self)
        ensures
            r.classical@ == "x25519"@,
            r.pqc@ == "ml-kem-768"@,
            r.combiner@ == "hkdf-sha384"@,
    {
        SuiteBinding::new("x25519", "ml-kem-768", "hkdf-sha384")
    }

    /// High-assurance profile: X25519 and ML-KEM-1024.
    pub fn high_assurance_1024() -> (r: Self)
        ensures
            r.classical@ == "x25519"@,
            r.pqc@ == "ml-kem-1024"@,
            r.combiner@ == "hkdf-sha384"@,
    {
        SuiteBinding::new("x25519", "ml-kem-1024", "hkdf-sha384")
    }

    /// The suite in one word.
    pub open spec fn wire(self) -> Seq<char> {
        text::names_form(self.classical@, self.pqc@, self.combiner@)
    }

    /// Canonical, unambiguous wire form (`"classical+pqc+combiner"`), matching
    /// the combiner's suite encoding.
    pub fn canonical(&self) -> (r: String)
        ensures
            r@ == self.wire(),
            text::plain_name(self.classical@) && text::plain_name(self.pqc@) && text::plain_name(
                self.combiner@,
            ) ==> r@ == text::plus_joined(self.classical@, self.pqc@, self.combiner@),
    {
        text::names_text(self.classical.as_str(), self.pqc.as_str(), self.combiner.as_str())
    }

    /// The suite as a document.
    pub open spec fn json(self) -> JsonValue {
        JsonValue::Object(
            Seq::empty().push(("classical"@, JsonValue::Text(self.classical@))).push(
                ("pqc"@, JsonValue::Text(self.pqc@)),
            ).push(("combiner"@, JsonValue::Text(self.combiner@))),
        )
    }

    fn to_value(&self) -> (r: Json)
        ensures
            r@ == self.json(),
    {
        let mut o = JsonObject::new();
        o.put_text("classical", self.classical.as_str());
        o.put_text("pqc", self.pqc.as_str());
        o.put_text("combiner", self.combiner.as_str());
        o.finish()
    }
}

/// The wire form is unambiguous: it pins the binding's three names.
pub proof fn wire_pins_binding(a: SuiteBinding, b: SuiteBinding)
    requires
        a.wire() == b.wire(),
    ensures
        a.classical@ == b.classical@,
        a.pqc@ == b.pqc@,
        a.combiner@ == b.combiner@,
{
    text::names_form_pins_names(
        a.classical@,
        a.pqc@,
        a.combiner@,
        b.classical@,
        b.pqc@,
        b.combiner@,
    );
}

/// An optional suite as a document: `null` where there is none.
pub open spec fn opt_suite_json(s: Option<SuiteBinding>) -> JsonValue {
    match s {
        Some(b) => b.json(),
        None => JsonValue::Null,
    }
}

fn opt_suite_value(s: &Option<SuiteBinding>) -> (r: Json)
    ensures
        r@ == opt_suite_json(*s),
{
    match s {
        Some(b) => b.to_value(),
        None => Json::Null,
    }
}

/// A request for the KMS to release a wrapped volume key for a VM.
#[derive(Debug, PartialEq, Eq)]
pub struct KeyReleaseRequest {
    pub request_type: String,
    pub device_id: String,
    pub vm_id: String,
    pub capsule_hash: String,
    pub boot_policy_hash: String,
    pub pcrs: PcrBank,
    pub hypervisor_version: u64,
    pub nonce: String,
}

impl Clone for KeyReleaseRequest {
    fn clone(&self) -> (r: Self)
        ensures
            r.json() == self.json(),
            r.pcrs@ == self.pcrs@,
    {
        KeyReleaseRequest {
            request_type: self.request_type.clone(),
            device_id: self.device_id.clone(),
            vm_id: self.vm_id.clone(),
            capsule_hash: self.capsule_hash.clone(),
            boot_policy_hash: self.boot_policy_hash.clone(),
            pcrs: self.pcrs.clone(),
            hypervisor_version: self.hypervisor_version,
            nonce: self.nonce.clone(),
        }
    }
}

impl KeyReleaseRequest {
    /// The request as a document; its hash is taken over the compact form.
    pub open spec fn json(self) -> JsonValue {
        JsonValue::Object(
            Seq::empty().push(("request_type"@, JsonValue::Text(self.request_type@))).push(
                ("device_id"@, JsonValue::Text(self.device_id@)),
            ).push(("vm_id"@, JsonValue::Text(self.vm_id@))).push(
                ("capsule_hash"@, JsonValue::Text(self.capsule_hash@)),
            ).push(("boot_policy_hash"@, JsonValue::Text(self.boot_policy_hash@))).push(
                ("pcrs"@, pcr::bank_json(self.pcrs@)),
            ).push(("hypervisor_version"@, JsonValue::Num(self.hypervisor_version as nat))).push(
                ("nonce"@, JsonValue::Text(self.nonce@)),
            ),
        )
    }

    /// Convenience constructor for the common attested-unlock request: its PCR
    /// bank carries exactly the firmware, Secure-Boot-policy and unified-kernel
    /// registers.
    pub fn attested_unlock(
        device_id: &str,
        vm_id: &str,
        capsule_hash: &str,
        boot_policy_hash: &str,
        pcr0: &str,
        pcr7: &str,
        pcr11: &str,
        hypervisor_version: u64,
        nonce: &str,
    ) -> (r: Self)
        ensures
            r.request_type@ == "key_release"@,
            r.device_id@ == device_id@,
            r.vm_id@ == vm_id@,
            r.capsule_hash@ == capsule_hash@,
            r.boot_policy_hash@ == boot_policy_hash@,
            r.pcrs@ == Map::<u8, Seq<char>>::empty().insert(PCR0, pcr0@).insert(
                PCR7,
                pcr7@,
            ).insert(PCR11, pcr11@),
            r.hypervisor_version == hypervisor_version,
            r.nonce@ == nonce@,
    {
        let mut pcrs = PcrBank::new();
        pcrs.set(PCR0, pcr0);
        pcrs.set(PCR7, pcr7);
        pcrs.set(PCR11, pcr11);
        KeyReleaseRequest {
            request_type: "key_release".to_string(),
            device_id: device_id.to_string(),
            vm_id: vm_id.to_string(),
            capsule_hash: capsule_hash.to_string(),
            boot_policy_hash: boot_policy_hash.to_string(),
            pcrs,
            hypervisor_version,
            nonce: nonce.to_string(),
        }
    }

    /// Pair this request with the hybrid suite it expects. The request itself
    /// is left as it is.
    pub fn with_suite(self, suite: SuiteBinding) -> (r: SuitedKeyReleaseRequest)
        ensures
            r.request == self,
            r.suite == Some(suite),
    {
        SuitedKeyReleaseRequest { request: self, suite: Some(suite) }
    }

    fn to_value(&self) -> (r: Json)
        ensures
            r@ == self.json(),
    {
        let mut o = JsonObject::new();
        o.put_text("request_type", self.request_type.as_str());
        o.put_text("device_id", self.device_id.as_str());
        o.put_text("vm_id", self.vm_id.as_str());
        o.put_text("capsule_hash", self.capsule_hash.as_str());
        o.put_text("boot_policy_hash", self.boot_policy_hash.as_str());
        o.put("pcrs", self.pcrs.to_value());
        o.put_num("hypervisor_version", self.hypervisor_version);
        o.put_text("nonce", self.nonce.as_str());
        o.finish()
    }

    /// Deterministic `"sha384:<hex>"` hash over the canonical request fields.
    pub fn inputs_hash(&self) -> (r: String)
        ensures
            r@ == chain::document_hash(self.json()),
    {
        chain::hash_document(&self.to_value())
    }

    /// Serialize to indented JSON. This never fails.
    pub fn to_json(&self) -> (r: Result<String, AttestError>)
        ensures
            r matches Ok(s) && s@ == json::pretty(self.json(), Seq::empty()),
    {
        Ok(self.to_value().to_pretty())
    }
}

/// A [`KeyReleaseRequest`] paired with the optional hybrid suite it expects.
#[derive(Debug, Clone, PartialEq, Eq)]
pub struct SuitedKeyReleaseRequest {
    pub request: KeyReleaseRequest,
    pub suite: Option<SuiteBinding>,
}

impl SuitedKeyReleaseRequest {
    /// Wrap a request that carries no suite expectation.
    pub fn new(request: KeyReleaseRequest) -> (r: Self)
        ensures
            r.request == request,
            r.suite is None,
    {
        SuitedKeyReleaseRequest { request, suite: None }
    }

    /// The request as a document.
    pub open spec fn json(self) -> JsonValue {
        JsonValue::Object(
            Seq::empty().push(("request"@, self.request.json())).push(
                ("suite"@, opt_suite_json(self.suite)),
            ),
        )
    }

    /// Serialize to indented JSON. This never fails.
    pub fn to_json(&self) -> (r: Result<String, AttestError>)
        ensures
            r matches Ok(s) && s@ == json::pretty(self.json(), Seq::empty()),
    {
        let mut o = JsonObject::new();
        o.put("request", self.request.to_value());
        o.put("suite", opt_suite_value(&self.suite));
        Ok(o.finish().to_pretty())
    }
}

/// A structured summary of an allowed attested hybrid unlock: who, under which
/// suite, and the result of each gate, so that an auditor can see why the
/// release passed without running the policy again.
#[derive(Debug, Clone, PartialEq, Eq)]
pub struct AttestedUnlockEvidence {
    /// Schema tag, always [`ATTESTED_UNLOCK_FORMAT`].
    pub format: String,
    pub device_id: String,
    pub vm_id: String,
    /// The hybrid suite the request declared, if any.
    pub suite: Option<SuiteBinding>,
    /// Whether the request's PCRs satisfied every expected register.
    pub pcr_match: bool,
    /// Whether the request's boot-policy hash matched the pinned value.
    pub boot_policy_match: bool,
    /// Whether the capsule hash was on the policy allow-list.
    pub capsule_allowlisted: bool,
    /// Whether the hypervisor version met the policy minimum.
    pub hypervisor_version_ok: bool,
    /// The request's inputs hash (links to the `key_release` receipt).
    pub inputs_hash: String,
    /// The policy id the unlock was evaluated under.
    pub policy_id: String,
}

impl AttestedUnlockEvidence {
    /// The evidence as a document.
    pub open spec fn json(self) -> JsonValue {
        JsonValue::Object(
            Seq::empty().push(("format"@, JsonValue::Text(self.format@))).push(
                ("device_id"@, JsonValue::Text(self.device_id@)),
            ).push(("vm_id"@, JsonValue::Text(self.vm_id@))).push(
                ("suite"@, opt_suite_json(self.suite)),
            ).push(("pcr_match"@, JsonValue::Bool(self.pcr_match))).push(
                ("boot_policy_match"@, JsonValue::Bool(self.boot_policy_match)),
            ).push(("capsule_allowlisted"@, JsonValue::Bool(self.capsule_allowlisted))).push(
                ("hypervisor_version_ok"@, JsonValue::Bool(self.hypervisor_version_ok)),
            ).push(("inputs_hash"@, JsonValue::Text(self.inputs_hash@))).push(
                ("policy_id"@, JsonValue::Text(self.policy_id@)),
            ),
        )
    }

    /// Serialize to indented JSON, suitable for embedding alongside a receipt.
    /// This never fails.
    pub fn to_json(&self) -> (r: Result<String, AttestError>)
        ensures
            r matches Ok(s) && s@ == json::pretty(self.json(), Seq::empty()),
    {
        let mut o = JsonObject::new();
        o.put_text("format", self.format.as_str());
        o.put_text("device_id", self.device_id.as_str());
        o.put_text("vm_id", self.vm_id.as_str());
        o.put("suite", opt_suite_value(&self.suite));
        o.put_bool("pcr_match", self.pcr_match);
        o.put_bool("boot_policy_match", self.boot_policy_match);
        o.put_bool("capsule_allowlisted", self.capsule_allowlisted);
        o.put_bool("hypervisor_version_ok", self.hypervisor_version_ok);
        o.put_text("inputs_hash", self.inputs_hash.as_str());
        o.put_text("policy_id", self.policy_id.as_str());
        Ok(o.finish().to_pretty())
    }
}

/// The conditions a [`KeyReleaseRequest`] must satisfy for the KMS to unwrap.
#[derive(Debug, Clone, PartialEq, Eq)]
pub struct KmsPolicy {
    pub expected_pcrs: PcrBank,
    pub min_hypervisor_version: u64,
    pub allowed_capsule_hashes: Vec<String>,
    pub expected_boot_policy_hash: String,
}

impl KmsPolicy {
    /// The request names the pinned boot policy.
    pub open spec fn boot_policy_ok(self, req: KeyReleaseRequest) -> bool {
        req.boot_policy_hash@ == self.expected_boot_policy_hash@
    }

    /// The request's registers hold what is expected of them.
    pub open spec fn pcrs_ok(self, req: KeyReleaseRequest) -> bool {
        pcr::all_match(req.pcrs@, self.expected_pcrs@)
    }

    /// The request's capsule is allow-listed.
    pub open spec fn capsule_ok(self, req: KeyReleaseRequest) -> bool {
        text::views(self.allowed_capsule_hashes@).contains(req.capsule_hash@)
    }

    /// The request's hypervisor is new enough.
    pub open spec fn version_ok(self, req: KeyReleaseRequest) -> bool {
        req.hypervisor_version >= self.min_hypervisor_version
    }

    /// Every gate passes.
    pub open spec fn admits(self, req: KeyReleaseRequest) -> bool {
        self.boot_policy_ok(req) && self.pcrs_ok(req) && self.capsule_ok(req) && self.version_ok(
            req,
        )
    }

    /// The reason of the first gate that fails.
    pub open spec fn denial(self, req: KeyReleaseRequest) -> Option<Seq<char>> {
        if !self.boot_policy_ok(req) {
            Some(
                "boot_policy_hash_mismatch: expected "@ + self.expected_boot_policy_hash@
                    + ", got "@ + req.boot_policy_hash@,
            )
        } else if !self.pcrs_ok(req) {
            let k = choose|k: u8| pcr::is_first_mismatch(req.pcrs@, self.expected_pcrs@, k);
            Some("pcr_mismatch: pcr"@ + text::decimal(k as nat))
        } else if !self.capsule_ok(req) {
            Some("capsule_not_allowlisted: "@ + req.capsule_hash@)
        } else if !self.version_ok(req) {
            Some(
                "hypervisor_version_below_minimum: "@ + text::decimal(
                    req.hypervisor_version as nat,
                ) + " < "@ + text::decimal(self.min_hypervisor_version as nat),
            )
        } else {
            None
        }
    }

    /// The bytes that the simulated wrapped key is the digest of.
    pub open spec fn vmk_input(self, req: KeyReleaseRequest) -> Seq<u8> {
        text::utf8("vmk-wrap"@) + seq![0u8] + text::utf8(req.device_id@) + seq![0u8] + text::utf8(
            req.vm_id@,
        ) + seq![0u8] + text::utf8(req.capsule_hash@) + seq![0u8] + text::utf8(
            self.expected_boot_policy_hash@,
        )
    }
}

/// The outcome of an attested key-release evaluation.
pub enum KeyReleaseDecision {
    /// Attestation passed; the wrapped key is released alongside the audit
    /// receipt that recorded the allow.
    Allow { wrapped_vmk: SecretHandle, receipt_json: String },
    /// Attestation failed; no key material is released.
    Deny { reason: String },
}

impl KeyReleaseDecision {
    /// Whether this is an [`KeyReleaseDecision::Allow`].
    pub fn is_allow(&self) -> (r: bool)
        ensures
            r == (*self is Allow),
    {
        matches!(self, KeyReleaseDecision::Allow { .. })
    }

    /// The deny reason, if this is a deny.
    pub fn deny_reason(&self) -> (r: Option<&str>)
        ensures
            match *self {
                KeyReleaseDecision::Deny { reason } => r matches Some(t) && t@ == reason@,
                KeyReleaseDecision::Allow { .. } => r is None,
            },
    {
        match self {
            KeyReleaseDecision::Deny { reason } => Some(reason.as_str()),
            KeyReleaseDecision::Allow { .. } => None,
        }
    }
}

/// The receipt that an evaluation with this decision leaves behind.
pub open spec fn release_recorded(
    before: ReceiptChain,
    after: ReceiptChain,
    req: KeyReleaseRequest,
    decision: Seq<char>,
) -> bool {
    chain::appended(
        before,
        after,
        ReceiptEvent::KeyRelease.wire(),
        req.vm_id@,
        decision,
        KMS_POLICY_ID@,
        chain::document_hash(req.json()),
    )
}

/// What an evaluation returns and records, for a request under a policy.
pub open spec fn evaluated(
    policy: KmsPolicy,
    req: KeyReleaseRequest,
    before: ReceiptChain,
    after: ReceiptChain,
    r: KeyReleaseDecision,
) -> bool {
    match policy.denial(req) {
        Some(why) => {
            &&& r matches KeyReleaseDecision::Deny { reason } && reason@ == why
            &&& release_recorded(before, after, req, "deny"@)
        },
        None => {
            &&& r matches KeyReleaseDecision::Allow { wrapped_vmk, receipt_json } && wrapped_vmk@
                == primitives::sha384(policy.vmk_input(req)) && receipt_json@ == json::pretty(
                after.entries().last().json(),
                Seq::empty(),
            )
            &&& release_recorded(before, after, req, "allow"@)
        },
    }
}

/// Stateless evaluator that releases keys per a fixed [`KmsPolicy`].
#[derive(Debug, Clone)]
pub struct KmsSimulator {
    pub policy: KmsPolicy,
}

impl KmsSimulator {
    /// Build a simulator bound to `policy`.
    pub fn new(policy: KmsPolicy) -> (r: Self)
        ensures
            r.policy == policy,
    {
        KmsSimulator { policy }
    }

    /// The first failing gate's reason.
    pub fn deny_reason_for(&self, req: &KeyReleaseRequest) -> (r: Option<String>)
        ensures
            text::opt_view(r) == self.policy.denial(*req),
    {
        if !text::same(
            req.boot_policy_hash.as_str(),
            self.policy.expected_boot_policy_hash.as_str(),
        ) {
            let mut out = "boot_policy_hash_mismatch: expected ".to_string();
            out.append(self.policy.expected_boot_policy_hash.as_str());
            out.append(", got ");
            out.append(req.boot_policy_hash.as_str());
            return Some(out);
        }
        if let Some(pcr) = req.pcrs.first_mismatch(&self.policy.expected_pcrs) {
            proof {
                let (a, e) = (req.pcrs@, self.policy.expected_pcrs@);
                assert(pcr::mismatch_at(a, e, pcr));
                let k = choose|k: u8| pcr::is_first_mismatch(a, e, k);
                assert(pcr::is_first_mismatch(a, e, k));
                assert(k == pcr) by {
                    if k < pcr {
                        assert(!pcr::mismatch_at(a, e, k));
                    } else if pcr < k {
                        assert(!pcr::mismatch_at(a, e, pcr));
                    }
                }
            }
            let mut out = "pcr_mismatch: pcr".to_string();
            out.append(text::decimal_text(pcr as u64).as_str());
            return Some(out);
        }
        if !text::contains(&self.policy.allowed_capsule_hashes, req.capsule_hash.as_str()) {
            let mut out = "capsule_not_allowlisted: ".to_string();
            out.append(req.capsule_hash.as_str());
            return Some(out);
        }
        if req.hypervisor_version < self.policy.min_hypervisor_version {
            let mut out = "hypervisor_version_below_minimum: ".to_string();
            out.append(text::decimal_text(req.hypervisor_version).as_str());
            out.append(" < ");
            out.append(text::decimal_text(self.policy.min_hypervisor_version).as_str());
            return Some(out);
        }
        None
    }

    /// Simulated key wrap: a deterministic 48-byte key derived from the request
    /// and the pinned boot policy.
    pub fn simulated_wrapped_vmk(&self, req: &KeyReleaseRequest) -> (r: SecretHandle)
        ensures
            r@ == primitives::sha384(self.policy.vmk_input(*req)),
            r@.len() == 48,
    {
        let mut data = text::bytes_of("vmk-wrap");
        data.push(0u8);
        text::push_utf8(&mut data, req.device_id.as_str());
        data.push(0u8);
        text::push_utf8(&mut data, req.vm_id.as_str());
        data.push(0u8);
        text::push_utf8(&mut data, req.capsule_hash.as_str());
        data.push(0u8);
        text::push_utf8(&mut data, self.policy.expected_boot_policy_hash.as_str());
        assert(data@ =~= self.policy.vmk_input(*req));
        SecretHandle::new(primitives::sha384_digest(data.as_slice()))
    }

    /// Evaluate `req` against the policy, recording a `key_release` receipt on
    /// `chain` and returning the release decision.
    pub fn evaluate(&self, req: &KeyReleaseRequest, chain: &mut ReceiptChain) -> (r:
        KeyReleaseDecision)
        ensures
            evaluated(self.policy, *req, *old(chain), *final(chain), r),
            old(chain).intact() ==> final(chain).intact(),
    {
        let inputs_hash = req.inputs_hash();
        match self.deny_reason_for(req) {
            Some(reason) => {
                chain.append(
                    ReceiptEvent::KeyRelease.as_str(),
                    req.vm_id.as_str(),
                    "deny",
                    KMS_POLICY_ID,
                    inputs_hash.as_str(),
                );
                KeyReleaseDecision::Deny { reason }
            },
            None => {
                let receipt = chain.append(
                    ReceiptEvent::KeyRelease.as_str(),
                    req.vm_id.as_str(),
                    "allow",
                    KMS_POLICY_ID,
                    inputs_hash.as_str(),
                );
                let receipt_json = receipt.to_value().to_pretty();
                KeyReleaseDecision::Allow {
                    wrapped_vmk: self.simulated_wrapped_vmk(req),
                    receipt_json,
                }
            },
        }
    }

    /// Evaluate a [`SuitedKeyReleaseRequest`]. The suite is carried for
    /// evidence only and does not change the gates.
    pub fn evaluate_suited(
        &self,
        req: &SuitedKeyReleaseRequest,
        chain: &mut ReceiptChain,
    ) -> (r: KeyReleaseDecision)
        ensures
            evaluated(self.policy, req.request, *old(chain), *final(chain), r),
            old(chain).intact() ==> final(chain).intact(),
    {
        self.evaluate(&req.request, chain)
    }

    /// Produce an [`AttestedUnlockEvidence`] summary for an allowed decision,
    /// with each gate's result under this simulator's policy. A deny never
    /// yields evidence.
    pub fn attested_unlock_evidence(
        &self,
        req: &KeyReleaseRequest,
        suite: Option<&SuiteBinding>,
        decision: &KeyReleaseDecision,
    ) -> (r: Option<AttestedUnlockEvidence>)
        ensures
            *decision is Deny <==> r is None,
            r matches Some(e) ==> {
                &&& e.format@ == ATTESTED_UNLOCK_FORMAT@
                &&& e.device_id == req.device_id
                &&& e.vm_id == req.vm_id
                &&& e.suite == (match suite {
                    Some(s) => Some(*s),
                    None => None,
                })
                &&& e.pcr_match == self.policy.pcrs_ok(*req)
                &&& e.boot_policy_match == self.policy.boot_policy_ok(*req)
                &&& e.capsule_allowlisted == self.policy.capsule_ok(*req)
                &&& e.hypervisor_version_ok == self.policy.version_ok(*req)
                &&& e.inputs_hash@ == chain::document_hash(req.json())
                &&& e.policy_id@ == KMS_POLICY_ID@
            },
    {
        if !decision.is_allow() {
            return None;
        }
        Some(
            AttestedUnlockEvidence {
                format: ATTESTED_UNLOCK_FORMAT.to_string(),
                device_id: req.device_id.clone(),
                vm_id: req.vm_id.clone(),
                suite: match suite {
                    Some(s) => Some(s.clone()),
                    None => None,
                },
                pcr_match: req.pcrs.satisfies(&self.policy.expected_pcrs),
                boot_policy_match: text::same(
                    req.boot_policy_hash.as_str(),
                    self.policy.expected_boot_policy_hash.as_str(),
                ),
                capsule_allowlisted: text::contains(
                    &self.policy.allowed_capsule_hashes,
                    req.capsule_hash.as_str(),
                ),
                hypervisor_version_ok: req.hypervisor_version
                    >= self.policy.min_hypervisor_version,
                inputs_hash: req.inputs_hash(),
                policy_id: KMS_POLICY_ID.to_string(),
            },
        )
    }

    /// Evidence helper for a [`SuitedKeyReleaseRequest`], with the suite that
    /// it carries.
    pub fn attested_unlock_evidence_suited(
        &self,
        req: &SuitedKeyReleaseRequest,
        decision: &KeyReleaseDecision,
    ) -> (r: Option<AttestedUnlockEvidence>)
        ensures
            *decision is Deny <==> r is None,
            r matches Some(e) ==> {
                &&& e.format@ == ATTESTED_UNLOCK_FORMAT@
                &&& e.device_id == req.request.device_id
                &&& e.vm_id == req.request.vm_id
                &&& e.suite == req.suite
                &&& e.pcr_match == self.policy.pcrs_ok(req.request)
                &&& e.boot_policy_match == self.policy.boot_policy_ok(req.request)
                &&& e.capsule_allowlisted == self.policy.capsule_ok(req.request)
                &&& e.hypervisor_version_ok == self.policy.version_ok(req.request)
                &&& e.inputs_hash@ == chain::document_hash(req.request.json())
                &&& e.policy_id@ == KMS_POLICY_ID@
            },
    {
        let suite = match &req.suite {
            Some(s) => Some(s),
            None => None,
        };
        self.attested_unlock_evidence(&req.request, suite, decision)
    }
}

// ------------------------------------------------------------------- laws

/// A key is released exactly to requests that pass every gate.
pub proof fn released_iff_admitted(
    policy: KmsPolicy,
    req: KeyReleaseRequest,
    before: ReceiptChain,
    after: ReceiptChain,
    r: KeyReleaseDecision,
)
    requires
        evaluated(policy, req, before, after, r),
    ensures
        r is Allow <==> policy.admits(req),
{
}

/// A modified boot policy blocks release, whatever else the request says.
pub proof fn modified_boot_policy_blocks_release(
    policy: KmsPolicy,
    req: KeyReleaseRequest,
    before: ReceiptChain,
    after: ReceiptChain,
    r: KeyReleaseDecision,
)
    requires
        evaluated(policy, req, before, after, r),
        req.boot_policy_hash@ != policy.expected_boot_policy_hash@,
    ensures
        r matches KeyReleaseDecision::Deny { reason } && text::has_prefix(
            reason@,
            "boot_policy_hash_mismatch"@,
        ),
{
    reveal_strlit("boot_policy_hash_mismatch");
    reveal_strlit("boot_policy_hash_mismatch: expected ");
    let why = policy.denial(req)->0;
    assert(why.take(25) =~= "boot_policy_hash_mismatch"@);
}

/// Every evaluation, allowed or denied, leaves exactly one receipt that says
/// which it was, and an intact audit chain stays intact.
pub proof fn every_evaluation_is_recorded(
    policy: KmsPolicy,
    req: KeyReleaseRequest,
    before: ReceiptChain,
    after: ReceiptChain,
    r: KeyReleaseDecision,
)
    requires
        evaluated(policy, req, before, after, r),
    ensures
        after.entries().len() == before.entries().len() + 1,
        after.entries().last().decision@ == (if r is Allow {
            "allow"@
        } else {
            "deny"@
        }),
        after.entries().last().inputs_hash@ == chain::document_hash(req.json()),
        before.intact() ==> after.intact(),
{
    if before.intact() {
        chain::appending_keeps_intact(
            before,
            after,
            ReceiptEvent::KeyRelease.wire(),
            req.vm_id@,
            after.entries().last().decision@,
            KMS_POLICY_ID@,
            chain::document_hash(req.json()),
        );
    }
}

} // verus!
