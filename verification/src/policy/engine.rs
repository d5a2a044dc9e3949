//! Deny-by-default, fail-closed policy engine.
//!
//! Anything ambiguous denies or escalates to approval.
use vstd::prelude::*;

use crate::json;
use crate::json::{Json, JsonObject, JsonValue};
use crate::policy::document::PolicyDocument;
use crate::primitives;
use crate::text;

verus! {

/// Evidence that goes with an allow: why, and a hash that binds the decision to
/// its inputs.
#[derive(Debug, Clone, PartialEq, Eq)]
pub struct PolicyReceipt {
    /// Why the request was allowed.
    pub rationale: String,
    /// `"sha384:<hex>"` of the policy id and the evaluated request.
    pub inputs_hash: String,
}

/// Why a request may be denied.
#[derive(Debug, Clone, PartialEq, Eq)]
pub enum DenyReason {
    /// A signed manifest was required and the manifest was unsigned.
    UnsignedManifest,
    /// Device passthrough is forbidden.
    PassthroughForbidden,
    /// The hypervisor is older than the policy minimum.
    StaleHypervisor,
    /// A debug console is forbidden.
    DebugForbidden,
    /// No allow rule matched the egress flow.
    EgressDenied,
    /// Encrypted storage is required and not present.
    EncryptionRequired,
    /// A sensitive VM presented a quote that does not match.
    PcrMismatch,
    /// Any other fail-closed denial, with context.
    Other(String),
}

/// Outcome of an evaluation.
#[derive(Debug, Clone, PartialEq, Eq)]
pub enum PolicyDecision {
    /// Permitted.
    Allow {
        /// Supporting evidence.
        receipt: PolicyReceipt,
    },
    /// Denied.
    Deny {
        /// Why it was denied.
        reason: DenyReason,
    },
    /// Neither: approval out of band is required.
    RequireApproval {
        /// Challenge to be satisfied.
        challenge: String,
    },
}

/// A denial reason, with its text as characters.
pub enum Refusal {
    /// See [`DenyReason::UnsignedManifest`].
    UnsignedManifest,
    /// See [`DenyReason::PassthroughForbidden`].
    PassthroughForbidden,
    /// See [`DenyReason::StaleHypervisor`].
    StaleHypervisor,
    /// See [`DenyReason::DebugForbidden`].
    DebugForbidden,
    /// See [`DenyReason::EgressDenied`].
    EgressDenied,
    /// See [`DenyReason::EncryptionRequired`].
    EncryptionRequired,
    /// See [`DenyReason::PcrMismatch`].
    PcrMismatch,
    /// See [`DenyReason::Other`].
    Other(Seq<char>),
}

/// A decision, with its texts as characters.
pub enum Verdict {
    /// Permitted, for this reason and with this hash of the inputs.
    Allow {
        /// Why the request was allowed.
        rationale: Seq<char>,
        /// Hash of the inputs.
        inputs_hash: Seq<char>,
    },
    /// Denied.
    Deny(Refusal),
    /// Approval out of band is required.
    RequireApproval(Seq<char>),
}

impl View for DenyReason {
    type V = Refusal;

    open spec fn view(&self) -> Refusal {
        match *self {
            DenyReason::UnsignedManifest => Refusal::UnsignedManifest,
            DenyReason::PassthroughForbidden => Refusal::PassthroughForbidden,
            DenyReason::StaleHypervisor => Refusal::StaleHypervisor,
            DenyReason::DebugForbidden => Refusal::DebugForbidden,
            DenyReason::EgressDenied => Refusal::EgressDenied,
            DenyReason::EncryptionRequired => Refusal::EncryptionRequired,
            DenyReason::PcrMismatch => Refusal::PcrMismatch,
            DenyReason::Other(s) => Refusal::Other(s@),
        }
    }
}

impl View for PolicyDecision {
    type V = Verdict;

    open spec fn view(&self) -> Verdict {
        match *self {
            PolicyDecision::Allow { receipt } => Verdict::Allow {
                rationale: receipt.rationale@,
                inputs_hash: receipt.inputs_hash@,
            },
            PolicyDecision::Deny { reason } => Verdict::Deny(reason@),
            PolicyDecision::RequireApproval { challenge } => Verdict::RequireApproval(challenge@),
        }
    }
}

/// Request to launch a VM.
#[derive(Debug, Clone, PartialEq, Eq)]
pub struct VmLaunchRequest {
    /// Version of the hypervisor that launches the guest.
    pub hypervisor_version: u64,
    /// Whether the boot manifest carries a valid signature.
    pub manifest_signed: bool,
    /// Whether measured boot is in effect.
    pub measured_boot: bool,
    /// Whether an interactive debug console is asked for.
    pub requests_debug_console: bool,
}

/// Request to release a key to a guest.
#[derive(Debug, Clone, PartialEq, Eq)]
pub struct KeyReleaseRequest {
    /// Whether the VM is classified sensitive.
    pub sensitive: bool,
    /// Whether the PCR quote matches the expected policy.
    pub pcr_match: bool,
    /// Whether the storage is encrypted.
    pub encryption: bool,
}

/// Request to assign a device to a guest.
#[derive(Debug, Clone, PartialEq, Eq)]
pub struct DeviceAssignRequest {
    /// Whether the device is passed through.
    pub passthrough: bool,
    /// Device identifier.
    pub device: String,
}

/// Request to permit a network flow.
#[derive(Debug, Clone, PartialEq, Eq)]
pub struct FlowRequest {
    /// `"ingress"` or `"egress"`.
    pub direction: String,
    /// Whether an explicit allow rule matched this flow.
    pub allowed_by_rule: bool,
}

impl VmLaunchRequest {
    /// The request as a JSON object.
    pub open spec fn wire(self) -> JsonValue {
        JsonValue::Object(
            Seq::empty().push(
                ("hypervisor_version"@, JsonValue::Num(self.hypervisor_version as nat)),
            ).push(("manifest_signed"@, JsonValue::Bool(self.manifest_signed))).push(
                ("measured_boot"@, JsonValue::Bool(self.measured_boot)),
            ).push(("requests_debug_console"@, JsonValue::Bool(self.requests_debug_console))),
        )
    }

    /// The request as a JSON object.
    pub fn to_wire(&self) -> (r: Json)
        ensures
            r@ == self.wire(),
    {
        let mut o = JsonObject::new();
        o.put_num("hypervisor_version", self.hypervisor_version);
        o.put_bool("manifest_signed", self.manifest_signed);
        o.put_bool("measured_boot", self.measured_boot);
        o.put_bool("requests_debug_console", self.requests_debug_console);
        o.finish()
    }
}

impl KeyReleaseRequest {
    /// The request as a JSON object.
    pub open spec fn wire(self) -> JsonValue {
        JsonValue::Object(
            Seq::empty().push(("sensitive"@, JsonValue::Bool(self.sensitive))).push(
                ("pcr_match"@, JsonValue::Bool(self.pcr_match)),
            ).push(("encryption"@, JsonValue::Bool(self.encryption))),
        )
    }

    /// The request as a JSON object.
    pub fn to_wire(&self) -> (r: Json)
        ensures
            r@ == self.wire(),
    {
        let mut o = JsonObject::new();
        o.put_bool("sensitive", self.sensitive);
        o.put_bool("pcr_match", self.pcr_match);
        o.put_bool("encryption", self.encryption);
        o.finish()
    }
}

impl DeviceAssignRequest {
    /// The request as a JSON object.
    pub open spec fn wire(self) -> JsonValue {
        JsonValue::Object(
            Seq::empty().push(("passthrough"@, JsonValue::Bool(self.passthrough))).push(
                ("device"@, JsonValue::Text(self.device@)),
            ),
        )
    }

    /// The request as a JSON object.
    pub fn to_wire(&self) -> (r: Json)
        ensures
            r@ == self.wire(),
    {
        let mut o = JsonObject::new();
        o.put_bool("passthrough", self.passthrough);
        o.put_text("device", self.device.as_str());
        o.finish()
    }
}

impl FlowRequest {
    /// The request as a JSON object.
    pub open spec fn wire(self) -> JsonValue {
        JsonValue::Object(
            Seq::empty().push(("direction"@, JsonValue::Text(self.direction@))).push(
                ("allowed_by_rule"@, JsonValue::Bool(self.allowed_by_rule)),
            ),
        )
    }

    /// The request as a JSON object.
    pub fn to_wire(&self) -> (r: Json)
        ensures
            r@ == self.wire(),
    {
        let mut o = JsonObject::new();
        o.put_text("direction", self.direction.as_str());
        o.put_bool("allowed_by_rule", self.allowed_by_rule);
        o.finish()
    }
}

/// The text whose hash binds a decision to the policy, the kind of request and
/// the request itself.
pub open spec fn inputs_text(policy_id: Seq<char>, kind: Seq<char>, body: JsonValue) -> Seq<char> {
    policy_id + "|"@ + kind + "|"@ + json::compact(body)
}

/// The hash that binds a decision to its inputs.
pub open spec fn inputs_hash_spec(policy_id: Seq<char>, kind: Seq<char>, body: JsonValue) -> Seq<
    char,
> {
    primitives::sha384_hex_spec(text::utf8(inputs_text(policy_id, kind, body)))
}

/// The surface of a policy engine: each request has one decision.
pub trait PolicyEngine {
    /// The decision on a launch.
    spec fn launch_verdict(&self, req: VmLaunchRequest) -> Verdict;

    /// The decision on a key release.
    spec fn release_verdict(&self, req: KeyReleaseRequest) -> Verdict;

    /// The decision on a device assignment.
    spec fn assignment_verdict(&self, req: DeviceAssignRequest) -> Verdict;

    /// The decision on a network flow.
    spec fn flow_verdict(&self, req: FlowRequest) -> Verdict;

    /// Evaluate a VM launch request.
    fn evaluate_vm_launch(&self, req: &VmLaunchRequest) -> (r: PolicyDecision)
        ensures
            r@ == self.launch_verdict(*req),
    ;

    /// Evaluate a key release request.
    fn evaluate_key_release(&self, req: &KeyReleaseRequest) -> (r: PolicyDecision)
        ensures
            r@ == self.release_verdict(*req),
    ;

    /// Evaluate a device assignment request.
    fn evaluate_device_assignment(&self, req: &DeviceAssignRequest) -> (r: PolicyDecision)
        ensures
            r@ == self.assignment_verdict(*req),
    ;

    /// Evaluate a network flow request.
    fn evaluate_network_flow(&self, req: &FlowRequest) -> (r: PolicyDecision)
        ensures
            r@ == self.flow_verdict(*req),
    ;
}

/// Deny-by-default engine bound to one [`PolicyDocument`].
#[derive(Debug, Clone)]
pub struct DefaultPolicyEngine {
    /// The policy that this engine enforces.
    pub doc: PolicyDocument,
}

impl DefaultPolicyEngine {
    /// An engine for the given document.
    pub fn new(doc: PolicyDocument) -> (r: Self)
        ensures
            r.doc == doc,
    {
        DefaultPolicyEngine { doc }
    }

    /// The hash that binds this policy to a request.
    fn inputs_hash(&self, kind: &str, body: &Json) -> (r: String)
        ensures
            r@ == inputs_hash_spec(self.doc.policy_id@, kind@, body@),
    {
        let mut t = self.doc.policy_id.clone();
        t.append("|");
        t.append(kind);
        t.append("|");
        t.append(body.to_compact().as_str());
        primitives::sha384_hex(text::bytes_of(t.as_str()).as_slice())
    }

    /// An allow for `rationale`, with the hash of its inputs.
    fn allow(&self, kind: &str, body: &Json, rationale: &str) -> (r: PolicyDecision)
        ensures
            r@ == (Verdict::Allow {
                rationale: rationale@,
                inputs_hash: inputs_hash_spec(self.doc.policy_id@, kind@, body@),
            }),
    {
        PolicyDecision::Allow {
            receipt: PolicyReceipt {
                rationale: rationale.to_string(),
                inputs_hash: self.inputs_hash(kind, body),
            },
        }
    }
}

impl PolicyEngine for DefaultPolicyEngine {
    /// A launch is allowed when the hypervisor is not stale, and the manifest is
    /// signed, boot is measured and no debug console is asked for wherever the
    /// policy wants that. The first gate that fails names the reason.
    open spec fn launch_verdict(&self, req: VmLaunchRequest) -> Verdict {
        if req.hypervisor_version < self.doc.minimum_hypervisor_version {
            Verdict::Deny(Refusal::StaleHypervisor)
        } else if self.doc.require_signed_manifest && !req.manifest_signed {
            Verdict::Deny(Refusal::UnsignedManifest)
        } else if self.doc.require_measured_boot && !req.measured_boot {
            Verdict::Deny(Refusal::Other("measured boot required"@))
        } else if req.requests_debug_console && !self.doc.allow_debug_console {
            Verdict::Deny(Refusal::DebugForbidden)
        } else {
            Verdict::Allow {
                rationale: "launch satisfies all launch gates"@,
                inputs_hash: inputs_hash_spec(self.doc.policy_id@, "vm_launch"@, req.wire()),
            }
        }
    }

    /// A key is released when the storage is encrypted where that is required,
    /// and a sensitive VM's quote matches where that is required; a quote that
    /// does not match is escalated to approval.
    open spec fn release_verdict(&self, req: KeyReleaseRequest) -> Verdict {
        if self.doc.storage.require_encryption && !req.encryption {
            Verdict::Deny(Refusal::EncryptionRequired)
        } else if req.sensitive && self.doc.key_release.require_pcr_match_for_sensitive_vms
            && !req.pcr_match {
            Verdict::RequireApproval(
                "pcr-approval:"@ + inputs_hash_spec(
                    self.doc.policy_id@,
                    "key_release"@,
                    req.wire(),
                ),
            )
        } else {
            Verdict::Allow {
                rationale: "key release satisfies storage and pcr gates"@,
                inputs_hash: inputs_hash_spec(self.doc.policy_id@, "key_release"@, req.wire()),
            }
        }
    }

    /// A device is assigned unless it is passed through against the policy.
    open spec fn assignment_verdict(&self, req: DeviceAssignRequest) -> Verdict {
        if req.passthrough && !self.doc.allow_device_passthrough {
            Verdict::Deny(Refusal::PassthroughForbidden)
        } else {
            Verdict::Allow {
                rationale: "device assignment permitted by policy"@,
                inputs_hash: inputs_hash_spec(self.doc.policy_id@, "device_assign"@, req.wire()),
            }
        }
    }

    /// A flow is allowed when a rule matched it, or the posture is `"allow"`.
    open spec fn flow_verdict(&self, req: FlowRequest) -> Verdict {
        if req.allowed_by_rule || self.doc.network_default@ == "allow"@ {
            Verdict::Allow {
                rationale: "flow matched an allow rule or posture"@,
                inputs_hash: inputs_hash_spec(self.doc.policy_id@, "network_flow"@, req.wire()),
            }
        } else if req.direction@ == "egress"@ {
            Verdict::Deny(Refusal::EgressDenied)
        } else {
            Verdict::Deny(Refusal::Other(req.direction@ + " flow not matched by rule"@))
        }
    }

    fn evaluate_vm_launch(&self, req: &VmLaunchRequest) -> (r: PolicyDecision) {
        if req.hypervisor_version < self.doc.minimum_hypervisor_version {
            return PolicyDecision::Deny { reason: DenyReason::StaleHypervisor };
        }
        if self.doc.require_signed_manifest && !req.manifest_signed {
            return PolicyDecision::Deny { reason: DenyReason::UnsignedManifest };
        }
        if self.doc.require_measured_boot && !req.measured_boot {
            return PolicyDecision::Deny {
                reason: DenyReason::Other("measured boot required".to_string()),
            };
        }
        if req.requests_debug_console && !self.doc.allow_debug_console {
            return PolicyDecision::Deny { reason: DenyReason::DebugForbidden };
        }
        self.allow("vm_launch", &req.to_wire(), "launch satisfies all launch gates")
    }

    fn evaluate_key_release(&self, req: &KeyReleaseRequest) -> (r: PolicyDecision) {
        if self.doc.storage.require_encryption && !req.encryption {
            return PolicyDecision::Deny { reason: DenyReason::EncryptionRequired };
        }
        if req.sensitive && self.doc.key_release.require_pcr_match_for_sensitive_vms
            && !req.pcr_match {
            let hash = self.inputs_hash("key_release", &req.to_wire());
            return PolicyDecision::RequireApproval {
                challenge: text::joined("pcr-approval:", hash.as_str()),
            };
        }
        self.allow("key_release", &req.to_wire(), "key release satisfies storage and pcr gates")
    }

    fn evaluate_device_assignment(&self, req: &DeviceAssignRequest) -> (r: PolicyDecision) {
        if req.passthrough && !self.doc.allow_device_passthrough {
            return PolicyDecision::Deny { reason: DenyReason::PassthroughForbidden };
        }
        self.allow("device_assign", &req.to_wire(), "device assignment permitted by policy")
    }

    fn evaluate_network_flow(&self, req: &FlowRequest) -> (r: PolicyDecision) {
        if req.allowed_by_rule || text::same(self.doc.network_default.as_str(), "allow") {
            return self.allow(
                "network_flow",
                &req.to_wire(),
                "flow matched an allow rule or posture",
            );
        }
        let reason = if text::same(req.direction.as_str(), "egress") {
            DenyReason::EgressDenied
        } else {
            DenyReason::Other(text::joined(req.direction.as_str(), " flow not matched by rule"))
        };
        PolicyDecision::Deny { reason }
    }
}

/// A launch is allowed exactly when every gate that the policy closes is
/// satisfied; there is no approval path round a launch gate.
pub proof fn launch_is_denied_by_default(engine: DefaultPolicyEngine, req: VmLaunchRequest)
    ensures
        engine.launch_verdict(req) is Allow <==> {
            &&& engine.doc.minimum_hypervisor_version <= req.hypervisor_version
            &&& engine.doc.require_signed_manifest ==> req.manifest_signed
            &&& engine.doc.require_measured_boot ==> req.measured_boot
            &&& req.requests_debug_console ==> engine.doc.allow_debug_console
        },
        !(engine.launch_verdict(req) is RequireApproval),
{
}

/// A key is never released from unencrypted storage where encryption is
/// required, nor on a quote that does not match where a match is required.
pub proof fn release_is_denied_by_default(engine: DefaultPolicyEngine, req: KeyReleaseRequest)
    ensures
        engine.release_verdict(req) is Allow <==> {
            &&& engine.doc.storage.require_encryption ==> req.encryption
            &&& req.sensitive && engine.doc.key_release.require_pcr_match_for_sensitive_vms
                ==> req.pcr_match
        },
{
}

/// A device is passed through only where the policy allows that; any other
/// assignment is allowed.
pub proof fn passthrough_is_denied_by_default(
    engine: DefaultPolicyEngine,
    req: DeviceAssignRequest,
)
    ensures
        engine.assignment_verdict(req) is Allow <==> (req.passthrough
            ==> engine.doc.allow_device_passthrough),
        !(engine.assignment_verdict(req) is RequireApproval),
{
}

/// A flow that no rule matched is allowed only by the `"allow"` posture.
pub proof fn unmatched_flow_needs_the_allow_posture(engine: DefaultPolicyEngine, req: FlowRequest)
    requires
        !req.allowed_by_rule,
    ensures
        engine.flow_verdict(req) is Allow <==> engine.doc.network_default@ == "allow"@,
        engine.flow_verdict(req) is Allow || engine.flow_verdict(req) is Deny,
{
}

/// The text that is hashed for a decision pins down the request, once the
/// policy and the kind of request are given.
pub proof fn inputs_text_pins_request(
    policy_id: Seq<char>,
    kind: Seq<char>,
    a: JsonValue,
    b: JsonValue,
)
    requires
        inputs_text(policy_id, kind, a) == inputs_text(policy_id, kind, b),
    ensures
        a == b,
{
    let front = policy_id + "|"@ + kind + "|"@;
    assert(json::compact(a) =~= inputs_text(policy_id, kind, a).skip(front.len() as int));
    assert(json::compact(b) =~= inputs_text(policy_id, kind, b).skip(front.len() as int));
    json::unambiguous::compact_is_injective(a, b);
}

} // verus!
