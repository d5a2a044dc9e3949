//! What the policy engine is for, stated over its calls.
use vstd::prelude::*;

use crate::json;
use crate::json::{Json, JsonValue};
use crate::policy::document::{KeyReleasePolicy, PolicyDocument, PolicyError};
use crate::policy::engine;
use crate::policy::engine::{
    DefaultPolicyEngine, DenyReason, DeviceAssignRequest, FlowRequest, KeyReleaseRequest,
    PolicyDecision, PolicyEngine, VmLaunchRequest,
};
use crate::primitives;
use crate::receipts;
use crate::slate_core::policy::UnlockMode;
use crate::text;

verus! {

/// A launch is allowed exactly where the hypervisor is no older than the policy's
/// minimum and nothing that the policy asks for is missing: a signature, a
/// measured boot, no debug console. The first thing that is wrong is the reason.
pub proof fn launch_needs_everything_asked_for(
    e: &DefaultPolicyEngine,
    req: &VmLaunchRequest,
    r: PolicyDecision,
)
    requires
        call_ensures(
            <DefaultPolicyEngine as PolicyEngine>::evaluate_vm_launch,
            (e, req),
            r,
        ),
    ensures
        r is Allow || r is Deny,
        r is Allow ==> e.doc.minimum_hypervisor_version <= req.hypervisor_version,
        r is Allow && e.doc.require_signed_manifest ==> req.manifest_signed,
        r is Allow && e.doc.require_measured_boot ==> req.measured_boot,
        r is Allow && req.requests_debug_console ==> e.doc.allow_debug_console,
        req.hypervisor_version >= e.doc.minimum_hypervisor_version && req.manifest_signed
            && req.measured_boot && !req.requests_debug_console ==> r is Allow,
        req.hypervisor_version >= e.doc.minimum_hypervisor_version && (req.manifest_signed
            || !e.doc.require_signed_manifest) && (req.measured_boot
            || !e.doc.require_measured_boot) && (e.doc.allow_debug_console
            || !req.requests_debug_console) ==> r is Allow,
        req.hypervisor_version < e.doc.minimum_hypervisor_version ==> r == (PolicyDecision::Deny {
            reason: DenyReason::StaleHypervisor,
        }),
        req.hypervisor_version >= e.doc.minimum_hypervisor_version
            && e.doc.require_signed_manifest && !req.manifest_signed ==> r == (
        PolicyDecision::Deny { reason: DenyReason::UnsignedManifest }),
        r == (PolicyDecision::Deny { reason: DenyReason::DebugForbidden })
            ==> req.requests_debug_console && !e.doc.allow_debug_console,
{
}

/// A key is released exactly where storage is encrypted if it has to be, and a
/// sensitive machine's quote matches if it has to; only a quote that does not
/// match is put up for approval.
pub proof fn release_needs_encryption_and_quote(
    e: &DefaultPolicyEngine,
    req: &KeyReleaseRequest,
    r: PolicyDecision,
)
    requires
        call_ensures(
            <DefaultPolicyEngine as PolicyEngine>::evaluate_key_release,
            (e, req),
            r,
        ),
    ensures
        r is Allow && e.doc.storage.require_encryption ==> req.encryption,
        r is Allow && req.sensitive && e.doc.key_release.require_pcr_match_for_sensitive_vms
            ==> req.pcr_match,
        e.doc.storage.require_encryption && !req.encryption <==> r == (PolicyDecision::Deny {
            reason: DenyReason::EncryptionRequired,
        }),
        r is Deny ==> r == (PolicyDecision::Deny { reason: DenyReason::EncryptionRequired }),
        r is RequireApproval ==> req.sensitive && !req.pcr_match
            && e.doc.key_release.require_pcr_match_for_sensitive_vms,
        r is RequireApproval ==> r->challenge@.take(13) == "pcr-approval:"@,
        req.encryption && req.pcr_match ==> r is Allow,
        req.encryption && !req.sensitive ==> r is Allow,
{
    reveal_strlit("pcr-approval:");
    if r is RequireApproval {
        assert(r->challenge@.take(13) =~= "pcr-approval:"@);
    }
}

/// A device is refused exactly where it is passed through and the policy does not
/// allow that.
pub proof fn only_passthrough_is_refused(
    e: &DefaultPolicyEngine,
    req: &DeviceAssignRequest,
    r: PolicyDecision,
)
    requires
        call_ensures(
            <DefaultPolicyEngine as PolicyEngine>::evaluate_device_assignment,
            (e, req),
            r,
        ),
    ensures
        r == (PolicyDecision::Deny { reason: DenyReason::PassthroughForbidden })
            <==> req.passthrough && !e.doc.allow_device_passthrough,
        !req.passthrough ==> r is Allow,
        e.doc.allow_device_passthrough ==> r is Allow,
        r is Allow || r is Deny,
{
}

/// A flow is allowed exactly where a rule matched it or the posture is the word
/// `allow`; a denial tells outward flows from the others.
pub proof fn flow_needs_a_rule_or_the_posture(
    e: &DefaultPolicyEngine,
    req: &FlowRequest,
    r: PolicyDecision,
)
    requires
        call_ensures(
            <DefaultPolicyEngine as PolicyEngine>::evaluate_network_flow,
            (e, req),
            r,
        ),
    ensures
        r is Allow <==> req.allowed_by_rule || e.doc.network_default@ == seq![
            'a', 'l', 'l', 'o', 'w',
        ],
        r is Allow || r is Deny,
        r is Deny ==> (r->reason is EgressDenied <==> req.direction@ == "egress"@),
        r is Deny && req.direction@ != "egress"@ ==> r->reason is Other,
{
    reveal_strlit("allow");
    assert("allow"@ =~= seq!['a', 'l', 'l', 'o', 'w']);
}

proof fn same_inputs(
    policy_id: Seq<char>,
    kind: Seq<char>,
    a: crate::json::JsonValue,
    b: crate::json::JsonValue,
)
    requires
        engine::inputs_hash_spec(policy_id, kind, a) == engine::inputs_hash_spec(
            policy_id,
            kind,
            b,
        ),
        !receipts::laws::digests_collide(),
    ensures
        a == b,
{
    let (s, t) = (
        engine::inputs_text(policy_id, kind, a),
        engine::inputs_text(policy_id, kind, b),
    );
    primitives::sha384_hex_keeps_digest(text::utf8(s), text::utf8(t));
    if text::utf8(s) != text::utf8(t) {
        receipts::laws::collision_seen(text::utf8(s), text::utf8(t));
    }
    text::utf8_is_injective(s, t);
    engine::inputs_text_pins_request(policy_id, kind, a, b);
}

/// The hash in an allow binds it to its request: two launches that one policy
/// allowed with the same hash are the same launch, as long as no two byte strings
/// share a digest.
pub proof fn launch_hash_binds_the_request(
    e: &DefaultPolicyEngine,
    a: &VmLaunchRequest,
    b: &VmLaunchRequest,
    x: PolicyDecision,
    y: PolicyDecision,
)
    requires
        call_ensures(<DefaultPolicyEngine as PolicyEngine>::evaluate_vm_launch, (e, a), x),
        call_ensures(<DefaultPolicyEngine as PolicyEngine>::evaluate_vm_launch, (e, b), y),
        x is Allow,
        y is Allow,
        x->receipt.inputs_hash@ == y->receipt.inputs_hash@,
        !receipts::laws::digests_collide(),
    ensures
        a.hypervisor_version == b.hypervisor_version,
        a.manifest_signed == b.manifest_signed,
        a.measured_boot == b.measured_boot,
        a.requests_debug_console == b.requests_debug_console,
{
    same_inputs(e.doc.policy_id@, "vm_launch"@, a.wire(), b.wire());
    let (p, q) = (a.wire()->Object_0, b.wire()->Object_0);
    assert(p[0] == q[0] && p[1] == q[1] && p[2] == q[2] && p[3] == q[3]);
}

/// The hash in an allowed release binds it to its request.
pub proof fn release_hash_binds_the_request(
    e: &DefaultPolicyEngine,
    a: &KeyReleaseRequest,
    b: &KeyReleaseRequest,
    x: PolicyDecision,
    y: PolicyDecision,
)
    requires
        call_ensures(<DefaultPolicyEngine as PolicyEngine>::evaluate_key_release, (e, a), x),
        call_ensures(<DefaultPolicyEngine as PolicyEngine>::evaluate_key_release, (e, b), y),
        x is Allow,
        y is Allow,
        x->receipt.inputs_hash@ == y->receipt.inputs_hash@,
        !receipts::laws::digests_collide(),
    ensures
        a.sensitive == b.sensitive,
        a.pcr_match == b.pcr_match,
        a.encryption == b.encryption,
{
    same_inputs(e.doc.policy_id@, "key_release"@, a.wire(), b.wire());
    let (p, q) = (a.wire()->Object_0, b.wire()->Object_0);
    assert(p[0] == q[0] && p[1] == q[1] && p[2] == q[2]);
}

/// The hash in an allowed assignment binds it to its request.
pub proof fn assignment_hash_binds_the_request(
    e: &DefaultPolicyEngine,
    a: &DeviceAssignRequest,
    b: &DeviceAssignRequest,
    x: PolicyDecision,
    y: PolicyDecision,
)
    requires
        call_ensures(
            <DefaultPolicyEngine as PolicyEngine>::evaluate_device_assignment,
            (e, a),
            x,
        ),
        call_ensures(
            <DefaultPolicyEngine as PolicyEngine>::evaluate_device_assignment,
            (e, b),
            y,
        ),
        x is Allow,
        y is Allow,
        x->receipt.inputs_hash@ == y->receipt.inputs_hash@,
        !receipts::laws::digests_collide(),
    ensures
        a.passthrough == b.passthrough,
        a.device@ == b.device@,
{
    same_inputs(e.doc.policy_id@, "device_assign"@, a.wire(), b.wire());
    let (p, q) = (a.wire()->Object_0, b.wire()->Object_0);
    assert(p[0] == q[0] && p[1] == q[1]);
}

/// The hash in an allowed flow binds it to its request.
pub proof fn flow_hash_binds_the_request(
    e: &DefaultPolicyEngine,
    a: &FlowRequest,
    b: &FlowRequest,
    x: PolicyDecision,
    y: PolicyDecision,
)
    requires
        call_ensures(<DefaultPolicyEngine as PolicyEngine>::evaluate_network_flow, (e, a), x),
        call_ensures(<DefaultPolicyEngine as PolicyEngine>::evaluate_network_flow, (e, b), y),
        x is Allow,
        y is Allow,
        x->receipt.inputs_hash@ == y->receipt.inputs_hash@,
        !receipts::laws::digests_collide(),
    ensures
        a.direction@ == b.direction@,
        a.allowed_by_rule == b.allowed_by_rule,
{
    same_inputs(e.doc.policy_id@, "network_flow"@, a.wire(), b.wire());
    let (p, q) = (a.wire()->Object_0, b.wire()->Object_0);
    assert(p[0] == q[0] && p[1] == q[1]);
}

/// The hash also binds an allow to its policy: launches of one request under two
/// policies with different ids have different hashes, as long as no two byte
/// strings share a digest and neither id holds a bar.
pub proof fn launch_hash_binds_the_policy(
    d: &DefaultPolicyEngine,
    e: &DefaultPolicyEngine,
    req: &VmLaunchRequest,
    x: PolicyDecision,
    y: PolicyDecision,
)
    requires
        call_ensures(<DefaultPolicyEngine as PolicyEngine>::evaluate_vm_launch, (d, req), x),
        call_ensures(<DefaultPolicyEngine as PolicyEngine>::evaluate_vm_launch, (e, req), y),
        x is Allow,
        y is Allow,
        x->receipt.inputs_hash@ == y->receipt.inputs_hash@,
        !d.doc.policy_id@.contains('|'),
        !e.doc.policy_id@.contains('|'),
        !receipts::laws::digests_collide(),
    ensures
        d.doc.policy_id@ == e.doc.policy_id@,
{
    reveal_strlit("|");
    assert("|"@ =~= seq!['|']);
    let rest = "vm_launch"@ + "|"@ + crate::json::compact(req.wire());
    let s = engine::inputs_text(d.doc.policy_id@, "vm_launch"@, req.wire());
    let t = engine::inputs_text(e.doc.policy_id@, "vm_launch"@, req.wire());
    primitives::sha384_hex_keeps_digest(text::utf8(s), text::utf8(t));
    if text::utf8(s) != text::utf8(t) {
        receipts::laws::collision_seen(text::utf8(s), text::utf8(t));
    }
    text::utf8_is_injective(s, t);
    assert(s =~= d.doc.policy_id@ + seq!['|'] + rest);
    assert(t =~= e.doc.policy_id@ + seq!['|'] + rest);
    text::first_separator_splits(d.doc.policy_id@, rest, e.doc.policy_id@, rest, '|');
}

/// A document is accepted as it stands, and only with the known version, one of
/// the two postures and a mode that has a name.
pub proof fn accepted_document_is_known(
    parsed: Result<PolicyDocument, String>,
    r: Result<PolicyDocument, PolicyError>,
    mode: Option<UnlockMode>,
)
    requires
        call_ensures(PolicyDocument::accept, (parsed,), r),
        parsed matches Ok(d) ==> call_ensures(
            KeyReleasePolicy::unlock_mode,
            (&d.key_release,),
            mode,
        ),
    ensures
        r matches Ok(d) ==> parsed == Ok::<PolicyDocument, String>(d),
        parsed is Ok ==> (r is Ok <==> {
            &&& parsed->Ok_0.schema_version == 1
            &&& parsed->Ok_0.network_default@ == "deny"@ || parsed->Ok_0.network_default@
                == "allow"@
            &&& mode is Some
        }),
        parsed matches Err(m) ==> r == Err::<PolicyDocument, PolicyError>(PolicyError::Json(m)),
        parsed is Ok && parsed->Ok_0.schema_version != 1 ==> r == Err::<
            PolicyDocument,
            PolicyError,
        >(
            PolicyError::UnsupportedSchema {
                found: parsed->Ok_0.schema_version,
                expected: 1,
            },
        ),
{
}

/// Each unlock mode has one name, and no two names give the same mode.
pub proof fn modes_have_one_name_each(
    a: &KeyReleasePolicy,
    b: &KeyReleasePolicy,
    x: Option<UnlockMode>,
    y: Option<UnlockMode>,
)
    requires
        call_ensures(KeyReleasePolicy::unlock_mode, (a,), x),
        call_ensures(KeyReleasePolicy::unlock_mode, (b,), y),
        x is Some,
        x == y,
    ensures
        a.mode@ == b.mode@,
        x == Some(UnlockMode::PassphraseOnly) ==> a.mode@ == "passphrase_only"@,
        x == Some(UnlockMode::Tpm2PcrPolicy) ==> a.mode@ == "tpm2_pcr_policy"@,
        x == Some(UnlockMode::Tpm2Pin) ==> a.mode@ == "tpm2_pin"@,
        x == Some(UnlockMode::Fido2HmacSecret) ==> a.mode@ == "fido2_hmac_secret"@,
        x == Some(UnlockMode::SmartcardPkcs11) ==> a.mode@ == "smartcard_pkcs11"@,
        x == Some(UnlockMode::RemoteAttestedKms) ==> a.mode@ == "remote_attested_kms"@,
        x == Some(UnlockMode::ThresholdRecovery) ==> a.mode@ == "threshold_recovery"@,
        x == Some(UnlockMode::HybridClassicalPqc) ==> a.mode@ == "hybrid_classical_pqc"@,
{
}

/// A document of the known schema is refused for its network default where that is
/// neither word, and otherwise for the mode of its key release; the value is shown.
pub proof fn refusal_names_the_wrong_field(
    doc: PolicyDocument,
    r: Result<PolicyDocument, PolicyError>,
)
    requires
        call_ensures(
            PolicyDocument::accept,
            (Ok::<PolicyDocument, String>(doc),),
            r,
        ),
        doc.schema_version == 1,
    ensures
        doc.network_default@ != "deny"@ && doc.network_default@ != "allow"@ ==> r is Err
            && r->Err_0 is InvalidField && r->Err_0->InvalidField_0@
            == "network_default must be \"deny\" or \"allow\", got "@ + text::debug_form(
            doc.network_default@,
        ),
        (doc.network_default@ == "deny"@ || doc.network_default@ == "allow"@) && r is Err
            ==> r->Err_0 is InvalidField && r->Err_0->InvalidField_0@
            == "key_release.mode unrecognized: "@ + text::debug_form(doc.key_release.mode@),
{
}

/// A request's document has a member for each of its fields.
pub proof fn request_documents_show_the_requests(
    launch: &VmLaunchRequest,
    release: &KeyReleaseRequest,
    assign: &DeviceAssignRequest,
    flow: &FlowRequest,
    l: Json,
    k: Json,
    d: Json,
    f: Json,
)
    requires
        call_ensures(VmLaunchRequest::to_wire, (launch,), l),
        call_ensures(KeyReleaseRequest::to_wire, (release,), k),
        call_ensures(DeviceAssignRequest::to_wire, (assign,), d),
        call_ensures(FlowRequest::to_wire, (flow,), f),
    ensures
        json::laws::has_member(
            l@,
            "hypervisor_version"@,
            JsonValue::Num(launch.hypervisor_version as nat),
        ),
        json::laws::has_member(l@, "manifest_signed"@, JsonValue::Bool(launch.manifest_signed)),
        json::laws::has_member(l@, "measured_boot"@, JsonValue::Bool(launch.measured_boot)),
        json::laws::has_member(l@, "requests_debug_console"@, JsonValue::Bool(launch.requests_debug_console)),
        json::laws::has_member(k@, "sensitive"@, JsonValue::Bool(release.sensitive)),
        json::laws::has_member(k@, "pcr_match"@, JsonValue::Bool(release.pcr_match)),
        json::laws::has_member(k@, "encryption"@, JsonValue::Bool(release.encryption)),
        json::laws::has_member(d@, "passthrough"@, JsonValue::Bool(assign.passthrough)),
        json::laws::has_member(d@, "device"@, JsonValue::Text(assign.device@)),
        json::laws::has_member(f@, "direction"@, JsonValue::Text(flow.direction@)),
        json::laws::has_member(f@, "allowed_by_rule"@, JsonValue::Bool(flow.allowed_by_rule)),
{
    let (x, y, z, w) = (l@->Object_0, k@->Object_0, d@->Object_0, f@->Object_0);
    assert(x[0].0 == "hypervisor_version"@ && x[1].0 == "manifest_signed"@);
    assert(x[2].0 == "measured_boot"@ && x[3].0 == "requests_debug_console"@);
    assert(y[0].0 == "sensitive"@ && y[1].0 == "pcr_match"@ && y[2].0 == "encryption"@);
    assert(z[0].0 == "passthrough"@ && z[1].0 == "device"@);
    assert(w[0].0 == "direction"@ && w[1].0 == "allowed_by_rule"@);
}

} // verus!
