//! The policy document and the policy engine.
use hyper_slate::policy::document::{
    KeyReleasePolicy, PolicyDocument, PolicyError, StoragePolicy, POLICY_SCHEMA_VERSION,
};
use hyper_slate::policy::engine::{
    DefaultPolicyEngine, DenyReason, DeviceAssignRequest, FlowRequest, KeyReleaseRequest,
    PolicyDecision, PolicyEngine, VmLaunchRequest,
};
use hyper_slate::primitives::sha384_hex;
use hyper_slate::slate_core::policy::UnlockMode;
use serde_json::Value;

fn text(v: &Value, key: &str) -> Result<String, String> {
    v[key].as_str().map(|s| s.to_string()).ok_or(format!("missing text `{key}`"))
}

fn truth(v: &Value, key: &str) -> Result<bool, String> {
    v[key].as_bool().ok_or(format!("missing truth value `{key}`"))
}

fn number(v: &Value, key: &str) -> Result<u64, String> {
    v[key].as_u64().ok_or(format!("missing number `{key}`"))
}

fn read_document(s: &str) -> Result<PolicyDocument, String> {
    let v: Value = serde_json::from_str(s).map_err(|e| e.to_string())?;
    Ok(PolicyDocument {
        schema_version: number(&v, "schema_version")? as u32,
        policy_id: text(&v, "policy_id")?,
        minimum_hypervisor_version: number(&v, "minimum_hypervisor_version")?,
        require_signed_manifest: truth(&v, "require_signed_manifest")?,
        require_measured_boot: truth(&v, "require_measured_boot")?,
        allow_device_passthrough: truth(&v, "allow_device_passthrough")?,
        allow_debug_console: truth(&v, "allow_debug_console")?,
        network_default: text(&v, "network_default")?,
        storage: StoragePolicy {
            require_encryption: truth(&v["storage"], "require_encryption")?,
            allow_read_write_base_image: truth(&v["storage"], "allow_read_write_base_image")?,
        },
        key_release: KeyReleasePolicy {
            mode: text(&v["key_release"], "mode")?,
            require_pcr_match_for_sensitive_vms: truth(
                &v["key_release"],
                "require_pcr_match_for_sensitive_vms",
            )?,
        },
    })
}

fn write_document(d: &PolicyDocument) -> String {
    format!(
        "{{\"schema_version\":{},\"policy_id\":\"{}\",\"minimum_hypervisor_version\":{},\
         \"require_signed_manifest\":{},\"require_measured_boot\":{},\
         \"allow_device_passthrough\":{},\"allow_debug_console\":{},\"network_default\":\"{}\",\
         \"storage\":{{\"require_encryption\":{},\"allow_read_write_base_image\":{}}},\
         \"key_release\":{{\"mode\":\"{}\",\"require_pcr_match_for_sensitive_vms\":{}}}}}",
        d.schema_version,
        d.policy_id,
        d.minimum_hypervisor_version,
        d.require_signed_manifest,
        d.require_measured_boot,
        d.allow_device_passthrough,
        d.allow_debug_console,
        d.network_default,
        d.storage.require_encryption,
        d.storage.allow_read_write_base_image,
        d.key_release.mode,
        d.key_release.require_pcr_match_for_sensitive_vms,
    )
}


fn sample_json() -> String {
    r#"{
        "schema_version": 1,
        "policy_id": "pol-001",
        "minimum_hypervisor_version": 52,
        "require_signed_manifest": true,
        "require_measured_boot": true,
        "allow_device_passthrough": false,
        "allow_debug_console": false,
        "network_default": "deny",
        "storage": {
            "require_encryption": true,
            "allow_read_write_base_image": false
        },
        "key_release": {
            "mode": "tpm2_pcr_policy",
            "require_pcr_match_for_sensitive_vms": true
        }
    }"#
    .to_string()
}

#[test]
fn document_parses_happy_document() {
    let doc = PolicyDocument::parse(&sample_json(), read_document).expect("parse");
    assert_eq!(doc.policy_id, "pol-001");
    assert_eq!(doc.minimum_hypervisor_version, 52);
    assert!(doc.require_signed_manifest);
    assert!(!doc.allow_device_passthrough);
    assert_eq!(doc.network_default, "deny");
    assert!(doc.storage.require_encryption);
    assert_eq!(
        doc.key_release.unlock_mode(),
        Some(UnlockMode::Tpm2PcrPolicy)
    );
}

#[test]
fn document_rejects_bad_schema_version() {
    let j = sample_json().replace("\"schema_version\": 1", "\"schema_version\": 999");
    let err = PolicyDocument::parse(&j, read_document).unwrap_err();
    assert!(matches!(err, PolicyError::UnsupportedSchema { found: 999, .. }));
}

#[test]
fn rejects_bad_network_default() {
    let j = sample_json().replace("\"deny\"", "\"sometimes\"");
    let err = PolicyDocument::parse(&j, read_document).unwrap_err();
    assert!(matches!(err, PolicyError::InvalidField(_)));
}

#[test]
fn rejects_unknown_unlock_mode() {
    let j = sample_json().replace("tpm2_pcr_policy", "telepathy");
    let err = PolicyDocument::parse(&j, read_document).unwrap_err();
    assert!(matches!(err, PolicyError::InvalidField(_)));
}

#[test]
fn document_rejects_malformed_json() {
    let err = PolicyDocument::parse("{not json", read_document).unwrap_err();
    assert!(matches!(err, PolicyError::Json(_)));
}

#[test]
fn document_round_trips_via_serde() {
    let doc = PolicyDocument::parse(&sample_json(), read_document).unwrap();
    let s = write_document(&doc);
    let back = PolicyDocument::parse(&s, read_document).unwrap();
    assert_eq!(doc, back);
}

fn strict_doc() -> PolicyDocument {
    let j = r#"{
        "schema_version": 1,
        "policy_id": "pol-strict",
        "minimum_hypervisor_version": 52,
        "require_signed_manifest": true,
        "require_measured_boot": true,
        "allow_device_passthrough": false,
        "allow_debug_console": false,
        "network_default": "deny",
        "storage": { "require_encryption": true, "allow_read_write_base_image": false },
        "key_release": { "mode": "tpm2_pcr_policy", "require_pcr_match_for_sensitive_vms": true }
    }"#;
    PolicyDocument::parse(j, read_document).unwrap()
}

fn engine() -> DefaultPolicyEngine {
    DefaultPolicyEngine::new(strict_doc())
}

// ---- VM launch -------------------------------------------------------

#[test]
fn launch_happy_path_allows_with_receipt() {
    let d = engine().evaluate_vm_launch(&VmLaunchRequest {
        hypervisor_version: 52,
        manifest_signed: true,
        measured_boot: true,
        requests_debug_console: false,
    });
    match d {
        PolicyDecision::Allow { receipt } => {
            assert!(receipt.inputs_hash.starts_with("sha384:"));
            assert!(!receipt.rationale.is_empty());
        }
        other => panic!("expected allow, got {other:?}"),
    }
}

#[test]
fn launch_unsigned_manifest_denied() {
    let d = engine().evaluate_vm_launch(&VmLaunchRequest {
        hypervisor_version: 52,
        manifest_signed: false,
        measured_boot: true,
        requests_debug_console: false,
    });
    assert_eq!(
        d,
        PolicyDecision::Deny {
            reason: DenyReason::UnsignedManifest
        }
    );
}

#[test]
fn launch_stale_hypervisor_denied() {
    let d = engine().evaluate_vm_launch(&VmLaunchRequest {
        hypervisor_version: 51,
        manifest_signed: true,
        measured_boot: true,
        requests_debug_console: false,
    });
    assert_eq!(
        d,
        PolicyDecision::Deny {
            reason: DenyReason::StaleHypervisor
        }
    );
}

#[test]
fn launch_measured_boot_required_denied() {
    let d = engine().evaluate_vm_launch(&VmLaunchRequest {
        hypervisor_version: 52,
        manifest_signed: true,
        measured_boot: false,
        requests_debug_console: false,
    });
    assert!(matches!(
        d,
        PolicyDecision::Deny {
            reason: DenyReason::Other(_)
        }
    ));
}

#[test]
fn launch_debug_console_denied() {
    let d = engine().evaluate_vm_launch(&VmLaunchRequest {
        hypervisor_version: 52,
        manifest_signed: true,
        measured_boot: true,
        requests_debug_console: true,
    });
    assert_eq!(
        d,
        PolicyDecision::Deny {
            reason: DenyReason::DebugForbidden
        }
    );
}

#[test]
fn launch_debug_allowed_when_policy_permits() {
    let j = r#"{
        "schema_version": 1, "policy_id": "p", "minimum_hypervisor_version": 1,
        "require_signed_manifest": false, "require_measured_boot": false,
        "allow_device_passthrough": false, "allow_debug_console": true,
        "network_default": "deny",
        "storage": { "require_encryption": false, "allow_read_write_base_image": true },
        "key_release": { "mode": "passphrase_only", "require_pcr_match_for_sensitive_vms": false }
    }"#;
    let eng = DefaultPolicyEngine::new(PolicyDocument::parse(j, read_document).unwrap());
    let d = eng.evaluate_vm_launch(&VmLaunchRequest {
        hypervisor_version: 1,
        manifest_signed: false,
        measured_boot: false,
        requests_debug_console: true,
    });
    assert!(matches!(d, PolicyDecision::Allow { .. }));
}

// ---- Key release -----------------------------------------------------

#[test]
fn key_release_happy_path_allows() {
    let d = engine().evaluate_key_release(&KeyReleaseRequest {
        sensitive: true,
        pcr_match: true,
        encryption: true,
    });
    assert!(matches!(d, PolicyDecision::Allow { .. }));
}

#[test]
fn key_release_encryption_required_denied() {
    let d = engine().evaluate_key_release(&KeyReleaseRequest {
        sensitive: false,
        pcr_match: true,
        encryption: false,
    });
    assert_eq!(
        d,
        PolicyDecision::Deny {
            reason: DenyReason::EncryptionRequired
        }
    );
}

#[test]
fn key_release_sensitive_pcr_mismatch_requires_approval() {
    let d = engine().evaluate_key_release(&KeyReleaseRequest {
        sensitive: true,
        pcr_match: false,
        encryption: true,
    });
    match d {
        PolicyDecision::RequireApproval { challenge } => {
            assert!(challenge.starts_with("pcr-approval:sha384:"));
        }
        other => panic!("expected require_approval, got {other:?}"),
    }
}

#[test]
fn key_release_nonsensitive_pcr_mismatch_allows() {
    let d = engine().evaluate_key_release(&KeyReleaseRequest {
        sensitive: false,
        pcr_match: false,
        encryption: true,
    });
    assert!(matches!(d, PolicyDecision::Allow { .. }));
}

// ---- Device assignment ----------------------------------------------

#[test]
fn passthrough_denied_when_forbidden() {
    let d = engine().evaluate_device_assignment(&DeviceAssignRequest {
        passthrough: true,
        device: "0000:01:00.0".to_string(),
    });
    assert_eq!(
        d,
        PolicyDecision::Deny {
            reason: DenyReason::PassthroughForbidden
        }
    );
}

#[test]
fn paravirtual_device_allowed() {
    let d = engine().evaluate_device_assignment(&DeviceAssignRequest {
        passthrough: false,
        device: "virtio-net".to_string(),
    });
    assert!(matches!(d, PolicyDecision::Allow { .. }));
}

// ---- Network flow ----------------------------------------------------

#[test]
fn egress_unmatched_denied() {
    let d = engine().evaluate_network_flow(&FlowRequest {
        direction: "egress".to_string(),
        allowed_by_rule: false,
    });
    assert_eq!(
        d,
        PolicyDecision::Deny {
            reason: DenyReason::EgressDenied
        }
    );
}

#[test]
fn ingress_unmatched_denied_other() {
    let d = engine().evaluate_network_flow(&FlowRequest {
        direction: "ingress".to_string(),
        allowed_by_rule: false,
    });
    assert!(matches!(
        d,
        PolicyDecision::Deny {
            reason: DenyReason::Other(_)
        }
    ));
}

#[test]
fn flow_matched_by_rule_allowed() {
    let d = engine().evaluate_network_flow(&FlowRequest {
        direction: "egress".to_string(),
        allowed_by_rule: true,
    });
    assert!(matches!(d, PolicyDecision::Allow { .. }));
}

#[test]
fn flow_allowed_posture_permits_unmatched() {
    let j = r#"{
        "schema_version": 1, "policy_id": "p", "minimum_hypervisor_version": 1,
        "require_signed_manifest": false, "require_measured_boot": false,
        "allow_device_passthrough": false, "allow_debug_console": false,
        "network_default": "allow",
        "storage": { "require_encryption": false, "allow_read_write_base_image": true },
        "key_release": { "mode": "passphrase_only", "require_pcr_match_for_sensitive_vms": false }
    }"#;
    let eng = DefaultPolicyEngine::new(PolicyDocument::parse(j, read_document).unwrap());
    let d = eng.evaluate_network_flow(&FlowRequest {
        direction: "egress".to_string(),
        allowed_by_rule: false,
    });
    assert!(matches!(d, PolicyDecision::Allow { .. }));
}

// ---- Receipt determinism --------------------------------------------

#[test]
fn receipt_hash_is_deterministic() {
    let req = DeviceAssignRequest {
        passthrough: false,
        device: "virtio-blk".to_string(),
    };
    let a = engine().evaluate_device_assignment(&req);
    let b = engine().evaluate_device_assignment(&req);
    assert_eq!(a, b);
}

#[test]
fn deterministic_and_prefixed() {
    let a = sha384_hex(b"hello");
    let b = sha384_hex(b"hello");
    assert_eq!(a, b);
    assert!(a.starts_with("sha384:"));
    // 7 chars prefix + 96 hex chars.
    assert_eq!(a.len(), "sha384:".len() + 96);
}

#[test]
fn distinct_inputs_distinct_hashes() {
    assert_ne!(sha384_hex(b"a"), sha384_hex(b"b"));
}

#[test]
fn refused_documents_say_why() {
    let j = sample_json().replace("\"schema_version\": 1", "\"schema_version\": 999");
    assert!(matches!(
        PolicyDocument::parse(&j, read_document).unwrap_err(),
        PolicyError::UnsupportedSchema { found: 999, expected: POLICY_SCHEMA_VERSION }
    ));
    let j = sample_json().replace("\"deny\"", "\"some\\ttimes\"");
    match PolicyDocument::parse(&j, read_document).unwrap_err() {
        PolicyError::InvalidField(m) => {
            assert_eq!(m, "network_default must be \"deny\" or \"allow\", got \"some\\ttimes\"")
        }
        other => panic!("unexpected {other:?}"),
    }
    let j = sample_json().replace("tpm2_pcr_policy", "telepathy");
    match PolicyDocument::parse(&j, read_document).unwrap_err() {
        PolicyError::InvalidField(m) => {
            assert_eq!(m, "key_release.mode unrecognized: \"telepathy\"")
        }
        other => panic!("unexpected {other:?}"),
    }
}

#[test]
fn every_unlock_mode_has_a_name() {
    let names = [
        ("passphrase_only", UnlockMode::PassphraseOnly),
        ("tpm2_pcr_policy", UnlockMode::Tpm2PcrPolicy),
        ("tpm2_pin", UnlockMode::Tpm2Pin),
        ("fido2_hmac_secret", UnlockMode::Fido2HmacSecret),
        ("smartcard_pkcs11", UnlockMode::SmartcardPkcs11),
        ("remote_attested_kms", UnlockMode::RemoteAttestedKms),
        ("threshold_recovery", UnlockMode::ThresholdRecovery),
        ("hybrid_classical_pqc", UnlockMode::HybridClassicalPqc),
    ];
    for (name, mode) in names {
        let p = KeyReleasePolicy {
            mode: name.to_string(),
            require_pcr_match_for_sensitive_vms: false,
        };
        assert_eq!(p.unlock_mode(), Some(mode));
    }
}

#[test]
fn receipt_hash_is_over_policy_kind_and_request() {
    let d = engine().evaluate_device_assignment(&DeviceAssignRequest {
        passthrough: false,
        device: "virtio-blk".to_string(),
    });
    match d {
        PolicyDecision::Allow { receipt } => {
            assert_eq!(receipt.rationale, "device assignment permitted by policy");
            assert_eq!(
                receipt.inputs_hash,
                sha384_hex(
                    b"pol-strict|device_assign|{\"passthrough\":false,\"device\":\"virtio-blk\"}"
                )
            );
        }
        other => panic!("expected allow, got {other:?}"),
    }
    let d = engine().evaluate_key_release(&KeyReleaseRequest {
        sensitive: true,
        pcr_match: false,
        encryption: true,
    });
    match d {
        PolicyDecision::RequireApproval { challenge } => assert_eq!(
            challenge,
            format!(
                "pcr-approval:{}",
                sha384_hex(
                    b"pol-strict|key_release|{\"sensitive\":true,\"pcr_match\":false,\"encryption\":true}"
                )
            )
        ),
        other => panic!("expected require_approval, got {other:?}"),
    }
    let d = engine().evaluate_vm_launch(&VmLaunchRequest {
        hypervisor_version: 60,
        manifest_signed: true,
        measured_boot: true,
        requests_debug_console: false,
    });
    match d {
        PolicyDecision::Allow { receipt } => assert_eq!(
            receipt.inputs_hash,
            sha384_hex(
                b"pol-strict|vm_launch|{\"hypervisor_version\":60,\"manifest_signed\":true,\"measured_boot\":true,\"requests_debug_console\":false}"
            )
        ),
        other => panic!("expected allow, got {other:?}"),
    }
}

#[test]
fn unmatched_ingress_names_its_direction() {
    let d = engine().evaluate_network_flow(&FlowRequest {
        direction: "ingress".to_string(),
        allowed_by_rule: false,
    });
    assert_eq!(
        d,
        PolicyDecision::Deny {
            reason: DenyReason::Other("ingress flow not matched by rule".to_string())
        }
    );
}

#[test]
fn policy_errors_show_what_is_wrong() {
    assert_eq!(PolicyError::Json("eof".to_string()).message(), "invalid policy document json: eof");
    assert_eq!(
        PolicyError::UnsupportedSchema { found: 9, expected: 1 }.message(),
        "unsupported policy schema_version 9 (expected 1)"
    );
    assert_eq!(
        PolicyError::InvalidField("mode".to_string()).message(),
        "invalid policy field: mode"
    );
}
