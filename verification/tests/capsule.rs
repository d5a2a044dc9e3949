//! Capsule manifests and their verification.
use hyper_slate::capsule::{
    default_sig_status, hash_hex, CapsuleError, CapsuleManifest, CpuSpec, DeviceSpec, MemorySpec,
    NetworkSpec, Signature, SignatureStatus, StorageSpec, TrustStore, UntrustedManifest,
    CAPSULE_SCHEMA, MAX_MANIFEST_BYTES,
};
use serde_json::Value;

fn text(v: &Value, key: &str) -> Result<String, String> {
    v[key].as_str().map(|s| s.to_string()).ok_or(format!("missing text `{key}`"))
}

fn truth(v: &Value, key: &str) -> Result<bool, String> {
    v[key].as_bool().ok_or(format!("missing truth value `{key}`"))
}

fn number(v: &Value, key: &str) -> Result<u64, String> {
    v[key].as_u64().ok_or(format!("missing number `{key}`"))
}

fn texts(v: &Value, key: &str) -> Result<Vec<String>, String> {
    let mut out = Vec::new();
    for s in v[key].as_array().ok_or(format!("missing list `{key}`"))? {
        out.push(s.as_str().ok_or("item is no text")?.to_string());
    }
    Ok(out)
}

fn read_capsule(bytes: &[u8]) -> Result<CapsuleManifest, String> {
    let v: Value = serde_json::from_slice(bytes).map_err(|e| e.to_string())?;
    let mut signatures = Vec::new();
    for s in v["signatures"].as_array().ok_or("missing signatures")? {
        signatures.push(Signature {
            alg: text(s, "alg")?,
            key_id: text(s, "key_id")?,
            status: match s.get("status") {
                None | Some(Value::Null) => default_sig_status(),
                Some(_) => text(s, "status")?,
            },
        });
    }
    Ok(CapsuleManifest {
        schema: text(&v, "schema")?,
        vm_id: text(&v, "vm_id")?,
        tenant_id: text(&v, "tenant_id")?,
        image_hash: text(&v, "image_hash")?,
        disk_hash: text(&v, "disk_hash")?,
        hypervisor_min_version: number(&v, "hypervisor_min_version")?,
        boot_policy_version: number(&v, "boot_policy_version")?,
        devices: DeviceSpec {
            passthrough: texts(&v["devices"], "passthrough")?,
            virtio: texts(&v["devices"], "virtio")?,
        },
        memory: MemorySpec {
            max_mb: number(&v["memory"], "max_mb")?,
            allow_balloon: truth(&v["memory"], "allow_balloon")?,
        },
        cpu: CpuSpec {
            vcpus: number(&v["cpu"], "vcpus")? as u32,
            cpuid_profile: text(&v["cpu"], "cpuid_profile")?,
        },
        network: NetworkSpec {
            mode: text(&v["network"], "mode")?,
            egress_policy: text(&v["network"], "egress_policy")?,
        },
        storage: StorageSpec {
            cipher: text(&v["storage"], "cipher")?,
            integrity: text(&v["storage"], "integrity")?,
            key_version: number(&v["storage"], "key_version")? as u32,
        },
        signatures,
    })
}

fn manifest_json(extra_sig: &str) -> String {
    format!(
        r#"{{
          "schema": "chain.vm_capsule.v1",
          "vm_id": "vm-prod-001",
          "tenant_id": "lab",
          "image_hash": "{img}",
          "disk_hash": "{disk}",
          "hypervisor_min_version": 4,
          "boot_policy_version": 7,
          "devices": {{ "passthrough": [], "virtio": ["blk", "net", "console"] }},
          "memory": {{ "max_mb": 4096, "allow_balloon": false }},
          "cpu": {{ "vcpus": 2, "cpuid_profile": "masked_zen3_guest_v1" }},
          "network": {{ "mode": "isolated", "egress_policy": "deny_by_default" }},
          "storage": {{ "cipher": "AES-256-XTS", "integrity": "manifest_hash_only", "key_version": 3 }},
          "signatures": [{sigs}]
        }}"#,
        img = hash_hex(b"image-bytes"),
        disk = hash_hex(b"disk-bytes"),
        sigs = extra_sig,
    )
}

fn trusted_sig() -> &'static str {
    r#"{ "alg": "ecdsa-p384", "key_id": "lab-classical-2026", "status": "active" }"#
}

fn trust() -> TrustStore {
    TrustStore::new(12).trust_key("lab-classical-2026")
}

#[test]
fn trusted_signed_manifest_verifies() {
    let u = UntrustedManifest::parse(manifest_json(trusted_sig()).as_bytes(), read_capsule).unwrap();
    let v = u.verify(&trust(), None, None).unwrap();
    assert_eq!(v.signature_status(), SignatureStatus::Trusted);
    assert_eq!(v.vm_id(), "vm-prod-001");
}

#[test]
fn unsigned_manifest_is_rejected() {
    let err = UntrustedManifest::parse(manifest_json("").as_bytes(), read_capsule)
        .unwrap()
        .verify(&trust(), None, None)
        .unwrap_err();
    assert_eq!(err, CapsuleError::Unsigned);
}

#[test]
fn untrusted_signer_is_rejected() {
    let sig = r#"{ "alg": "ecdsa-p384", "key_id": "attacker-key", "status": "active" }"#;
    let err = UntrustedManifest::parse(manifest_json(sig).as_bytes(), read_capsule)
        .unwrap()
        .verify(&trust(), None, None)
        .unwrap_err();
    assert_eq!(err, CapsuleError::UntrustedSigner);
}

#[test]
fn transition_only_signature_is_flagged() {
    let sig = r#"{ "alg": "ml-dsa-65", "key_id": "lab-pq-transition-2026", "status": "transition" }"#;
    let trust = TrustStore::new(12).trust_key("lab-pq-transition-2026");
    let v = UntrustedManifest::parse(manifest_json(sig).as_bytes(), read_capsule)
        .unwrap()
        .verify(&trust, None, None)
        .unwrap();
    assert_eq!(v.signature_status(), SignatureStatus::TransitionOnly);
}

#[test]
fn hypervisor_too_old_is_rejected() {
    let trust = TrustStore::new(1).trust_key("lab-classical-2026");
    let err = UntrustedManifest::parse(manifest_json(trusted_sig()).as_bytes(), read_capsule)
        .unwrap()
        .verify(&trust, None, None)
        .unwrap_err();
    assert_eq!(err, CapsuleError::HypervisorTooOld { have: 1, need: 4 });
}

#[test]
fn content_hash_mismatch_is_rejected() {
    let err = UntrustedManifest::parse(manifest_json(trusted_sig()).as_bytes(), read_capsule)
        .unwrap()
        .verify(&trust(), Some(b"tampered-image"), None)
        .unwrap_err();
    assert_eq!(err, CapsuleError::HashMismatch { which: "image" });
}

#[test]
fn matching_content_hash_passes() {
    let v = UntrustedManifest::parse(manifest_json(trusted_sig()).as_bytes(), read_capsule)
        .unwrap()
        .verify(&trust(), Some(b"image-bytes"), Some(b"disk-bytes"))
        .unwrap();
    assert_eq!(v.signature_status(), SignatureStatus::Trusted);
}

#[test]
fn oversized_input_is_rejected_before_parse() {
    let big = vec![b'x'; MAX_MANIFEST_BYTES + 1];
    assert_eq!(
        UntrustedManifest::parse(&big, |_: &[u8]| panic!("must not be read")).unwrap_err(),
        CapsuleError::TooLarge(MAX_MANIFEST_BYTES + 1)
    );
}

#[test]
fn wrong_schema_is_rejected() {
    let j = manifest_json(trusted_sig()).replace("chain.vm_capsule.v1", "evil.v9");
    assert!(matches!(
        UntrustedManifest::parse(j.as_bytes(), read_capsule).unwrap_err(),
        CapsuleError::BadSchema(_)
    ));
}

#[test]
fn garbage_input_does_not_panic() {
    assert!(matches!(
        UntrustedManifest::parse(b"not json at all {{{", read_capsule).unwrap_err(),
        CapsuleError::Parse(_)
    ));
}

#[test]
fn full_signature_wins_over_transition() {
    let sigs = r#"{ "alg": "ml-dsa-65", "key_id": "a", "status": "transition" },
                  { "alg": "ecdsa-p384", "key_id": "b" },
                  { "alg": "ecdsa-p384", "key_id": "c", "status": "transition" }"#;
    let u = UntrustedManifest::parse(manifest_json(sigs).as_bytes(), read_capsule).unwrap();
    assert_eq!(u.vm_id(), "vm-prod-001");
    let only_transition = TrustStore::new(12).trust_key("c").trust_key("a").trust_key("a");
    let v = u.clone().verify(&only_transition, None, None).unwrap();
    assert_eq!(v.signature_status(), SignatureStatus::TransitionOnly);
    let both = only_transition.clone().trust_key("b");
    assert!(both.trusts("a") && both.trusts("b") && both.trusts("c") && !both.trusts("d"));
    let v = u.clone().verify(&both, None, None).unwrap();
    assert_eq!(v.signature_status(), SignatureStatus::Trusted);
    assert_eq!(v.manifest().signatures.len(), 3);
    assert_eq!(u.verify(&TrustStore::default(), None, None).unwrap_err(), CapsuleError::HypervisorTooOld { have: 0, need: 4 });
}

#[test]
fn canonical_bytes_are_compact_json_in_field_order() {
    let u = UntrustedManifest::parse(manifest_json(trusted_sig()).as_bytes(), read_capsule).unwrap();
    let bytes = u.canonical_bytes();
    let want = format!(
        "{{\"schema\":\"{}\",\"vm_id\":\"vm-prod-001\",\"tenant_id\":\"lab\",\"image_hash\":\"{}\",\
         \"disk_hash\":\"{}\",\"hypervisor_min_version\":4,\"boot_policy_version\":7,\
         \"devices\":{{\"passthrough\":[],\"virtio\":[\"blk\",\"net\",\"console\"]}},\
         \"memory\":{{\"max_mb\":4096,\"allow_balloon\":false}},\
         \"cpu\":{{\"vcpus\":2,\"cpuid_profile\":\"masked_zen3_guest_v1\"}},\
         \"network\":{{\"mode\":\"isolated\",\"egress_policy\":\"deny_by_default\"}},\
         \"storage\":{{\"cipher\":\"AES-256-XTS\",\"integrity\":\"manifest_hash_only\",\"key_version\":3}},\
         \"signatures\":[{{\"alg\":\"ecdsa-p384\",\"key_id\":\"lab-classical-2026\",\"status\":\"active\"}}]}}",
        CAPSULE_SCHEMA,
        hash_hex(b"image-bytes"),
        hash_hex(b"disk-bytes"),
    );
    assert_eq!(String::from_utf8(bytes.clone()).unwrap(), want);
    let v = u.verify(&trust(), None, None).unwrap();
    assert_eq!(v.canonical_bytes(), bytes);
}

#[test]
fn disk_is_checked_after_the_image() {
    let u = UntrustedManifest::parse(manifest_json(trusted_sig()).as_bytes(), read_capsule).unwrap();
    assert_eq!(
        u.clone().verify(&trust(), Some(b"image-bytes"), Some(b"x")).unwrap_err(),
        CapsuleError::HashMismatch { which: "disk" }
    );
    assert_eq!(
        u.verify(&trust(), Some(b"x"), Some(b"x")).unwrap_err(),
        CapsuleError::HashMismatch { which: "image" }
    );
}

#[test]
fn capsule_errors_show_what_is_wrong() {
    let shown = [
        (CapsuleError::TooLarge(70000), "manifest exceeds 65536 byte bound (70000 bytes)"),
        (CapsuleError::Parse("eof".to_string()), "manifest is not valid JSON: eof"),
        (CapsuleError::BadSchema("x".to_string()), "unsupported manifest schema: x"),
        (CapsuleError::Unsigned, "manifest declares no signatures"),
        (CapsuleError::UntrustedSigner, "no signature from a trusted key"),
        (
            CapsuleError::HypervisorTooOld { have: 1, need: 4 },
            "hypervisor version 1 below manifest minimum 4",
        ),
        (
            CapsuleError::BootPolicyTooOld { have: 1, need: 2 },
            "boot policy version 1 below tenant minimum 2",
        ),
        (CapsuleError::HashMismatch { which: "disk" }, "disk hash mismatch"),
    ];
    for (e, text) in shown {
        assert_eq!(e.message(), text);
    }
}

#[test]
fn document_at_the_bound_is_read() {
    let mut j = manifest_json(trusted_sig()).into_bytes();
    j.resize(MAX_MANIFEST_BYTES, b' ');
    assert!(UntrustedManifest::parse(&j, read_capsule).is_ok());
    j.push(b' ');
    assert_eq!(
        UntrustedManifest::parse(&j, read_capsule).unwrap_err(),
        CapsuleError::TooLarge(MAX_MANIFEST_BYTES + 1)
    );
}
