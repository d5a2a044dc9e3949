//! Storage: suites, key summaries and provisioning.
use hyper_slate::qrse::combiner::KemSuite;
use hyper_slate::qrse::crypto::DeterministicSigner;
use hyper_slate::qrse::hierarchy::KeyClass;
use hyper_slate::qrse::keyslot::{
    Argon2idKdf, Keyslot, KeyslotKind, KeyslotStatus, KmsAttestation, WrapSpec,
};
use hyper_slate::qrse::manifest::{
    Audit, BootPolicy, DataPlane, Integrity, ManifestKeyHierarchy, ManifestSignature,
    QrsdManifest, RollbackProtection, QRSD_FORMAT,
};
use hyper_slate::storage::attestation::lab_policy;
use hyper_slate::storage::key_hierarchy::{
    keyslot_kind_label, keyslot_status_label, Keyslot as SlotSummary, StorageKeyHierarchy,
};
use hyper_slate::storage::luks::{
    aes_256_xts_argon2id, default_argon2id_params, Luks2Profile, LuksError,
};
use hyper_slate::storage::pqc::{
    build_combiner_context, combiner_context, default_transition_suite, high_assurance_suite,
    HybridKemSuite,
};
use hyper_slate::storage::provisioning::VolumeProvisioning;
use serde_json::Value;

fn text(v: &Value, key: &str) -> String {
    v[key].as_str().expect("text member").to_string()
}

fn texts(v: &Value) -> Vec<String> {
    v.as_array().expect("list").iter().map(|s| s.as_str().expect("text").to_string()).collect()
}

fn number(v: &Value, key: &str) -> u32 {
    v[key].as_u64().expect("number") as u32
}

fn truth(v: &Value, key: &str) -> bool {
    v[key].as_bool().expect("truth value")
}

fn read_keyslot(v: &Value) -> Keyslot {
    let status = match v["status"].as_str().expect("status") {
        "active" => KeyslotStatus::Active,
        "disabled_until_break_glass" => KeyslotStatus::DisabledUntilBreakGlass,
        "retired" => KeyslotStatus::Retired,
        other => panic!("unknown status {other}"),
    };
    let kind = match v["kind"].as_str().expect("kind") {
        "argon2id_passphrase" => KeyslotKind::Argon2idPassphrase {
            kdf: Argon2idKdf {
                algorithm: text(&v["kdf"], "algorithm"),
                memory_kib: number(&v["kdf"], "memory_kib"),
                time_cost: number(&v["kdf"], "time_cost"),
                parallelism: number(&v["kdf"], "parallelism"),
            },
            wrap: WrapSpec {
                algorithm: text(&v["wrap"], "algorithm"),
                wrapped_key_ref: text(&v["wrap"], "wrapped_key_ref"),
            },
        },
        "tpm2_sealed" => KeyslotKind::Tpm2Sealed {
            pcrs: texts(&v["pcrs"]),
            requires_pin: truth(v, "requires_pin"),
            signed_pcr_policy: truth(v, "signed_pcr_policy"),
        },
        "hybrid_remote_kms" => KeyslotKind::HybridRemoteKms {
            kem: KemSuite {
                classical: text(&v["kem"], "classical"),
                pqc: text(&v["kem"], "pqc"),
                combiner: text(&v["kem"], "combiner"),
            },
            attestation: KmsAttestation {
                required: truth(&v["attestation"], "required"),
                accepted_tee: texts(&v["attestation"]["accepted_tee"]),
                measurement_policy_ref: text(&v["attestation"], "measurement_policy_ref"),
            },
        },
        "threshold_recovery" => KeyslotKind::ThresholdRecovery {
            scheme: text(v, "scheme"),
            m: number(v, "m"),
            n: number(v, "n"),
        },
        other => panic!("unknown kind {other}"),
    };
    Keyslot::new(number(v, "slot"), status, kind)
}

fn read_keyslot_text(json: &str) -> Keyslot {
    read_keyslot(&serde_json::from_str(json).expect("valid json"))
}

fn read_manifest(json: &str) -> QrsdManifest {
    let v: Value = serde_json::from_str(json).expect("valid json");
    let (d, b, k, a) = (&v["data_plane"], &v["boot_policy"], &v["key_hierarchy"], &v["audit"]);
    QrsdManifest {
        format: text(&v, "format"),
        volume_id: text(&v, "volume_id"),
        created_at: text(&v, "created_at"),
        data_plane: DataPlane {
            cipher: text(d, "cipher"),
            xts_raw_key_bits: number(d, "xts_raw_key_bits"),
            sector_size: number(d, "sector_size"),
            integrity: Integrity {
                mode: text(&d["integrity"], "mode"),
                alternatives: texts(&d["integrity"]["alternatives"]),
            },
        },
        boot_policy: BootPolicy {
            policy_id: text(b, "policy_id"),
            secure_boot_required: truth(b, "secure_boot_required"),
            measured_boot_required: truth(b, "measured_boot_required"),
            pcr_profile: texts(&b["pcr_profile"]),
            minimum_boot_manifest_version: b["minimum_boot_manifest_version"].as_u64().unwrap(),
            rollback_protection: RollbackProtection {
                type_: text(&b["rollback_protection"], "type"),
                counter_name: text(&b["rollback_protection"], "counter_name"),
            },
        },
        key_hierarchy: ManifestKeyHierarchy {
            volume_master_key_version: k["volume_master_key_version"].as_u64().unwrap(),
            active_dek_version: k["active_dek_version"].as_u64().unwrap(),
            keyslots: k["keyslots"].as_array().unwrap().iter().map(read_keyslot).collect(),
        },
        signatures: v["signatures"]
            .as_array()
            .unwrap()
            .iter()
            .map(|s| ManifestSignature {
                purpose: text(s, "purpose"),
                algorithm: text(s, "algorithm"),
                key_id: text(s, "key_id"),
                signature_ref: text(s, "signature_ref"),
                status: s.get("status").and_then(|x| x.as_str()).map(|x| x.to_string()),
                not_after: s.get("not_after").and_then(|x| x.as_str()).map(|x| x.to_string()),
            })
            .collect(),
        audit: Audit {
            last_rotation: text(a, "last_rotation"),
            last_attested_unlock_receipt: text(a, "last_attested_unlock_receipt"),
            log_chain: text(a, "log_chain"),
        },
    }
}

fn read_summary(json: &str) -> StorageKeyHierarchy {
    let v: Value = serde_json::from_str(json).expect("valid json");
    StorageKeyHierarchy {
        volume_id: text(&v, "volume_id"),
        dek_version: v["dek_version"].as_u64().unwrap(),
        vmk_version: v["vmk_version"].as_u64().unwrap(),
        keyslots: v["keyslots"]
            .as_array()
            .unwrap()
            .iter()
            .map(|k| SlotSummary {
                id: number(k, "id"),
                kind: text(k, "kind"),
                status: text(k, "status"),
            })
            .collect(),
    }
}


fn rich_hierarchy() -> ManifestKeyHierarchy {
    ManifestKeyHierarchy {
        volume_master_key_version: 3,
        active_dek_version: 11,
        keyslots: vec![
            Keyslot::new(
                0,
                KeyslotStatus::Active,
                KeyslotKind::Argon2idPassphrase {
                    kdf: Argon2idKdf {
                        algorithm: "argon2id".into(),
                        memory_kib: 1_048_576,
                        time_cost: 3,
                        parallelism: 4,
                    },
                    wrap: WrapSpec {
                        algorithm: "aes-256-gcm".into(),
                        wrapped_key_ref: "blob:slot0".into(),
                    },
                },
            ),
            Keyslot::new(
                2,
                KeyslotStatus::DisabledUntilBreakGlass,
                KeyslotKind::HybridRemoteKms {
                    kem: KemSuite::transition_768(),
                    attestation: KmsAttestation {
                        required: true,
                        accepted_tee: vec!["amd-sev-snp".into()],
                        measurement_policy_ref: "pol-meas-v3".into(),
                    },
                },
            ),
        ],
    }
}

#[test]
fn summary_from_rich_hierarchy() {
    let s = StorageKeyHierarchy::from_manifest("vol-1", &rich_hierarchy());
    assert_eq!(s.dek_version, 11);
    assert_eq!(s.vmk_version, 3);
    assert_eq!(s.keyslots.len(), 2);
    assert_eq!(s.keyslots[0].kind, "argon2id_passphrase");
    assert_eq!(s.keyslots[0].status, "active");
    assert_eq!(s.keyslots[1].kind, "hybrid_remote_kms");
    assert_eq!(s.keyslots[1].status, "disabled_until_break_glass");
}

#[test]
fn roundtrip_versions_through_to_manifest() {
    let rich = rich_hierarchy();
    let summary = StorageKeyHierarchy::from_manifest("vol-1", &rich);
    let rebuilt = summary.to_manifest(rich.keyslots.clone());
    assert_eq!(rebuilt, rich);
}

#[test]
fn summary_json_still_flat() {
    let s = StorageKeyHierarchy {
        volume_id: "vol-1".into(),
        dek_version: 1,
        vmk_version: 2,
        keyslots: vec![SlotSummary {
            id: 0,
            kind: "argon2id_passphrase".into(),
            status: "active".into(),
        }],
    };
    let json = s.to_json();
    assert!(json.contains(r#""dek_version":1"#));
    let back = read_summary(&json);
    assert_eq!(back, s);
}

#[test]
fn wrapping_chain_for_hybrid_includes_pqc() {
    let slot = Keyslot::new(
        2,
        KeyslotStatus::Active,
        KeyslotKind::HybridRemoteKms {
            kem: KemSuite::transition_768(),
            attestation: KmsAttestation {
                required: true,
                accepted_tee: vec!["amd-sev-snp".into()],
                measurement_policy_ref: "p".into(),
            },
        },
    );
    let chain = StorageKeyHierarchy::wrapping_chain_for(&slot);
    assert!(chain.contains(&KeyClass::PqcWrappedKey));
    assert_eq!(chain.last(), Some(&KeyClass::Dek));
}

#[test]
fn default_suite_matches_qrse_transition_768() {
    let bridged: KemSuite = default_transition_suite().into();
    assert_eq!(bridged, KemSuite::transition_768());
    assert_eq!(bridged.canonical(), default_transition_suite().canonical());
}

#[test]
fn high_assurance_suite_matches_qrse_1024() {
    let bridged: KemSuite = (&high_assurance_suite()).into();
    assert_eq!(bridged, KemSuite::high_assurance_1024());
}

#[test]
fn ref_and_owned_from_agree() {
    let owned: KemSuite = default_transition_suite().into();
    let by_ref: KemSuite = (&default_transition_suite()).into();
    assert_eq!(owned, by_ref);
    assert_eq!(owned, default_transition_suite().to_kem_suite());
}

#[test]
fn combiner_context_binds_suite_and_inputs() {
    let ctx = build_combiner_context(
        "vol-1",
        "pn52-lab-001",
        "policy-prod-v4",
        42,
        &default_transition_suite(),
        "sha384:bootmeas",
    );
    assert_eq!(ctx.algorithm_suite, KemSuite::transition_768());
    assert_eq!(ctx.policy_version, 42);
    // Length-prefixed encoding includes the canonical suite string.
    let bytes = ctx.to_bytes();
    let needle = default_transition_suite().canonical();
    assert!(bytes
        .windows(needle.len())
        .any(|w| w == needle.as_bytes()));
}

#[test]
fn legacy_string_context_still_works() {
    assert_eq!(
        combiner_context("vol-1", "dev-1", 7),
        "chainnew-hyper-slate:v1:vol-1:dev-1:7"
    );
}

fn plan() -> VolumeProvisioning {
    VolumeProvisioning::new(
        "urn:uuid:vol-1",
        "2026-06-27T00:00:00Z",
        aes_256_xts_argon2id(),
        KemSuite::transition_768(),
    )
}

#[test]
fn emits_unsigned_qrsd_v1_skeleton() {
    let m = plan().manifest().unwrap();
    assert_eq!(m.format, QRSD_FORMAT);
    assert_eq!(m.volume_id, "urn:uuid:vol-1");
    assert_eq!(m.created_at, "2026-06-27T00:00:00Z");
    assert_eq!(m.data_plane.cipher, "AES-256-XTS");
    assert!(m.signatures.is_empty());
    assert_eq!(m.key_hierarchy.keyslots.len(), 2);
}

#[test]
fn carries_kem_suite_in_hybrid_slot() {
    let m = plan().manifest().unwrap();
    let hybrid = &m.key_hierarchy.keyslots[1];
    assert!(hybrid.is_hybrid());
    assert!(!hybrid.classical_only());
    assert_eq!(hybrid.kem_suite().unwrap(), &KemSuite::transition_768());
}

#[test]
fn boot_policy_reflects_attestation_pcrs() {
    let m = plan().manifest().unwrap();
    assert_eq!(
        m.boot_policy.pcr_profile,
        vec!["pcr0".to_string(), "pcr7".to_string(), "pcr11".to_string()]
    );
    assert!(!m.boot_policy.secure_boot_required); // LAB_POLICY
    assert!(m.boot_policy.measured_boot_required);
}

#[test]
fn skeleton_is_signable_and_verifies_pq() {
    let mut m = plan().manifest().unwrap();
    let signer = DeterministicSigner::ml_dsa_65("disk-pq", b"seed");
    m.sign(&signer, "disk-manifest");
    let v = signer.to_verifier();
    assert!(m.verify(&[&v]).is_ok());
}

#[test]
fn fails_closed_on_non_argon2id_profile() {
    let mut p = plan();
    p.profile = Luks2Profile {
        cipher: "aes-xts-plain64",
        key_size_bits: 512,
        pbkdf: "pbkdf2",
    };
    assert!(matches!(
        p.manifest().unwrap_err(),
        LuksError::NotArgon2id { .. }
    ));
}

#[test]
fn manifest_json_round_trips() {
    let m = plan().manifest().unwrap();
    let json = m.to_json().unwrap();
    assert!(json.contains(r#""format": "qrsd-v1""#));
    let back = read_manifest(&json);
    assert_eq!(back, m);
}

#[test]
fn labels_name_every_state_and_mechanism() {
    assert_eq!(keyslot_status_label(KeyslotStatus::Active), "active");
    assert_eq!(keyslot_status_label(KeyslotStatus::Retired), "retired");
    assert_eq!(
        keyslot_kind_label(&KeyslotKind::ThresholdRecovery {
            scheme: "shamir".into(),
            m: 2,
            n: 3
        }),
        "threshold_recovery"
    );
    assert_eq!(
        keyslot_kind_label(&KeyslotKind::Tpm2Sealed {
            pcrs: vec![],
            requires_pin: false,
            signed_pcr_policy: false
        }),
        "tpm2_sealed"
    );
}

#[test]
fn owned_and_borrowed_keyslots_sum_up_the_same() {
    let slot = rich_hierarchy().keyslots.remove(0);
    let by_ref: SlotSummary = (&slot).into();
    let owned: SlotSummary = slot.into();
    assert_eq!(by_ref, owned);
}

#[test]
fn passphrase_slot_carries_the_cost() {
    let p = plan();
    assert_eq!(p.argon2id, default_argon2id_params());
    assert_eq!(p.attestation, lab_policy());
    let m = p.manifest().unwrap();
    match &m.key_hierarchy.keyslots[0].kind {
        KeyslotKind::Argon2idPassphrase { kdf, wrap } => {
            assert_eq!(kdf.algorithm, "argon2id");
            assert_eq!(kdf.memory_kib, p.argon2id.memory_kib);
            assert_eq!(wrap.wrapped_key_ref, "blob:slot0");
        }
        _ => panic!("wrong kind"),
    }
    assert_eq!(m.data_plane.xts_raw_key_bits, 512);
}

#[test]
fn suite_names_with_a_plus_sign_stay_apart() {
    let a = HybridKemSuite { classical: "a+b", pqc: "c", combiner: "d" };
    let b = HybridKemSuite { classical: "a", pqc: "b+c", combiner: "d" };
    assert_eq!(a.canonical(), "a%2Bb+c+d");
    assert_ne!(a.canonical(), b.canonical());
    assert_eq!(a.to_kem_suite().canonical(), a.canonical());
}
