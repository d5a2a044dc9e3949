//! The commands of the storage operator.
use hyper_slate::operator::combiner::combiner_demo;
use hyper_slate::operator::manifest::{
    downgrade_check, manifest_inspect, manifest_verify, suites,
};
use hyper_slate::operator::trust::{parse_trust, to_hex};
use hyper_slate::qrse::combiner::KemSuite;
use hyper_slate::qrse::crypto::DeterministicSigner;
use hyper_slate::qrse::keyslot::{
    Argon2idKdf, Keyslot, KeyslotKind, KeyslotStatus, KmsAttestation, WrapSpec,
};
use hyper_slate::qrse::manifest::{
    is_pq_signature_alg, Audit, BootPolicy, DataPlane, Integrity, ManifestKeyHierarchy,
    QrsdManifest, RollbackProtection, QRSD_FORMAT,
};
use serde_json::Value;


const SEED: &[u8] = b"qrsectl-test-seed";

fn fixture_manifest(hybrid: bool, min_boot_version: u64) -> QrsdManifest {
    let mut keyslots = vec![Keyslot::new(
        0,
        KeyslotStatus::Active,
        KeyslotKind::Argon2idPassphrase {
            kdf: Argon2idKdf {
                algorithm: "argon2id".into(),
                memory_kib: 1_048_576,
                time_cost: 3,
                parallelism: 4,
            },
            wrap: WrapSpec {
                algorithm: "aes-256-gcm".into(),
                wrapped_key_ref: "blob:slot0".into(),
            },
        },
    )];
    if hybrid {
        keyslots.push(Keyslot::new(
            2,
            KeyslotStatus::Active,
            KeyslotKind::HybridRemoteKms {
                kem: KemSuite::transition_768(),
                attestation: KmsAttestation {
                    required: true,
                    accepted_tee: vec!["amd-sev-snp".into()],
                    measurement_policy_ref: "pol-meas-v3".into(),
                },
            },
        ));
    }
    QrsdManifest {
        format: QRSD_FORMAT.to_string(),
        volume_id: "urn:uuid:vol-test".into(),
        created_at: "2026-06-27T00:00:00Z".into(),
        data_plane: DataPlane {
            cipher: "AES-256-XTS".into(),
            xts_raw_key_bits: 512,
            sector_size: 4096,
            integrity: Integrity {
                mode: "none".into(),
                alternatives: vec![],
            },
        },
        boot_policy: BootPolicy {
            policy_id: "pol-boot-v4".into(),
            secure_boot_required: true,
            measured_boot_required: true,
            pcr_profile: vec!["pcr0".into(), "pcr7".into(), "pcr11".into()],
            minimum_boot_manifest_version: min_boot_version,
            rollback_protection: RollbackProtection {
                type_: "tpm-nv-counter".into(),
                counter_name: "qrsd.rollback".into(),
            },
        },
        key_hierarchy: ManifestKeyHierarchy {
            volume_master_key_version: 3,
            active_dek_version: 11,
            keyslots,
        },
        signatures: vec![],
        audit: Audit {
            last_rotation: "2026-06-01T00:00:00Z".into(),
            last_attested_unlock_receipt: "rcpt-000000-aaaaaaaaaaaaaaaa".into(),
            log_chain: "sha384:chainhead".into(),
        },
    }
}

fn pq_manifest(hybrid: bool, min_boot_version: u64) -> QrsdManifest {
    let mut m = fixture_manifest(hybrid, min_boot_version);
    let signer = DeterministicSigner::ml_dsa_65("disk-pq", SEED);
    m.sign(&signer, "disk-manifest");
    m
}

fn classical_manifest() -> QrsdManifest {
    let mut m = fixture_manifest(true, 7);
    let signer = DeterministicSigner::ecdsa_p384("disk-classical", SEED);
    m.sign(&signer, "classical-compat");
    m
}

#[test]
fn suites_lists_both_profiles() {
    let out = suites();
    assert!(out.contains("transition_768"));
    assert!(out.contains("high_assurance_1024"));
    assert!(out.contains("x25519+ml-kem-768+hkdf-sha384"));
}

#[test]
fn combiner_demo_is_bound_to_context() {
    let out = combiner_demo().unwrap();
    assert!(out.contains("\"kek_len_bytes\": 32"));
    assert!(out.contains("\"bound_to_context\": true"));
    // Deterministic: two runs are byte-identical.
    assert_eq!(out, combiner_demo().unwrap());
}

#[test]
fn parse_trust_rejects_malformed() {
    assert!(parse_trust(&["no-equals-sign".to_string()]).is_err());
    let ok = parse_trust(&["disk-pq=seed".to_string()]).unwrap();
    assert_eq!(ok, vec![("disk-pq".to_string(), "seed".to_string())]);
}

#[test]
fn is_pq_signature_alg_classifies() {
    assert!(is_pq_signature_alg("ml-dsa-65"));
    assert!(is_pq_signature_alg("SLH-DSA-128s"));
    assert!(!is_pq_signature_alg("ecdsa-p384"));
}

#[test]
fn manifest_verify_happy_path_pq() {
    let m = pq_manifest(true, 7);
    let out = manifest_verify(&m, &["disk-pq=qrsectl-test-seed".to_string()]).unwrap();
    assert!(out.contains("\"result\": \"pq_verified\""));
    assert!(out.contains("disk-manifest"));
}

#[test]
fn manifest_verify_without_trust_fails_closed() {
    let m = pq_manifest(true, 7);
    let err = manifest_verify(&m, &[]).unwrap_err();
    assert_eq!(err.code, 2);
}

#[test]
fn manifest_verify_classical_only_denied() {
    let m = classical_manifest();
    let err =
        manifest_verify(&m, &["disk-classical=qrsectl-test-seed".to_string()]).unwrap_err();
    assert_eq!(err.code, 2);
    assert!(err.message.contains("transition_classical_only"));
}

#[test]
fn manifest_inspect_reports_facts() {
    let m = pq_manifest(true, 7);
    let out = manifest_inspect(&m);
    assert!(out.contains("AES-256-XTS"));
    assert!(out.contains("hybrid_remote_kms"));
    assert!(out.contains("x25519+ml-kem-768+hkdf-sha384"));
    assert!(out.contains("\"carries_pq_signature\": true"));
}

#[test]
fn downgrade_check_ok() {
    let m = pq_manifest(true, 7);
    let out =
        downgrade_check(&m, 7, 5, false, &["disk-pq=qrsectl-test-seed".to_string()]).unwrap();
    assert!(out.contains("\"ok\": true"));
}

#[test]
fn downgrade_check_rejects_stale_version() {
    let m = pq_manifest(true, 4);
    let err = downgrade_check(&m, 7, 0, false, &["disk-pq=qrsectl-test-seed".to_string()])
        .unwrap_err();
    assert_eq!(err.code, 3);
    assert!(err.message.contains("rejected_stale_version"));
}

#[test]
fn downgrade_check_rejects_classical_only_path() {
    // A hybrid-free manifest that is still PQ-signed: no PQC unlock path.
    let m = pq_manifest(false, 7);
    let err = downgrade_check(&m, 7, 0, false, &["disk-pq=qrsectl-test-seed".to_string()])
        .unwrap_err();
    assert_eq!(err.code, 3);
    assert!(err.message.contains("rejected_classical_only"));
}

#[test]
fn documents_are_what_serde_json_writes() {
    let m = pq_manifest(true, 7);
    let trust = ["disk-pq=qrsectl-test-seed".to_string()];
    for shown in [
        suites(),
        combiner_demo().unwrap(),
        manifest_inspect(&m),
        manifest_verify(&m, &trust).unwrap(),
        manifest_verify(&m, &[]).unwrap_err().message,
        manifest_verify(&classical_manifest(), &["disk-classical=qrsectl-test-seed".to_string()])
            .unwrap_err()
            .message,
        downgrade_check(&m, 7, 5, false, &trust).unwrap(),
        downgrade_check(&m, 8, 5, false, &trust).unwrap_err().message,
        downgrade_check(&pq_manifest(false, 7), 7, 0, false, &trust).unwrap_err().message,
        downgrade_check(&m, 8, 5, false, &[]).unwrap_err().message,
    ] {
        let v: Value = serde_json::from_str(&shown).unwrap();
        assert_eq!(serde_json::to_string_pretty(&v).unwrap(), shown);
    }
}

#[test]
fn trust_is_split_at_the_first_equals_sign() {
    let ok = parse_trust(&["k=a=b".to_string(), "=".to_string()]).unwrap();
    assert_eq!(
        ok,
        vec![("k".to_string(), "a=b".to_string()), (String::new(), String::new())]
    );
    let err = parse_trust(&["k=v".to_string(), "bad".to_string(), "worse".to_string()]).unwrap_err();
    assert_eq!(err.code, 1);
    assert_eq!(err.message, "malformed --trust `bad` (expected key_id=seed)");
    assert_eq!(manifest_verify(&pq_manifest(true, 7), &["bad".to_string()]).unwrap_err().code, 1);
}

#[test]
fn first_seed_of_a_key_counts() {
    let m = pq_manifest(true, 7);
    let wrong_first = ["disk-pq=wrong".to_string(), "disk-pq=qrsectl-test-seed".to_string()];
    assert_eq!(manifest_verify(&m, &wrong_first).unwrap_err().code, 2);
    let right_first = ["disk-pq=qrsectl-test-seed".to_string(), "disk-pq=wrong".to_string()];
    assert!(manifest_verify(&m, &right_first).is_ok());
}

#[test]
fn hexadecimal_is_lower_case() {
    let all: Vec<u8> = (0..=255).collect();
    assert_eq!(to_hex(&all), hex::encode(&all));
    assert_eq!(to_hex(&[]), "");
}

#[test]
fn unverified_manifest_is_not_checked_for_a_downgrade() {
    let err = downgrade_check(&pq_manifest(true, 1), 7, 0, false, &[]).unwrap_err();
    assert_eq!(err.code, 2);
    assert!(err.message.contains("\"result\": \"verify_denied\""));
    assert!(err.message.contains("no valid signature over the manifest body"));
}

#[test]
fn stripped_suite_is_shown() {
    let mut m = fixture_manifest(true, 7);
    if let KeyslotKind::HybridRemoteKms { kem, .. } = &mut m.key_hierarchy.keyslots[1].kind {
        kem.pqc = " ".into();
    }
    m.sign(&DeterministicSigner::slh_dsa_128s("disk-pq", SEED), "disk-manifest");
    let trust = ["disk-pq=qrsectl-test-seed".to_string()];
    let err = downgrade_check(&m, 7, 0, false, &trust).unwrap_err();
    assert_eq!(err.code, 3);
    assert!(err.message.contains("rejected_suite_downgrade"));
    assert!(err.message.contains("x25519+<pqc-required>+hkdf-sha384"));
    assert!(downgrade_check(&m, 7, 0, true, &trust).is_ok());
}
