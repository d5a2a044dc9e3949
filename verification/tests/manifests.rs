//! Signed manifests, downgrade checks and attested unlock.
use hyper_slate::attest::kms::{KmsPolicy, KmsSimulator};
use hyper_slate::attest::pcr::{BootMeasurement, PcrBank, PCR0, PCR11, PCR7};
use hyper_slate::qrse::combiner::{Kek, KemSuite};
use hyper_slate::qrse::crypto::{
    CryptoError, DecapKey, DeterministicKem, DeterministicSigner, Kem, KemCiphertext, Verifier,
};
use hyper_slate::qrse::downgrade::{check, DowngradeVerdict, VersionFloor};
use hyper_slate::qrse::keyslot::{
    Argon2idKdf, Keyslot, KeyslotKind, KeyslotStatus, KmsAttestation, WrapSpec,
};
use hyper_slate::qrse::manifest::{
    Audit, BootPolicy, DataPlane, Integrity, ManifestError, ManifestKeyHierarchy,
    ManifestSignature, QrsdManifest, RollbackProtection, VerifiedManifest, QRSD_FORMAT,
};
use hyper_slate::qrse::unlock::{
    attested_hybrid_unlock, KemLeg, UnlockError, UnlockRequest, KEK_LEN,
};
use hyper_slate::receipts::chain::ReceiptChain;
use serde_json::Value;

fn text(v: &Value, key: &str) -> String {
    v[key].as_str().expect("text member").to_string()
}

fn texts(v: &Value) -> Vec<String> {
    v.as_array().expect("list").iter().map(|s| s.as_str().expect("text").to_string()).collect()
}

fn number(v: &Value, key: &str) -> u32 {
    v[key].as_u64().expect("number") as u32
}

fn truth(v: &Value, key: &str) -> bool {
    v[key].as_bool().expect("truth value")
}

fn read_keyslot(v: &Value) -> Keyslot {
    let status = match v["status"].as_str().expect("status") {
        "active" => KeyslotStatus::Active,
        "disabled_until_break_glass" => KeyslotStatus::DisabledUntilBreakGlass,
        "retired" => KeyslotStatus::Retired,
        other => panic!("unknown status {other}"),
    };
    let kind = match v["kind"].as_str().expect("kind") {
        "argon2id_passphrase" => KeyslotKind::Argon2idPassphrase {
            kdf: Argon2idKdf {
                algorithm: text(&v["kdf"], "algorithm"),
                memory_kib: number(&v["kdf"], "memory_kib"),
                time_cost: number(&v["kdf"], "time_cost"),
                parallelism: number(&v["kdf"], "parallelism"),
            },
            wrap: WrapSpec {
                algorithm: text(&v["wrap"], "algorithm"),
                wrapped_key_ref: text(&v["wrap"], "wrapped_key_ref"),
            },
        },
        "tpm2_sealed" => KeyslotKind::Tpm2Sealed {
            pcrs: texts(&v["pcrs"]),
            requires_pin: truth(v, "requires_pin"),
            signed_pcr_policy: truth(v, "signed_pcr_policy"),
        },
        "hybrid_remote_kms" => KeyslotKind::HybridRemoteKms {
            kem: KemSuite {
                classical: text(&v["kem"], "classical"),
                pqc: text(&v["kem"], "pqc"),
                combiner: text(&v["kem"], "combiner"),
            },
            attestation: KmsAttestation {
                required: truth(&v["attestation"], "required"),
                accepted_tee: texts(&v["attestation"]["accepted_tee"]),
                measurement_policy_ref: text(&v["attestation"], "measurement_policy_ref"),
            },
        },
        "threshold_recovery" => KeyslotKind::ThresholdRecovery {
            scheme: text(v, "scheme"),
            m: number(v, "m"),
            n: number(v, "n"),
        },
        other => panic!("unknown kind {other}"),
    };
    Keyslot::new(number(v, "slot"), status, kind)
}

fn read_keyslot_text(json: &str) -> Keyslot {
    read_keyslot(&serde_json::from_str(json).expect("valid json"))
}

fn read_manifest(json: &str) -> QrsdManifest {
    let v: Value = serde_json::from_str(json).expect("valid json");
    let (d, b, k, a) = (&v["data_plane"], &v["boot_policy"], &v["key_hierarchy"], &v["audit"]);
    QrsdManifest {
        format: text(&v, "format"),
        volume_id: text(&v, "volume_id"),
        created_at: text(&v, "created_at"),
        data_plane: DataPlane {
            cipher: text(d, "cipher"),
            xts_raw_key_bits: number(d, "xts_raw_key_bits"),
            sector_size: number(d, "sector_size"),
            integrity: Integrity {
                mode: text(&d["integrity"], "mode"),
                alternatives: texts(&d["integrity"]["alternatives"]),
            },
        },
        boot_policy: BootPolicy {
            policy_id: text(b, "policy_id"),
            secure_boot_required: truth(b, "secure_boot_required"),
            measured_boot_required: truth(b, "measured_boot_required"),
            pcr_profile: texts(&b["pcr_profile"]),
            minimum_boot_manifest_version: b["minimum_boot_manifest_version"].as_u64().unwrap(),
            rollback_protection: RollbackProtection {
                type_: text(&b["rollback_protection"], "type"),
                counter_name: text(&b["rollback_protection"], "counter_name"),
            },
        },
        key_hierarchy: ManifestKeyHierarchy {
            volume_master_key_version: k["volume_master_key_version"].as_u64().unwrap(),
            active_dek_version: k["active_dek_version"].as_u64().unwrap(),
            keyslots: k["keyslots"].as_array().unwrap().iter().map(read_keyslot).collect(),
        },
        signatures: v["signatures"]
            .as_array()
            .unwrap()
            .iter()
            .map(|s| ManifestSignature {
                purpose: text(s, "purpose"),
                algorithm: text(s, "algorithm"),
                key_id: text(s, "key_id"),
                signature_ref: text(s, "signature_ref"),
                status: s.get("status").and_then(|x| x.as_str()).map(|x| x.to_string()),
                not_after: s.get("not_after").and_then(|x| x.as_str()).map(|x| x.to_string()),
            })
            .collect(),
        audit: Audit {
            last_rotation: text(a, "last_rotation"),
            last_attested_unlock_receipt: text(a, "last_attested_unlock_receipt"),
            log_chain: text(a, "log_chain"),
        },
    }
}

/// A manifest fixture; `hybrid` controls whether a hybrid keyslot is present.
fn sample_manifest(hybrid: bool) -> QrsdManifest {
    let mut keyslots = vec![Keyslot::new(
        0,
        KeyslotStatus::Active,
        KeyslotKind::Argon2idPassphrase {
            kdf: Argon2idKdf {
                algorithm: "argon2id".into(),
                memory_kib: 1_048_576,
                time_cost: 3,
                parallelism: 4,
            },
            wrap: WrapSpec {
                algorithm: "aes-256-gcm".into(),
                wrapped_key_ref: "blob:slot0".into(),
            },
        },
    )];
    if hybrid {
        keyslots.push(Keyslot::new(
            2,
            KeyslotStatus::Active,
            KeyslotKind::HybridRemoteKms {
                kem: KemSuite::transition_768(),
                attestation: KmsAttestation {
                    required: true,
                    accepted_tee: vec!["amd-sev-snp".into()],
                    measurement_policy_ref: "pol-meas-v3".into(),
                },
            },
        ));
    }
    QrsdManifest {
        format: QRSD_FORMAT.to_string(),
        volume_id: "urn:uuid:vol-1".into(),
        created_at: "2026-06-27T00:00:00Z".into(),
        data_plane: DataPlane {
            cipher: "AES-256-XTS".into(),
            xts_raw_key_bits: 512,
            sector_size: 4096,
            integrity: Integrity {
                mode: "none".into(),
                alternatives: vec!["dm-integrity".into()],
            },
        },
        boot_policy: BootPolicy {
            policy_id: "pol-boot-v4".into(),
            secure_boot_required: true,
            measured_boot_required: true,
            pcr_profile: vec!["pcr0".into(), "pcr7".into(), "pcr11".into()],
            minimum_boot_manifest_version: 7,
            rollback_protection: RollbackProtection {
                type_: "tpm-nv-counter".into(),
                counter_name: "qrsd.rollback".into(),
            },
        },
        key_hierarchy: ManifestKeyHierarchy {
            volume_master_key_version: 3,
            active_dek_version: 11,
            keyslots,
        },
        signatures: Vec::new(),
        audit: Audit {
            last_rotation: "2026-06-01T00:00:00Z".into(),
            last_attested_unlock_receipt: "rcpt-000000-aaaaaaaaaaaaaaaa".into(),
            log_chain: "sha384:chainhead".into(),
        },
    }
}


#[test]
fn signing_bytes_excludes_signatures() {
    let mut m = sample_manifest(true);
    let before = m.signing_bytes();
    let signer = DeterministicSigner::ml_dsa_65("disk-pq", b"seed");
    m.sign(&signer, "disk-manifest");
    // Adding a signature must NOT change the signed body.
    assert_eq!(before, m.signing_bytes());
    assert_eq!(m.signatures.len(), 1);
}

#[test]
fn sign_and_verify_happy_path_pq() {
    let mut m = sample_manifest(true);
    let signer = DeterministicSigner::ml_dsa_65("disk-pq", b"seed");
    m.sign(&signer, "disk-manifest");
    let v = signer.to_verifier();
    let verified = m.verify(&[&v]).expect("pq verified");
    assert_eq!(verified.min_boot_manifest_version(), 7);
    assert_eq!(verified.verified_purposes(), &["disk-manifest".to_string()]);
}

#[test]
fn classical_only_is_not_pq_verified() {
    let mut m = sample_manifest(true);
    let ecdsa = DeterministicSigner::ecdsa_p384("disk-classical", b"seed-c");
    m.sign(&ecdsa, "classical-compat");
    let v = ecdsa.to_verifier();
    assert_eq!(
        m.verify(&[&v]).unwrap_err(),
        ManifestError::InsufficientPostQuantum
    );
}

#[test]
fn dual_signed_verifies_pq_even_with_classical_present() {
    let mut m = sample_manifest(true);
    let pq = DeterministicSigner::ml_dsa_65("disk-pq", b"s1");
    let ec = DeterministicSigner::ecdsa_p384("disk-classical", b"s2");
    m.sign(&pq, "disk-manifest");
    m.sign(&ec, "classical-compat");
    let vpq = pq.to_verifier();
    let vec_ = ec.to_verifier();
    let verified = m.verify(&[&vpq, &vec_]).expect("pq verified");
    assert_eq!(verified.verified_purposes(), &["disk-manifest".to_string()]);
}

#[test]
fn tampered_body_fails_verify() {
    let mut m = sample_manifest(true);
    let signer = DeterministicSigner::ml_dsa_65("disk-pq", b"seed");
    m.sign(&signer, "disk-manifest");
    // Tamper after signing.
    m.boot_policy.minimum_boot_manifest_version = 999;
    let v = signer.to_verifier();
    assert_eq!(m.verify(&[&v]).unwrap_err(), ManifestError::NoValidSignature);
}

#[test]
fn no_signatures_fails_closed() {
    let m = sample_manifest(true);
    let none: [&dyn Verifier; 0] = [];
    assert_eq!(m.verify(&none).unwrap_err(), ManifestError::NoValidSignature);
}

#[test]
fn wrong_format_rejected() {
    let mut m = sample_manifest(true);
    m.format = "qrsd-v0".into();
    let signer = DeterministicSigner::ml_dsa_65("disk-pq", b"seed");
    m.sign(&signer, "disk-manifest");
    let v = signer.to_verifier();
    assert!(matches!(
        m.verify(&[&v]).unwrap_err(),
        ManifestError::BadFormat { .. }
    ));
}

#[test]
fn json_round_trips() {
    let mut m = sample_manifest(true);
    let signer = DeterministicSigner::ml_dsa_65("disk-pq", b"seed");
    m.sign(&signer, "disk-manifest");
    let json = m.to_json().unwrap();
    assert!(json.contains(r#""format": "qrsd-v1""#));
    let back = read_manifest(&json);
    assert_eq!(back, m);
    // Still verifies after a round trip.
    let v = signer.to_verifier();
    assert!(back.verify(&[&v]).is_ok());
}

fn verify(m: &QrsdManifest, signer: &DeterministicSigner) -> VerifiedManifest {
    let v = signer.to_verifier();
    m.verify(&[&v]).expect("pq verified")
}

fn signed(m: &mut QrsdManifest) -> DeterministicSigner {
    let signer = DeterministicSigner::ml_dsa_65("disk-pq", b"seed");
    m.sign(&signer, "disk-manifest");
    signer
}

#[test]
fn ok_when_version_and_suite_satisfy() {
    let mut m = sample_manifest(true);
    let signer = signed(&mut m);
    let vm = verify(&m, &signer);
    let floor = VersionFloor::strict(7);
    assert_eq!(check(&vm, &floor, 5), DowngradeVerdict::Accepted);
}

#[test]
fn rejects_stale_version_vs_floor() {
    let mut m = sample_manifest(true);
    m.boot_policy.minimum_boot_manifest_version = 4;
    let signer = signed(&mut m);
    let vm = verify(&m, &signer);
    let floor = VersionFloor::strict(7);
    assert_eq!(
        check(&vm, &floor, 0),
        DowngradeVerdict::RejectedStaleVersion { found: 4, floor: 7 }
    );
}

#[test]
fn rejects_stale_version_vs_monotonic_counter() {
    let mut m = sample_manifest(true);
    m.boot_policy.minimum_boot_manifest_version = 7;
    let signer = signed(&mut m);
    let vm = verify(&m, &signer);
    let floor = VersionFloor::strict(7);
    // Device has previously accepted version 9; replaying 7 is a rollback.
    assert_eq!(
        check(&vm, &floor, 9),
        DowngradeVerdict::RejectedStaleVersion { found: 7, floor: 9 }
    );
}

#[test]
fn rejects_classical_only_when_pqc_required() {
    // No hybrid keyslot, but still PQ-signed so a VerifiedManifest exists.
    let mut m = sample_manifest(false);
    let signer = signed(&mut m);
    let vm = verify(&m, &signer);
    let floor = VersionFloor::strict(7);
    assert_eq!(check(&vm, &floor, 0), DowngradeVerdict::RejectedClassicalOnly);
}

#[test]
fn classical_only_allowed_when_policy_permits() {
    let mut m = sample_manifest(false);
    let signer = signed(&mut m);
    let vm = verify(&m, &signer);
    let floor = VersionFloor {
        tenant_min_manifest_version: 7,
        require_pqc_signature: true,
        allow_classical_only: true,
    };
    assert_eq!(check(&vm, &floor, 0), DowngradeVerdict::Accepted);
}

#[test]
fn rejects_suite_downgrade_when_pqc_leg_stripped() {
    let mut m = sample_manifest(false);
    // Add a hybrid slot whose PQC leg has been stripped.
    m.key_hierarchy.keyslots.push(Keyslot::new(
        2,
        KeyslotStatus::Active,
        KeyslotKind::HybridRemoteKms {
            kem: KemSuite {
                classical: "x25519".into(),
                pqc: "".into(),
                combiner: "hkdf-sha384".into(),
            },
            attestation: KmsAttestation {
                required: true,
                accepted_tee: vec!["amd-sev-snp".into()],
                measurement_policy_ref: "pol".into(),
            },
        },
    ));
    let signer = signed(&mut m);
    let vm = verify(&m, &signer);
    let floor = VersionFloor::strict(7);
    match check(&vm, &floor, 0) {
        DowngradeVerdict::RejectedSuiteDowngrade { to, .. } => {
            assert!(to.contains("x25519"));
        }
        other => panic!("expected suite downgrade, got {other:?}"),
    }
}

struct Fixture {
    req: UnlockRequest,
    signer: DeterministicSigner,
    classical_kem: DeterministicKem,
    pqc_kem: DeterministicKem,
    classical_dk: DecapKey,
    classical_ct: KemCiphertext,
    pqc_dk: DecapKey,
    pqc_ct: KemCiphertext,
    kms: KmsSimulator,
}

fn pcrs() -> PcrBank {
    let mut p = PcrBank::new();
    p.set(PCR0, "sha384:fw").set(PCR7, "sha384:sb").set(PCR11, "sha384:kern");
    p
}

fn boot_measurement() -> BootMeasurement {
    BootMeasurement::new(
        "sha384:uefi",
        "sha384:kernel",
        "sha384:bootpol",
        "sha384:capsule",
        pcrs(),
    )
}

fn make_fixture() -> Fixture {
    let mut manifest = sample_manifest(true);
    let signer = DeterministicSigner::ml_dsa_65("disk-pq", b"seed");
    manifest.sign(&signer, "disk-manifest");

    let bm = boot_measurement();
    let req = UnlockRequest {
        manifest,
        boot_measurement: bm.clone(),
        device_id: "pn52-lab-001".into(),
        hypervisor_version: 9,
    };

    // Set up matching KEM legs.
    let classical_kem = DeterministicKem::x25519();
    let pqc_kem = DeterministicKem::ml_kem_768();
    let (cek, classical_dk) = classical_kem.generate_keypair(b"c-seed");
    let (cct, _) = classical_kem.encapsulate(&cek, b"c-rand");
    let (pek, pqc_dk) = pqc_kem.generate_keypair(b"p-seed");
    let (pct, _) = pqc_kem.encapsulate(&pek, b"p-rand");

    let policy = KmsPolicy {
        expected_pcrs: pcrs(),
        min_hypervisor_version: 1,
        allowed_capsule_hashes: vec![bm.capsule_manifest_hash.clone()],
        expected_boot_policy_hash: bm.boot_policy_hash.clone(),
    };
    let kms = KmsSimulator::new(policy);

    Fixture {
        req,
        signer,
        classical_kem,
        pqc_kem,
        classical_dk,
        classical_ct: cct,
        pqc_dk,
        pqc_ct: pct,
        kms,
    }
}

fn run(f: &Fixture, floor: &VersionFloor, chain: &mut ReceiptChain) -> Result<Kek, UnlockError> {
    let v = f.signer.to_verifier();
    attested_hybrid_unlock(
        &f.req,
        &[&v],
        floor,
        0,
        &f.classical_kem,
        &f.pqc_kem,
        KemLeg {
            dk: &f.classical_dk,
            ct: &f.classical_ct,
        },
        KemLeg {
            dk: &f.pqc_dk,
            ct: &f.pqc_ct,
        },
        &f.kms,
        chain,
    )
}

#[test]
fn happy_path_yields_kek_and_chain_verifies() {
    let f = make_fixture();
    let mut chain = ReceiptChain::new();
    let kek = run(&f, &VersionFloor::strict(7), &mut chain).ok().expect("unlock");
    assert_eq!(kek.len(), KEK_LEN);
    assert!(!kek.is_empty());
    // KMS allow receipt + final unlock receipt.
    assert_eq!(chain.len(), 2);
    assert_eq!(chain.verify(), Ok(()));
    assert_eq!(chain.receipts()[1].decision, "allow");
}

#[test]
fn deterministic_kek() {
    let f = make_fixture();
    let mut c1 = ReceiptChain::new();
    let mut c2 = ReceiptChain::new();
    let k1 = run(&f, &VersionFloor::strict(7), &mut c1).ok().unwrap();
    let k2 = run(&f, &VersionFloor::strict(7), &mut c2).ok().unwrap();
    assert!(k1 == k2);
}

#[test]
fn unlock_tampered_manifest_blocks_unlock() {
    let mut f = make_fixture();
    // Tamper after signing -> signature no longer covers the body.
    f.req.manifest.boot_policy.minimum_boot_manifest_version = 999;
    let mut chain = ReceiptChain::new();
    let err = run(&f, &VersionFloor::strict(7), &mut chain).err().unwrap();
    assert!(matches!(err, UnlockError::ManifestVerification(_)));
    // Deny recorded, no allow, chain still valid.
    assert_eq!(chain.len(), 1);
    assert!(chain.receipts()[0].decision.starts_with("deny"));
    assert_eq!(chain.verify(), Ok(()));
}

#[test]
fn unlock_stale_version_blocks_unlock() {
    let f = make_fixture();
    let mut chain = ReceiptChain::new();
    // Floor higher than the manifest's version 7.
    let err = run(&f, &VersionFloor::strict(99), &mut chain).err().unwrap();
    assert!(matches!(err, UnlockError::Downgrade(_)));
    assert_eq!(chain.len(), 1);
    assert!(chain.receipts()[0].decision.starts_with("deny"));
    assert_eq!(chain.verify(), Ok(()));
}

#[test]
fn unlock_failed_attestation_blocks_unlock() {
    let mut f = make_fixture();
    // Break the boot policy hash so the KMS denies (V9).
    f.req.boot_measurement.boot_policy_hash = "sha384:EVIL".into();
    let mut chain = ReceiptChain::new();
    let err = run(&f, &VersionFloor::strict(7), &mut chain).err().unwrap();
    match err {
        UnlockError::AttestationDenied(reason) => {
            assert!(reason.starts_with("boot_policy_hash_mismatch"));
        }
        other => panic!("expected attestation denial, got {other:?}"),
    }
    // KMS deny receipt recorded; no final allow receipt.
    assert_eq!(chain.len(), 1);
    assert_eq!(chain.receipts()[0].decision, "deny");
    assert_eq!(chain.verify(), Ok(()));
}

#[test]
fn unreadable_signature_is_reported() {
    let mut m = sample_manifest(true);
    let signer = DeterministicSigner::ml_dsa_65("disk-pq", b"seed");
    m.sign(&signer, "disk-manifest");
    let v = signer.to_verifier();
    m.signatures[0].signature_ref = "abc".into();
    assert_eq!(
        m.verify(&[&v]).unwrap_err(),
        ManifestError::BadSignatureEncoding {
            key_id: "disk-pq".into(),
            detail: hex::decode("abc").unwrap_err().to_string(),
        }
    );
    m.signatures[0].signature_ref = "zz".into();
    assert_eq!(
        m.verify(&[&v]).unwrap_err().message(),
        format!(
            "signature disk-pq has a malformed signature_ref: {}",
            hex::decode("zz").unwrap_err()
        )
    );
}

#[test]
fn no_active_hybrid_slot_blocks_unlock() {
    let mut f = make_fixture();
    f.req.manifest.signatures.clear();
    f.req.manifest.key_hierarchy.keyslots[1].status = KeyslotStatus::Retired;
    f.req.manifest.sign(&f.signer, "disk-manifest");
    let mut chain = ReceiptChain::new();
    let err = run(&f, &VersionFloor::strict(7), &mut chain).err().unwrap();
    assert_eq!(err, UnlockError::NoHybridKeyslot);
    assert_eq!(chain.verify(), Ok(()));
}

#[test]
fn leg_that_cannot_be_opened_blocks_unlock() {
    let mut f = make_fixture();
    f.pqc_ct = KemCiphertext(vec![]);
    let mut chain = ReceiptChain::new();
    let err = run(&f, &VersionFloor::strict(7), &mut chain).err().unwrap();
    assert!(matches!(err, UnlockError::Crypto(_)));
    assert_eq!(chain.verify(), Ok(()));
    assert_eq!(chain.receipts().len(), 2);
    assert_eq!(chain.receipts()[0].decision, "allow");
    assert_eq!(chain.receipts()[1].decision, "deny:decapsulation");
}

#[test]
fn other_signatures_do_not_change_the_downgrade_check() {
    let mut a = sample_manifest(true);
    if let KeyslotKind::HybridRemoteKms { kem, .. } = &mut a.key_hierarchy.keyslots[1].kind {
        kem.pqc = String::new();
    }
    let mut b = a.clone();
    let first = signed(&mut a);
    let second = DeterministicSigner::slh_dsa_128s("other-pq", b"other-seed");
    b.sign(&second, "audit");
    assert_eq!(a.signing_bytes(), b.signing_bytes());
    let floor = VersionFloor::strict(7);
    let shown = check(&verify(&a, &first), &floor, 0);
    assert!(matches!(shown, DowngradeVerdict::RejectedSuiteDowngrade { .. }));
    assert_eq!(shown, check(&verify(&b, &second), &floor, 0));
}

#[test]
fn stored_manifest_still_verifies() {
    let mut m = sample_manifest(true);
    let signer = signed(&mut m);
    let back = read_manifest(&m.to_json().unwrap());
    assert_eq!(back.signing_bytes(), m.signing_bytes());
    assert_eq!(
        verify(&back, &signer).verified_purposes(),
        verify(&m, &signer).verified_purposes()
    );
}

#[test]
fn unlock_errors_show_what_is_wrong() {
    let downgrades = [
        DowngradeVerdict::Accepted,
        DowngradeVerdict::RejectedStaleVersion { found: 3, floor: 7 },
        DowngradeVerdict::RejectedClassicalOnly,
        DowngradeVerdict::RejectedSuiteDowngrade {
            from: "a\"b".to_string(),
            to: "x\n".to_string(),
        },
    ];
    for d in downgrades {
        assert_eq!(d.show(), format!("{d:?}"));
        assert_eq!(
            UnlockError::Downgrade(d.clone()).message(),
            format!("downgrade rejected: {d:?}")
        );
    }
    let shown = [
        (
            UnlockError::ManifestVerification(ManifestError::NoValidSignature),
            "manifest verification failed: no valid signature over the manifest body",
        ),
        (UnlockError::AttestationDenied("pcr".to_string()), "attestation denied: pcr"),
        (
            UnlockError::NoHybridKeyslot,
            "no active hybrid keyslot to derive a suite from",
        ),
        (
            UnlockError::Crypto(CryptoError::Hkdf),
            "crypto failure: hkdf expand failed",
        ),
    ];
    for (e, text) in shown {
        assert_eq!(e.message(), text);
    }
}

#[test]
fn signing_again_keeps_a_manifest_verified() {
    let mut m = sample_manifest(true);
    let signer = signed(&mut m);
    let before = verify(&m, &signer);
    m.sign(&DeterministicSigner::ecdsa_p384("other", b"o"), "audit");
    m.sign(&DeterministicSigner::slh_dsa_128s("third", b"t"), "backup");
    let after = verify(&m, &signer);
    assert_eq!(after.verified_purposes(), before.verified_purposes());
    let copy = after.clone();
    assert_eq!(copy.manifest(), after.manifest());
    assert_eq!(copy.verified_purposes(), after.verified_purposes());
}
