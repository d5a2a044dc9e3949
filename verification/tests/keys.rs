//! Keys, key combination, keyslots and the key hierarchy.
use hyper_slate::qrse::combiner::{hybrid_combine, CombinerContext, KemSuite};
use hyper_slate::qrse::crypto::{
    CryptoError, DecapKey, DeterministicKem, DeterministicSigner, Kem, KemCiphertext, SharedSecret,
    Signer, Verifier,
};
use hyper_slate::qrse::hierarchy::{KeyClass, KeyHierarchy, KeyHierarchyBuilder, RotationCadence};
use hyper_slate::qrse::keyslot::{
    Argon2idKdf, Keyslot, KeyslotKind, KeyslotStatus, KmsAttestation, WrapSpec,
};
use serde_json::Value;

fn text(v: &Value, key: &str) -> String {
    v[key].as_str().expect("text member").to_string()
}

fn texts(v: &Value) -> Vec<String> {
    v.as_array().expect("list").iter().map(|s| s.as_str().expect("text").to_string()).collect()
}

fn number(v: &Value, key: &str) -> u32 {
    v[key].as_u64().expect("number") as u32
}

fn truth(v: &Value, key: &str) -> bool {
    v[key].as_bool().expect("truth value")
}

fn read_keyslot(v: &Value) -> Keyslot {
    let status = match v["status"].as_str().expect("status") {
        "active" => KeyslotStatus::Active,
        "disabled_until_break_glass" => KeyslotStatus::DisabledUntilBreakGlass,
        "retired" => KeyslotStatus::Retired,
        other => panic!("unknown status {other}"),
    };
    let kind = match v["kind"].as_str().expect("kind") {
        "argon2id_passphrase" => KeyslotKind::Argon2idPassphrase {
            kdf: Argon2idKdf {
                algorithm: text(&v["kdf"], "algorithm"),
                memory_kib: number(&v["kdf"], "memory_kib"),
                time_cost: number(&v["kdf"], "time_cost"),
                parallelism: number(&v["kdf"], "parallelism"),
            },
            wrap: WrapSpec {
                algorithm: text(&v["wrap"], "algorithm"),
                wrapped_key_ref: text(&v["wrap"], "wrapped_key_ref"),
            },
        },
        "tpm2_sealed" => KeyslotKind::Tpm2Sealed {
            pcrs: texts(&v["pcrs"]),
            requires_pin: truth(v, "requires_pin"),
            signed_pcr_policy: truth(v, "signed_pcr_policy"),
        },
        "hybrid_remote_kms" => KeyslotKind::HybridRemoteKms {
            kem: KemSuite {
                classical: text(&v["kem"], "classical"),
                pqc: text(&v["kem"], "pqc"),
                combiner: text(&v["kem"], "combiner"),
            },
            attestation: KmsAttestation {
                required: truth(&v["attestation"], "required"),
                accepted_tee: texts(&v["attestation"]["accepted_tee"]),
                measurement_policy_ref: text(&v["attestation"], "measurement_policy_ref"),
            },
        },
        "threshold_recovery" => KeyslotKind::ThresholdRecovery {
            scheme: text(v, "scheme"),
            m: number(v, "m"),
            n: number(v, "n"),
        },
        other => panic!("unknown kind {other}"),
    };
    Keyslot::new(number(v, "slot"), status, kind)
}

fn read_keyslot_text(json: &str) -> Keyslot {
    read_keyslot(&serde_json::from_str(json).expect("valid json"))
}

#[test]
fn kem_roundtrip_classical_and_pqc() {
    for kem in [DeterministicKem::x25519(), DeterministicKem::ml_kem_768()] {
        let (ek, dk) = kem.generate_keypair(b"seed-A");
        let (ct, ss_enc) = kem.encapsulate(&ek, b"enc-rand");
        let ss_dec = kem.decapsulate(&dk, &ct).ok().expect("decap");
        assert!(ss_enc == ss_dec, "{} roundtrip", kem.algorithm());
        assert!(ss_enc.is_live());
    }
}

#[test]
fn kem_decap_rejects_empty_ciphertext() {
    let kem = DeterministicKem::ml_kem_768();
    let (_ek, dk) = kem.generate_keypair(b"s");
    assert_eq!(
        kem.decapsulate(&dk, &KemCiphertext(vec![])).err(),
        Some(CryptoError::Decapsulation)
    );
}

#[test]
fn signer_sign_verify_and_tamper() {
    let signer = DeterministicSigner::ml_dsa_65("lab-pq-2026", b"sk-seed");
    let v = signer.to_verifier();
    let sig = signer.sign(b"disk-manifest-bytes");
    assert!(v.verify(b"disk-manifest-bytes", &sig));
    // Tampered message.
    assert!(!v.verify(b"disk-manifest-bytez", &sig));
    // Declared size honored (realistic budgeting).
    assert_eq!(sig.bytes.len(), 3309);
}

#[test]
fn verifier_rejects_wrong_key_or_alg() {
    let a = DeterministicSigner::ml_dsa_65("key-a", b"seed-a");
    let b = DeterministicSigner::ml_dsa_65("key-b", b"seed-b");
    let sig = a.sign(b"m");
    assert!(!b.to_verifier().verify(b"m", &sig)); // wrong key
    let slh = DeterministicSigner::slh_dsa_128s("key-a", b"seed-a");
    assert!(!slh.to_verifier().verify(b"m", &sig)); // wrong alg
}

#[test]
fn shared_secret_never_leaks_in_debug() {
    let ss = SharedSecret::from_bytes([7u8; 32]);
    assert_eq!(ss.redacted(), "SharedSecret(****)");
}

fn ctx() -> CombinerContext {
    CombinerContext {
        volume_id: "vol-1".into(),
        device_id: "pn52-lab-001".into(),
        policy_id: "policy-prod-v4".into(),
        policy_version: 42,
        algorithm_suite: KemSuite::transition_768(),
        boot_measurement: "sha384:bootmeas".into(),
    }
}

#[test]
fn deterministic_for_same_inputs() {
    let c = SharedSecret::from_bytes([1u8; 32]);
    let p = SharedSecret::from_bytes([2u8; 32]);
    let k1 = hybrid_combine(&c, &p, b"transcript", &ctx(), 32).ok().unwrap();
    let k2 = hybrid_combine(&c, &p, b"transcript", &ctx(), 32).ok().unwrap();
    assert!(k1 == k2);
    assert_eq!(k1.len(), 32);
}

#[test]
fn fails_closed_on_dead_secret() {
    let live = SharedSecret::from_bytes([1u8; 32]);
    let dead = SharedSecret::from_bytes([0u8; 32]);
    assert_eq!(
        hybrid_combine(&dead, &live, b"t", &ctx(), 32).err(),
        Some(CryptoError::EmptySharedSecret)
    );
    assert_eq!(
        hybrid_combine(&live, &dead, b"t", &ctx(), 32).err(),
        Some(CryptoError::EmptySharedSecret)
    );
}

#[test]
fn context_is_bound_into_kek() {
    let c = SharedSecret::from_bytes([1u8; 32]);
    let p = SharedSecret::from_bytes([2u8; 32]);
    let base = hybrid_combine(&c, &p, b"t", &ctx(), 32).ok().unwrap();

    // Changing the suite, policy version, or boot measurement => different KEK.
    let mut other = ctx();
    other.policy_version = 43;
    assert!(hybrid_combine(&c, &p, b"t", &other, 32).ok().unwrap() != base);

    let mut other2 = ctx();
    other2.algorithm_suite = KemSuite::high_assurance_1024();
    assert!(hybrid_combine(&c, &p, b"t", &other2, 32).ok().unwrap() != base);

    let mut other3 = ctx();
    other3.boot_measurement = "sha384:tampered".into();
    assert!(hybrid_combine(&c, &p, b"t", &other3, 32).ok().unwrap() != base);
}

#[test]
fn transcript_is_bound() {
    let c = SharedSecret::from_bytes([1u8; 32]);
    let p = SharedSecret::from_bytes([2u8; 32]);
    let a = hybrid_combine(&c, &p, b"transcript-A", &ctx(), 32).ok().unwrap();
    let b = hybrid_combine(&c, &p, b"transcript-B", &ctx(), 32).ok().unwrap();
    assert!(a != b);
}

#[test]
fn order_of_legs_matters() {
    // ss_classical||ss_pqc must not equal ss_pqc||ss_classical.
    let a = SharedSecret::from_bytes([1u8; 32]);
    let b = SharedSecret::from_bytes([2u8; 32]);
    let k1 = hybrid_combine(&a, &b, b"t", &ctx(), 32).ok().unwrap();
    let k2 = hybrid_combine(&b, &a, b"t", &ctx(), 32).ok().unwrap();
    assert!(k1 != k2);
}

fn argon2() -> Keyslot {
    Keyslot::new(
        0,
        KeyslotStatus::Active,
        KeyslotKind::Argon2idPassphrase {
            kdf: Argon2idKdf {
                algorithm: "argon2id".into(),
                memory_kib: 1024,
                time_cost: 3,
                parallelism: 1,
            },
            wrap: WrapSpec {
                algorithm: "aes-256-gcm".into(),
                wrapped_key_ref: "ref".into(),
            },
        },
    )
}

fn hybrid() -> Keyslot {
    Keyslot::new(
        2,
        KeyslotStatus::Active,
        KeyslotKind::HybridRemoteKms {
            kem: KemSuite::transition_768(),
            attestation: KmsAttestation {
                required: true,
                accepted_tee: vec!["amd-sev-snp".into()],
                measurement_policy_ref: "p".into(),
            },
        },
    )
}

#[test]
fn builder_uses_custom_ids() {
    let h = KeyHierarchyBuilder::new()
        .org("acme")
        .tenant("proj-x")
        .device("pn52-001")
        .build();
    assert!(h.root.id.contains("acme"));
}

#[test]
fn wrapping_chain_hybrid_includes_pqc_and_ends_in_dek() {
    let chain = KeyHierarchy::standard().wrapping_chain(&hybrid());
    assert_eq!(chain.first(), Some(&KeyClass::Kek));
    assert!(chain.contains(&KeyClass::RemoteKmsKey));
    assert!(chain.contains(&KeyClass::PqcWrappedKey));
    assert_eq!(chain.last(), Some(&KeyClass::Dek));
}

#[test]
fn wrapping_chain_argon2_goes_via_user_key() {
    let chain = KeyHierarchy::standard().wrapping_chain(&argon2());
    assert!(chain.contains(&KeyClass::DeviceKey));
    assert!(chain.contains(&KeyClass::UserKey));
    assert!(!chain.contains(&KeyClass::PqcWrappedKey));
    assert_eq!(chain.last(), Some(&KeyClass::Dek));
}

#[test]
fn rotation_cadence_is_defined_per_class() {
    assert_eq!(KeyHierarchy::rotation_for(KeyClass::Dek), RotationCadence::PerBoot);
    assert_eq!(
        KeyHierarchy::rotation_for(KeyClass::RecoveryKey),
        RotationCadence::OnCompromise
    );
}

fn argon2_slot() -> Keyslot {
    Keyslot::new(
        0,
        KeyslotStatus::Active,
        KeyslotKind::Argon2idPassphrase {
            kdf: Argon2idKdf {
                algorithm: "argon2id".into(),
                memory_kib: 1_048_576,
                time_cost: 3,
                parallelism: 4,
            },
            wrap: WrapSpec {
                algorithm: "aes-256-gcm".into(),
                wrapped_key_ref: "blob:slot0".into(),
            },
        },
    )
}

fn hybrid_slot() -> Keyslot {
    Keyslot::new(
        2,
        KeyslotStatus::Active,
        KeyslotKind::HybridRemoteKms {
            kem: KemSuite::transition_768(),
            attestation: KmsAttestation {
                required: true,
                accepted_tee: vec!["amd-sev-snp".into(), "intel-tdx".into()],
                measurement_policy_ref: "pol-meas-v3".into(),
            },
        },
    )
}

#[test]
fn argon2_slot_round_trips_flat_shape() {
    let slot = argon2_slot();
    let json = slot.to_value().to_compact();
    // The kind tag is flattened in as a sibling field.
    assert!(json.contains(r#""kind":"argon2id_passphrase""#));
    assert!(json.contains(r#""memory_kib":1048576"#));
    let back = read_keyslot_text(&json);
    assert_eq!(back, slot);
}

#[test]
fn hybrid_slot_round_trips_and_exposes_suite() {
    let slot = hybrid_slot();
    let json = slot.to_value().to_compact();
    assert!(json.contains(r#""kind":"hybrid_remote_kms""#));
    assert!(json.contains(r#""pqc":"ml-kem-768""#));
    let back = read_keyslot_text(&json);
    assert_eq!(back, slot);
    assert_eq!(back.kem_suite().unwrap().pqc, "ml-kem-768");
}

#[test]
fn deserializes_pad_shape() {
    let src = r#"{
        "slot": 5,
        "status": "disabled_until_break_glass",
        "kind": "tpm2_sealed",
        "pcrs": ["sha384:pcr7", "sha384:pcr11"],
        "requires_pin": true,
        "signed_pcr_policy": true
    }"#;
    let slot = read_keyslot_text(src);
    assert_eq!(slot.slot, 5);
    assert_eq!(slot.status, KeyslotStatus::DisabledUntilBreakGlass);
    assert!(!slot.is_active());
    match slot.kind {
        KeyslotKind::Tpm2Sealed {
            ref pcrs,
            requires_pin,
            signed_pcr_policy,
        } => {
            assert_eq!(pcrs.len(), 2);
            assert!(requires_pin);
            assert!(signed_pcr_policy);
        }
        _ => panic!("wrong kind"),
    }
}

#[test]
fn threshold_round_trips() {
    let slot = Keyslot::new(
        3,
        KeyslotStatus::Retired,
        KeyslotKind::ThresholdRecovery {
            scheme: "shamir-gf256".into(),
            m: 3,
            n: 5,
        },
    );
    let json = slot.to_value().to_compact();
    let back = read_keyslot_text(&json);
    assert_eq!(back, slot);
}

#[test]
fn classical_only_and_hybrid_helpers() {
    assert!(argon2_slot().classical_only());
    assert!(!argon2_slot().is_hybrid());

    let h = hybrid_slot();
    assert!(h.is_hybrid());
    assert!(!h.classical_only());

    // A hybrid slot with the PQC leg stripped is classical-only (downgrade).
    let stripped = Keyslot::new(
        2,
        KeyslotStatus::Active,
        KeyslotKind::HybridRemoteKms {
            kem: KemSuite {
                classical: "x25519".into(),
                pqc: "".into(),
                combiner: "hkdf-sha384".into(),
            },
            attestation: KmsAttestation {
                required: true,
                accepted_tee: vec!["amd-sev-snp".into()],
                measurement_policy_ref: "pol".into(),
            },
        },
    );
    assert!(stripped.is_hybrid());
    assert!(stripped.classical_only());
}

#[test]
fn standard_hierarchy_is_rooted_at_the_organisation_key() {
    let h = KeyHierarchy::standard();
    assert_eq!(h.root.class, KeyClass::Kek);
}

#[test]
fn combined_key_equals_the_extracted_and_expanded_key() {
    let c = SharedSecret::from_bytes([1u8; 32]);
    let p = SharedSecret::from_bytes([2u8; 32]);
    let kek = hybrid_combine(&c, &p, b"t", &ctx(), 64).ok().unwrap();
    let salt = <sha2::Sha384 as sha2::Digest>::digest(b"t");
    let mut ikm = vec![1u8; 32];
    ikm.extend_from_slice(&[2u8; 32]);
    let mut info = b"storage-unlock-v1".to_vec();
    info.extend_from_slice(&ctx().to_bytes());
    let mut want = vec![0u8; 64];
    hkdf::Hkdf::<sha2::Sha384>::new(Some(&salt), &ikm).expand(&info, &mut want).unwrap();
    assert_eq!(kek.expose(|b: &[u8]| b.to_vec()), want);
    assert_eq!(kek.redacted(), "Kek(**** 64 bytes)");
}

#[test]
fn combined_key_is_made_of_chained_tags() {
    let tag = |key: &[u8], data: &[u8]| {
        let mut m = <hmac::Hmac<sha2::Sha384> as hmac::Mac>::new_from_slice(key).unwrap();
        hmac::Mac::update(&mut m, data);
        hmac::Mac::finalize(m).into_bytes().to_vec()
    };
    let c = SharedSecret::from_bytes([1u8; 32]);
    let p = SharedSecret::from_bytes([2u8; 32]);
    let salt = <sha2::Sha384 as sha2::Digest>::digest(b"t");
    let mut ikm = vec![1u8; 32];
    ikm.extend_from_slice(&[2u8; 32]);
    let prk = tag(&salt, &ikm);
    let mut info = b"storage-unlock-v1".to_vec();
    info.extend_from_slice(&ctx().to_bytes());
    let mut block = Vec::new();
    let mut want = Vec::new();
    for n in 1..=255u8 {
        block.extend_from_slice(&info);
        block.push(n);
        block = tag(&prk, &block);
        want.extend_from_slice(&block);
    }
    for len in [0, 1, 48, 49, 100, 12240] {
        let kek = hybrid_combine(&c, &p, b"t", &ctx(), len).ok().unwrap();
        assert_eq!(kek.expose(|b: &[u8]| b.to_vec()), want[..len].to_vec());
    }
}

#[test]
fn suites_with_a_plus_sign_give_different_keys() {
    let key = |classical: &str, pqc: &str| {
        let mut context = ctx();
        context.algorithm_suite.classical = classical.to_string();
        context.algorithm_suite.pqc = pqc.to_string();
        let c = SharedSecret::from_bytes([1u8; 32]);
        let p = SharedSecret::from_bytes([2u8; 32]);
        hybrid_combine(&c, &p, b"t", &context, 32).ok().unwrap().expose(|b: &[u8]| b.to_vec())
    };
    assert_ne!(key("a+b", "c"), key("a", "b+c"));
    assert_ne!(key("a+b", "c"), key("a%2Bb", "c"));
    assert_eq!(key("a+b", "c"), key("a+b", "c"));
}

#[test]
fn key_that_is_too_long_is_refused() {
    let c = SharedSecret::from_bytes([1u8; 32]);
    let p = SharedSecret::from_bytes([2u8; 32]);
    assert_eq!(hybrid_combine(&c, &p, b"t", &ctx(), 12240).ok().unwrap().len(), 12240);
    assert_eq!(hybrid_combine(&c, &p, b"t", &ctx(), 12241).err(), Some(CryptoError::Hkdf));
}

#[test]
fn decapsulation_rejects_an_empty_key() {
    let kem = DeterministicKem::ml_kem_1024();
    let (ek, _dk) = kem.generate_keypair(b"s");
    let (ct, _ss) = kem.encapsulate(&ek, b"r");
    assert_eq!(
        kem.decapsulate(&DecapKey(vec![]), &ct).err(),
        Some(CryptoError::BadKeyLength { expected: 32, got: 0 })
    );
}

#[test]
fn signature_begins_with_the_tag() {
    let signer = DeterministicSigner::ecdsa_p384("k", b"seed");
    let sig = signer.sign(b"m");
    assert_eq!(sig.bytes.len(), 104);
    let mut material = b"qrse:sig:sk".to_vec();
    for part in [&b"ecdsa-p384"[..], b"k", b"seed"] {
        material.extend_from_slice(&(part.len() as u64).to_be_bytes());
        material.extend_from_slice(part);
    }
    let secret = <sha2::Sha384 as sha2::Digest>::digest(&material);
    let mut mac = <hmac::Hmac<sha2::Sha384> as hmac::Mac>::new_from_slice(&secret[..32]).unwrap();
    hmac::Mac::update(&mut mac, b"ecdsa-p384|m");
    let tag = hmac::Mac::finalize(mac).into_bytes();
    assert_eq!(&sig.bytes[..48], &tag[..]);
    // What follows the tag is padding that is not looked at.
    let mut other = sig.clone();
    other.bytes[60] ^= 1;
    assert!(signer.to_verifier().verify(b"m", &other));
    other.bytes[47] ^= 1;
    assert!(!signer.to_verifier().verify(b"m", &other));
    other.bytes.truncate(47);
    assert!(!signer.to_verifier().verify(b"m", &other));
}

#[test]
fn crypto_errors_show_what_is_wrong() {
    assert_eq!(CryptoError::EmptySharedSecret.message(), "empty or zero shared secret");
    assert_eq!(CryptoError::Hkdf.message(), "hkdf expand failed");
    assert_eq!(
        CryptoError::BadKeyLength { expected: 32, got: 0 }.message(),
        "key material has wrong length: expected 32, got 0"
    );
    assert_eq!(
        CryptoError::UnsupportedAlgorithm("rot13".to_string()).message(),
        "algorithm `rot13` is not supported"
    );
}

#[test]
fn wire_form_keeps_the_names_apart() {
    let suite = |c: &str, p: &str, k: &str| KemSuite {
        classical: c.to_string(),
        pqc: p.to_string(),
        combiner: k.to_string(),
    };
    assert_eq!(suite("a", "b", "c").canonical(), "a+b+c");
    assert_eq!(suite("a", "b", "c+d").canonical(), "a+b+c%2Bd");
    assert_eq!(suite("a%2Bb", "", "%").canonical(), "a%252Bb++%25");
    assert_ne!(suite("a", "bc", "d").canonical(), suite("ab", "c", "d").canonical());
    assert_ne!(suite("a+b", "c", "d").canonical(), suite("a", "b+c", "d").canonical());
    assert_ne!(suite("a+b", "c", "d").canonical(), suite("a%2Bb", "c", "d").canonical());
}

#[test]
fn keys_of_the_tree_rotate_as_their_class_does() {
    let org = KeyHierarchy::standard().root;
    assert_eq!(org.rotation, KeyHierarchy::rotation_for(org.class));
    let tenant = &org.children[0];
    for device in &tenant.children {
        assert_eq!(device.rotation, KeyHierarchy::rotation_for(device.class));
    }
}
