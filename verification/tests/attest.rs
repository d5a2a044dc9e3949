//! Measured boot and attested key release.
use hyper_slate::attest::kms::{
    AttestError, AttestedUnlockEvidence, KeyReleaseDecision, KeyReleaseRequest, KmsPolicy,
    KmsSimulator, SuiteBinding, SuitedKeyReleaseRequest, ATTESTED_UNLOCK_FORMAT, KMS_POLICY_ID,
};
use hyper_slate::attest::pcr::{BootMeasurement, PcrBank, PCR0, PCR11, PCR7};
use hyper_slate::attest::secret::SecretHandle;
use hyper_slate::primitives;
use hyper_slate::receipts::chain::ReceiptChain;
use serde_json::Value;

fn expected_pcrs() -> PcrBank {
    let mut p = PcrBank::new();
    p.set(PCR0, "sha384:p0").set(PCR7, "sha384:p7").set(PCR11, "sha384:p11");
    p
}

fn policy() -> KmsPolicy {
    KmsPolicy {
        expected_pcrs: expected_pcrs(),
        min_hypervisor_version: 5,
        allowed_capsule_hashes: vec!["sha384:capsule-good".to_string()],
        expected_boot_policy_hash: "sha384:bootpol-good".to_string(),
    }
}

fn good_request() -> KeyReleaseRequest {
    KeyReleaseRequest {
        request_type: "key_release".to_string(),
        device_id: "dev-1".to_string(),
        vm_id: "vm-1".to_string(),
        capsule_hash: "sha384:capsule-good".to_string(),
        boot_policy_hash: "sha384:bootpol-good".to_string(),
        pcrs: expected_pcrs(),
        hypervisor_version: 7,
        nonce: "nonce-0001".to_string(),
    }
}

fn text(v: &Value, key: &str) -> String {
    v[key].as_str().expect("text member").to_string()
}

fn read_bank(v: &Value) -> PcrBank {
    let mut bank = PcrBank::new();
    for (k, d) in v.as_object().expect("bank is an object") {
        bank.set(k.parse().expect("register number"), d.as_str().expect("digest"));
    }
    bank
}

fn read_request(v: &Value) -> KeyReleaseRequest {
    KeyReleaseRequest {
        request_type: text(v, "request_type"),
        device_id: text(v, "device_id"),
        vm_id: text(v, "vm_id"),
        capsule_hash: text(v, "capsule_hash"),
        boot_policy_hash: text(v, "boot_policy_hash"),
        pcrs: read_bank(&v["pcrs"]),
        hypervisor_version: v["hypervisor_version"].as_u64().expect("version"),
        nonce: text(v, "nonce"),
    }
}

fn read_suite(v: Option<&Value>) -> Option<SuiteBinding> {
    match v {
        None | Some(Value::Null) => None,
        Some(s) => Some(SuiteBinding {
            classical: text(s, "classical"),
            pqc: text(s, "pqc"),
            combiner: text(s, "combiner"),
        }),
    }
}

fn read_suited(json: &str) -> SuitedKeyReleaseRequest {
    let v: Value = serde_json::from_str(json).expect("valid json");
    SuitedKeyReleaseRequest { request: read_request(&v["request"]), suite: read_suite(v.get("suite")) }
}

#[test]
fn sha384_hex_matches_receipts_format() {
    let h = primitives::sha384_hex(b"");
    assert!(h.starts_with("sha384:"));
    assert_eq!(
        h,
        "sha384:38b060a751ac96384cd9327eb1b1e36a21fdb71114be07434c0cc7bf63f6e1da274edebfe76f65fbd51ad2f14898b95b"
    );
}

#[test]
fn end_to_end_attested_unlock() {
    let mut pcrs = PcrBank::new();
    pcrs.set(PCR0, "sha384:fw").set(PCR7, "sha384:sb").set(PCR11, "sha384:kern");
    let measurement = BootMeasurement::new("uefi", "kernel", "sha384:bp", "sha384:cap", pcrs.clone());

    let policy = KmsPolicy {
        expected_pcrs: pcrs.clone(),
        min_hypervisor_version: 1,
        allowed_capsule_hashes: vec![measurement.capsule_manifest_hash.clone()],
        expected_boot_policy_hash: measurement.boot_policy_hash.clone(),
    };

    let req = KeyReleaseRequest {
        request_type: "key_release".to_string(),
        device_id: "dev".to_string(),
        vm_id: "vm-x".to_string(),
        capsule_hash: measurement.capsule_manifest_hash.clone(),
        boot_policy_hash: measurement.boot_policy_hash.clone(),
        pcrs,
        hypervisor_version: 9,
        nonce: "n-1".to_string(),
    };

    let sim = KmsSimulator::new(policy);
    let mut chain = ReceiptChain::new();
    let decision = sim.evaluate(&req, &mut chain);
    assert!(decision.is_allow());
    assert_eq!(chain.verify(), Ok(()));
}

#[test]
fn set_get_round_trips() {
    let mut bank = PcrBank::new();
    bank.set(PCR0, "sha384:aa").set(PCR7, "sha384:bb");
    assert_eq!(bank.get(PCR0), Some("sha384:aa"));
    assert_eq!(bank.get(PCR7), Some("sha384:bb"));
    assert_eq!(bank.get(PCR11), None);
    assert_eq!(bank.len(), 2);
    assert!(!bank.is_empty());
}

#[test]
fn iteration_is_ascending_and_deterministic() {
    let mut a = PcrBank::new();
    a.set(PCR11, "c").set(PCR0, "a").set(PCR7, "b");
    let order: Vec<u8> = a.iter().into_iter().map(|(k, _)| k).collect();
    assert_eq!(order, vec![PCR0, PCR7, PCR11]);
}

#[test]
fn satisfies_requires_every_expected_register() {
    let mut expected = PcrBank::new();
    expected.set(PCR0, "x").set(PCR7, "y");

    let mut actual = PcrBank::new();
    actual.set(PCR0, "x").set(PCR7, "y").set(PCR11, "extra");
    // Extra registers are allowed.
    assert!(actual.satisfies(&expected));
    assert_eq!(actual.first_mismatch(&expected), None);
}

#[test]
fn missing_expected_register_is_a_mismatch() {
    let mut expected = PcrBank::new();
    expected.set(PCR0, "x").set(PCR7, "y");
    let mut actual = PcrBank::new();
    actual.set(PCR0, "x");
    assert!(!actual.satisfies(&expected));
    assert_eq!(actual.first_mismatch(&expected), Some(PCR7));
}

#[test]
fn differing_digest_is_a_mismatch() {
    let mut expected = PcrBank::new();
    expected.set(PCR7, "good");
    let mut actual = PcrBank::new();
    actual.set(PCR7, "evil");
    assert_eq!(actual.first_mismatch(&expected), Some(PCR7));
}

#[test]
fn pcr_bank_json_is_a_map() {
    let mut bank = PcrBank::new();
    bank.set(PCR0, "sha384:aa");
    let json = bank.to_value().to_compact();
    assert_eq!(json, r#"{"0":"sha384:aa"}"#);
    let back = read_bank(&serde_json::from_str(&json).unwrap());
    assert_eq!(back, bank);
}

#[test]
fn pcr_bank_json_is_in_register_order() {
    assert_eq!(
        expected_pcrs().to_value().to_compact(),
        r#"{"0":"sha384:p0","7":"sha384:p7","11":"sha384:p11"}"#
    );
    assert_eq!(PcrBank::default().to_value().to_compact(), "{}");
    assert!(PcrBank::default().is_empty());
}

#[test]
fn len_and_expose_work() {
    let h = SecretHandle::new(vec![1, 2, 3, 4]);
    assert_eq!(h.len(), 4);
    assert!(!h.is_empty());
    let sum: u32 = h.expose(|b: &[u8]| b.iter().map(|&x| x as u32).sum());
    assert_eq!(sum, 10);
}

#[test]
fn zeroize_overwrites_but_keeps_length() {
    let mut h = SecretHandle::new(vec![9, 9, 9, 9, 9]);
    h.zeroize();
    assert_eq!(h.len(), 5);
    h.expose(|b: &[u8]| assert!(b.iter().all(|&x| x == 0)));
}

#[test]
fn debug_never_prints_contents() {
    let h = SecretHandle::new(vec![0xde, 0xad, 0xbe, 0xef]);
    let rendered = h.redacted();
    assert!(rendered.contains("len"));
    assert!(rendered.contains("redacted"));
    assert!(!rendered.contains("222")); // 0xde == 222 decimal
    assert!(!rendered.contains("de")); // hex form
    assert_eq!(rendered, "SecretHandle { len: 4, bytes: \"<redacted>\" }");
}

#[test]
fn drop_zeroizes_via_zeroize_path() {
    let mut h = SecretHandle::new(vec![7; 32]);
    h.zeroize();
    h.expose(|b: &[u8]| assert!(b.iter().all(|&x| x == 0)));
    drop(h); // must not panic
}

#[test]
fn matching_request_allows_and_chain_verifies() {
    let sim = KmsSimulator::new(policy());
    let mut chain = ReceiptChain::new();
    let decision = sim.evaluate(&good_request(), &mut chain);

    match decision {
        KeyReleaseDecision::Allow { wrapped_vmk, receipt_json } => {
            assert_eq!(wrapped_vmk.len(), 48); // SHA-384 = 48 bytes
            assert!(receipt_json.contains("key_release"));
            assert!(receipt_json.contains("allow"));
        }
        KeyReleaseDecision::Deny { reason } => panic!("expected allow, got deny: {reason}"),
    }

    assert_eq!(chain.len(), 1);
    assert_eq!(chain.verify(), Ok(()));
    assert_eq!(chain.receipts()[0].event, "key_release");
    assert_eq!(chain.receipts()[0].decision, "allow");
}

#[test]
fn pcr_mismatch_denies() {
    let sim = KmsSimulator::new(policy());
    let mut chain = ReceiptChain::new();
    let mut req = good_request();
    req.pcrs.set(PCR7, "sha384:tampered");

    let decision = sim.evaluate(&req, &mut chain);
    assert!(!decision.is_allow());
    assert!(decision.deny_reason().unwrap().starts_with("pcr_mismatch"));
    // Deny still recorded for audit, and the chain stays valid.
    assert_eq!(chain.len(), 1);
    assert_eq!(chain.receipts()[0].decision, "deny");
    assert_eq!(chain.verify(), Ok(()));
}

#[test]
fn modified_boot_policy_denies_v9() {
    let sim = KmsSimulator::new(policy());
    let mut chain = ReceiptChain::new();
    let mut req = good_request();
    req.boot_policy_hash = "sha384:bootpol-EVIL".to_string();

    let decision = sim.evaluate(&req, &mut chain);
    assert!(!decision.is_allow());
    assert!(decision.deny_reason().unwrap().starts_with("boot_policy_hash_mismatch"));
    assert_eq!(chain.verify(), Ok(()));
}

#[test]
fn non_allowlisted_capsule_denies() {
    let sim = KmsSimulator::new(policy());
    let mut chain = ReceiptChain::new();
    let mut req = good_request();
    req.capsule_hash = "sha384:capsule-unknown".to_string();

    let decision = sim.evaluate(&req, &mut chain);
    assert!(!decision.is_allow());
    assert!(decision.deny_reason().unwrap().starts_with("capsule_not_allowlisted"));
}

#[test]
fn below_minimum_version_denies() {
    let sim = KmsSimulator::new(policy());
    let mut chain = ReceiptChain::new();
    let mut req = good_request();
    req.hypervisor_version = 4; // min is 5

    let decision = sim.evaluate(&req, &mut chain);
    assert!(!decision.is_allow());
    assert!(decision.deny_reason().unwrap().starts_with("hypervisor_version_below_minimum"));
}

#[test]
fn deny_reasons_are_exact() {
    let sim = KmsSimulator::new(policy());
    let mut req = good_request();
    assert_eq!(sim.deny_reason_for(&req), None);
    req.hypervisor_version = 4;
    assert_eq!(
        sim.deny_reason_for(&req),
        Some("hypervisor_version_below_minimum: 4 < 5".to_string())
    );
    req.capsule_hash = "c".to_string();
    assert_eq!(sim.deny_reason_for(&req), Some("capsule_not_allowlisted: c".to_string()));
    req.pcrs.set(PCR11, "other");
    assert_eq!(sim.deny_reason_for(&req), Some("pcr_mismatch: pcr11".to_string()));
    req.boot_policy_hash = "b".to_string();
    assert_eq!(
        sim.deny_reason_for(&req),
        Some("boot_policy_hash_mismatch: expected sha384:bootpol-good, got b".to_string())
    );
}

#[test]
fn boot_policy_checked_before_other_gates() {
    // Everything wrong at once -> boot policy reported first.
    let sim = KmsSimulator::new(policy());
    let mut chain = ReceiptChain::new();
    let mut req = good_request();
    req.boot_policy_hash = "evil".to_string();
    req.capsule_hash = "evil".to_string();
    req.hypervisor_version = 0;
    req.pcrs = PcrBank::new();

    let decision = sim.evaluate(&req, &mut chain);
    assert!(decision.deny_reason().unwrap().starts_with("boot_policy_hash_mismatch"));
}

#[test]
fn wrapped_vmk_is_deterministic() {
    let sim = KmsSimulator::new(policy());
    let a = sim.simulated_wrapped_vmk(&good_request());
    let b = sim.simulated_wrapped_vmk(&good_request());
    let ba = a.expose(|x: &[u8]| x.to_vec());
    let bb = b.expose(|x: &[u8]| x.to_vec());
    assert_eq!(ba, bb);
}

#[test]
fn wrapped_vmk_depends_on_the_request() {
    let sim = KmsSimulator::new(policy());
    let a = sim.simulated_wrapped_vmk(&good_request()).expose(|x: &[u8]| x.to_vec());
    let mut other = good_request();
    other.vm_id = "vm-2".to_string();
    let b = sim.simulated_wrapped_vmk(&other).expose(|x: &[u8]| x.to_vec());
    assert_ne!(a, b);
    // The hash is over the fields with a zero byte between them.
    let want = primitives::sha384_hex(
        b"vmk-wrap\0dev-1\0vm-1\0sha384:capsule-good\0sha384:bootpol-good",
    );
    assert_eq!(format!("sha384:{}", hex::encode(&a)), want);
}

#[test]
fn inputs_hash_is_deterministic_and_prefixed() {
    let req = good_request();
    let h1 = req.inputs_hash();
    let h2 = req.inputs_hash();
    assert_eq!(h1, h2);
    assert!(h1.starts_with("sha384:"));
}

#[test]
fn request_json_round_trips() {
    let req = good_request();
    let json = req.to_json().unwrap();
    let back = read_request(&serde_json::from_str(&json).unwrap());
    assert_eq!(back, req);
}

#[test]
fn suite_binding_builders_and_canonical() {
    let s = SuiteBinding::transition_768();
    assert_eq!(s.classical, "x25519");
    assert_eq!(s.pqc, "ml-kem-768");
    assert_eq!(s.combiner, "hkdf-sha384");
    assert_eq!(s.canonical(), "x25519+ml-kem-768+hkdf-sha384");

    let h = SuiteBinding::high_assurance_1024();
    assert_eq!(h.canonical(), "x25519+ml-kem-1024+hkdf-sha384");

    let c = SuiteBinding::new("a", "b", "c");
    assert_eq!(c.canonical(), "a+b+c");
    assert_eq!(SuiteBinding::default(), SuiteBinding::new("", "", ""));
}

#[test]
fn attested_unlock_constructor_builds_pcr0_7_11_request() {
    let req = KeyReleaseRequest::attested_unlock(
        "dev-1",
        "vm-1",
        "sha384:capsule-good",
        "sha384:bootpol-good",
        "sha384:p0",
        "sha384:p7",
        "sha384:p11",
        7,
        "nonce-0001",
    );
    assert_eq!(req.request_type, "key_release");
    assert_eq!(req.pcrs.get(PCR0), Some("sha384:p0"));
    assert_eq!(req.pcrs.get(PCR7), Some("sha384:p7"));
    assert_eq!(req.pcrs.get(PCR11), Some("sha384:p11"));
    assert_eq!(req.pcrs.len(), 3);
    // It satisfies the standard policy and is allowed.
    let sim = KmsSimulator::new(policy());
    let mut chain = ReceiptChain::new();
    assert!(sim.evaluate(&req, &mut chain).is_allow());
}

#[test]
fn with_suite_does_not_alter_base_request_or_decision() {
    let base = good_request();
    let suited = base.clone().with_suite(SuiteBinding::transition_768());
    // The request inside is the original.
    assert_eq!(suited.request, base);
    assert_eq!(suited.suite, Some(SuiteBinding::transition_768()));

    let sim = KmsSimulator::new(policy());
    let mut a = ReceiptChain::new();
    let mut b = ReceiptChain::new();
    let d_base = sim.evaluate(&base, &mut a);
    let d_suited = sim.evaluate_suited(&suited, &mut b);
    assert_eq!(d_base.is_allow(), d_suited.is_allow());
    // Same inputs_hash => suite carriage didn't perturb the canonical request.
    assert_eq!(a.receipts()[0].inputs_hash, b.receipts()[0].inputs_hash);
}

#[test]
fn evidence_minted_on_allow_with_all_gates_true() {
    let sim = KmsSimulator::new(policy());
    let mut chain = ReceiptChain::new();
    let req = good_request();
    let decision = sim.evaluate(&req, &mut chain);
    let suite = SuiteBinding::high_assurance_1024();
    let ev = sim
        .attested_unlock_evidence(&req, Some(&suite), &decision)
        .expect("allow yields evidence");
    assert_eq!(ev.format, ATTESTED_UNLOCK_FORMAT);
    assert_eq!(ev.device_id, "dev-1");
    assert_eq!(ev.vm_id, "vm-1");
    assert_eq!(ev.suite, Some(suite));
    assert!(ev.pcr_match);
    assert!(ev.boot_policy_match);
    assert!(ev.capsule_allowlisted);
    assert!(ev.hypervisor_version_ok);
    assert_eq!(ev.policy_id, KMS_POLICY_ID);
    assert_eq!(ev.inputs_hash, req.inputs_hash());
}

#[test]
fn no_evidence_on_deny_fail_closed() {
    let sim = KmsSimulator::new(policy());
    let mut chain = ReceiptChain::new();
    let mut req = good_request();
    req.boot_policy_hash = "sha384:bootpol-EVIL".to_string();
    let decision = sim.evaluate(&req, &mut chain);
    assert!(!decision.is_allow());
    // Fail-closed: no positive unlock evidence for a denied request.
    assert!(sim.attested_unlock_evidence(&req, None, &decision).is_none());
}

#[test]
fn evidence_suited_forwards_carried_suite() {
    let sim = KmsSimulator::new(policy());
    let mut chain = ReceiptChain::new();
    let suited = good_request().with_suite(SuiteBinding::transition_768());
    let decision = sim.evaluate_suited(&suited, &mut chain);
    let ev = sim
        .attested_unlock_evidence_suited(&suited, &decision)
        .expect("allow yields evidence");
    assert_eq!(ev.suite, Some(SuiteBinding::transition_768()));
    // No suite carried => None in evidence.
    let bare = SuitedKeyReleaseRequest::new(good_request());
    let d2 = sim.evaluate_suited(&bare, &mut chain);
    let ev2 = sim.attested_unlock_evidence_suited(&bare, &d2).unwrap();
    assert_eq!(ev2.suite, None);
}

#[test]
fn suited_request_json_round_trips_and_is_backward_compatible() {
    let suited = good_request().with_suite(SuiteBinding::transition_768());
    let json = suited.to_json().unwrap();
    let back = read_suited(&json);
    assert_eq!(back, suited);
    assert!(json.contains("\"request\""));
    assert!(json.contains("\"suite\""));

    // A bare carrier (no suite) round-trips with suite => None.
    let bare = SuitedKeyReleaseRequest::new(good_request());
    let bare_back = read_suited(&bare.to_json().unwrap());
    assert_eq!(bare_back.request, good_request());
    assert_eq!(bare_back.suite, None);

    // A payload that omits the suite reads as one without.
    let no_suite = format!("{{\"request\":{}}}", good_request().to_json().unwrap());
    let parsed = read_suited(&no_suite);
    assert_eq!(parsed.request, good_request());
    assert_eq!(parsed.suite, None);
}

#[test]
fn evidence_json_round_trips() {
    let sim = KmsSimulator::new(policy());
    let mut chain = ReceiptChain::new();
    let req = good_request();
    let decision = sim.evaluate(&req, &mut chain);
    let ev = sim
        .attested_unlock_evidence(&req, Some(&SuiteBinding::transition_768()), &decision)
        .unwrap();
    let json = ev.to_json().unwrap();
    assert!(json.contains(ATTESTED_UNLOCK_FORMAT));
    let v: Value = serde_json::from_str(&json).unwrap();
    let back = AttestedUnlockEvidence {
        format: text(&v, "format"),
        device_id: text(&v, "device_id"),
        vm_id: text(&v, "vm_id"),
        suite: read_suite(v.get("suite")),
        pcr_match: v["pcr_match"].as_bool().unwrap(),
        boot_policy_match: v["boot_policy_match"].as_bool().unwrap(),
        capsule_allowlisted: v["capsule_allowlisted"].as_bool().unwrap(),
        hypervisor_version_ok: v["hypervisor_version_ok"].as_bool().unwrap(),
        inputs_hash: text(&v, "inputs_hash"),
        policy_id: text(&v, "policy_id"),
    };
    assert_eq!(back, ev);
}

#[test]
fn allow_then_deny_chain_links_and_verifies() {
    let sim = KmsSimulator::new(policy());
    let mut chain = ReceiptChain::new();
    let _ = sim.evaluate(&good_request(), &mut chain);
    let mut bad = good_request();
    bad.boot_policy_hash = "x".to_string();
    let _ = sim.evaluate(&bad, &mut chain);
    assert_eq!(chain.len(), 2);
    assert_eq!(chain.verify(), Ok(()));
    assert_eq!(chain.receipts()[0].decision, "allow");
    assert_eq!(chain.receipts()[1].decision, "deny");
}

#[test]
fn attest_error_shows_its_detail() {
    assert_eq!(AttestError::Json("eof".to_string()).message(), "json error: eof");
}

#[test]
fn binding_names_with_a_plus_sign_stay_apart() {
    let a = SuiteBinding::new("a+b", "c", "d");
    let b = SuiteBinding::new("a", "b+c", "d");
    assert_eq!(a.canonical(), "a%2Bb+c+d");
    assert_eq!(b.canonical(), "a+b%2Bc+d");
}
