//! Receipt chains and the security log.
use hyper_slate::primitives;
use hyper_slate::receipts::chain::{
    compute_receipt_hash, ChainError, Receipt, ReceiptChain, ReceiptEvent, ReceiptSignature,
    RECEIPT_SCHEMA,
};
use hyper_slate::receipts::ledger::{
    Receipt as LedgerReceipt, ReceiptChain as LedgerChain, ReceiptDecision,
    ReceiptSignature as LedgerSignature,
};
use hyper_slate::receipts::security::{
    compute_security_hash, SecurityEvent, SecurityLog, SecurityLogError, Severity,
    SECURITY_EVENT_SCHEMA,
};
use hyper_slate::text_map::TextMap;
use serde_json::Value;

fn text(v: &Value, key: &str) -> String {
    v[key].as_str().expect("text member").to_string()
}

fn read_chain(json: &str) -> ReceiptChain {
    let v: Value = serde_json::from_str(json).expect("valid json");
    let mut receipts = Vec::new();
    for r in v["receipts"].as_array().expect("receipts") {
        receipts.push(Receipt {
            schema: text(r, "schema"),
            receipt_id: text(r, "receipt_id"),
            event: text(r, "event"),
            subject: text(r, "subject"),
            decision: text(r, "decision"),
            policy_id: text(r, "policy_id"),
            inputs_hash: text(r, "inputs_hash"),
            previous_receipt_hash: text(r, "previous_receipt_hash"),
            receipt_hash: text(r, "receipt_hash"),
            signature: r.get("signature").map(|s| ReceiptSignature {
                alg: text(s, "alg"),
                key_id: text(s, "key_id"),
            }),
        });
    }
    ReceiptChain::from_parts(text(&v, "genesis_hash"), receipts)
}

fn read_log(json: &str) -> SecurityLog {
    let v: Value = serde_json::from_str(json).expect("valid json");
    let mut events = Vec::new();
    for e in v["events"].as_array().expect("events") {
        let mut map = TextMap::new();
        for (k, f) in e["fields"].as_object().expect("fields") {
            map.insert(k, f.as_str().expect("text").to_string());
        }
        events.push(SecurityEvent {
            schema: text(e, "schema"),
            event_id: text(e, "event_id"),
            severity: match e["severity"].as_str().expect("severity") {
                "low" => Severity::Low,
                "medium" => Severity::Medium,
                "high" => Severity::High,
                "critical" => Severity::Critical,
                other => panic!("unknown severity {other}"),
            },
            component: text(e, "component"),
            event: text(e, "event"),
            vm_id: e["vm_id"].as_str().map(|s| s.to_string()),
            action: text(e, "action"),
            fields: map,
            hash_prev: text(e, "hash_prev"),
            hash_this: text(e, "hash_this"),
        });
    }
    SecurityLog::from_parts(text(&v, "genesis_hash"), events)
}

/// Changes receipt `i` of a chain behind its back.
fn edit_receipt(chain: &mut ReceiptChain, i: usize, edit: impl FnOnce(&mut Receipt)) {
    let (genesis, mut receipts) = chain.clone().into_parts();
    edit(&mut receipts[i]);
    *chain = ReceiptChain::from_parts(genesis, receipts);
}

/// Changes event `i` of a log behind its back.
fn edit_event(log: &mut SecurityLog, i: usize, edit: impl FnOnce(&mut SecurityEvent)) {
    let (genesis, mut events) = log.clone().into_parts();
    edit(&mut events[i]);
    *log = SecurityLog::from_parts(genesis, events);
}


#[test]
fn receipt_hash_verifies() {
    let receipt = LedgerReceipt::unsigned(
        "r1",
        "vm_launch",
        "vm:guest-zero",
        ReceiptDecision::Allow,
        Some("lab".to_string()),
        "sha384:inputs",
        None,
    );
    assert!(receipt.verify_hash());
}

#[test]
fn receipt_chain_detects_wrong_previous_hash() {
    let mut chain = LedgerChain::new();
    let first = LedgerReceipt::unsigned(
        "r1",
        "vm_define",
        "vm:a",
        ReceiptDecision::Allow,
        None,
        "sha384:a",
        None,
    );
    assert!(chain.push(first));

    let bad = LedgerReceipt::unsigned(
        "r2",
        "vm_launch",
        "vm:a",
        ReceiptDecision::Allow,
        None,
        "sha384:b",
        Some("sha384:not-the-previous".to_string()),
    );
    assert!(!chain.push(bad));
}

fn populate(chain: &mut ReceiptChain) {
    chain.append(ReceiptEvent::Boot.as_str(), "host", "allow", "pol-boot", "sha384:aa");
    chain.append(
        ReceiptEvent::FirmwareBaseline.as_str(),
        "fw0",
        "allow",
        "pol-fw",
        "sha384:bb",
    );
    chain.append(
        ReceiptEvent::VmDefine.as_str(),
        "vm-1",
        "allow",
        "pol-vm",
        "sha384:cc",
    );
    chain.append(
        ReceiptEvent::KeyRelease.as_str(),
        "vm-1",
        "deny",
        "pol-key",
        "sha384:dd",
    );
}

#[test]
fn empty_chain_head_is_genesis() {
    let chain = ReceiptChain::new();
    assert!(chain.is_empty());
    assert_eq!(chain.head_hash(), chain.genesis_hash());
    assert_eq!(chain.verify(), Ok(()));
}

#[test]
fn receipt_append_links_and_verifies() {
    let mut chain = ReceiptChain::new();
    populate(&mut chain);
    assert_eq!(chain.len(), 4);

    // First receipt links to genesis.
    assert_eq!(chain.receipts()[0].previous_receipt_hash, *chain.genesis_hash());
    // Subsequent receipts link to the prior hash.
    for w in chain.receipts().windows(2) {
        assert_eq!(w[1].previous_receipt_hash, w[0].receipt_hash);
    }
    // Head equals the last receipt hash.
    assert_eq!(chain.head_hash(), chain.receipts()[3].receipt_hash);

    assert_eq!(chain.verify(), Ok(()));
}

#[test]
fn event_wire_names_used_in_receipt() {
    let mut chain = ReceiptChain::new();
    chain.append(ReceiptEvent::VmExitFault.as_str(), "vm-2", "deny", "p", "sha384:00");
    assert_eq!(chain.receipts()[0].event, "vm_exit_fault");
    assert_eq!(chain.receipts()[0].schema, RECEIPT_SCHEMA);
}

#[test]
fn receipt_ids_are_deterministic() {
    let mut a = ReceiptChain::new();
    let mut b = ReceiptChain::new();
    populate(&mut a);
    populate(&mut b);
    let ids_a: Vec<_> = a.receipts().iter().map(|r| r.receipt_id.clone()).collect();
    let ids_b: Vec<_> = b.receipts().iter().map(|r| r.receipt_id.clone()).collect();
    assert_eq!(ids_a, ids_b);
    assert!(ids_a[0].starts_with("rcpt-000000-"));
}

#[test]
fn mutating_middle_receipt_fails_verify() {
    let mut chain = ReceiptChain::new();
    populate(&mut chain);
    assert_eq!(chain.verify(), Ok(()));

    // Tamper with a middle receipt's decision without fixing its hash.
    edit_receipt(&mut chain, 1, |r| r.decision = "allow_tampered".to_string());
    match chain.verify() {
        Err(ChainError::HashMismatch { index, .. }) => assert_eq!(index, 1),
        other => panic!("expected HashMismatch at 1, got {other:?}"),
    }
}

#[test]
fn rehashing_middle_breaks_following_link() {
    let mut chain = ReceiptChain::new();
    populate(&mut chain);

    // Tamper AND recompute the receipt's own hash: the next link must break.
    edit_receipt(&mut chain, 1, |r| {
        r.subject = "evil".to_string();
        r.receipt_hash = compute_receipt_hash(
            &r.schema,
            &r.event,
            &r.subject,
            &r.decision,
            &r.policy_id,
            &r.inputs_hash,
            &r.previous_receipt_hash,
        );
    });
    match chain.verify() {
        Err(ChainError::BrokenLink { index, .. }) => assert_eq!(index, 2),
        other => panic!("expected BrokenLink at 2, got {other:?}"),
    }
}

#[test]
fn bad_schema_fails_verify() {
    let mut chain = ReceiptChain::new();
    populate(&mut chain);
    edit_receipt(&mut chain, 0, |r| r.schema = "chain.receipt.v0".to_string());
    match chain.verify() {
        Err(ChainError::BadSchema { index, .. }) => assert_eq!(index, 0),
        other => panic!("expected BadSchema, got {other:?}"),
    }
}

#[test]
fn json_round_trip_preserves_and_verifies() {
    let mut chain = ReceiptChain::new();
    populate(&mut chain);
    let json = chain.to_json().unwrap();
    let restored = read_chain(&json);
    assert_eq!(restored, chain);
    assert_eq!(restored.verify(), Ok(()));
}

#[test]
fn signature_is_optional_in_json() {
    let mut chain = ReceiptChain::new();
    chain.append(ReceiptEvent::Snapshot.as_str(), "vm-9", "allow", "p", "sha384:ff");
    let json = chain.to_json().unwrap();
    // No signature was set, so it is omitted from the encoding.
    assert!(!json.contains("signature"));

    edit_receipt(&mut chain, 0, |r| r.signature = Some(ReceiptSignature {
        alg: "ed25519".to_string(),
        key_id: "key-1".to_string(),
    }));
    let json2 = chain.to_json().unwrap();
    assert!(json2.contains("ed25519"));
    let restored = read_chain(&json2);
    assert_eq!(restored, chain);
}

fn fields(pairs: &[(&str, &str)]) -> TextMap<String> {
    let mut map = TextMap::new();
    for (k, v) in pairs {
        map.insert(k, v.to_string());
    }
    map
}

fn populate_log(log: &mut SecurityLog) {
    log.append(
        Severity::Low,
        "boot",
        "measured_boot_ok",
        None,
        "log",
        fields(&[("pcr", "0")]),
    );
    log.append(
        Severity::High,
        "attest",
        "manifest_signature_invalid",
        Some("vm-1".to_string()),
        "deny",
        fields(&[("key_id", "k1"), ("reason", "bad_sig")]),
    );
    log.append(
        Severity::Critical,
        "vm",
        "vm_exit_fault",
        Some("vm-1".to_string()),
        "quarantine",
        fields(&[("fault", "triple")]),
    );
}

#[test]
fn empty_log_verifies() {
    let log = SecurityLog::new();
    assert!(log.is_empty());
    assert_eq!(log.head_hash(), log.genesis_hash());
    assert_eq!(log.verify(), Ok(()));
}

#[test]
fn security_append_links_and_verifies() {
    let mut log = SecurityLog::new();
    populate_log(&mut log);
    assert_eq!(log.len(), 3);
    assert_eq!(log.events()[0].hash_prev, *log.genesis_hash());
    for w in log.events().windows(2) {
        assert_eq!(w[1].hash_prev, w[0].hash_this);
    }
    assert_eq!(log.verify(), Ok(()));
    // schema + severity wire form sanity.
    assert_eq!(log.events()[1].schema, SECURITY_EVENT_SCHEMA);
    assert_eq!(log.events()[2].severity.as_str(), "critical");
}

#[test]
fn deterministic_event_ids() {
    let mut a = SecurityLog::new();
    let mut b = SecurityLog::new();
    populate_log(&mut a);
    populate_log(&mut b);
    let ids_a: Vec<_> = a.events().iter().map(|e| e.event_id.clone()).collect();
    let ids_b: Vec<_> = b.events().iter().map(|e| e.event_id.clone()).collect();
    assert_eq!(ids_a, ids_b);
    assert!(ids_a[0].starts_with("sec-000000-"));
}

#[test]
fn tamper_middle_event_fails() {
    let mut log = SecurityLog::new();
    populate_log(&mut log);
    assert_eq!(log.verify(), Ok(()));

    edit_event(&mut log, 1, |e| e.action = "allow".to_string());
    match log.verify() {
        Err(SecurityLogError::HashMismatch { index, .. }) => assert_eq!(index, 1),
        other => panic!("expected HashMismatch at 1, got {other:?}"),
    }
}

#[test]
fn tamper_fields_detected() {
    let mut log = SecurityLog::new();
    populate_log(&mut log);
    edit_event(&mut log, 2, |e| {
        e.fields.insert("fault", "double".to_string());
    });
    assert!(matches!(
        log.verify(),
        Err(SecurityLogError::HashMismatch { index: 2, .. })
    ));
}

#[test]
fn rehash_breaks_next_link() {
    let mut log = SecurityLog::new();
    populate_log(&mut log);
    edit_event(&mut log, 0, |e| {
        e.component = "spoof".to_string();
        e.hash_this = compute_security_hash(
            &e.schema,
            e.severity,
            &e.component,
            &e.event,
            &e.vm_id,
            &e.action,
            &e.fields,
            &e.hash_prev,
        );
    });
    assert!(matches!(
        log.verify(),
        Err(SecurityLogError::BrokenLink { index: 1, .. })
    ));
}

#[test]
fn bad_schema_fails() {
    let mut log = SecurityLog::new();
    populate_log(&mut log);
    edit_event(&mut log, 0, |e| e.schema = "x".to_string());
    assert!(matches!(
        log.verify(),
        Err(SecurityLogError::BadSchema { index: 0, .. })
    ));
}

#[test]
fn json_round_trip() {
    let mut log = SecurityLog::new();
    populate_log(&mut log);
    let json = log.to_json().unwrap();
    let restored = read_log(&json);
    assert_eq!(restored, log);
    assert_eq!(restored.verify(), Ok(()));
}

#[test]
fn receipt_hash_is_over_the_compact_document() {
    let h = compute_receipt_hash("s", "e", "x\"y", "d", "p", "i", "prev");
    let doc = "{\"schema\":\"s\",\"event\":\"e\",\"subject\":\"x\\\"y\",\"decision\":\"d\",\"policy_id\":\"p\",\"inputs_hash\":\"i\",\"previous_receipt_hash\":\"prev\"}";
    assert_eq!(h, primitives::sha384_hex(doc.as_bytes()));
}

#[test]
fn receipt_id_counts_and_shows_the_hash() {
    let mut chain = ReceiptChain::new();
    populate(&mut chain);
    let r = &chain.receipts()[3];
    assert_eq!(r.receipt_id, format!("rcpt-000003-{}", &r.receipt_hash[7..23]));
}

#[test]
fn chain_errors_show_what_is_wrong() {
    let mut chain = ReceiptChain::new();
    populate(&mut chain);
    edit_receipt(&mut chain, 2, |r| r.previous_receipt_hash = "sha384:other".to_string());
    let shown = chain.verify().unwrap_err().message();
    assert!(shown.contains('2'), "{shown}");
    edit_receipt(&mut chain, 0, |r| r.schema = "v0".to_string());
    assert!(chain.verify().unwrap_err().message().contains("v0"));
}

#[test]
fn chain_json_equals_the_reference_encoding() {
    let mut chain = ReceiptChain::new();
    populate(&mut chain);
    edit_receipt(&mut chain, 1, |r| r.subject = "tab\tquote\"slash\\ bell\u{7} snow\u{2603}".to_string());
    let json = chain.to_json().unwrap();
    let v: Value = serde_json::from_str(&json).unwrap();
    assert_eq!(v["receipts"][1]["subject"], Value::String(chain.receipts()[1].subject.clone()));
    assert_eq!(v["receipts"].as_array().unwrap().len(), 4);
}

#[test]
fn ledger_chain_links_and_verifies() {
    let mut chain = LedgerChain::new();
    assert_eq!(chain.last_hash(), None);
    let first = LedgerReceipt::unsigned("r1", "vm_define", "vm:a", ReceiptDecision::Deny, None, "i", None);
    assert!(chain.push(first));
    let head = chain.last_hash();
    assert!(head.is_some());
    let second = LedgerReceipt::unsigned(
        "r2",
        "vm_launch",
        "vm:a",
        ReceiptDecision::Observe,
        Some("p".to_string()),
        "i",
        head,
    );
    let signed = second.signed(LedgerSignature {
        alg: "ed25519".to_string(),
        key_id: "k".to_string(),
        sig_ref: "s".to_string(),
    });
    // A signature is outside the hash.
    assert!(signed.verify_hash());
    assert!(chain.push(signed));
    assert!(chain.verify());
}

#[test]
fn ledger_receipt_that_was_changed_is_refused() {
    let mut chain = LedgerChain::new();
    let mut bad = LedgerReceipt::unsigned(
        "r1",
        "vm_define",
        "vm:a",
        ReceiptDecision::RequireApproval,
        None,
        "i",
        None,
    );
    bad.subject = "vm:b".to_string();
    assert!(!bad.verify_hash());
    assert!(!chain.push(bad));
    assert!(chain.verify());
}

#[test]
fn genesis_hash_is_fixed() {
    assert_eq!(ReceiptChain::new().genesis_hash(), primitives::genesis_hash());
    assert_eq!(SecurityLog::new().genesis_hash(), primitives::genesis_hash());
}

#[test]
fn event_becomes_its_wire_name() {
    let name: String = ReceiptEvent::KeyRelease.into();
    assert_eq!(name, "key_release");
}

#[test]
fn ledger_finds_a_rehashed_receipt() {
    let mut ledger = LedgerChain::new();
    let a = LedgerReceipt::unsigned("r1", "boot", "host", ReceiptDecision::Allow, None, "h", None);
    let first = a.receipt_hash.clone();
    assert!(ledger.push(a));
    let b = LedgerReceipt::unsigned(
        "r2",
        "boot",
        "host",
        ReceiptDecision::Deny,
        Some("pol".to_string()),
        "h",
        Some(first),
    );
    assert!(ledger.push(b));
    assert!(ledger.verify());
    ledger.receipts[0].subject = "other".to_string();
    assert!(!ledger.verify());
    ledger.receipts[0].receipt_hash = ledger.receipts[0].compute_hash();
    assert!(ledger.receipts[0].verify_hash());
    assert!(!ledger.verify());
}

#[test]
fn cloned_log_is_the_same_log() {
    let mut log = SecurityLog::new();
    populate_log(&mut log);
    let copy = log.clone();
    assert_eq!(copy, log);
    assert_eq!(copy.verify(), Ok(()));
}

#[test]
fn tampering_survives_storage() {
    let mut chain = ReceiptChain::new();
    populate(&mut chain);
    edit_receipt(&mut chain, 0, |r| r.subject = "other".to_string());
    let back = read_chain(&chain.to_json().unwrap());
    assert_eq!(back, chain);
    assert_eq!(back.verify(), chain.verify());
    assert!(back.verify().is_err());

    let mut log = SecurityLog::new();
    populate_log(&mut log);
    edit_event(&mut log, 0, |e| e.action = "other".to_string());
    let back = read_log(&log.to_json().unwrap());
    assert_eq!(back, log);
    assert_eq!(back.verify(), log.verify());
    assert!(back.verify().is_err());
}
