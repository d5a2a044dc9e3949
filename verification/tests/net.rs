//! Network policy, sandbox and switch.
use hyper_slate::net::net_hash;
use hyper_slate::net::policy::{
    DnsConfig, EgressRule, IngressRule, NetworkError, NetworkMode, NetworkPolicy,
};
use hyper_slate::net::sandbox::{
    derive_ip, derive_mac, FlowCounters, NetworkSandbox, FLOW_OVERHEAD_BYTES,
};
use hyper_slate::net::switch::{FlowDecision, VSwitch};
use hyper_slate::policy::engine::{DenyReason, PolicyDecision, PolicyReceipt};
use serde_json::Value;

fn text(v: &Value, key: &str) -> Result<String, String> {
    v[key].as_str().map(|s| s.to_string()).ok_or(format!("missing text `{key}`"))
}

fn number(v: &Value, key: &str) -> Result<u64, String> {
    v[key].as_u64().ok_or(format!("missing number `{key}`"))
}

fn list<'a>(v: &'a Value, key: &str) -> Result<&'a Vec<Value>, String> {
    v[key].as_array().ok_or(format!("missing list `{key}`"))
}

fn read_policy(s: &str) -> Result<NetworkPolicy, String> {
    let v: Value = serde_json::from_str(s).map_err(|e| e.to_string())?;
    let mut egress = Vec::new();
    for r in list(&v, "egress")? {
        egress.push(EgressRule {
            proto: text(r, "proto")?,
            dst: text(r, "dst")?,
            port: number(r, "port")? as u16,
            purpose: text(r, "purpose")?,
        });
    }
    let mut ingress = Vec::new();
    for r in list(&v, "ingress")? {
        ingress.push(IngressRule {
            proto: text(r, "proto")?,
            src: text(r, "src")?,
            port: number(r, "port")? as u16,
            purpose: text(r, "purpose")?,
        });
    }
    let mut servers = Vec::new();
    for s in list(&v["dns"], "servers")? {
        servers.push(s.as_str().ok_or("server is no text")?.to_string());
    }
    Ok(NetworkPolicy {
        schema_version: number(&v, "schema_version")? as u32,
        vm_id: text(&v, "vm_id")?,
        default: text(&v, "default")?,
        egress,
        ingress,
        dns: DnsConfig { mode: text(&v["dns"], "mode")?, servers },
    })
}

fn write_policy(p: &NetworkPolicy) -> String {
    let egress: Vec<String> = p
        .egress
        .iter()
        .map(|r| {
            format!(
                "{{\"proto\":\"{}\",\"dst\":\"{}\",\"port\":{},\"purpose\":\"{}\"}}",
                r.proto, r.dst, r.port, r.purpose
            )
        })
        .collect();
    let ingress: Vec<String> = p
        .ingress
        .iter()
        .map(|r| {
            format!(
                "{{\"proto\":\"{}\",\"src\":\"{}\",\"port\":{},\"purpose\":\"{}\"}}",
                r.proto, r.src, r.port, r.purpose
            )
        })
        .collect();
    let servers: Vec<String> = p.dns.servers.iter().map(|s| format!("\"{s}\"")).collect();
    format!(
        "{{\"schema_version\":{},\"vm_id\":\"{}\",\"default\":\"{}\",\"egress\":[{}],\
         \"ingress\":[{}],\"dns\":{{\"mode\":\"{}\",\"servers\":[{}]}}}}",
        p.schema_version,
        p.vm_id,
        p.default,
        egress.join(","),
        ingress.join(","),
        p.dns.mode,
        servers.join(",")
    )
}


fn sample_json() -> String {
    r#"{
        "schema_version": 1,
        "vm_id": "vm-001",
        "default": "deny",
        "egress": [
            { "proto": "tcp", "dst": "10.0.0.5", "port": 443, "purpose": "api" },
            { "proto": "udp", "dst": "*", "port": 53, "purpose": "dns" }
        ],
        "ingress": [
            { "proto": "tcp", "src": "10.0.0.1", "port": 22, "purpose": "admin" }
        ],
        "dns": { "mode": "forward", "servers": ["10.0.0.53"] }
    }"#
    .to_string()
}

#[test]
fn policy_parses_happy_document() {
    let p = NetworkPolicy::parse(&sample_json(), read_policy).expect("parse");
    assert_eq!(p.vm_id, "vm-001");
    assert_eq!(p.default, "deny");
    assert_eq!(p.egress.len(), 2);
    assert_eq!(p.ingress.len(), 1);
    assert_eq!(p.dns.mode, "forward");
    assert_eq!(p.dns.servers, vec!["10.0.0.53".to_string()]);
}

#[test]
fn policy_rejects_bad_schema_version() {
    let j = sample_json().replace("\"schema_version\": 1", "\"schema_version\": 7");
    let err = NetworkPolicy::parse(&j, read_policy).unwrap_err();
    assert!(matches!(err, NetworkError::UnsupportedSchema { found: 7, .. }));
}

#[test]
fn rejects_bad_default() {
    let j = sample_json().replace("\"deny\"", "\"maybe\"");
    let err = NetworkPolicy::parse(&j, read_policy).unwrap_err();
    assert!(matches!(err, NetworkError::InvalidField(_)));
}

#[test]
fn policy_rejects_malformed_json() {
    let err = NetworkPolicy::parse("{not json", read_policy).unwrap_err();
    assert!(matches!(err, NetworkError::Json(_)));
}

#[test]
fn policy_round_trips_via_serde() {
    let p = NetworkPolicy::parse(&sample_json(), read_policy).unwrap();
    let s = write_policy(&p);
    let back = NetworkPolicy::parse(&s, read_policy).unwrap();
    assert_eq!(p, back);
}

#[test]
fn egress_exact_match() {
    let p = NetworkPolicy::parse(&sample_json(), read_policy).unwrap();
    assert!(p.match_egress("tcp", "10.0.0.5", 443).is_some());
    assert!(p.match_egress("tcp", "10.0.0.5", 80).is_none());
    assert!(p.match_egress("tcp", "1.2.3.4", 443).is_none());
}

#[test]
fn egress_wildcards() {
    let p = NetworkPolicy::parse(&sample_json(), read_policy).unwrap();
    // udp/*:53 matches any destination on port 53.
    assert!(p.match_egress("udp", "8.8.8.8", 53).is_some());
    assert!(p.match_egress("UDP", "8.8.8.8", 53).is_some());
    assert!(p.match_egress("udp", "8.8.8.8", 54).is_none());
}

#[test]
fn ingress_match() {
    let p = NetworkPolicy::parse(&sample_json(), read_policy).unwrap();
    assert!(p.match_ingress("tcp", "10.0.0.1", 22).is_some());
    assert!(p.match_ingress("tcp", "10.0.0.2", 22).is_none());
}

#[test]
fn mode_isolation_flags() {
    assert!(NetworkMode::NoNetwork.denies_all_egress());
    assert!(NetworkMode::Isolated.denies_all_egress());
    assert!(!NetworkMode::Nat.denies_all_egress());
}


fn bare_policy() -> NetworkPolicy {
    let j = r#"{
        "schema_version": 1, "vm_id": "vm-abc", "default": "deny",
        "egress": [], "ingress": [],
        "dns": { "mode": "deny", "servers": [] }
    }"#;
    NetworkPolicy::parse(j, read_policy).unwrap()
}

#[test]
fn mac_is_locally_administered_and_deterministic() {
    let a = derive_mac("vm-abc");
    let b = derive_mac("vm-abc");
    assert_eq!(a, b);
    assert!(a.starts_with("02:"));
    assert_eq!(a.split(':').count(), 6);
    assert_ne!(derive_mac("vm-abc"), derive_mac("vm-xyz"));
}

#[test]
fn ip_is_private_and_deterministic() {
    let a = derive_ip("vm-abc");
    assert_eq!(a, derive_ip("vm-abc"));
    assert!(a.starts_with("10."));
    let last: u8 = a.rsplit('.').next().unwrap().parse().unwrap();
    assert!((1..=254).contains(&last));
}

#[test]
fn new_sandbox_zeroes_counters_and_binds_identity() {
    let sb = NetworkSandbox::new(NetworkMode::Nat, bare_policy());
    assert_eq!(sb.vm_id, "vm-abc");
    assert_eq!(sb.counters, FlowCounters::default());
    assert_eq!(sb.mac, derive_mac("vm-abc"));
    assert_eq!(sb.ip, derive_ip("vm-abc"));
}

#[test]
fn counters_increment() {
    let mut sb = NetworkSandbox::new(NetworkMode::Nat, bare_policy());
    sb.record_allow();
    sb.record_allow();
    sb.record_deny();
    assert_eq!(sb.counters.allowed, 2);
    assert_eq!(sb.counters.denied, 1);
    assert_eq!(sb.counters.bytes, 2 * FLOW_OVERHEAD_BYTES);
}

fn policy(default: &str) -> NetworkPolicy {
    let j = format!(
        r#"{{
            "schema_version": 1, "vm_id": "vm-net", "default": "{default}",
            "egress": [
                {{ "proto": "tcp", "dst": "10.0.0.5", "port": 443, "purpose": "api" }}
            ],
            "ingress": [
                {{ "proto": "tcp", "src": "10.0.0.1", "port": 22, "purpose": "ssh" }}
            ],
            "dns": {{ "mode": "deny", "servers": [] }}
        }}"#
    );
    NetworkPolicy::parse(&j, read_policy).unwrap()
}

fn sandbox(mode: NetworkMode, default: &str) -> NetworkSandbox {
    NetworkSandbox::new(mode, policy(default))
}

#[test]
fn egress_allowed_to_matching_rule() {
    let mut sw = VSwitch::default();
    let mut sb = sandbox(NetworkMode::Nat, "deny");
    let d = sw.evaluate_flow(&mut sb, "tcp", "10.0.0.5", 443, true);
    assert_eq!(d, FlowDecision::Allow);
    assert_eq!(sb.counters.allowed, 1);
    assert_eq!(sb.counters.denied, 0);
}

#[test]
fn egress_denied_on_dst_mismatch() {
    let mut sw = VSwitch::default();
    let mut sb = sandbox(NetworkMode::Nat, "deny");
    let d = sw.evaluate_flow(&mut sb, "tcp", "1.2.3.4", 443, true);
    assert!(matches!(d, FlowDecision::Deny { .. }));
    assert_eq!(sb.counters.denied, 1);
    assert_eq!(sb.counters.allowed, 0);
}

#[test]
fn egress_denied_on_port_mismatch() {
    let mut sw = VSwitch::default();
    let mut sb = sandbox(NetworkMode::Nat, "deny");
    let d = sw.evaluate_flow(&mut sb, "tcp", "10.0.0.5", 8443, true);
    assert!(matches!(d, FlowDecision::Deny { .. }));
    assert_eq!(sb.counters.denied, 1);
}

#[test]
fn ingress_default_denies() {
    let mut sw = VSwitch::default();
    let mut sb = sandbox(NetworkMode::Nat, "deny");
    // Unmatched ingress source -> deny.
    let d = sw.evaluate_flow(&mut sb, "tcp", "9.9.9.9", 22, false);
    assert!(matches!(d, FlowDecision::Deny { .. }));
    assert_eq!(sb.counters.denied, 1);
}

#[test]
fn ingress_allowed_when_rule_matches() {
    let mut sw = VSwitch::default();
    let mut sb = sandbox(NetworkMode::Nat, "deny");
    let d = sw.evaluate_flow(&mut sb, "tcp", "10.0.0.1", 22, false);
    assert_eq!(d, FlowDecision::Allow);
    assert_eq!(sb.counters.allowed, 1);
}

#[test]
fn isolated_denies_all_egress() {
    let mut sw = VSwitch::default();
    let mut sb = sandbox(NetworkMode::Isolated, "allow");
    // Even with default "allow" and a matching tuple, isolation wins.
    let d = sw.evaluate_flow(&mut sb, "tcp", "10.0.0.5", 443, true);
    assert!(matches!(d, FlowDecision::Deny { .. }));
    assert_eq!(sb.counters.denied, 1);
}

#[test]
fn none_mode_denies_all() {
    let mut sw = VSwitch::default();
    let mut sb = sandbox(NetworkMode::NoNetwork, "allow");
    let d = sw.evaluate_flow(&mut sb, "udp", "8.8.8.8", 53, true);
    assert!(matches!(d, FlowDecision::Deny { .. }));
}

#[test]
fn default_allow_posture_permits_unmatched_egress() {
    let mut sw = VSwitch::default();
    let mut sb = sandbox(NetworkMode::Nat, "allow");
    let d = sw.evaluate_flow(&mut sb, "tcp", "203.0.113.1", 9999, true);
    assert_eq!(d, FlowDecision::Allow);
}

#[test]
fn default_allow_does_not_open_ingress() {
    let mut sw = VSwitch::default();
    let mut sb = sandbox(NetworkMode::Nat, "allow");
    // Posture "allow" must NOT open unmatched ingress.
    let d = sw.evaluate_flow(&mut sb, "tcp", "9.9.9.9", 22, false);
    assert!(matches!(d, FlowDecision::Deny { .. }));
}

#[test]
fn rate_limit_denies_excess_and_tick_resets() {
    let mut sw = VSwitch::new(2);
    let mut sb = sandbox(NetworkMode::Nat, "deny");
    assert!(sw.evaluate_flow(&mut sb, "tcp", "10.0.0.5", 443, true).is_allow());
    assert!(sw.evaluate_flow(&mut sb, "tcp", "10.0.0.5", 443, true).is_allow());
    // Third in the same window exceeds the limit.
    let d = sw.evaluate_flow(&mut sb, "tcp", "10.0.0.5", 443, true);
    assert!(matches!(d, FlowDecision::Deny { .. }));
    assert_eq!(sb.counters.allowed, 2);
    assert_eq!(sb.counters.denied, 1);
    // New window restores budget.
    sw.tick();
    assert!(sw.evaluate_flow(&mut sb, "tcp", "10.0.0.5", 443, true).is_allow());
    assert_eq!(sb.counters.allowed, 3);
}

#[test]
fn denied_flows_do_not_consume_rate_budget() {
    let mut sw = VSwitch::new(1);
    let mut sb = sandbox(NetworkMode::Nat, "deny");
    // A denied (mismatched) flow should not burn the single token.
    assert!(matches!(
        sw.evaluate_flow(&mut sb, "tcp", "1.2.3.4", 443, true),
        FlowDecision::Deny { .. }
    ));
    assert_eq!(sw.flows_this_window, 0);
    // The one allowed flow still goes through.
    assert!(sw.evaluate_flow(&mut sb, "tcp", "10.0.0.5", 443, true).is_allow());
}

#[test]
fn counters_accumulate_across_flows() {
    let mut sw = VSwitch::default();
    let mut sb = sandbox(NetworkMode::Nat, "deny");
    sw.evaluate_flow(&mut sb, "tcp", "10.0.0.5", 443, true); // allow
    sw.evaluate_flow(&mut sb, "tcp", "1.1.1.1", 443, true); // deny
    sw.evaluate_flow(&mut sb, "tcp", "10.0.0.5", 443, true); // allow
    assert_eq!(sb.counters.allowed, 2);
    assert_eq!(sb.counters.denied, 1);
    assert_ne!(sb.counters, FlowCounters::default());
}

#[test]
fn bridge_to_policy_decision() {
    let allow = FlowDecision::Allow;
    let receipt = PolicyReceipt {
        rationale: "r".to_string(),
        inputs_hash: "sha384:00".to_string(),
    };
    assert!(matches!(
        allow.to_policy_decision(receipt.clone()),
        PolicyDecision::Allow { .. }
    ));
    let deny = FlowDecision::Deny {
        reason: "x".to_string(),
    };
    assert!(matches!(
        deny.to_policy_decision(receipt),
        PolicyDecision::Deny {
            reason: DenyReason::Other(_)
        }
    ));
}

#[test]
fn flow_request_helper_reuses_upstream_type() {
    let req = VSwitch::as_flow_request(true, false);
    assert_eq!(req.direction, "egress");
    assert!(!req.allowed_by_rule);
}

fn policy_json() -> &'static str {
    r#"{
        "schema_version": 1,
        "vm_id": "vm-int",
        "default": "deny",
        "egress": [
            { "proto": "tcp", "dst": "10.0.0.5", "port": 443, "purpose": "https-api" },
            { "proto": "udp", "dst": "*", "port": 53, "purpose": "dns" }
        ],
        "ingress": [],
        "dns": { "mode": "forward", "servers": ["10.0.0.53"] }
    }"#
}

#[test]
fn end_to_end_default_deny_egress() {
    let policy = NetworkPolicy::parse(policy_json(), read_policy).unwrap();
    let mut sandbox = NetworkSandbox::new(NetworkMode::Nat, policy);
    let mut sw = VSwitch::new(100);

    // Allowed: matches the https-api rule.
    assert!(sw
        .evaluate_flow(&mut sandbox, "tcp", "10.0.0.5", 443, true)
        .is_allow());
    // Allowed: matches the wildcard dns rule.
    assert!(sw
        .evaluate_flow(&mut sandbox, "udp", "1.1.1.1", 53, true)
        .is_allow());
    // Denied: no rule for this destination.
    assert!(matches!(
        sw.evaluate_flow(&mut sandbox, "tcp", "8.8.8.8", 80, true),
        FlowDecision::Deny { .. }
    ));
    // Denied: ingress is default-deny with no rules.
    assert!(matches!(
        sw.evaluate_flow(&mut sandbox, "tcp", "10.0.0.5", 443, false),
        FlowDecision::Deny { .. }
    ));

    assert_eq!(sandbox.counters.allowed, 2);
    assert_eq!(sandbox.counters.denied, 2);
}

#[test]
fn hash_deterministic_and_prefixed() {
    let a = net_hash(b"flow");
    assert_eq!(a, net_hash(b"flow"));
    assert!(a.starts_with("sha384:"));
    assert_eq!(a.len(), "sha384:".len() + 96);
}

#[test]
fn hash_distinct_inputs_distinct_hashes() {
    assert_ne!(net_hash(b"a"), net_hash(b"b"));
}

#[test]
fn denials_say_why() {
    let mut sw = VSwitch::new(1);
    let mut sb = sandbox(NetworkMode::NoNetwork, "allow");
    assert_eq!(
        sw.evaluate_flow(&mut sb, "tcp", "10.0.0.5", 443, true),
        FlowDecision::Deny { reason: "None: mode isolates the sandbox".to_string() }
    );
    let mut sb = sandbox(NetworkMode::Isolated, "allow");
    assert_eq!(
        sw.evaluate_flow(&mut sb, "tcp", "10.0.0.1", 22, false),
        FlowDecision::Deny { reason: "Isolated: mode isolates the sandbox".to_string() }
    );
    let mut sb = sandbox(NetworkMode::Nat, "deny");
    assert_eq!(
        sw.evaluate_flow(&mut sb, "tcp", "1.2.3.4", 443, true),
        FlowDecision::Deny { reason: "EgressDenied".to_string() }
    );
    assert_eq!(
        sw.evaluate_flow(&mut sb, "tcp", "9.9.9.9", 22, false),
        FlowDecision::Deny {
            reason: format!("{:?}", DenyReason::Other("ingress not matched by rule".to_string()))
        }
    );
    assert!(sw.evaluate_flow(&mut sb, "tcp", "10.0.0.5", 443, true).is_allow());
    assert_eq!(
        sw.evaluate_flow(&mut sb, "tcp", "10.0.0.5", 443, true),
        FlowDecision::Deny { reason: "rate_limited: 1 flows/s exceeded".to_string() }
    );
}

#[test]
fn wildcards_match_in_any_case() {
    let rule = EgressRule {
        proto: "ANY".to_string(),
        dst: "*".to_string(),
        port: 0,
        purpose: "all".to_string(),
    };
    assert!(rule.matches("sctp", "host", 9));
    let rule = IngressRule {
        proto: "TCP".to_string(),
        src: "Any".to_string(),
        port: 22,
        purpose: "ssh".to_string(),
    };
    assert!(rule.matches("tcp", "anywhere", 22));
    assert!(!rule.matches("udp", "anywhere", 22));
    assert!(!rule.matches("tcp", "anywhere", 23));
    // A destination is matched as it is written.
    let rule = EgressRule {
        proto: "tcp".to_string(),
        dst: "Host".to_string(),
        port: 1,
        purpose: "p".to_string(),
    };
    assert!(!rule.matches("tcp", "host", 1));
}

#[test]
fn addresses_are_made_of_the_digest() {
    let digest = <sha2::Sha384 as sha2::Digest>::digest(b"mac|vm-abc");
    assert_eq!(
        derive_mac("vm-abc"),
        format!(
            "02:{:02x}:{:02x}:{:02x}:{:02x}:{:02x}",
            digest[0], digest[1], digest[2], digest[3], digest[4]
        )
    );
    let digest = <sha2::Sha384 as sha2::Digest>::digest(b"ip|vm-abc");
    assert_eq!(
        derive_ip("vm-abc"),
        format!("10.{}.{}.{}", digest[0], digest[1], digest[2] % 254 + 1)
    );
}

#[test]
fn refused_network_policies_say_why() {
    let j = sample_json().replace("\"deny\"", "\"maybe\"");
    match NetworkPolicy::parse(&j, read_policy).unwrap_err() {
        NetworkError::InvalidField(m) => {
            assert_eq!(m, "default must be \"deny\" or \"allow\", got \"maybe\"")
        }
        other => panic!("unexpected {other:?}"),
    }
}

#[test]
fn first_matching_rule_is_found() {
    let mut p = NetworkPolicy::parse(&sample_json(), read_policy).unwrap();
    p.egress.push(EgressRule {
        proto: "*".to_string(),
        dst: "*".to_string(),
        port: 0,
        purpose: "rest".to_string(),
    });
    assert_eq!(p.match_egress("tcp", "10.0.0.5", 443).unwrap().purpose, "api");
    assert_eq!(p.match_egress("tcp", "10.0.0.6", 443).unwrap().purpose, "rest");
}

#[test]
fn network_errors_show_what_is_wrong() {
    assert_eq!(NetworkError::Json("eof".to_string()).message(), "invalid network policy json: eof");
    assert_eq!(
        NetworkError::UnsupportedSchema { found: 9, expected: 1 }.message(),
        "unsupported network schema_version 9 (expected 1)"
    );
    assert_eq!(
        NetworkError::InvalidField("default".to_string()).message(),
        "invalid network policy field: default"
    );
}
