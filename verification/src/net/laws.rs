//! What the network operations are for, stated over their calls.
use vstd::prelude::*;

use crate::net::policy;
use crate::net::policy::{
    EgressRule, IngressRule, NetworkError, NetworkMode, NetworkPolicy,
};
use crate::net::sandbox;
use crate::net::sandbox::NetworkSandbox;
use crate::net::switch::{FlowDecision, VSwitch};
use crate::policy::engine::{DenyReason, PolicyDecision, PolicyReceipt};
use crate::primitives;
use crate::text;

verus! {

/// A rule's word that stands for everything: a star, or "any" in any case.
pub open spec fn stands_for_all(word: Seq<char>) -> bool {
    word == seq!['*'] || text::laws::same_but_case(word, seq!['a', 'n', 'y'])
}

proof fn wildcard_words(word: Seq<char>)
    ensures
        policy::wildcard(word) == stands_for_all(word),
{
    reveal_strlit("*");
    reveal_strlit("any");
    assert("*"@ =~= seq!['*']);
    assert("any"@ =~= seq!['a', 'n', 'y']);
    text::laws::folding_forgets_case_only(word, "any"@);
}

/// A rule with a port covers no flow to another port, whatever else it says; one
/// with a named destination covers no flow to another destination; one with a
/// named protocol covers no flow of another protocol.
pub proof fn egress_rule_covers_only_what_it_names(
    rule: &EgressRule,
    proto: &str,
    dst: &str,
    port: u16,
    r: bool,
)
    requires
        call_ensures(EgressRule::matches, (rule, proto, dst, port), r),
    ensures
        rule.port != 0 && rule.port != port ==> !r,
        !stands_for_all(rule.dst@) && rule.dst@ != dst@ ==> !r,
        !stands_for_all(rule.proto@) && !text::laws::same_but_case(rule.proto@, proto@) ==> !r,
{
    wildcard_words(rule.dst@);
    wildcard_words(rule.proto@);
    text::laws::folding_forgets_case_only(rule.proto@, proto@);
}

/// A rule covers every flow that fits its three parts, and covers what it named
/// itself.
pub proof fn egress_rule_covers_what_fits(
    rule: &EgressRule,
    proto: &str,
    dst: &str,
    port: u16,
    r: bool,
)
    requires
        call_ensures(EgressRule::matches, (rule, proto, dst, port), r),
        stands_for_all(rule.proto@) || text::laws::same_but_case(rule.proto@, proto@),
        stands_for_all(rule.dst@) || rule.dst@ == dst@,
        rule.port == 0 || rule.port == port,
    ensures
        r,
{
    wildcard_words(rule.dst@);
    wildcard_words(rule.proto@);
    text::laws::folding_forgets_case_only(rule.proto@, proto@);
}

/// A rule with a port covers no flow to another port, whatever else it says; one
/// with a named source covers no flow from another source; one with a named
/// protocol covers no flow of another protocol.
pub proof fn ingress_rule_covers_only_what_it_names(
    rule: &IngressRule,
    proto: &str,
    src: &str,
    port: u16,
    r: bool,
)
    requires
        call_ensures(IngressRule::matches, (rule, proto, src, port), r),
    ensures
        rule.port != 0 && rule.port != port ==> !r,
        !stands_for_all(rule.src@) && rule.src@ != src@ ==> !r,
        !stands_for_all(rule.proto@) && !text::laws::same_but_case(rule.proto@, proto@) ==> !r,
{
    wildcard_words(rule.src@);
    wildcard_words(rule.proto@);
    text::laws::folding_forgets_case_only(rule.proto@, proto@);
}

/// An ingress rule covers every flow that fits its three parts.
pub proof fn ingress_rule_covers_what_fits(
    rule: &IngressRule,
    proto: &str,
    src: &str,
    port: u16,
    r: bool,
)
    requires
        call_ensures(IngressRule::matches, (rule, proto, src, port), r),
        stands_for_all(rule.proto@) || text::laws::same_but_case(rule.proto@, proto@),
        stands_for_all(rule.src@) || rule.src@ == src@,
        rule.port == 0 || rule.port == port,
    ensures
        r,
{
    wildcard_words(rule.src@);
    wildcard_words(rule.proto@);
    text::laws::folding_forgets_case_only(rule.proto@, proto@);
}

/// The egress rules of a policy are asked in turn: what comes back is the first
/// that matches, and nothing comes back only where none does.
pub proof fn first_egress_rule_is_found<'a>(
    p: &'a NetworkPolicy,
    proto: &str,
    dst: &str,
    port: u16,
    found: Option<&'a EgressRule>,
    k: int,
    r: bool,
)
    requires
        call_ensures(NetworkPolicy::match_egress, (p, proto, dst, port), found),
        0 <= k < p.egress@.len(),
        call_ensures(EgressRule::matches, (&p.egress@[k], proto, dst, port), r),
    ensures
        r ==> found is Some,
        found matches Some(rule) ==> exists|i: int|
            0 <= i < p.egress@.len() && *rule == #[trigger] p.egress@[i] && (r ==> i <= k),
{
    if r {
        assert(p.egress_rule_applies(k, proto@, dst@, port));
    }
    if let Some(rule) = found {
        let i = choose|i: int|
            p.egress_rule_applies(i, proto@, dst@, port) && *rule == #[trigger] p.egress@[i]
                && forall|j: int|
                0 <= j < i ==> !p.egress_rule_applies(j, proto@, dst@, port);
        assert(*rule == p.egress@[i]);
        if r && k < i {
            assert(!p.egress_rule_applies(k, proto@, dst@, port));
        }
    }
}

/// The ingress rules of a policy are asked in turn.
pub proof fn first_ingress_rule_is_found<'a>(
    p: &'a NetworkPolicy,
    proto: &str,
    src: &str,
    port: u16,
    found: Option<&'a IngressRule>,
    k: int,
    r: bool,
)
    requires
        call_ensures(NetworkPolicy::match_ingress, (p, proto, src, port), found),
        0 <= k < p.ingress@.len(),
        call_ensures(IngressRule::matches, (&p.ingress@[k], proto, src, port), r),
    ensures
        r ==> found is Some,
        found matches Some(rule) ==> exists|i: int|
            0 <= i < p.ingress@.len() && *rule == #[trigger] p.ingress@[i] && (r ==> i <= k),
{
    if r {
        assert(p.ingress_rule_applies(k, proto@, src@, port));
    }
    if let Some(rule) = found {
        let i = choose|i: int|
            p.ingress_rule_applies(i, proto@, src@, port) && *rule == #[trigger] p.ingress@[i]
                && forall|j: int|
                0 <= j < i ==> !p.ingress_rule_applies(j, proto@, src@, port);
        assert(*rule == p.ingress@[i]);
        if r && k < i {
            assert(!p.ingress_rule_applies(k, proto@, src@, port));
        }
    }
}

/// The rule fits the flow in all three parts.
pub open spec fn fits(
    rule_proto: Seq<char>,
    rule_peer: Seq<char>,
    rule_port: u16,
    proto: Seq<char>,
    peer: Seq<char>,
    port: u16,
) -> bool {
    &&& stands_for_all(rule_proto) || text::laws::same_but_case(rule_proto, proto)
    &&& stands_for_all(rule_peer) || rule_peer == peer
    &&& rule_port == 0 || rule_port == port
}

/// Some rule of the flow's direction fits it, or the flow goes out and the
/// policy lets everything out.
pub open spec fn let_through(
    p: NetworkPolicy,
    proto: Seq<char>,
    peer: Seq<char>,
    port: u16,
    egress: bool,
) -> bool {
    if egress {
        p.default@ == "allow"@ || exists|i: int|
            0 <= i < p.egress@.len() && fits(
                (#[trigger] p.egress@[i]).proto@,
                p.egress@[i].dst@,
                p.egress@[i].port,
                proto,
                peer,
                port,
            )
    } else {
        exists|i: int|
            0 <= i < p.ingress@.len() && fits(
                (#[trigger] p.ingress@[i]).proto@,
                p.ingress@[i].src@,
                p.ingress@[i].port,
                proto,
                peer,
                port,
            )
    }
}

proof fn fitting_is_covering(
    rule_proto: Seq<char>,
    rule_peer: Seq<char>,
    rule_port: u16,
    proto: Seq<char>,
    peer: Seq<char>,
    port: u16,
)
    ensures
        fits(rule_proto, rule_peer, rule_port, proto, peer, port) == policy::covers(
            rule_proto,
            rule_peer,
            rule_port,
            proto,
            peer,
            port,
        ),
{
    wildcard_words(rule_proto);
    wildcard_words(rule_peer);
    text::laws::folding_forgets_case_only(rule_proto, proto);
}

proof fn listed_is_let_through(
    s: NetworkSandbox,
    proto: Seq<char>,
    peer: Seq<char>,
    port: u16,
    egress: bool,
)
    ensures
        crate::net::switch::flow_listed(s, proto, peer, port, egress) == let_through(
            s.policy,
            proto,
            peer,
            port,
            egress,
        ),
{
    let p = s.policy;
    if egress {
        assert forall|i: int| 0 <= i < p.egress@.len() implies (fits(
            (#[trigger] p.egress@[i]).proto@,
            p.egress@[i].dst@,
            p.egress@[i].port,
            proto,
            peer,
            port,
        ) == p.egress_rule_applies(i, proto, peer, port)) by {
            let e = p.egress@[i];
            fitting_is_covering(e.proto@, e.dst@, e.port, proto, peer, port);
        }
        if p.egress_listed(proto, peer, port) {
            let i = choose|i: int| p.egress_rule_applies(i, proto, peer, port);
            assert(p.egress@[i] == p.egress@[i]);
        }
    } else {
        assert forall|i: int| 0 <= i < p.ingress@.len() implies (fits(
            (#[trigger] p.ingress@[i]).proto@,
            p.ingress@[i].src@,
            p.ingress@[i].port,
            proto,
            peer,
            port,
        ) == p.ingress_rule_applies(i, proto, peer, port)) by {
            let e = p.ingress@[i];
            fitting_is_covering(e.proto@, e.src@, e.port, proto, peer, port);
        }
        if p.ingress_listed(proto, peer, port) {
            let i = choose|i: int| p.ingress_rule_applies(i, proto, peer, port);
            assert(p.ingress@[i] == p.ingress@[i]);
        }
    }
}

/// Deny by default: a flow is allowed exactly where the sandbox has a network
/// that is not isolated, a rule of the flow's own direction fits it in all three
/// parts (or, outward, the policy says so), and the window has room.
pub proof fn flow_is_allowed_only_by_rule_and_room(
    w: &mut VSwitch,
    s: &mut NetworkSandbox,
    proto: &str,
    peer: &str,
    port: u16,
    egress: bool,
    r: FlowDecision,
)
    requires
        call_ensures(VSwitch::evaluate_flow, (w, s, proto, peer, port, egress), r),
    ensures
        r is Allow <==> {
            &&& old(s).mode != NetworkMode::NoNetwork
            &&& old(s).mode != NetworkMode::Isolated
            &&& let_through(old(s).policy, proto@, peer@, port, egress)
            &&& old(w).rate_limit_per_sec == 0 || old(w).flows_this_window
                < old(w).rate_limit_per_sec
        },
{
    listed_is_let_through(*old(s), proto@, peer@, port, egress);
}

/// Every flow is counted once, on the side of its decision, an allowed one with
/// its overhead; only an allowed flow takes a slot; nothing else changes.
pub proof fn every_flow_is_counted(
    w: &mut VSwitch,
    s: &mut NetworkSandbox,
    proto: &str,
    peer: &str,
    port: u16,
    egress: bool,
    r: FlowDecision,
)
    requires
        call_requires(VSwitch::evaluate_flow, (w, s, proto, peer, port, egress)),
        call_ensures(VSwitch::evaluate_flow, (w, s, proto, peer, port, egress), r),
        old(s).counters.allowed < u64::MAX,
        old(s).counters.denied < u64::MAX,
        old(s).counters.bytes <= u64::MAX - 64,
    ensures
        r is Allow ==> {
            &&& final(s).counters.allowed - old(s).counters.allowed == 1
            &&& final(s).counters.denied == old(s).counters.denied
            &&& final(s).counters.bytes - old(s).counters.bytes == 64
            &&& final(w).flows_this_window - old(w).flows_this_window == 1
        },
        r is Deny ==> {
            &&& final(s).counters.allowed == old(s).counters.allowed
            &&& final(s).counters.denied - old(s).counters.denied == 1
            &&& final(s).counters.bytes == old(s).counters.bytes
            &&& final(w).flows_this_window == old(w).flows_this_window
        },
        final(s).policy == old(s).policy,
        final(s).mode == old(s).mode,
        final(s).vm_id == old(s).vm_id,
        final(s).mac == old(s).mac,
        final(s).ip == old(s).ip,
        final(w).rate_limit_per_sec == old(w).rate_limit_per_sec,
{
}

/// A denial says why: isolation before the rules, the rules before the limit.
pub proof fn denial_names_its_ground(
    w: &mut VSwitch,
    s: &mut NetworkSandbox,
    proto: &str,
    peer: &str,
    port: u16,
    egress: bool,
    why: String,
)
    requires
        call_ensures(
            VSwitch::evaluate_flow,
            (w, s, proto, peer, port, egress),
            FlowDecision::Deny { reason: why },
        ),
        old(s).mode != NetworkMode::NoNetwork,
        old(s).mode != NetworkMode::Isolated,
    ensures
        !let_through(old(s).policy, proto@, peer@, port, egress) && egress ==> why@
            == "EgressDenied"@,
        !let_through(old(s).policy, proto@, peer@, port, egress) && !egress ==> why@
            == "Other(\"ingress not matched by rule\")"@,
        let_through(old(s).policy, proto@, peer@, port, egress) ==> exists|limit: Seq<char>|
            why@ == "rate_limited: "@ + limit + " flows/s exceeded"@ && text::laws::numeral(
                limit,
                10,
            ) && #[trigger] text::laws::worth(limit, 10) == old(w).rate_limit_per_sec,
{
    listed_is_let_through(*old(s), proto@, peer@, port, egress);
    let limit = text::decimal(old(w).rate_limit_per_sec as nat);
    text::laws::decimal_reads_back(old(w).rate_limit_per_sec as nat);
    assert(text::laws::worth(limit, 10) == old(w).rate_limit_per_sec);
}

/// A new window has all its slots, and the limit stays.
pub proof fn tick_opens_a_window(w: &mut VSwitch, u: ())
    requires
        call_ensures(VSwitch::tick, (w,), u),
    ensures
        final(w).flows_this_window == 0,
        final(w).rate_limit_per_sec == old(w).rate_limit_per_sec,
{
}

/// Only two modes cut a sandbox off.
pub proof fn two_modes_isolate(mode: NetworkMode, r: bool)
    requires
        call_ensures(NetworkMode::denies_all_egress, (mode,), r),
    ensures
        mode == NetworkMode::NoNetwork || mode == NetworkMode::Isolated ==> r,
        mode == NetworkMode::HostOnly || mode == NetworkMode::Nat || mode == NetworkMode::Bridge
            || mode == NetworkMode::AttestedOverlay ==> !r,
{
}

/// A document is accepted as it stands, and only with the known version and one
/// of the two postures; whatever is wrong has an error of its own.
pub proof fn accepted_policy_is_known(
    parsed: Result<NetworkPolicy, String>,
    r: Result<NetworkPolicy, NetworkError>,
)
    requires
        call_ensures(NetworkPolicy::accept, (parsed,), r),
    ensures
        r is Ok <==> parsed is Ok && parsed->Ok_0.schema_version == 1 && (parsed->Ok_0.default@
            == "deny"@ || parsed->Ok_0.default@ == "allow"@),
        r matches Ok(p) ==> parsed == Ok::<NetworkPolicy, String>(p),
        parsed matches Err(m) ==> r == Err::<NetworkPolicy, NetworkError>(NetworkError::Json(m)),
        parsed is Ok && parsed->Ok_0.schema_version != 1 ==> r == Err::<
            NetworkPolicy,
            NetworkError,
        >(
            NetworkError::UnsupportedSchema {
                found: parsed->Ok_0.schema_version,
                expected: 1,
            },
        ),
        parsed is Ok && parsed->Ok_0.schema_version == 1 && r is Err ==> r->Err_0
            is InvalidField,
{
}

/// The posture opens outward flows only where it is exactly the word.
pub proof fn posture_opens_by_its_word(p: &NetworkPolicy, r: bool)
    requires
        call_ensures(NetworkPolicy::default_allows, (p,), r),
    ensures
        r ==> p.default@ == seq!['a', 'l', 'l', 'o', 'w'],
        p.default@ == seq!['a', 'l', 'l', 'o', 'w'] ==> r,
{
    reveal_strlit("allow");
    assert("allow"@ =~= seq!['a', 'l', 'l', 'o', 'w']);
}

// --------------------------------------------------------------- addresses

/// A MAC address shows the first five bytes of the SHA-384 of `mac|` and the VM's
/// id, behind the octet of a locally administered address.
pub proof fn mac_shows_the_digest(vm_id: &str, r: String, i: int)
    requires
        call_ensures(sandbox::derive_mac, (vm_id,), r),
        0 <= i < 5,
    ensures
        r@.len() == 17,
        r@[0] == '0' && r@[1] == '2',
        r@[2 + 3 * i] == ':',
        text::laws::digit_worth(r@[3 + 3 * i]) * 16 + text::laws::digit_worth(r@[4 + 3 * i])
            == primitives::sha384(text::utf8("mac|"@ + vm_id@))[i],
{
    reveal_strlit("02:");
    reveal_strlit(":");
    let d = primitives::sha384(text::utf8("mac|"@ + vm_id@));
    let h = primitives::hex_text(d);
    let b = d[i] as nat;
    assert(r@.len() == 17);
    assert(h.len() == 2 * d.len());
    assert(forall|k: int| 0 <= k < 5 ==> #[trigger] sandbox::octet_hex(d, k).len() == 2);
    assert(r@[3 + 3 * i] == sandbox::octet_hex(d, i)[0]);
    assert(r@[4 + 3 * i] == sandbox::octet_hex(d, i)[1]);
    assert(sandbox::octet_hex(d, i)[0] == h[2 * i]);
    assert(sandbox::octet_hex(d, i)[1] == h[2 * i + 1]);
    assert(h[2 * i] == crate::json::hex_digit(b / 16));
    assert(h[2 * i + 1] == crate::json::hex_digit(b % 16));
    assert(text::laws::digit_worth(crate::json::hex_digit(b / 16)) == b / 16);
    assert(text::laws::digit_worth(crate::json::hex_digit(b % 16)) == b % 16);
}

/// An address shows the first two bytes of the SHA-384 of `ip|` and the VM's id
/// as they are, and the third moved off the two addresses that no host has.
pub proof fn ip_shows_the_digest(vm_id: &str, r: String)
    requires
        call_ensures(sandbox::derive_ip, (vm_id,), r),
    ensures
        exists|a: Seq<char>, b: Seq<char>, c: Seq<char>|
            #![trigger text::laws::numeral(a, 10), text::laws::numeral(b, 10), text::laws::numeral(c, 10)]
            {
                let d = primitives::sha384(text::utf8("ip|"@ + vm_id@));
                &&& r@ == "10."@ + a + "."@ + b + "."@ + c
                &&& text::laws::numeral(a, 10) && text::laws::worth(a, 10) == d[0]
                &&& text::laws::numeral(b, 10) && text::laws::worth(b, 10) == d[1]
                &&& text::laws::numeral(c, 10) && 1 <= text::laws::worth(c, 10) <= 254
                &&& (text::laws::worth(c, 10) - 1) % 254 == (d[2] as int) % 254
            },
{
    let d = primitives::sha384(text::utf8("ip|"@ + vm_id@));
    let a = text::decimal(d[0] as nat);
    let b = text::decimal(d[1] as nat);
    let c = text::decimal(sandbox::host_octet(d[2]));
    text::laws::decimal_reads_back(d[0] as nat);
    text::laws::decimal_reads_back(d[1] as nat);
    text::laws::decimal_reads_back(sandbox::host_octet(d[2]));
    assert(text::laws::numeral(a, 10) && text::laws::numeral(b, 10) && text::laws::numeral(c, 10));
}

/// A sandbox has the addresses of the VM that its policy names, and starts with
/// nothing counted.
pub proof fn sandbox_has_its_vms_addresses(
    mode: NetworkMode,
    p: NetworkPolicy,
    s: NetworkSandbox,
    vm_id: &str,
    mac: String,
    ip: String,
)
    requires
        call_ensures(NetworkSandbox::new, (mode, p), s),
        vm_id@ == p.vm_id@,
        call_ensures(sandbox::derive_mac, (vm_id,), mac),
        call_ensures(sandbox::derive_ip, (vm_id,), ip),
    ensures
        s.mac@ == mac@,
        s.ip@ == ip@,
        s.policy == p,
        s.mode == mode,
        s.vm_id@ == p.vm_id@,
        s.counters.allowed == 0 && s.counters.denied == 0 && s.counters.bytes == 0,
{
}

/// No two modes have one label.
pub proof fn mode_labels_tell_apart(
    a: NetworkMode,
    b: NetworkMode,
    x: &'static str,
    y: &'static str,
)
    requires
        call_ensures(NetworkMode::label, (a,), x),
        call_ensures(NetworkMode::label, (b,), y),
        x@ == y@,
    ensures
        a == b,
{
    reveal_strlit("None");
    reveal_strlit("Isolated");
    reveal_strlit("HostOnly");
    reveal_strlit("Nat");
    reveal_strlit("Bridge");
    reveal_strlit("AttestedOverlay");
    assert("None"@.len() == 4 && "Isolated"@.len() == 8 && "HostOnly"@.len() == 8);
    assert("Nat"@.len() == 3 && "Bridge"@.len() == 6 && "AttestedOverlay"@.len() == 15);
    assert("Isolated"@[0] == 'I' && "HostOnly"@[0] == 'H');
}

/// A flow's decision is the policy's decision: allowed with the receipt, or denied
/// for the reason that the flow was denied for.
pub proof fn flow_decision_carries_over(
    d: &FlowDecision,
    receipt: PolicyReceipt,
    allow: bool,
    r: PolicyDecision,
)
    requires
        call_ensures(FlowDecision::is_allow, (d,), allow),
        call_ensures(FlowDecision::to_policy_decision, (d, receipt), r),
    ensures
        allow <==> r is Allow,
        allow <==> *d is Allow,
        r matches PolicyDecision::Allow { receipt: got } ==> got == receipt,
        r matches PolicyDecision::Deny { reason } ==> *d is Deny && reason == DenyReason::Other(
            d->reason,
        ),
{
}

} // verus!
