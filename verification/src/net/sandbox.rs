//! Per-VM network sandbox: an identity derived from the VM id, and flow
//! counters.
use vstd::prelude::*;

use crate::net::policy::{NetworkMode, NetworkPolicy};
use crate::primitives;
use crate::text;

verus! {

/// Running totals of the flows evaluated against a sandbox.
#[derive(Debug, Clone, Copy, PartialEq, Eq, Structural)]
pub struct FlowCounters {
    /// Flows allowed.
    pub allowed: u64,
    /// Flows denied.
    pub denied: u64,
    /// Notional bytes of the allowed flows.
    pub bytes: u64,
}

impl Default for FlowCounters {
    fn default() -> (r: Self)
        ensures
            r == (FlowCounters { allowed: 0, denied: 0, bytes: 0 }),
    {
        FlowCounters { allowed: 0, denied: 0, bytes: 0 }
    }
}

/// Notional bytes of an allowed flow.
pub const FLOW_OVERHEAD_BYTES: u64 = 64;

impl FlowCounters {
    /// One more flow can be counted as allowed.
    pub open spec fn room_to_allow(self) -> bool {
        self.allowed < u64::MAX && self.bytes <= u64::MAX - FLOW_OVERHEAD_BYTES
    }

    /// One more flow can be counted as denied.
    pub open spec fn room_to_deny(self) -> bool {
        self.denied < u64::MAX
    }

    /// The totals after one more allowed flow.
    pub open spec fn after_allow(self) -> FlowCounters {
        FlowCounters {
            allowed: (self.allowed + 1) as u64,
            denied: self.denied,
            bytes: (self.bytes + FLOW_OVERHEAD_BYTES) as u64,
        }
    }

    /// The totals after one more denied flow.
    pub open spec fn after_deny(self) -> FlowCounters {
        FlowCounters {
            allowed: self.allowed,
            denied: (self.denied + 1) as u64,
            bytes: self.bytes,
        }
    }
}

/// A virtual network endpoint of one VM, governed by a [`NetworkPolicy`].
#[derive(Debug, Clone, PartialEq, Eq)]
pub struct NetworkSandbox {
    /// VM that this sandbox belongs to.
    pub vm_id: String,
    /// Networking mode in effect.
    pub mode: NetworkMode,
    /// Policy that governs this sandbox.
    pub policy: NetworkPolicy,
    /// Locally administered MAC address.
    pub mac: String,
    /// Private IPv4 address.
    pub ip: String,
    /// Flow accounting.
    pub counters: FlowCounters,
}

/// The two hex digits of byte number `i`.
pub open spec fn octet_hex(digest: Seq<u8>, i: int) -> Seq<char> {
    primitives::hex_text(digest).subrange(2 * i, 2 * i + 2)
}

/// The MAC address made of a digest: a locally administered unicast prefix and
/// the first five bytes.
pub open spec fn mac_of(digest: Seq<u8>) -> Seq<char> {
    "02:"@ + octet_hex(digest, 0) + ":"@ + octet_hex(digest, 1) + ":"@ + octet_hex(digest, 2)
        + ":"@ + octet_hex(digest, 3) + ":"@ + octet_hex(digest, 4)
}

/// The digest that a VM's address of this kind is made of.
pub open spec fn identity_digest(kind: Seq<char>, vm_id: Seq<char>) -> Seq<u8> {
    primitives::sha384(text::utf8(kind + vm_id))
}

/// The last octet of an address, kept off the network and broadcast addresses.
pub open spec fn host_octet(b: u8) -> nat {
    (b as nat) % 254 + 1
}

/// The private address made of a digest.
pub open spec fn ip_of(digest: Seq<u8>) -> Seq<char> {
    "10."@ + text::decimal(digest[0] as nat) + "."@ + text::decimal(digest[1] as nat) + "."@
        + text::decimal(host_octet(digest[2]))
}

/// The MAC address of a VM.
pub open spec fn mac_spec(vm_id: Seq<char>) -> Seq<char> {
    mac_of(identity_digest("mac|"@, vm_id))
}

/// The IPv4 address of a VM.
pub open spec fn ip_spec(vm_id: Seq<char>) -> Seq<char> {
    ip_of(identity_digest("ip|"@, vm_id))
}

/// The digest that a VM's address of this kind is made of.
fn digest_for(kind: &str, vm_id: &str) -> (r: Vec<u8>)
    ensures
        r@ == identity_digest(kind@, vm_id@),
        r@.len() == 48,
{
    let t = text::joined(kind, vm_id);
    primitives::sha384_digest(text::bytes_of(t.as_str()).as_slice())
}

/// Appends the two hex digits of byte number `i`.
fn push_octet(out: &mut String, hex: &str, i: usize)
    requires
        i < 48,
        hex@.len() == 96,
    ensures
        final(out)@ == old(out)@ + hex@.subrange(2 * i, 2 * i + 2),
{
    let pair = hex.substring_char(i * 2, i * 2 + 2);
    out.append(pair);
}

/// Locally administered MAC address derived from the VM id.
pub fn derive_mac(vm_id: &str) -> (r: String)
    ensures
        r@ == mac_spec(vm_id@),
        text::has_prefix(r@, "02:"@),
        r@.len() == 17,
        identity_digest("mac|"@, vm_id@).len() == 48,
{
    let digest = digest_for("mac|", vm_id);
    let hex = primitives::hex_encode(digest.as_slice());
    let mut out = "02:".to_string();
    push_octet(&mut out, hex.as_str(), 0);
    out.append(":");
    push_octet(&mut out, hex.as_str(), 1);
    out.append(":");
    push_octet(&mut out, hex.as_str(), 2);
    out.append(":");
    push_octet(&mut out, hex.as_str(), 3);
    out.append(":");
    push_octet(&mut out, hex.as_str(), 4);
    proof {
        mac_is_locally_administered(digest@);
    }
    out
}

/// Private IPv4 address (`10.x.y.z`) derived from the VM id.
pub fn derive_ip(vm_id: &str) -> (r: String)
    ensures
        r@ == ip_spec(vm_id@),
        identity_digest("ip|"@, vm_id@).len() == 48,
{
    let digest = digest_for("ip|", vm_id);
    let last: u8 = digest[2] % 254 + 1;
    let mut out = "10.".to_string();
    out.append(text::decimal_text(digest[0] as u64).as_str());
    out.append(".");
    out.append(text::decimal_text(digest[1] as u64).as_str());
    out.append(".");
    out.append(text::decimal_text(last as u64).as_str());
    out
}

impl NetworkSandbox {
    /// The sandbox with other counters.
    pub open spec fn with_counters(self, counters: FlowCounters) -> NetworkSandbox {
        NetworkSandbox {
            vm_id: self.vm_id,
            mode: self.mode,
            policy: self.policy,
            mac: self.mac,
            ip: self.ip,
            counters,
        }
    }

    /// A sandbox for the VM that the policy names, with its derived addresses
    /// and zeroed counters.
    pub fn new(mode: NetworkMode, policy: NetworkPolicy) -> (r: Self)
        ensures
            r.vm_id == policy.vm_id,
            r.mode == mode,
            r.policy == policy,
            r.mac@ == mac_spec(policy.vm_id@),
            r.ip@ == ip_spec(policy.vm_id@),
            r.counters == (FlowCounters { allowed: 0, denied: 0, bytes: 0 }),
    {
        let vm_id = policy.vm_id.clone();
        let mac = derive_mac(vm_id.as_str());
        let ip = derive_ip(vm_id.as_str());
        NetworkSandbox { vm_id, mode, policy, mac, ip, counters: FlowCounters::default() }
    }

    /// Count an allowed flow.
    pub fn record_allow(&mut self)
        requires
            old(self).counters.room_to_allow(),
        ensures
            *final(self) == old(self).with_counters(old(self).counters.after_allow()),
    {
        self.counters.allowed = self.counters.allowed + 1;
        self.counters.bytes = self.counters.bytes + FLOW_OVERHEAD_BYTES;
    }

    /// Count a denied flow.
    pub fn record_deny(&mut self)
        requires
            old(self).counters.room_to_deny(),
        ensures
            *final(self) == old(self).with_counters(old(self).counters.after_deny()),
    {
        self.counters.denied = self.counters.denied + 1;
    }
}

/// A MAC address made of a digest is locally administered and unicast, and has
/// six groups of two characters.
pub proof fn mac_is_locally_administered(digest: Seq<u8>)
    requires
        digest.len() == 48,
    ensures
        text::has_prefix(mac_of(digest), "02:"@),
        mac_of(digest).len() == 17,
        forall|i: int|
            #![trigger mac_of(digest)[i]]
            0 <= i < 17 && i % 3 == 2 ==> mac_of(digest)[i] == ':',
{
    reveal_strlit("02:");
    reveal_strlit(":");
    assert(mac_of(digest).take(3) =~= "02:"@);
}

/// The last octet of a derived address is neither the network nor the broadcast
/// address.
pub proof fn host_octet_is_usable(b: u8)
    ensures
        1 <= host_octet(b) <= 254,
{
}

} // verus!
