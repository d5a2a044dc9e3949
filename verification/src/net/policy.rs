//! The network policy document that the switch evaluates flows against.
//!
//! Egress is permitted only where an explicit rule matches or the posture says
//! so; ingress only where an explicit rule matches.
use vstd::prelude::*;

use crate::policy::document;
use crate::text;

verus! {

/// Schema version of the network policy document.
pub const NETWORK_SCHEMA_VERSION: u32 = 1;

/// Why a network policy was not accepted.
#[derive(Debug)]
pub enum NetworkError {
    /// The input was not valid JSON or did not have the document's shape.
    Json(String),
    /// The document declares a schema version that cannot be interpreted.
    UnsupportedSchema {
        /// Version found in the document.
        found: u32,
        /// Version that is supported.
        expected: u32,
    },
    /// A field holds a value outside the accepted set.
    InvalidField(String),
}

impl NetworkError {
    /// The text of the error.
    pub open spec fn text(self) -> Seq<char> {
        match self {
            NetworkError::Json(d) => "invalid network policy json: "@ + d@,
            NetworkError::UnsupportedSchema { found, expected } =>
                "unsupported network schema_version "@ + text::decimal(found as nat)
                    + " (expected "@ + text::decimal(expected as nat) + ")"@,
            NetworkError::InvalidField(d) => "invalid network policy field: "@ + d@,
        }
    }

    /// The error as one line of text.
    pub fn message(&self) -> (r: String)
        ensures
            r@ == self.text(),
    {
        match self {
            NetworkError::Json(d) => text::joined("invalid network policy json: ", d.as_str()),
            NetworkError::UnsupportedSchema { found, expected } => {
                let mut out = "unsupported network schema_version ".to_string();
                out.append(text::decimal_text(*found as u64).as_str());
                out.append(" (expected ");
                out.append(text::decimal_text(*expected as u64).as_str());
                out.append(")");
                out
            },
            NetworkError::InvalidField(d) => text::joined(
                "invalid network policy field: ",
                d.as_str(),
            ),
        }
    }
}

/// Virtual networking mode of a sandbox.
#[derive(Debug, Clone, Copy, PartialEq, Eq, Structural)]
pub enum NetworkMode {
    /// No network device at all.
    NoNetwork,
    /// Device present but fully isolated.
    Isolated,
    /// Communication with the host only.
    HostOnly,
    /// Network address translation to an upstream network.
    Nat,
    /// Bridged onto a shared segment.
    Bridge,
    /// Encrypted overlay gated on remote attestation.
    AttestedOverlay,
}

impl NetworkMode {
    /// The name that denials show.
    pub open spec fn label_spec(self) -> Seq<char> {
        match self {
            NetworkMode::NoNetwork => "None"@,
            NetworkMode::Isolated => "Isolated"@,
            NetworkMode::HostOnly => "HostOnly"@,
            NetworkMode::Nat => "Nat"@,
            NetworkMode::Bridge => "Bridge"@,
            NetworkMode::AttestedOverlay => "AttestedOverlay"@,
        }
    }

    /// The name that denials show.
    pub fn label(self) -> (r: &'static str)
        ensures
            r@ == self.label_spec(),
    {
        match self {
            NetworkMode::NoNetwork => "None",
            NetworkMode::Isolated => "Isolated",
            NetworkMode::HostOnly => "HostOnly",
            NetworkMode::Nat => "Nat",
            NetworkMode::Bridge => "Bridge",
            NetworkMode::AttestedOverlay => "AttestedOverlay",
        }
    }

    /// Modes that deny every flow, whatever the rules say.
    pub open spec fn isolates(self) -> bool {
        self == NetworkMode::NoNetwork || self == NetworkMode::Isolated
    }

    /// Whether this mode denies all egress, whatever the rules say.
    pub fn denies_all_egress(self) -> (r: bool)
        ensures
            r == self.isolates(),
    {
        match self {
            NetworkMode::NoNetwork | NetworkMode::Isolated => true,
            _ => false,
        }
    }
}

/// An egress allow rule. `"*"` and `"any"` stand for any protocol or
/// destination, port `0` for any port.
#[derive(Debug, Clone, PartialEq, Eq)]
pub struct EgressRule {
    /// Protocol, or a wildcard.
    pub proto: String,
    /// Destination, or a wildcard.
    pub dst: String,
    /// Destination port; `0` matches any port.
    pub port: u16,
    /// Justification for audit.
    pub purpose: String,
}

/// An ingress allow rule, read like an egress rule.
#[derive(Debug, Clone, PartialEq, Eq)]
pub struct IngressRule {
    /// Protocol, or a wildcard.
    pub proto: String,
    /// Source, or a wildcard.
    pub src: String,
    /// Destination port; `0` matches any port.
    pub port: u16,
    /// Justification for audit.
    pub purpose: String,
}

/// DNS configuration of the sandbox.
#[derive(Debug, Clone, PartialEq, Eq)]
pub struct DnsConfig {
    /// DNS posture.
    pub mode: String,
    /// Permitted upstream resolvers.
    pub servers: Vec<String>,
}

/// Two texts that differ at most in the case of ASCII letters.
pub open spec fn same_ignoring_case(a: Seq<char>, b: Seq<char>) -> bool {
    text::lower(a) == text::lower(b)
}

/// Whether two texts differ at most in the case of ASCII letters.
fn equal_ignoring_case(a: &str, b: &str) -> (r: bool)
    ensures
        r == same_ignoring_case(a@, b@),
{
    text::same(text::lower_text(a).as_str(), text::lower_text(b).as_str())
}

/// `"*"`, or `"any"` in any case.
pub open spec fn wildcard(s: Seq<char>) -> bool {
    s == "*"@ || same_ignoring_case(s, "any"@)
}

/// Whether a rule field is a wildcard.
fn is_wildcard(s: &str) -> (r: bool)
    ensures
        r == wildcard(s@),
{
    text::same(s, "*") || equal_ignoring_case(s, "any")
}

/// A rule for `rule_proto`, `rule_peer` and `rule_port` covers a flow.
pub open spec fn covers(
    rule_proto: Seq<char>,
    rule_peer: Seq<char>,
    rule_port: u16,
    proto: Seq<char>,
    peer: Seq<char>,
    port: u16,
) -> bool {
    &&& wildcard(rule_proto) || same_ignoring_case(rule_proto, proto)
    &&& wildcard(rule_peer) || rule_peer == peer
    &&& rule_port == 0 || rule_port == port
}

impl EgressRule {
    /// This rule covers the flow.
    pub open spec fn applies(self, proto: Seq<char>, dst: Seq<char>, port: u16) -> bool {
        covers(self.proto@, self.dst@, self.port, proto, dst, port)
    }

    /// Whether this rule matches the flow.
    pub fn matches(&self, proto: &str, dst: &str, port: u16) -> (r: bool)
        ensures
            r == self.applies(proto@, dst@, port),
    {
        (is_wildcard(self.proto.as_str()) || equal_ignoring_case(self.proto.as_str(), proto)) && (
        is_wildcard(self.dst.as_str()) || text::same(self.dst.as_str(), dst)) && (self.port == 0
            || self.port == port)
    }
}

impl IngressRule {
    /// This rule covers the flow.
    pub open spec fn applies(self, proto: Seq<char>, src: Seq<char>, port: u16) -> bool {
        covers(self.proto@, self.src@, self.port, proto, src, port)
    }

    /// Whether this rule matches the flow.
    pub fn matches(&self, proto: &str, src: &str, port: u16) -> (r: bool)
        ensures
            r == self.applies(proto@, src@, port),
    {
        (is_wildcard(self.proto.as_str()) || equal_ignoring_case(self.proto.as_str(), proto)) && (
        is_wildcard(self.src.as_str()) || text::same(self.src.as_str(), src)) && (self.port == 0
            || self.port == port)
    }
}

/// Declarative, deny-by-default network policy document.
#[derive(Debug, Clone, PartialEq, Eq)]
pub struct NetworkPolicy {
    /// Schema version of this document.
    pub schema_version: u32,
    /// VM that this policy governs.
    pub vm_id: String,
    /// Posture for unmatched egress: `"deny"` (recommended) or `"allow"`.
    /// Unmatched ingress is always denied.
    pub default: String,
    /// Explicit egress allow rules.
    pub egress: Vec<EgressRule>,
    /// Explicit ingress allow rules.
    pub ingress: Vec<IngressRule>,
    /// DNS configuration.
    pub dns: DnsConfig,
}

impl NetworkPolicy {
    /// The schema is known and the posture is one of the two words.
    pub open spec fn acceptable(self) -> bool {
        self.schema_version == NETWORK_SCHEMA_VERSION && document::known_posture(self.default@)
    }

    /// What is wrong with a document that is not acceptable. The schema version
    /// is looked at first.
    pub open spec fn explains(self, e: NetworkError) -> bool {
        if self.schema_version != NETWORK_SCHEMA_VERSION {
            e == (NetworkError::UnsupportedSchema {
                found: self.schema_version,
                expected: NETWORK_SCHEMA_VERSION,
            })
        } else {
            e matches NetworkError::InvalidField(m) && m@
                == "default must be \"deny\" or \"allow\", got "@ + text::debug_form(self.default@)
        }
    }

    /// What becomes of a document as it was read from JSON: an error of the
    /// reader is passed on, a document that is not acceptable is refused, and an
    /// acceptable one is handed back as it stands.
    pub open spec fn settled(
        parsed: Result<NetworkPolicy, String>,
        r: Result<NetworkPolicy, NetworkError>,
    ) -> bool {
        match parsed {
            Err(m) => r matches Err(NetworkError::Json(shown)) && shown == m,
            Ok(doc) => match r {
                Ok(accepted) => doc.acceptable() && accepted == doc,
                Err(e) => !doc.acceptable() && doc.explains(e),
            },
        }
    }

    /// Read a document from `s` with `read`, and accept it or fail closed.
    pub fn parse<F: FnOnce(&str) -> Result<NetworkPolicy, String>>(s: &str, read: F) -> (r: Result<
        NetworkPolicy,
        NetworkError,
    >)
        requires
            call_requires(read, (s,)),
        ensures
            exists|parsed: Result<NetworkPolicy, String>|
                call_ensures(read, (s,), parsed) && Self::settled(parsed, r),
    {
        Self::accept(read(s))
    }

    /// Accept a document as it was read from JSON, or fail closed.
    pub fn accept(parsed: Result<NetworkPolicy, String>) -> (r: Result<NetworkPolicy, NetworkError>)
        ensures
            Self::settled(parsed, r),
    {
        let doc = match parsed {
            Ok(doc) => doc,
            Err(m) => {
                return Err(NetworkError::Json(m));
            },
        };
        if doc.schema_version != NETWORK_SCHEMA_VERSION {
            return Err(
                NetworkError::UnsupportedSchema {
                    found: doc.schema_version,
                    expected: NETWORK_SCHEMA_VERSION,
                },
            );
        }
        let posture = doc.default.as_str();
        if !text::same(posture, "deny") && !text::same(posture, "allow") {
            let shown = text::debug_text(posture);
            return Err(
                NetworkError::InvalidField(
                    text::joined("default must be \"deny\" or \"allow\", got ", shown.as_str()),
                ),
            );
        }
        Ok(doc)
    }

    /// Whether the posture permits unmatched egress.
    pub fn default_allows(&self) -> (r: bool)
        ensures
            r == (self.default@ == "allow"@),
    {
        text::same(self.default.as_str(), "allow")
    }

    /// Egress rule number `i` covers the flow.
    pub open spec fn egress_rule_applies(
        self,
        i: int,
        proto: Seq<char>,
        dst: Seq<char>,
        port: u16,
    ) -> bool {
        0 <= i < self.egress@.len() && self.egress@[i].applies(proto, dst, port)
    }

    /// Ingress rule number `i` covers the flow.
    pub open spec fn ingress_rule_applies(
        self,
        i: int,
        proto: Seq<char>,
        src: Seq<char>,
        port: u16,
    ) -> bool {
        0 <= i < self.ingress@.len() && self.ingress@[i].applies(proto, src, port)
    }

    /// Some egress rule covers the flow.
    pub open spec fn egress_listed(self, proto: Seq<char>, dst: Seq<char>, port: u16) -> bool {
        exists|i: int| self.egress_rule_applies(i, proto, dst, port)
    }

    /// Some ingress rule covers the flow.
    pub open spec fn ingress_listed(self, proto: Seq<char>, src: Seq<char>, port: u16) -> bool {
        exists|i: int| self.ingress_rule_applies(i, proto, src, port)
    }

    /// The first egress rule that matches the flow.
    pub fn match_egress(&self, proto: &str, dst: &str, port: u16) -> (r: Option<&EgressRule>)
        ensures
            r is Some <==> self.egress_listed(proto@, dst@, port),
            r matches Some(rule) ==> exists|i: int|
                self.egress_rule_applies(i, proto@, dst@, port) && *rule == #[trigger] self.egress@[i]
                    && forall|j: int|
                    0 <= j < i ==> !self.egress_rule_applies(j, proto@, dst@, port),
    {
        let mut i: usize = 0;
        while i < self.egress.len()
            invariant
                i <= self.egress@.len(),
                forall|j: int| 0 <= j < i ==> !self.egress_rule_applies(j, proto@, dst@, port),
            decreases self.egress@.len() - i,
        {
            if self.egress[i].matches(proto, dst, port) {
                assert(self.egress_rule_applies(i as int, proto@, dst@, port));
                return Some(&self.egress[i]);
            }
            i = i + 1;
        }
        None
    }

    /// The first ingress rule that matches the flow.
    pub fn match_ingress(&self, proto: &str, src: &str, port: u16) -> (r: Option<&IngressRule>)
        ensures
            r is Some <==> self.ingress_listed(proto@, src@, port),
            r matches Some(rule) ==> exists|i: int|
                self.ingress_rule_applies(i, proto@, src@, port) && *rule
                    == #[trigger] self.ingress@[i] && forall|j: int|
                    0 <= j < i ==> !self.ingress_rule_applies(j, proto@, src@, port),
    {
        let mut i: usize = 0;
        while i < self.ingress.len()
            invariant
                i <= self.ingress@.len(),
                forall|j: int| 0 <= j < i ==> !self.ingress_rule_applies(j, proto@, src@, port),
            decreases self.ingress@.len() - i,
        {
            if self.ingress[i].matches(proto, src, port) {
                assert(self.ingress_rule_applies(i as int, proto@, src@, port));
                return Some(&self.ingress[i]);
            }
            i = i + 1;
        }
        None
    }
}

} // verus!
