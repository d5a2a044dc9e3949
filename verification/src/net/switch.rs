//! Policy-first virtual switch: default-deny flow evaluation.
//!
//! A flow is allowed only when the mode does not isolate the sandbox, a rule
//! matches it (or, for egress, the posture is `"allow"`), and the rate limit is
//! not used up. Every decision is counted.
use vstd::prelude::*;

use crate::net::sandbox::NetworkSandbox;
use crate::policy::engine::{DenyReason, FlowRequest, PolicyDecision, PolicyReceipt};
use crate::text;

verus! {

/// Outcome of a flow evaluation.
#[derive(Debug, Clone, PartialEq, Eq)]
pub enum FlowDecision {
    /// Flow permitted.
    Allow,
    /// Flow denied.
    Deny {
        /// Why the flow was denied.
        reason: String,
    },
}

impl FlowDecision {
    /// The reason for a denial.
    pub open spec fn denial(self) -> Option<Seq<char>> {
        match self {
            FlowDecision::Allow => None,
            FlowDecision::Deny { reason } => Some(reason@),
        }
    }

    /// Whether the flow was allowed.
    pub fn is_allow(&self) -> (r: bool)
        ensures
            r == (*self is Allow),
    {
        match self {
            FlowDecision::Allow => true,
            FlowDecision::Deny { .. } => false,
        }
    }

    /// The decision in the shared form: an allow carries `receipt`, a denial
    /// keeps its text.
    pub fn to_policy_decision(&self, receipt: PolicyReceipt) -> (r: PolicyDecision)
        ensures
            match *self {
                FlowDecision::Allow => r == (PolicyDecision::Allow { receipt }),
                FlowDecision::Deny { reason } => r == (PolicyDecision::Deny {
                    reason: DenyReason::Other(reason),
                }),
            },
    {
        match self {
            FlowDecision::Allow => PolicyDecision::Allow { receipt },
            FlowDecision::Deny { reason } => PolicyDecision::Deny {
                reason: DenyReason::Other(reason.clone()),
            },
        }
    }
}

/// What becomes of a flow.
pub enum FlowOutcome {
    /// The mode isolates the sandbox.
    Isolated,
    /// No rule matched.
    NotListed,
    /// The window is used up.
    RateLimited,
    /// Permitted.
    Allowed,
}

/// A policy-first virtual switch, shared by the sandboxes of a segment.
///
/// The rate limiter has no clock: an allowed flow takes one slot of the current
/// window, and [`VSwitch::tick`] opens the next window.
#[derive(Debug, Clone, PartialEq, Eq)]
pub struct VSwitch {
    /// Flows permitted per window (`0` = unlimited).
    pub rate_limit_per_sec: u32,
    /// Flows allowed in the current window.
    pub flows_this_window: u32,
}

impl Default for VSwitch {
    fn default() -> (r: Self)
        ensures
            r.rate_limit_per_sec == 0,
            r.flows_this_window == 0,
    {
        VSwitch::new(0)
    }
}

/// A rule, or for egress the posture, permits the flow.
pub open spec fn flow_listed(
    sandbox: NetworkSandbox,
    proto: Seq<char>,
    peer: Seq<char>,
    port: u16,
    egress: bool,
) -> bool {
    if egress {
        sandbox.policy.egress_listed(proto, peer, port) || sandbox.policy.default@ == "allow"@
    } else {
        sandbox.policy.ingress_listed(proto, peer, port)
    }
}

impl VSwitch {
    /// A switch with the given limit per window (`0` disables it).
    pub fn new(rate_limit_per_sec: u32) -> (r: Self)
        ensures
            r.rate_limit_per_sec == rate_limit_per_sec,
            r.flows_this_window == 0,
    {
        VSwitch { rate_limit_per_sec, flows_this_window: 0 }
    }

    /// Open the next window.
    pub fn tick(&mut self)
        ensures
            final(self).rate_limit_per_sec == old(self).rate_limit_per_sec,
            final(self).flows_this_window == 0,
    {
        self.flows_this_window = 0;
    }

    /// The window is used up.
    pub open spec fn used_up(self) -> bool {
        self.rate_limit_per_sec != 0 && self.flows_this_window >= self.rate_limit_per_sec
    }

    /// Whether one more flow would exceed the limit.
    fn rate_limited(&self) -> (r: bool)
        ensures
            r == self.used_up(),
    {
        self.rate_limit_per_sec != 0 && self.flows_this_window >= self.rate_limit_per_sec
    }

    /// What becomes of a flow.
    pub open spec fn outcome(
        self,
        sandbox: NetworkSandbox,
        proto: Seq<char>,
        peer: Seq<char>,
        port: u16,
        egress: bool,
    ) -> FlowOutcome {
        if sandbox.mode.isolates() {
            FlowOutcome::Isolated
        } else if !flow_listed(sandbox, proto, peer, port, egress) {
            FlowOutcome::NotListed
        } else if self.used_up() {
            FlowOutcome::RateLimited
        } else {
            FlowOutcome::Allowed
        }
    }

    /// The text of a denial.
    pub open spec fn denial_text(
        self,
        sandbox: NetworkSandbox,
        outcome: FlowOutcome,
        egress: bool,
    ) -> Option<Seq<char>> {
        match outcome {
            FlowOutcome::Isolated => Some(
                sandbox.mode.label_spec() + ": mode isolates the sandbox"@,
            ),
            FlowOutcome::NotListed => Some(
                if egress {
                    "EgressDenied"@
                } else {
                    "Other(\"ingress not matched by rule\")"@
                },
            ),
            FlowOutcome::RateLimited => Some(
                "rate_limited: "@ + text::decimal(self.rate_limit_per_sec as nat)
                    + " flows/s exceeded"@,
            ),
            FlowOutcome::Allowed => None,
        }
    }

    /// Evaluate a flow against the sandbox policy.
    ///
    /// With `egress`, `peer` is the destination and the egress rules count;
    /// otherwise it is the source and the ingress rules count. The decision is
    /// counted in the sandbox, and an allowed flow takes a slot of the window.
    pub fn evaluate_flow(
        &mut self,
        sandbox: &mut NetworkSandbox,
        proto: &str,
        peer: &str,
        port: u16,
        egress: bool,
    ) -> (r: FlowDecision)
        requires
            match old(self).outcome(*old(sandbox), proto@, peer@, port, egress) {
                FlowOutcome::Allowed => old(sandbox).counters.room_to_allow() && old(self).flows_this_window < u32::MAX,
                _ => old(sandbox).counters.room_to_deny(),
            },
        ensures
            r.denial() == old(self).denial_text(
                *old(sandbox),
                old(self).outcome(*old(sandbox), proto@, peer@, port, egress),
                egress,
            ),
            match old(self).outcome(*old(sandbox), proto@, peer@, port, egress) {
                FlowOutcome::Allowed => {
                    &&& *final(sandbox) == old(sandbox).with_counters(
                        old(sandbox).counters.after_allow(),
                    )
                    &&& final(self).flows_this_window == old(self).flows_this_window + 1
                },
                _ => {
                    &&& *final(sandbox) == old(sandbox).with_counters(
                        old(sandbox).counters.after_deny(),
                    )
                    &&& final(self).flows_this_window == old(self).flows_this_window
                },
            },
            final(self).rate_limit_per_sec == old(self).rate_limit_per_sec,
    {
        if sandbox.mode.denies_all_egress() {
            sandbox.record_deny();
            return FlowDecision::Deny {
                reason: text::joined(sandbox.mode.label(), ": mode isolates the sandbox"),
            };
        }
        let listed = if egress {
            sandbox.policy.match_egress(proto, peer, port).is_some()
                || sandbox.policy.default_allows()
        } else {
            sandbox.policy.match_ingress(proto, peer, port).is_some()
        };
        if !listed {
            sandbox.record_deny();
            let reason = if egress {
                "EgressDenied"
            } else {
                "Other(\"ingress not matched by rule\")"
            };
            return FlowDecision::Deny { reason: reason.to_string() };
        }
        // Only a flow that is allowed otherwise is held against the limit, so a
        // denied flow never takes a slot.
        if self.rate_limited() {
            sandbox.record_deny();
            let mut reason = "rate_limited: ".to_string();
            reason.append(text::decimal_text(self.rate_limit_per_sec as u64).as_str());
            reason.append(" flows/s exceeded");
            return FlowDecision::Deny { reason };
        }
        self.flows_this_window = self.flows_this_window + 1;
        sandbox.record_allow();
        FlowDecision::Allow
    }

    /// The shared request that describes a flow.
    pub fn as_flow_request(direction_egress: bool, allowed_by_rule: bool) -> (r: FlowRequest)
        ensures
            r.direction@ == (if direction_egress {
                "egress"@
            } else {
                "ingress"@
            }),
            r.allowed_by_rule == allowed_by_rule,
    {
        let direction = if direction_egress {
            "egress"
        } else {
            "ingress"
        };
        FlowRequest { direction: direction.to_string(), allowed_by_rule }
    }
}

/// Isolation wins over every rule and posture, in both directions.
pub proof fn isolation_denies_every_flow(
    switch: VSwitch,
    sandbox: NetworkSandbox,
    proto: Seq<char>,
    peer: Seq<char>,
    port: u16,
    egress: bool,
)
    requires
        sandbox.mode.isolates(),
    ensures
        switch.outcome(sandbox, proto, peer, port, egress) is Isolated,
{
}

/// The posture does not open ingress: an ingress flow that no ingress rule
/// covers is denied, whatever the posture says.
pub proof fn unmatched_ingress_is_denied(
    switch: VSwitch,
    sandbox: NetworkSandbox,
    proto: Seq<char>,
    peer: Seq<char>,
    port: u16,
)
    requires
        !sandbox.policy.ingress_listed(proto, peer, port),
    ensures
        !(switch.outcome(sandbox, proto, peer, port, false) is Allowed),
{
}

/// Under a policy that is not `"allow"`, an egress flow is allowed only where an
/// egress rule covers it.
pub proof fn unmatched_egress_is_denied(
    switch: VSwitch,
    sandbox: NetworkSandbox,
    proto: Seq<char>,
    peer: Seq<char>,
    port: u16,
)
    requires
        sandbox.policy.default@ != "allow"@,
        !sandbox.policy.egress_listed(proto, peer, port),
    ensures
        !(switch.outcome(sandbox, proto, peer, port, true) is Allowed),
{
}

/// A flow to be evaluated.
pub struct Flow {
    /// Protocol.
    pub proto: Seq<char>,
    /// Destination or source.
    pub peer: Seq<char>,
    /// Port.
    pub port: u16,
    /// Direction.
    pub egress: bool,
}

/// How many of a run of flows are allowed without a tick between them.
pub open spec fn allowed_in_window(
    limit: u32,
    taken: nat,
    sandbox: NetworkSandbox,
    flows: Seq<Flow>,
) -> nat
    decreases flows.len(),
{
    if flows.len() == 0 {
        0
    } else {
        let f = flows[0];
        let switch = VSwitch { rate_limit_per_sec: limit, flows_this_window: taken as u32 };
        if switch.outcome(sandbox, f.proto, f.peer, f.port, f.egress) is Allowed {
            1 + allowed_in_window(limit, taken + 1, sandbox, flows.drop_first())
        } else {
            allowed_in_window(limit, taken, sandbox, flows.drop_first())
        }
    }
}

/// Within one window no more flows are allowed than the limit leaves, whatever
/// flows come and however many of them are denied.
pub proof fn window_never_exceeds_limit(
    limit: u32,
    taken: nat,
    sandbox: NetworkSandbox,
    flows: Seq<Flow>,
)
    requires
        limit != 0,
        taken <= limit,
    ensures
        taken + allowed_in_window(limit, taken, sandbox, flows) <= limit,
    decreases flows.len(),
{
    if flows.len() > 0 {
        let f = flows[0];
        let switch = VSwitch { rate_limit_per_sec: limit, flows_this_window: taken as u32 };
        if switch.outcome(sandbox, f.proto, f.peer, f.port, f.egress) is Allowed {
            window_never_exceeds_limit(limit, taken + 1, sandbox, flows.drop_first());
        } else {
            window_never_exceeds_limit(limit, taken, sandbox, flows.drop_first());
        }
    }
}

} // verus!
