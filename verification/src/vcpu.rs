//! vCPU runtime, VM-exit dispatcher and strict-priority scheduler.
//!
//! Dispatch denies by default: an exit that is unknown or not allow-listed
//! ends the guest instead of resuming it, and a vCPU that exits more often
//! than its budget allows is killed.
use vstd::prelude::*;

use std::collections::{BTreeSet, VecDeque};

use crate::mm::VmId;
use crate::text;

pub mod laws;

verus! {

/// Errors produced by the vCPU runtime.
#[derive(Debug, Clone, Copy, PartialEq, Eq, Structural)]
pub enum VcpuError {
    /// A run loop was asked to step a vCPU that is not runnable.
    NotRunnable(VcpuId, VcpuState),
    /// The backend yielded more exits than the budget allowed.
    StepBudgetExceeded(u64),
}

impl VcpuError {
    /// The text of the error.
    pub open spec fn text(self) -> Seq<char> {
        match self {
            VcpuError::NotRunnable(id, state) =>
                "vcpu VcpuId("@ + text::decimal(id.0 as nat) + ") is not runnable (state "@
                    + state.name() + ")"@,
            VcpuError::StepBudgetExceeded(budget) =>
                "run loop exceeded step budget of "@ + text::decimal(budget as nat),
        }
    }

    /// The error as one line of text.
    pub fn message(&self) -> (r: String)
        ensures
            r@ == self.text(),
    {
        match self {
            VcpuError::NotRunnable(id, state) => {
                let mut out = "vcpu VcpuId(".to_string();
                out.append(text::decimal_text(id.0 as u64).as_str());
                out.append(") is not runnable (state ");
                out.append(state.shown());
                out.append(")");
                out
            },
            VcpuError::StepBudgetExceeded(budget) => text::joined(
                "run loop exceeded step budget of ",
                text::decimal_text(*budget).as_str(),
            ),
        }
    }
}

/// Stable, deterministic identifier for a virtual CPU.
#[derive(Debug, Clone, Copy, PartialEq, Eq, PartialOrd, Ord, Hash, Structural)]
pub struct VcpuId(pub u32);

impl VcpuId {
    /// The numeric id.
    pub fn as_u32(self) -> (r: u32)
        ensures
            r == self.0,
    {
        self.0
    }
}

/// Deterministic allocator for [`VcpuId`]s: a counter from zero.
#[derive(Debug, Clone)]
pub struct VcpuIdAllocator {
    next: u32,
}

impl Default for VcpuIdAllocator {
    fn default() -> (r: Self)
        ensures
            r.next_id() == 0,
    {
        Self::new()
    }
}

impl VcpuIdAllocator {
    /// The id that comes next.
    pub closed spec fn next_id(&self) -> u32 {
        self.next
    }

    /// Create a fresh allocator starting at id 0.
    pub fn new() -> (r: Self)
        ensures
            r.next_id() == 0,
    {
        VcpuIdAllocator { next: 0 }
    }

    /// Allocate the next deterministic id.
    pub fn allocate(&mut self) -> (r: VcpuId)
        requires
            old(self).next_id() < u32::MAX,
        ensures
            r.0 == old(self).next_id(),
            final(self).next_id() == old(self).next_id() + 1,
    {
        let id = VcpuId(self.next);
        self.next = self.next + 1;
        id
    }
}

// ------------------------------------------------------------------ state

/// Lifecycle state of a vCPU.
#[derive(Debug, Clone, Copy, PartialEq, Eq, PartialOrd, Ord, Hash, Structural)]
pub enum VcpuState {
    /// Eligible to be scheduled.
    Ready,
    /// Currently executing (or selected to execute).
    Running,
    /// Voluntarily descheduled (e.g. after `HLT`); not runnable until woken.
    Blocked,
    /// Stopped cleanly.
    Halted,
    /// Forcibly terminated by the dispatcher.
    Killed,
    /// Isolated for inspection; never resumed automatically.
    Quarantined,
}

impl VcpuState {
    /// The name of the state.
    pub open spec fn name(self) -> Seq<char> {
        match self {
            VcpuState::Ready => "Ready"@,
            VcpuState::Running => "Running"@,
            VcpuState::Blocked => "Blocked"@,
            VcpuState::Halted => "Halted"@,
            VcpuState::Killed => "Killed"@,
            VcpuState::Quarantined => "Quarantined"@,
        }
    }

    fn shown(&self) -> (r: &'static str)
        ensures
            r@ == self.name(),
    {
        match self {
            VcpuState::Ready => "Ready",
            VcpuState::Running => "Running",
            VcpuState::Blocked => "Blocked",
            VcpuState::Halted => "Halted",
            VcpuState::Killed => "Killed",
            VcpuState::Quarantined => "Quarantined",
        }
    }

    /// May be handed to a backend.
    pub open spec fn runnable(self) -> bool {
        self == VcpuState::Ready || self == VcpuState::Running
    }

    /// Never left again by dispatch of a resuming action.
    pub open spec fn terminal(self) -> bool {
        self == VcpuState::Halted || self == VcpuState::Killed || self == VcpuState::Quarantined
    }

    /// Whether a vCPU in this state may be handed to a backend.
    pub fn is_runnable(self) -> (r: bool)
        ensures
            r == self.runnable(),
    {
        matches!(self, VcpuState::Ready | VcpuState::Running)
    }

    /// Whether this is a terminal state.
    pub fn is_terminal(self) -> (r: bool)
        ensures
            r == self.terminal(),
    {
        matches!(self, VcpuState::Halted | VcpuState::Killed | VcpuState::Quarantined)
    }
}

/// Which classes of events are intercepted for a vCPU. Clearing a flag lets the
/// corresponding exit pass through.
#[derive(Debug, Clone, Copy, PartialEq, Eq, Structural)]
pub struct InterceptPolicy {
    /// Intercept `CPUID`.
    pub cpuid: bool,
    /// Intercept MSR reads and writes.
    pub msr: bool,
    /// Intercept port I/O.
    pub io: bool,
    /// Intercept `HLT`.
    pub hlt: bool,
}

impl Default for InterceptPolicy {
    /// Everything is intercepted.
    fn default() -> (r: Self)
        ensures
            r == (InterceptPolicy { cpuid: true, msr: true, io: true, hlt: true }),
    {
        InterceptPolicy { cpuid: true, msr: true, io: true, hlt: true }
    }
}

/// The reason a guest vCPU exited back to the hypervisor.
#[derive(Debug, Clone, Copy, PartialEq, Eq, Structural)]
pub enum VmExitReason {
    /// `CPUID` instruction with the given leaf.
    Cpuid { leaf: u32 },
    /// `RDMSR` of the given MSR.
    MsrRead { msr: u32 },
    /// `WRMSR` of the given MSR with the supplied value.
    MsrWrite { msr: u32, val: u64 },
    /// Port I/O; `write` distinguishes `OUT` from `IN`.
    Io { port: u16, write: bool },
    /// `HLT` instruction.
    Hlt,
    /// Nested page fault at the given guest physical address.
    NestedPageFault { gpa: u64 },
    /// External interrupt with the given vector.
    ExternalIrq { vector: u8 },
    /// Triple fault or shutdown.
    Shutdown,
    /// Any exit code the model does not understand.
    Unknown(u64),
}

/// What the dispatcher decided to do about a VM exit.
#[derive(Debug, Clone, Copy, PartialEq, Eq, Structural)]
pub enum VmExitAction {
    /// Re-enter the guest unchanged.
    Resume,
    /// Inject the exception with the given vector, and resume.
    InjectException(u8),
    /// Emulate the instruction in the hypervisor, and resume.
    EmulateAndResume,
    /// Block this vCPU until something wakes it.
    BlockVcpu,
    /// Tear down the whole guest.
    KillVm,
    /// Isolate the guest for inspection.
    QuarantineVm,
    /// Stop the host; reserved for unrecoverable host-level faults.
    HaltHost,
}

/// Per-vCPU runtime counters.
#[derive(Debug, Clone, Copy, PartialEq, Eq)]
pub struct VcpuRunStats {
    /// Total number of VM exits observed.
    pub exits: u64,
    /// The most recent exit reason, if any.
    pub last_exit_reason: Option<VmExitReason>,
}

impl Default for VcpuRunStats {
    fn default() -> (r: Self)
        ensures
            r == (VcpuRunStats { exits: 0, last_exit_reason: None }),
    {
        VcpuRunStats { exits: 0, last_exit_reason: None }
    }
}

/// A virtual CPU bound to a guest VM.
#[derive(Debug, PartialEq, Eq)]
pub struct Vcpu {
    /// Deterministic id.
    pub id: VcpuId,
    /// Owning guest.
    pub vm_id: VmId,
    /// Current lifecycle state.
    pub state: VcpuState,
    /// Accumulated run statistics.
    pub run_stats: VcpuRunStats,
    /// Interception configuration.
    pub intercept_policy: InterceptPolicy,
}

impl Clone for Vcpu {
    fn clone(&self) -> (r: Self)
        ensures
            r == *self,
    {
        Vcpu {
            id: self.id,
            vm_id: self.vm_id.clone(),
            state: self.state,
            run_stats: self.run_stats,
            intercept_policy: self.intercept_policy,
        }
    }
}

impl Vcpu {
    /// Construct a ready vCPU that intercepts everything.
    pub fn new(id: VcpuId, vm_id: VmId) -> (r: Self)
        ensures
            r == (Vcpu {
                id,
                vm_id,
                state: VcpuState::Ready,
                run_stats: VcpuRunStats { exits: 0, last_exit_reason: None },
                intercept_policy: InterceptPolicy { cpuid: true, msr: true, io: true, hlt: true },
            }),
    {
        Vcpu {
            id,
            vm_id,
            state: VcpuState::Ready,
            run_stats: VcpuRunStats::default(),
            intercept_policy: InterceptPolicy::default(),
        }
    }

    /// The statistics after one more exit: the counter stops at its maximum.
    pub open spec fn recorded(self, reason: VmExitReason) -> VcpuRunStats {
        VcpuRunStats {
            exits: if self.run_stats.exits == u64::MAX {
                u64::MAX
            } else {
                (self.run_stats.exits + 1) as u64
            },
            last_exit_reason: Some(reason),
        }
    }

    /// Record an exit: bump the counter and remember the reason.
    fn record_exit(&mut self, reason: VmExitReason)
        ensures
            *final(self) == (Vcpu { run_stats: old(self).recorded(reason), ..*old(self) }),
    {
        let exits: u64 = self.run_stats.exits.saturating_add(1);
        self.run_stats = VcpuRunStats { exits, last_exit_reason: Some(reason) };
    }
}

// ---------------------------------------------------------------- backend

/// One use of a backend: the vCPU as it was handed over, as it was left, and
/// why it exited.
pub struct BackendStep {
    pub handed: Vcpu,
    pub left: Vcpu,
    pub reason: VmExitReason,
}

/// Abstraction over "running" a vCPU until its next VM exit.
pub trait SvmBackend {
    /// Every use of this backend so far.
    spec fn history(&self) -> Seq<BackendStep>;

    /// Whether `step` may be the backend's use number `n` from now on, counted
    /// from zero. A backend that cannot tell permits every step.
    spec fn may_answer(&self, n: nat, step: BackendStep) -> bool;

    /// How many answers were fixed beforehand and have not been given yet; none
    /// where answers are not fixed beforehand.
    spec fn pending(&self) -> nat;

    /// Run `vcpu` until it exits, returning the exit reason.
    fn run(&mut self, vcpu: &mut Vcpu) -> (r: VmExitReason)
        ensures
            final(self).history() == old(self).history().push(
                BackendStep { handed: *old(vcpu), left: *final(vcpu), reason: r },
            ),
            old(self).may_answer(
                0,
                BackendStep { handed: *old(vcpu), left: *final(vcpu), reason: r },
            ),
            forall|n: nat, step: BackendStep| #[trigger]
                final(self).may_answer(n, step) ==> old(self).may_answer(n + 1, step),
            final(self).pending() == less(old(self).pending(), 1),
    ;
}

/// What is left of `a` once `b` are gone.
pub open spec fn less(a: nat, b: nat) -> nat {
    if a >= b {
        (a - b) as nat
    } else {
        0
    }
}

/// A scripted backend that yields a predetermined sequence of exits. Once the
/// script is exhausted it reports a shutdown, so run loops always terminate.
#[derive(Clone)]
pub struct FakeBackend {
    /// The scripted exits, consumed front to back.
    pub scripted: Vec<VmExitReason>,
    /// How many of them were consumed.
    cursor: usize,
    /// Every use so far.
    uses: Ghost<Seq<BackendStep>>,
}

impl FakeBackend {
    /// The scripted exits.
    pub closed spec fn script(&self) -> Seq<VmExitReason> {
        self.scripted@
    }

    /// How many of the scripted exits were consumed.
    pub closed spec fn consumed(&self) -> nat {
        self.cursor as nat
    }

    /// Build a backend from a script.
    pub fn new(scripted: Vec<VmExitReason>) -> (r: Self)
        ensures
            r.script() == scripted@,
            r.consumed() == 0,
            r.history() == Seq::<BackendStep>::empty(),
    {
        FakeBackend { scripted, cursor: 0, uses: Ghost(Seq::empty()) }
    }

    /// Whether every scripted exit has been consumed.
    pub fn is_exhausted(&self) -> (r: bool)
        ensures
            r == (self.consumed() >= self.script().len()),
            r == (self.pending() == 0),
    {
        self.cursor >= self.scripted.len()
    }
}

impl Default for FakeBackend {
    fn default() -> (r: Self)
        ensures
            r.script().len() == 0,
            r.consumed() == 0,
            r.history() == Seq::<BackendStep>::empty(),
    {
        FakeBackend::new(Vec::new())
    }
}

impl SvmBackend for FakeBackend {
    closed spec fn history(&self) -> Seq<BackendStep> {
        self.uses@
    }

    /// The script from where it stands, then shutdowns; the vCPU is set running
    /// and otherwise left alone.
    open spec fn may_answer(&self, n: nat, step: BackendStep) -> bool {
        &&& step.left == (Vcpu { state: VcpuState::Running, ..step.handed })
        &&& step.reason == (if self.consumed() + n < self.script().len() {
            self.script()[(self.consumed() + n) as int]
        } else {
            VmExitReason::Shutdown
        })
    }

    open spec fn pending(&self) -> nat {
        less(self.script().len(), self.consumed())
    }

    fn run(&mut self, vcpu: &mut Vcpu) -> (r: VmExitReason)
        ensures
            final(self).script() == old(self).script(),
            *final(vcpu) == (Vcpu { state: VcpuState::Running, ..*old(vcpu) }),
            old(self).consumed() < old(self).script().len() ==> r == old(self).script()[old(self).consumed() as int] && final(self).consumed() == old(self).consumed() + 1,
            old(self).consumed() >= old(self).script().len() ==> r == VmExitReason::Shutdown
                && final(self).consumed() == old(self).consumed(),
    {
        vcpu.state = VcpuState::Running;
        let mut reason = VmExitReason::Shutdown;
        if self.cursor < self.scripted.len() {
            reason = self.scripted[self.cursor];
            self.cursor = self.cursor + 1;
        }
        proof {
            self.uses@ = self.uses@.push(
                BackendStep { handed: *old(vcpu), left: *vcpu, reason },
            );
        }
        reason
    }
}

// ------------------------------------------------------------- dispatcher

/// General-protection fault vector, injected on denied MSR access.
pub const GP_FAULT_VECTOR: u8 = 13;

/// VM-exit dispatcher.
///
/// MSR and I/O accesses are denied by default: only ports and MSRs in the
/// allow-lists are emulated. A per-vCPU exit budget throttles exit storms: once
/// a vCPU exceeds it, the guest is killed.
#[derive(Debug, Clone)]
pub struct ExitDispatcher {
    /// MSRs permitted for emulation.
    pub msr_allow: BTreeSet<u32>,
    /// I/O ports permitted for emulation.
    pub io_allow: BTreeSet<u16>,
    /// Maximum exits a single vCPU may take before being killed.
    pub exit_storm_limit: u64,
}

impl Default for ExitDispatcher {
    /// Nothing is allowed; 1024 exits.
    fn default() -> (r: Self)
        ensures
            r.msr_allow@ == Set::<u32>::empty(),
            r.io_allow@ == Set::<u16>::empty(),
            r.exit_storm_limit == 1024,
    {
        ExitDispatcher {
            msr_allow: BTreeSet::new(),
            io_allow: BTreeSet::new(),
            exit_storm_limit: 1024,
        }
    }
}

/// The state that an action leaves a vCPU in.
pub open spec fn state_after(state: VcpuState, action: VmExitAction) -> VcpuState {
    match action {
        VmExitAction::Resume | VmExitAction::EmulateAndResume | VmExitAction::InjectException(_) =>
            if state.terminal() {
                state
            } else {
                VcpuState::Running
            },
        VmExitAction::BlockVcpu => VcpuState::Blocked,
        VmExitAction::KillVm => VcpuState::Killed,
        VmExitAction::QuarantineVm => VcpuState::Quarantined,
        VmExitAction::HaltHost => VcpuState::Halted,
    }
}

impl ExitDispatcher {
    /// The action for an exit that is within the budget.
    pub open spec fn policy_action(
        &self,
        reason: VmExitReason,
        intercept: InterceptPolicy,
    ) -> VmExitAction {
        match reason {
            VmExitReason::Cpuid { .. } => if intercept.cpuid {
                VmExitAction::EmulateAndResume
            } else {
                VmExitAction::Resume
            },
            VmExitReason::MsrRead { msr } | VmExitReason::MsrWrite { msr, .. } =>
                if !intercept.msr {
                    VmExitAction::Resume
                } else if self.msr_allow@.contains(msr) {
                    VmExitAction::EmulateAndResume
                } else {
                    VmExitAction::InjectException(GP_FAULT_VECTOR)
                },
            VmExitReason::Io { port, .. } => if !intercept.io {
                VmExitAction::Resume
            } else if self.io_allow@.contains(port) {
                VmExitAction::EmulateAndResume
            } else {
                VmExitAction::QuarantineVm
            },
            VmExitReason::Hlt => if intercept.hlt {
                VmExitAction::BlockVcpu
            } else {
                VmExitAction::Resume
            },
            VmExitReason::NestedPageFault { gpa } => if gpa == 0 {
                VmExitAction::KillVm
            } else {
                VmExitAction::EmulateAndResume
            },
            VmExitReason::ExternalIrq { .. } => VmExitAction::Resume,
            VmExitReason::Shutdown => VmExitAction::KillVm,
            VmExitReason::Unknown(_) => VmExitAction::KillVm,
        }
    }

    /// The action for an exit: a vCPU over its budget is killed, whatever the
    /// reason.
    pub open spec fn action(&self, reason: VmExitReason, vcpu: Vcpu) -> VmExitAction {
        if vcpu.recorded(reason).exits > self.exit_storm_limit {
            VmExitAction::KillVm
        } else {
            self.policy_action(reason, vcpu.intercept_policy)
        }
    }

    /// The vCPU after an exit has been handled.
    pub open spec fn handled(&self, reason: VmExitReason, vcpu: Vcpu) -> Vcpu {
        Vcpu {
            run_stats: vcpu.recorded(reason),
            state: state_after(vcpu.state, self.action(reason, vcpu)),
            ..vcpu
        }
    }

    /// Construct a dispatcher with explicit allow-lists and storm limit.
    pub fn new(
        msr_allow: BTreeSet<u32>,
        io_allow: BTreeSet<u16>,
        exit_storm_limit: u64,
    ) -> (r: Self)
        ensures
            r.msr_allow == msr_allow,
            r.io_allow == io_allow,
            r.exit_storm_limit == exit_storm_limit,
    {
        ExitDispatcher { msr_allow, io_allow, exit_storm_limit }
    }

    /// Classify and act on a single VM exit.
    ///
    /// The exit is recorded first (so the storm counter always advances), next
    /// the storm budget is enforced, and last the reason is dispatched. The
    /// vCPU's state reflects the decision.
    pub fn handle(&self, reason: VmExitReason, vcpu: &mut Vcpu) -> (r: VmExitAction)
        ensures
            r == self.action(reason, *old(vcpu)),
            *final(vcpu) == self.handled(reason, *old(vcpu)),
    {
        vcpu.record_exit(reason);
        if vcpu.run_stats.exits > self.exit_storm_limit {
            return self.apply(vcpu, VmExitAction::KillVm);
        }
        let action = match reason {
            VmExitReason::Cpuid { .. } => {
                if vcpu.intercept_policy.cpuid {
                    VmExitAction::EmulateAndResume
                } else {
                    VmExitAction::Resume
                }
            },
            VmExitReason::MsrRead { msr } | VmExitReason::MsrWrite { msr, .. } => {
                if !vcpu.intercept_policy.msr {
                    VmExitAction::Resume
                } else if self.msr_allow.contains(&msr) {
                    VmExitAction::EmulateAndResume
                } else {
                    VmExitAction::InjectException(GP_FAULT_VECTOR)
                }
            },
            VmExitReason::Io { port, .. } => {
                if !vcpu.intercept_policy.io {
                    VmExitAction::Resume
                } else if self.io_allow.contains(&port) {
                    VmExitAction::EmulateAndResume
                } else {
                    VmExitAction::QuarantineVm
                }
            },
            VmExitReason::Hlt => {
                if vcpu.intercept_policy.hlt {
                    VmExitAction::BlockVcpu
                } else {
                    VmExitAction::Resume
                }
            },
            VmExitReason::NestedPageFault { gpa } => {
                if gpa == 0 {
                    VmExitAction::KillVm
                } else {
                    VmExitAction::EmulateAndResume
                }
            },
            VmExitReason::ExternalIrq { .. } => VmExitAction::Resume,
            VmExitReason::Shutdown => VmExitAction::KillVm,
            VmExitReason::Unknown(_) => VmExitAction::KillVm,
        };
        self.apply(vcpu, action)
    }

    /// Reflect an action into the vCPU's lifecycle state and return it.
    fn apply(&self, vcpu: &mut Vcpu, action: VmExitAction) -> (r: VmExitAction)
        ensures
            r == action,
            *final(vcpu) == (Vcpu { state: state_after(old(vcpu).state, action), ..*old(vcpu) }),
    {
        match action {
            VmExitAction::Resume
            | VmExitAction::EmulateAndResume
            | VmExitAction::InjectException(_) => {
                if !vcpu.state.is_terminal() {
                    vcpu.state = VcpuState::Running;
                }
            },
            VmExitAction::BlockVcpu => {
                vcpu.state = VcpuState::Blocked;
            },
            VmExitAction::KillVm => {
                vcpu.state = VcpuState::Killed;
            },
            VmExitAction::QuarantineVm => {
                vcpu.state = VcpuState::Quarantined;
            },
            VmExitAction::HaltHost => {
                vcpu.state = VcpuState::Halted;
            },
        }
        action
    }
}

// --------------------------------------------------------------- run loop

/// The vCPU that step `i` of a run is handed: the first gets `start`, every
/// other what the dispatcher made of the step before.
pub open spec fn handed_at(
    d: ExitDispatcher,
    start: Vcpu,
    steps: Seq<BackendStep>,
    i: int,
) -> Vcpu {
    if i <= 0 {
        start
    } else {
        d.handled(steps[i - 1].reason, steps[i - 1].left)
    }
}

/// Step `i` was handed the vCPU that the one before left to the dispatcher, and
/// it was runnable.
pub open spec fn follows(d: ExitDispatcher, start: Vcpu, steps: Seq<BackendStep>, i: int) -> bool {
    steps[i].handed == handed_at(d, start, steps, i) && steps[i].handed.state.runnable()
}

/// `steps` is a run from `start`.
pub open spec fn is_run(d: ExitDispatcher, start: Vcpu, steps: Seq<BackendStep>) -> bool {
    forall|i: int| 0 <= i < steps.len() ==> #[trigger] follows(d, start, steps, i)
}

/// Each of the steps is one that the backend may take when its turn comes.
pub open spec fn answered_by<B: SvmBackend + ?Sized>(backend: &B, steps: Seq<BackendStep>) -> bool {
    forall|i: int| 0 <= i < steps.len() ==> backend.may_answer(i as nat, #[trigger] steps[i])
}

/// Drive a vCPU through `backend` and `dispatcher` until it stops being
/// runnable or the step budget is hit.
///
/// Returns the number of exits processed. Fails if `max_steps` is exhausted
/// while the vCPU is still runnable.
pub fn run_loop<B: SvmBackend + ?Sized>(
    backend: &mut B,
    dispatcher: &ExitDispatcher,
    vcpu: &mut Vcpu,
    max_steps: u64,
) -> (r: Result<u64, VcpuError>)
    ensures
        !old(vcpu).state.runnable() ==> {
            &&& r == Err::<u64, VcpuError>(VcpuError::NotRunnable(old(vcpu).id, old(vcpu).state))
            &&& *final(vcpu) == *old(vcpu)
            &&& final(backend).history() == old(backend).history()
            &&& final(backend).pending() == old(backend).pending()
        },
        old(vcpu).state.runnable() ==> exists|steps: Seq<BackendStep>|
            {
                &&& #[trigger] is_run(*dispatcher, *old(vcpu), steps)
                &&& final(backend).history() == old(backend).history() + steps
                &&& answered_by(old(backend), steps)
                &&& final(backend).pending() == less(old(backend).pending(), steps.len())
                &&& *final(vcpu) == handed_at(
                    *dispatcher,
                    *old(vcpu),
                    steps,
                    steps.len() as int,
                )
                &&& match r {
                    Ok(n) => n == steps.len() && n <= max_steps && !final(vcpu).state.runnable(),
                    Err(e) => e == VcpuError::StepBudgetExceeded(max_steps) && steps.len()
                        == max_steps && final(vcpu).state.runnable(),
                }
            },
{
    if !vcpu.state.is_runnable() {
        return Err(VcpuError::NotRunnable(vcpu.id, vcpu.state));
    }
    let ghost start = *vcpu;
    let ghost before = backend.history();
    let ghost mut done: Seq<BackendStep> = Seq::empty();
    let mut steps: u64 = 0;
    assert(before + done =~= before);
    while vcpu.state.is_runnable()
        invariant
            start == *old(vcpu),
            before == old(backend).history(),
            steps <= max_steps,
            done.len() == steps,
            is_run(*dispatcher, start, done),
            backend.history() == before + done,
            answered_by(old(backend), done),
            forall|n: nat, step: BackendStep| #[trigger]
                backend.may_answer(n, step) ==> old(backend).may_answer(n + done.len(), step),
            backend.pending() == less(old(backend).pending(), done.len()),
            *vcpu == handed_at(*dispatcher, start, done, done.len() as int),
            old(vcpu).state.runnable(),
        decreases max_steps - steps,
    {
        if steps >= max_steps {
            return Err(VcpuError::StepBudgetExceeded(max_steps));
        }
        let ghost handed = *vcpu;
        let reason = backend.run(vcpu);
        let ghost step = BackendStep { handed, left: *vcpu, reason };
        proof {
            let next = done.push(step);
            assert(backend.history() =~= before + next);
            assert forall|i: int| 0 <= i < next.len() implies #[trigger] follows(
                *dispatcher,
                start,
                next,
                i,
            ) by {
                if i < done.len() {
                    assert(follows(*dispatcher, start, done, i));
                    assert(next[i] == done[i]);
                }
                if i > 0 {
                    assert(next[i - 1] == done[i - 1]);
                }
            }
            done = next;
        }
        dispatcher.handle(reason, vcpu);
        assert(done[done.len() - 1] == step);
        steps = steps + 1;
    }
    Ok(steps)
}

// -------------------------------------------------------------- scheduler

/// Scheduling class, ordered from highest to lowest priority.
#[derive(Debug, Clone, Copy, PartialEq, Eq, PartialOrd, Ord, Hash, Structural)]
pub enum SchedClass {
    /// Critical host services; always run first.
    CriticalHost,
    /// Control-plane VM.
    ControlVm,
    /// Ordinary tenant guest.
    NormalGuest,
    /// Untrusted sandboxed guest.
    SandboxGuest,
    /// Detonation guest for malware analysis.
    DetonationGuest,
    /// Best-effort background guest.
    BackgroundGuest,
}

impl SchedClass {
    /// The class's rank: 0 is the highest priority.
    pub open spec fn rank(self) -> int {
        match self {
            SchedClass::CriticalHost => 0,
            SchedClass::ControlVm => 1,
            SchedClass::NormalGuest => 2,
            SchedClass::SandboxGuest => 3,
            SchedClass::DetonationGuest => 4,
            SchedClass::BackgroundGuest => 5,
        }
    }

    /// The classes from highest to lowest priority.
    pub fn priority_order() -> (r: [SchedClass; 6])
        ensures
            forall|i: int| 0 <= i < 6 ==> (#[trigger] r@[i]).rank() == i,
    {
        [
            SchedClass::CriticalHost,
            SchedClass::ControlVm,
            SchedClass::NormalGuest,
            SchedClass::SandboxGuest,
            SchedClass::DetonationGuest,
            SchedClass::BackgroundGuest,
        ]
    }

    fn index(self) -> (r: usize)
        ensures
            r == self.rank(),
            r < 6,
    {
        match self {
            SchedClass::CriticalHost => 0,
            SchedClass::ControlVm => 1,
            SchedClass::NormalGuest => 2,
            SchedClass::SandboxGuest => 3,
            SchedClass::DetonationGuest => 4,
            SchedClass::BackgroundGuest => 5,
        }
    }
}

/// Strict-priority, round-robin-within-priority scheduler.
///
/// Higher-priority classes always come before lower ones; within a class, vCPUs
/// are cycled. Blocked vCPUs leave the run queues until enqueued again.
#[derive(Debug)]
pub struct Scheduler {
    queues: Vec<VecDeque<VcpuId>>,
    blocked: BTreeSet<u32>,
}

/// The queue without `id`.
pub open spec fn without(q: Seq<VcpuId>, id: VcpuId) -> Seq<VcpuId>
    decreases q.len(),
{
    if q.len() == 0 {
        q
    } else if q.last() == id {
        without(q.drop_last(), id)
    } else {
        without(q.drop_last(), id).push(q.last())
    }
}

fn remove_all(q: &VecDeque<VcpuId>, id: VcpuId) -> (r: VecDeque<VcpuId>)
    ensures
        r@ == without(q@, id),
{
    let mut out: VecDeque<VcpuId> = VecDeque::new();
    let mut i: usize = 0;
    assert(out@ =~= without(q@.take(0), id));
    while i < q.len()
        invariant
            i <= q@.len(),
            out@ == without(q@.take(i as int), id),
        decreases q@.len() - i,
    {
        assert(q@.take(i as int + 1).drop_last() =~= q@.take(i as int));
        assert(q@.take(i as int + 1).last() == q@[i as int]);
        if q[i] != id {
            out.push_back(q[i]);
        }
        i = i + 1;
    }
    assert(q@.take(i as int) =~= q@);
    out
}

fn copied(q: &VecDeque<VcpuId>) -> (r: VecDeque<VcpuId>)
    ensures
        r@ == q@,
{
    let mut out: VecDeque<VcpuId> = VecDeque::new();
    let mut i: usize = 0;
    while i < q.len()
        invariant
            i <= q@.len(),
            out@ =~= q@.take(i as int),
        decreases q@.len() - i,
    {
        out.push_back(q[i]);
        i = i + 1;
    }
    assert(q@.take(i as int) =~= q@);
    out
}

fn queue_contains(q: &VecDeque<VcpuId>, id: VcpuId) -> (r: bool)
    ensures
        r == q@.contains(id),
{
    let mut i: usize = 0;
    while i < q.len()
        invariant
            i <= q@.len(),
            forall|j: int| 0 <= j < i ==> q@[j] != id,
        decreases q@.len() - i,
    {
        if q[i] == id {
            assert(q@[i as int] == id);
            return true;
        }
        i = i + 1;
    }
    false
}

proof fn without_keeps_others(q: Seq<VcpuId>, id: VcpuId)
    ensures
        !without(q, id).contains(id),
        forall|x: VcpuId| x != id ==> (#[trigger] without(q, id).contains(x) <==> q.contains(x)),
        q.no_duplicates() ==> without(q, id).no_duplicates(),
    decreases q.len(),
{
    if q.len() > 0 {
        let front = q.drop_last();
        without_keeps_others(front, id);
        let w = without(front, id);
        let all = without(q, id);
        assert forall|x: VcpuId| x != id implies (#[trigger] all.contains(x) <==> q.contains(x)) by {
            assert(w.contains(x) <==> front.contains(x));
            if q.contains(x) {
                let k = choose|k: int| 0 <= k < q.len() && q[k] == x;
                if k < front.len() {
                    assert(front[k] == x);
                    let m = choose|m: int| 0 <= m < w.len() && w[m] == x;
                    assert(all[m] == x);
                } else {
                    assert(all[all.len() - 1] == x);
                }
            }
            if all.contains(x) {
                let k = choose|k: int| 0 <= k < all.len() && all[k] == x;
                if k < w.len() {
                    assert(w[k] == x);
                    let m = choose|m: int| 0 <= m < front.len() && front[m] == x;
                    assert(q[m] == x);
                } else {
                    assert(q[q.len() - 1] == x);
                }
            }
        }
        if all.contains(id) {
            let k = choose|k: int| 0 <= k < all.len() && all[k] == id;
            assert(k < w.len() ==> w[k] == id);
        }
        if q.no_duplicates() {
            assert(front.no_duplicates());
            if q.last() != id {
                assert(!front.contains(q.last())) by {
                    if front.contains(q.last()) {
                        let k = choose|k: int| 0 <= k < front.len() && front[k] == q.last();
                        assert(q[k] == q[q.len() - 1]);
                    }
                }
                assert(!w.contains(q.last()));
                assert forall|i: int, j: int| 0 <= i < all.len() && 0 <= j < all.len() && i
                    != j implies all[i] != all[j] by {
                    if i == all.len() - 1 {
                        assert(w[j] == all[j]);
                    } else if j == all.len() - 1 {
                        assert(w[i] == all[i]);
                    }
                }
            }
        }
    }
}

/// The number of entries of the first `n` queues together.
pub open spec fn total(queues: Seq<Seq<VcpuId>>, n: int) -> nat
    decreases n,
{
    if n <= 0 {
        0
    } else {
        total(queues, n - 1) + queues[n - 1].len()
    }
}

/// What each of the queues holds.
spec fn contents(queues: Seq<VecDeque<VcpuId>>) -> Seq<Seq<VcpuId>> {
    Seq::new(queues.len(), |k: int| queues[k]@)
}

/// Six queues, none with a vCPU twice or with a blocked one.
pub open spec fn schedulable(queues: Seq<Seq<VcpuId>>, blocked: Set<u32>) -> bool {
    &&& queues.len() == 6
    &&& forall|k: int| 0 <= k < 6 ==> (#[trigger] queues[k]).no_duplicates()
    &&& forall|k: int, id: VcpuId|
        0 <= k < 6 && #[trigger] queues[k].contains(id) ==> !blocked.contains(id.0)
}

impl Scheduler {
    /// The run queues, by rank.
    pub closed spec fn queues(&self) -> Seq<Seq<VcpuId>> {
        contents(self.queues@)
    }

    /// The blocked vCPUs, by number.
    pub closed spec fn blocked(&self) -> Set<u32> {
        self.blocked@
    }

    /// Six queues, none with a vCPU twice or with a blocked one.
    #[verifier::type_invariant]
    pub open spec fn wf(&self) -> bool {
        schedulable(self.queues(), self.blocked())
    }

    /// Queue `k` is the first that is not empty.
    pub open spec fn first_busy(&self, k: int) -> bool {
        &&& 0 <= k < 6
        &&& self.queues()[k].len() > 0
        &&& forall|j: int| 0 <= j < k ==> (#[trigger] self.queues()[j]).len() == 0
    }

    /// Create an empty scheduler.
    pub fn new() -> (r: Self)
        ensures
            r.wf(),
            forall|k: int| 0 <= k < 6 ==> (#[trigger] r.queues()[k]).len() == 0,
            r.blocked() == Set::<u32>::empty(),
    {
        let mut queues: Vec<VecDeque<VcpuId>> = Vec::new();
        let mut i: usize = 0;
        while i < 6
            invariant
                i <= 6,
                queues@.len() == i,
                forall|k: int| 0 <= k < i ==> (#[trigger] queues@[k])@.len() == 0,
            decreases 6 - i,
        {
            queues.push(VecDeque::new());
            i = i + 1;
        }
        let r = Scheduler { queues, blocked: BTreeSet::new() };
        assert forall|k: int| 0 <= k < 6 implies (#[trigger] r.queues()[k]).len() == 0 by {
            assert(r.queues@[k]@.len() == 0);
        }
        r
    }

    /// The whole scheduler, an empty one left in its place.
    fn take(&mut self) -> (r: Self)
        ensures
            r == *old(self),
            r.wf(),
    {
        proof {
            use_type_invariant(&*self);
        }
        let mut all = Scheduler::new();
        std::mem::swap(&mut all, self);
        all
    }

    /// Add (or re-add) a vCPU to the run queue for `class`.
    ///
    /// Enqueuing clears any prior block of that vCPU. Enqueuing an id that is
    /// already queued in the same class changes nothing else.
    pub fn enqueue(&mut self, id: VcpuId, class: SchedClass)
        ensures
            final(self).wf(),
            final(self).blocked() == old(self).blocked().remove(id.0),
            final(self).queues() == (if old(self).queues()[class.rank()].contains(id) {
                old(self).queues()
            } else {
                old(self).queues().update(
                    class.rank(),
                    old(self).queues()[class.rank()].push(id),
                )
            }),
    {
        let all = self.take();
        let mut queues = all.queues;
        let mut blocked = all.blocked;
        blocked.remove(&id.0);
        let k: usize = class.index();
        let ghost before = contents(queues@);
        assert(before[k as int] == queues@[k as int]@);
        if !queue_contains(&queues[k], id) {
            queues[k].push_back(id);
            assert(contents(queues@) =~= before.update(k as int, before[k as int].push(id)));
        }
        proof {
            let after = contents(queues@);
            assert forall|j: int, x: VcpuId|
                0 <= j < 6 && #[trigger] after[j].contains(x) implies !blocked@.contains(x.0) by {
                let at = choose|at: int| 0 <= at < after[j].len() && after[j][at] == x;
                if at < before[j].len() {
                    assert(before[j][at] == x);
                    assert(before[j].contains(x));
                }
            }
            assert forall|j: int| 0 <= j < 6 implies (#[trigger] after[j]).no_duplicates() by {
                assert(before[j].no_duplicates());
            }
        }
        *self = Scheduler { queues, blocked };
    }

    /// Mark a vCPU as blocked: it leaves every run queue until it is enqueued
    /// again.
    pub fn block(&mut self, id: VcpuId)
        ensures
            final(self).wf(),
            final(self).blocked() == old(self).blocked().insert(id.0),
            final(self).queues().len() == 6,
            forall|k: int|
                0 <= k < 6 ==> #[trigger] final(self).queues()[k] == without(
                    old(self).queues()[k],
                    id,
                ),
    {
        let all = self.take();
        let mut queues = all.queues;
        let mut blocked = all.blocked;
        blocked.insert(id.0);
        let ghost before = contents(queues@);
        let mut i: usize = 0;
        while i < 6
            invariant
                i <= 6,
                before.len() == 6,
                queues@.len() == 6,
                forall|k: int| 0 <= k < i ==> #[trigger] queues@[k]@ == without(before[k], id),
                forall|k: int| i <= k < 6 ==> #[trigger] queues@[k]@ == before[k],
            decreases 6 - i,
        {
            let q = remove_all(&queues[i], id);
            queues[i] = q;
            i = i + 1;
        }
        proof {
            let after = contents(queues@);
            assert forall|k: int| 0 <= k < 6 implies (#[trigger] after[k]).no_duplicates() by {
                without_keeps_others(before[k], id);
                assert(before[k].no_duplicates());
            }
            assert forall|k: int, x: VcpuId|
                0 <= k < 6 && #[trigger] after[k].contains(x) implies !blocked@.contains(x.0) by {
                without_keeps_others(before[k], id);
                assert(before[k].contains(x));
            }
        }
        *self = Scheduler { queues, blocked };
    }

    /// Pick the next vCPU to run: the front of the highest-priority non-empty
    /// class, rotated to the back. `None` if nothing is runnable.
    pub fn next_runnable(&mut self) -> (r: Option<VcpuId>)
        ensures
            final(self).wf(),
            final(self).blocked() == old(self).blocked(),
            match r {
                Some(id) => exists|k: int|
                    {
                        &&& #[trigger] old(self).first_busy(k)
                        &&& id == old(self).queues()[k][0]
                        &&& final(self).queues() == old(self).queues().update(
                            k,
                            old(self).queues()[k].drop_first().push(id),
                        )
                    },
                None => final(self).queues() == old(self).queues() && forall|k: int|
                    0 <= k < 6 ==> (#[trigger] old(self).queues()[k]).len() == 0,
            },
    {
        proof {
            use_type_invariant(&*self);
        }
        let mut k: usize = 0;
        while k < 6
            invariant
                k <= 6,
                *self == *old(self),
                self.wf(),
                forall|j: int| 0 <= j < k ==> (#[trigger] self.queues()[j]).len() == 0,
            decreases 6 - k,
        {
            assert(self.queues()[k as int] == self.queues@[k as int]@);
            if self.queues[k].len() > 0 {
                let all = self.take();
                let mut queues = all.queues;
                let ghost before = contents(queues@);
                let id = match queues[k].pop_front() {
                    Some(id) => id,
                    None => {
                        return None;
                    },
                };
                queues[k].push_back(id);
                let ghost rotated = before[k as int].drop_first().push(id);
                let ghost after = contents(queues@);
                assert(queues@[k as int]@ =~= rotated);
                assert(after =~= before.update(k as int, rotated));
                proof {
                    rotation_keeps(before[k as int]);
                    assert(old(self).first_busy(k as int));
                    assert forall|j: int, x: VcpuId|
                        0 <= j < 6 && #[trigger] after[j].contains(x) implies !all.blocked@.contains(
                        x.0,
                    ) by {
                        assert(before[j].contains(x));
                    }
                    assert forall|j: int| 0 <= j < 6 implies (#[trigger] after[j]).no_duplicates() by {
                        assert(before[j].no_duplicates());
                    }
                }
                *self = Scheduler { queues, blocked: all.blocked };
                return Some(id);
            }
            k = k + 1;
        }
        None
    }

    /// Total number of queued (runnable) vCPUs across all classes.
    pub fn len(&self) -> (r: usize)
        requires
            total(self.queues(), 6) <= usize::MAX,
        ensures
            r == total(self.queues(), 6),
    {
        proof {
            use_type_invariant(self);
        }
        let mut sum: usize = 0;
        let mut i: usize = 0;
        while i < 6
            invariant
                i <= 6,
                self.wf(),
                total(self.queues(), 6) <= usize::MAX,
                sum == total(self.queues(), i as int),
            decreases 6 - i,
        {
            assert(self.queues()[i as int] == self.queues@[i as int]@);
            proof {
                total_grows(self.queues(), i as int + 1, 6);
            }
            sum = sum + self.queues[i].len();
            i = i + 1;
        }
        sum
    }

    /// Whether no vCPU is currently runnable.
    pub fn is_empty(&self) -> (r: bool)
        ensures
            r == forall|k: int| 0 <= k < 6 ==> (#[trigger] self.queues()[k]).len() == 0,
    {
        proof {
            use_type_invariant(self);
        }
        let mut i: usize = 0;
        while i < 6
            invariant
                i <= 6,
                self.wf(),
                forall|k: int| 0 <= k < i ==> (#[trigger] self.queues()[k]).len() == 0,
            decreases 6 - i,
        {
            assert(self.queues()[i as int] == self.queues@[i as int]@);
            if self.queues[i].len() != 0 {
                return false;
            }
            i = i + 1;
        }
        true
    }
}

impl Clone for Scheduler {
    fn clone(&self) -> (r: Self)
        ensures
            r.queues() == self.queues(),
            r.blocked() == self.blocked(),
    {
        proof {
            use_type_invariant(self);
        }
        let mut queues: Vec<VecDeque<VcpuId>> = Vec::new();
        let mut i: usize = 0;
        while i < self.queues.len()
            invariant
                i <= self.queues@.len(),
                queues@.len() == i,
                forall|k: int| 0 <= k < i ==> (#[trigger] queues@[k])@ == self.queues@[k]@,
            decreases self.queues@.len() - i,
        {
            queues.push(copied(&self.queues[i]));
            i = i + 1;
        }
        assert(contents(queues@) =~= self.queues());
        Scheduler { queues, blocked: self.blocked.clone() }
    }
}

impl Default for Scheduler {
    fn default() -> (r: Self)
        ensures
            r.wf(),
            forall|k: int| 0 <= k < 6 ==> (#[trigger] r.queues()[k]).len() == 0,
            r.blocked() == Set::<u32>::empty(),
    {
        Self::new()
    }
}

proof fn total_grows(queues: Seq<Seq<VcpuId>>, a: int, b: int)
    requires
        a <= b,
    ensures
        total(queues, a) <= total(queues, b),
    decreases b - a,
{
    if a < b {
        total_grows(queues, a, b - 1);
    }
}

/// Rotating a queue keeps its members.
proof fn rotation_keeps(q: Seq<VcpuId>)
    requires
        q.len() > 0,
    ensures
        q.no_duplicates() ==> q.drop_first().push(q[0]).no_duplicates(),
        forall|x: VcpuId| #[trigger] q.drop_first().push(q[0]).contains(x) ==> q.contains(x),
{
    let r = q.drop_first().push(q[0]);
    assert forall|x: VcpuId| #[trigger] r.contains(x) implies q.contains(x) by {
        let i = choose|i: int| 0 <= i < r.len() && r[i] == x;
        if i == r.len() - 1 {
            assert(q[0] == x);
        } else {
            assert(q[i + 1] == x);
        }
    }
    if q.no_duplicates() {
        assert forall|i: int, j: int| 0 <= i < r.len() && 0 <= j < r.len() && i != j implies r[i]
            != r[j] by {
            let a = if i == r.len() - 1 {
                0
            } else {
                i + 1
            };
            let b = if j == r.len() - 1 {
                0
            } else {
                j + 1
            };
            assert(q[a] != q[b]);
        }
    }
}

// ------------------------------------------------------------------- laws

/// An intercepted access that no allow-list names is never emulated or
/// resumed untouched.
pub proof fn denied_by_default(d: ExitDispatcher, intercept: InterceptPolicy)
    requires
        intercept.msr,
        intercept.io,
    ensures
        forall|msr: u32|
            !d.msr_allow@.contains(msr) ==> #[trigger] d.policy_action(
                VmExitReason::MsrRead { msr },
                intercept,
            ) == VmExitAction::InjectException(GP_FAULT_VECTOR),
        forall|msr: u32, val: u64|
            !d.msr_allow@.contains(msr) ==> #[trigger] d.policy_action(
                VmExitReason::MsrWrite { msr, val },
                intercept,
            ) == VmExitAction::InjectException(GP_FAULT_VECTOR),
        forall|port: u16, write: bool|
            !d.io_allow@.contains(port) ==> #[trigger] d.policy_action(
                VmExitReason::Io { port, write },
                intercept,
            ) == VmExitAction::QuarantineVm,
        forall|code: u64| #[trigger]
            d.policy_action(VmExitReason::Unknown(code), intercept) == VmExitAction::KillVm,
{
}

/// A vCPU over its exit budget is killed at its next exit, whatever it was.
pub proof fn storm_kills(d: ExitDispatcher, reason: VmExitReason, vcpu: Vcpu)
    requires
        vcpu.run_stats.exits >= d.exit_storm_limit,
        d.exit_storm_limit < u64::MAX,
    ensures
        d.action(reason, vcpu) == VmExitAction::KillVm,
        d.handled(reason, vcpu).state == VcpuState::Killed,
{
}

/// Handling an exit never makes a vCPU in a terminal state runnable again.
pub proof fn terminal_is_never_resumed(d: ExitDispatcher, reason: VmExitReason, vcpu: Vcpu)
    requires
        vcpu.state.terminal(),
    ensures
        !d.handled(reason, vcpu).state.runnable(),
{
}

/// Every run of a fresh vCPU ends within the exit budget: as long as the backend
/// leaves the statistics alone, no such run is longer than the budget plus one.
pub proof fn storm_bounds_run(d: ExitDispatcher, start: Vcpu, steps: Seq<BackendStep>, i: int)
    requires
        is_run(d, start, steps),
        forall|k: int|
            0 <= k < steps.len() ==> (#[trigger] steps[k]).left.run_stats
                == steps[k].handed.run_stats,
        d.exit_storm_limit < u64::MAX,
        start.run_stats.exits == 0,
        0 <= i <= steps.len(),
    ensures
        handed_at(d, start, steps, i).run_stats.exits == i,
        i < steps.len() ==> i <= d.exit_storm_limit,
    decreases i,
{
    if i > 0 {
        storm_bounds_run(d, start, steps, i - 1);
        let s = steps[i - 1];
        let next = d.handled(s.reason, s.left);
        assert(follows(d, start, steps, i - 1));
        assert(s.left.run_stats == handed_at(d, start, steps, i - 1).run_stats);
        assert(next.run_stats == s.left.recorded(s.reason));
        assert(handed_at(d, start, steps, i) == next);
        if i < steps.len() {
            assert(follows(d, start, steps, i));
            if i > d.exit_storm_limit {
                storm_kills(d, s.reason, s.left);
            }
        }
    }
}

/// A script decides the run: two runs of one scripted backend from one vCPU that
/// went on until the vCPU stopped being runnable are the same run.
pub proof fn script_decides_run(
    d: ExitDispatcher,
    start: Vcpu,
    backend: FakeBackend,
    s: Seq<BackendStep>,
    t: Seq<BackendStep>,
)
    requires
        is_run(d, start, s),
        is_run(d, start, t),
        answered_by(&backend, s),
        answered_by(&backend, t),
        !handed_at(d, start, s, s.len() as int).state.runnable(),
        !handed_at(d, start, t, t.len() as int).state.runnable(),
    ensures
        s == t,
{
    let n = if s.len() < t.len() {
        s.len()
    } else {
        t.len()
    };
    script_decides_steps(d, start, backend, s, t, n);
    if n > 0 {
        assert(s[n - 1] == t[n - 1]);
    }
    if s.len() < t.len() {
        assert(follows(d, start, t, n as int));
    } else if t.len() < s.len() {
        assert(follows(d, start, s, n as int));
    }
    assert(s =~= t);
}

proof fn script_decides_steps(
    d: ExitDispatcher,
    start: Vcpu,
    backend: FakeBackend,
    s: Seq<BackendStep>,
    t: Seq<BackendStep>,
    n: nat,
)
    requires
        is_run(d, start, s),
        is_run(d, start, t),
        answered_by(&backend, s),
        answered_by(&backend, t),
        n <= s.len(),
        n <= t.len(),
    ensures
        forall|i: int| 0 <= i < n ==> #[trigger] s[i] == t[i],
    decreases n,
{
    if n > 0 {
        let k = n - 1;
        script_decides_steps(d, start, backend, s, t, k as nat);
        if k > 0 {
            assert(s[k - 1] == t[k - 1]);
        }
        assert(follows(d, start, s, k) && follows(d, start, t, k));
        assert(backend.may_answer(k as nat, s[k]) && backend.may_answer(k as nat, t[k]));
    }
}

/// Strict priority: whatever class a vCPU was picked from, no class above it
/// had one to run, and a blocked vCPU is never picked.
pub proof fn picks_highest_unblocked(s: Scheduler, k: int)
    requires
        s.wf(),
        s.first_busy(k),
    ensures
        forall|j: int| 0 <= j < k ==> (#[trigger] s.queues()[j]).len() == 0,
        !s.blocked().contains(s.queues()[k][0].0),
{
    assert(s.queues()[k].contains(s.queues()[k][0]));
}

/// The queue after `n` picks from it: its front goes to its back, `n` times.
pub open spec fn rotated(q: Seq<VcpuId>, n: nat) -> Seq<VcpuId>
    decreases n,
{
    if n == 0 {
        q
    } else {
        let p = rotated(q, (n - 1) as nat);
        p.drop_first().push(p[0])
    }
}

/// Round robin: as long as a class stays the first busy one, its vCPUs are
/// picked in turn, each once per round.
pub proof fn round_robin(q: Seq<VcpuId>, n: nat)
    requires
        q.len() > 0,
    ensures
        rotated(q, n).len() == q.len(),
        forall|i: int|
            0 <= i < q.len() ==> #[trigger] rotated(q, n)[i] == q[((n + i) % (q.len() as int))],
        rotated(q, n)[0] == q[(n % q.len()) as int],
    decreases n,
{
    let len = q.len() as int;
    if n == 0 {
        assert forall|i: int| 0 <= i < len implies #[trigger] rotated(q, n)[i] == q[((n + i)
            % len)] by {
            vstd::arithmetic::div_mod::lemma_small_mod(i as nat, len as nat);
        }
        vstd::arithmetic::div_mod::lemma_small_mod(0, len as nat);
    } else {
        let m = (n - 1) as nat;
        round_robin(q, m);
        let p = rotated(q, m);
        assert forall|i: int| 0 <= i < len implies #[trigger] rotated(q, n)[i] == q[((n + i)
            % len)] by {
            if i < len - 1 {
                assert(rotated(q, n)[i] == p[i + 1]);
                assert(m + (i + 1) == n + i);
            } else {
                assert(rotated(q, n)[i] == p[0]);
                assert(p[0] == q[((m + 0int) % len)]);
                assert(n + i == m + len);
                vstd::arithmetic::div_mod::lemma_mod_add_multiples_vanish(m as int, len);
            }
        }
        assert(rotated(q, n)[0] == q[((n + 0int) % len)]);
    }
}

} // verus!
