//! What the processor operations are for, stated over their calls.
use vstd::prelude::*;

use crate::mm::VmId;
use crate::vcpu;
use crate::vcpu::{
    run_loop, BackendStep, ExitDispatcher, FakeBackend, InterceptPolicy, SchedClass, Scheduler,
    SvmBackend, Vcpu, VcpuError, VcpuId, VcpuIdAllocator, VcpuState, VmExitAction, VmExitReason,
};

verus! {

/// Only ready and running processors may run, and only halted, killed and
/// quarantined ones are at their end; a blocked one is neither.
pub proof fn states_by_kind(s: VcpuState, runnable: bool, terminal: bool)
    requires
        call_ensures(VcpuState::is_runnable, (s,), runnable),
        call_ensures(VcpuState::is_terminal, (s,), terminal),
    ensures
        s == VcpuState::Ready || s == VcpuState::Running ==> runnable && !terminal,
        s == VcpuState::Blocked ==> !runnable && !terminal,
        s == VcpuState::Halted || s == VcpuState::Killed || s == VcpuState::Quarantined ==> !runnable
            && terminal,
{
}

/// Ids are given out one after the other, none twice.
pub proof fn ids_count_up(
    a: &mut VcpuIdAllocator,
    b: &mut VcpuIdAllocator,
    x: VcpuId,
    y: VcpuId,
)
    requires
        call_ensures(VcpuIdAllocator::allocate, (a,), x),
        *old(b) == *final(a),
        call_ensures(VcpuIdAllocator::allocate, (b,), y),
    ensures
        y.0 == x.0 + 1,
{
}

/// A new processor is ready, has taken no exit and intercepts everything.
pub proof fn new_processor_intercepts_everything(id: VcpuId, vm: VmId, v: Vcpu)
    requires
        call_ensures(Vcpu::new, (id, vm), v),
    ensures
        v.id == id && v.vm_id == vm,
        v.state == VcpuState::Ready,
        v.run_stats.exits == 0,
        v.intercept_policy.cpuid && v.intercept_policy.msr && v.intercept_policy.io
            && v.intercept_policy.hlt,
{
}

/// The register that an exit asks for.
pub open spec fn register_asked(reason: VmExitReason) -> Option<u32> {
    match reason {
        VmExitReason::MsrRead { msr } => Some(msr),
        VmExitReason::MsrWrite { msr, .. } => Some(msr),
        _ => None,
    }
}

/// Every exit is counted, and the last one remembered; who the processor is and
/// what it intercepts stays.
pub proof fn every_exit_is_counted(
    d: &ExitDispatcher,
    reason: VmExitReason,
    v: &mut Vcpu,
    r: VmExitAction,
)
    requires
        call_ensures(ExitDispatcher::handle, (d, reason, v), r),
    ensures
        old(v).run_stats.exits < u64::MAX ==> final(v).run_stats.exits - old(v).run_stats.exits
            == 1,
        old(v).run_stats.exits == u64::MAX ==> final(v).run_stats.exits == u64::MAX,
        final(v).run_stats.last_exit_reason == Some(reason),
        final(v).id == old(v).id,
        final(v).vm_id == old(v).vm_id,
        final(v).intercept_policy == old(v).intercept_policy,
{
}

/// A processor that takes more exits than its budget is killed, whatever the exit.
pub proof fn storms_are_killed(
    d: &ExitDispatcher,
    reason: VmExitReason,
    v: &mut Vcpu,
    r: VmExitAction,
)
    requires
        call_ensures(ExitDispatcher::handle, (d, reason, v), r),
        final(v).run_stats.exits > d.exit_storm_limit,
    ensures
        r == VmExitAction::KillVm,
        final(v).state == VcpuState::Killed,
{
}

/// Within the budget each action has its own ground. Nothing is emulated that is
/// not allowed: an intercepted register access is emulated exactly where the
/// register is listed, and faults otherwise; an intercepted port access is
/// emulated exactly where the port is listed, and quarantines the guest otherwise.
pub proof fn actions_have_their_grounds(
    d: &ExitDispatcher,
    reason: VmExitReason,
    v: &mut Vcpu,
    r: VmExitAction,
)
    requires
        call_ensures(ExitDispatcher::handle, (d, reason, v), r),
        final(v).run_stats.exits <= d.exit_storm_limit,
    ensures
        r == VmExitAction::KillVm <==> reason is Shutdown || reason is Unknown || reason == (
        VmExitReason::NestedPageFault { gpa: 0 }),
        r == VmExitAction::BlockVcpu <==> reason is Hlt && old(v).intercept_policy.hlt,
        r == VmExitAction::QuarantineVm <==> reason is Io && old(v).intercept_policy.io
            && !d.io_allow@.contains(reason->port),
        r is InjectException <==> register_asked(reason) is Some && old(v).intercept_policy.msr
            && !d.msr_allow@.contains(register_asked(reason)->0),
        r is InjectException ==> r == VmExitAction::InjectException(13),
        register_asked(reason) is Some ==> (r == VmExitAction::EmulateAndResume <==> old(v).intercept_policy.msr && d.msr_allow@.contains(register_asked(reason)->0)),
        reason is Io ==> (r == VmExitAction::EmulateAndResume <==> old(v).intercept_policy.io
            && d.io_allow@.contains(reason->port)),
        reason is Cpuid ==> (r == VmExitAction::EmulateAndResume <==> old(v).intercept_policy.cpuid),
        reason is NestedPageFault && reason->gpa != 0 ==> r == VmExitAction::EmulateAndResume,
        reason is ExternalIrq ==> r == VmExitAction::Resume,
        reason is Hlt && !old(v).intercept_policy.hlt ==> r == VmExitAction::Resume,
        reason is Cpuid && !old(v).intercept_policy.cpuid ==> r == VmExitAction::Resume,
        reason is Io && !old(v).intercept_policy.io ==> r == VmExitAction::Resume,
        register_asked(reason) is Some && !old(v).intercept_policy.msr ==> r
            == VmExitAction::Resume,
        r != VmExitAction::HaltHost,
{
}

/// The state follows the action: a processor that goes on is running, unless it
/// was already at its end; one that is killed, blocked or quarantined is just that.
pub proof fn state_follows_the_action(
    d: &ExitDispatcher,
    reason: VmExitReason,
    v: &mut Vcpu,
    r: VmExitAction,
)
    requires
        call_ensures(ExitDispatcher::handle, (d, reason, v), r),
    ensures
        r == VmExitAction::KillVm ==> final(v).state == VcpuState::Killed,
        r == VmExitAction::BlockVcpu ==> final(v).state == VcpuState::Blocked,
        r == VmExitAction::QuarantineVm ==> final(v).state == VcpuState::Quarantined,
        r == VmExitAction::Resume || r == VmExitAction::EmulateAndResume || r is InjectException
            ==> {
            &&& old(v).state == VcpuState::Ready || old(v).state == VcpuState::Running || old(v).state == VcpuState::Blocked ==> final(v).state == VcpuState::Running
            &&& old(v).state == VcpuState::Halted || old(v).state == VcpuState::Killed || old(v).state == VcpuState::Quarantined ==> final(v).state == old(v).state
        },
{
}

/// An empty dispatcher allows no register and no port, and gives a processor 1024
/// exits.
pub proof fn default_dispatcher_allows_nothing(d: ExitDispatcher, msr: u32, port: u16)
    requires
        call_ensures(<ExitDispatcher as Default>::default, (), d),
    ensures
        !d.msr_allow@.contains(msr),
        !d.io_allow@.contains(port),
        d.exit_storm_limit == 1024,
{
}

// ---------------------------------------------------------------- run loop

/// A processor that may not run is not run: nothing changes, and the error names
/// it and its state.
pub proof fn stopped_processor_is_not_run(
    b: &mut FakeBackend,
    d: &ExitDispatcher,
    v: &mut Vcpu,
    max: u64,
    r: Result<u64, VcpuError>,
)
    requires
        call_ensures(run_loop::<FakeBackend>, (b, d, v, max), r),
        old(v).state != VcpuState::Ready,
        old(v).state != VcpuState::Running,
    ensures
        r == Err::<u64, VcpuError>(VcpuError::NotRunnable(old(v).id, old(v).state)),
        *final(v) == *old(v),
        final(b).pending() == old(b).pending(),
{
}

/// A run goes on until the processor may no longer run or the budget is used up,
/// takes one exit at a time, counts each of them, and uses up the script by as
/// many.
pub proof fn run_ends_when_the_processor_stops(
    b: &mut FakeBackend,
    d: &ExitDispatcher,
    v: &mut Vcpu,
    max: u64,
    r: Result<u64, VcpuError>,
)
    requires
        call_ensures(run_loop::<FakeBackend>, (b, d, v, max), r),
        old(v).state == VcpuState::Ready || old(v).state == VcpuState::Running,
        old(v).run_stats.exits + max <= u64::MAX,
    ensures
        r matches Ok(n) ==> {
            &&& 0 < n <= max
            &&& final(v).state != VcpuState::Ready && final(v).state != VcpuState::Running
            &&& final(v).run_stats.exits - old(v).run_stats.exits == n
            &&& final(b).history().len() - old(b).history().len() == n
        },
        r matches Err(e) ==> {
            &&& e == VcpuError::StepBudgetExceeded(max)
            &&& final(v).state == VcpuState::Ready || final(v).state == VcpuState::Running
            &&& final(v).run_stats.exits - old(v).run_stats.exits == max
            &&& final(b).history().len() - old(b).history().len() == max
        },
        final(v).id == old(v).id,
        final(v).vm_id == old(v).vm_id,
        final(v).intercept_policy == old(v).intercept_policy,
{
    let steps = choose|steps: Seq<BackendStep>|
        {
            &&& #[trigger] vcpu::is_run(*d, *old(v), steps)
            &&& final(b).history() == old(b).history() + steps
            &&& vcpu::answered_by(old(b), steps)
            &&& final(b).pending() == vcpu::less(old(b).pending(), steps.len())
            &&& *final(v) == vcpu::handed_at(*d, *old(v), steps, steps.len() as int)
            &&& match r {
                Ok(n) => n == steps.len() && n <= max && !final(v).state.runnable(),
                Err(e) => e == VcpuError::StepBudgetExceeded(max) && steps.len() == max && final(v).state.runnable(),
            }
        };
    run_keeps_count(*old(b), *d, *old(v), steps, steps.len() as int);
}

proof fn run_keeps_count(
    b: FakeBackend,
    d: ExitDispatcher,
    start: Vcpu,
    steps: Seq<BackendStep>,
    i: int,
)
    requires
        vcpu::is_run(d, start, steps),
        vcpu::answered_by(&b, steps),
        0 <= i <= steps.len(),
        start.run_stats.exits + steps.len() <= u64::MAX,
    ensures
        vcpu::handed_at(d, start, steps, i).run_stats.exits == start.run_stats.exits + i,
        vcpu::handed_at(d, start, steps, i).id == start.id,
        vcpu::handed_at(d, start, steps, i).vm_id == start.vm_id,
        vcpu::handed_at(d, start, steps, i).intercept_policy == start.intercept_policy,
    decreases i,
{
    if i > 0 {
        run_keeps_count(b, d, start, steps, i - 1);
        let s = steps[i - 1];
        assert(vcpu::follows(d, start, steps, i - 1));
        assert(b.may_answer((i - 1) as nat, s));
        assert(s.left.run_stats == s.handed.run_stats);
    }
}

/// The exit that a run remembers at its end is the last one that it took of the
/// script: the script from where it stood, and shutdowns behind its end.
pub proof fn run_takes_the_script_in_order(
    b: &mut FakeBackend,
    d: &ExitDispatcher,
    v: &mut Vcpu,
    max: u64,
    n: u64,
)
    requires
        call_ensures(run_loop::<FakeBackend>, (b, d, v, max), Ok::<u64, VcpuError>(n)),
        old(v).state == VcpuState::Ready || old(v).state == VcpuState::Running,
    ensures
        n > 0,
        final(v).run_stats.last_exit_reason == Some(
            if old(b).consumed() + n - 1 < old(b).script().len() {
                old(b).script()[old(b).consumed() + n - 1]
            } else {
                VmExitReason::Shutdown
            },
        ),
        old(b).pending() >= n ==> final(b).pending() == old(b).pending() - n,
        old(b).pending() < n ==> final(b).pending() == 0,
{
    let steps = choose|steps: Seq<BackendStep>|
        {
            &&& #[trigger] vcpu::is_run(*d, *old(v), steps)
            &&& final(b).history() == old(b).history() + steps
            &&& vcpu::answered_by(old(b), steps)
            &&& final(b).pending() == vcpu::less(old(b).pending(), steps.len())
            &&& *final(v) == vcpu::handed_at(*d, *old(v), steps, steps.len() as int)
            &&& n == steps.len() && n <= max && !final(v).state.runnable()
        };
    assert(n > 0);
    let s = steps[n - 1];
    assert(old(b).may_answer((n - 1) as nat, s));
}

/// A scripted backend gives its script exit by exit, and shuts down behind its
/// end; it sets the processor running and changes nothing else of it.
pub proof fn backend_follows_its_script(
    b: &mut FakeBackend,
    v: &mut Vcpu,
    r: VmExitReason,
)
    requires
        call_ensures(<FakeBackend as SvmBackend>::run, (b, v), r),
    ensures
        old(b).consumed() < old(b).script().len() ==> r == old(b).script()[old(b).consumed() as int] && final(b).consumed() == old(b).consumed() + 1,
        old(b).consumed() >= old(b).script().len() ==> r == VmExitReason::Shutdown,
        final(b).script() == old(b).script(),
        final(v).state == VcpuState::Running,
        final(v).id == old(v).id && final(v).run_stats == old(v).run_stats,
        final(v).vm_id == old(v).vm_id && final(v).intercept_policy == old(v).intercept_policy,
{
}

// --------------------------------------------------------------- scheduler

/// How many classes come before this one.
pub open spec fn classes_before(c: SchedClass) -> int {
    if c == SchedClass::CriticalHost {
        0
    } else if c == SchedClass::ControlVm {
        1
    } else if c == SchedClass::NormalGuest {
        2
    } else if c == SchedClass::SandboxGuest {
        3
    } else if c == SchedClass::DetonationGuest {
        4
    } else {
        5
    }
}

/// The order of the classes: critical host services, the control machine, guests,
/// sandboxes, detonation guests, background guests.
pub proof fn classes_in_order(r: [SchedClass; 6])
    requires
        call_ensures(SchedClass::priority_order, (), r),
    ensures
        r@.len() == 6,
        forall|i: int| 0 <= i < 6 ==> classes_before(#[trigger] r@[i]) == i,
{
    assert forall|i: int| 0 <= i < 6 implies classes_before(#[trigger] r@[i]) == i by {
        assert(r@[i].rank() == i);
    }
}

/// A processor that is enqueued stands in the queue of its class, at the end where
/// it was not there yet, and is no longer blocked; the other queues and the other
/// processors of this one stay as they are.
pub proof fn enqueued_stands_in_its_class(
    s: &mut Scheduler,
    id: VcpuId,
    class: SchedClass,
    u: (),
    k: int,
)
    requires
        call_ensures(Scheduler::enqueue, (s, id, class), u),
        old(s).wf(),
        0 <= k < 6,
    ensures
        final(s).queues()[classes_before(class)].contains(id),
        !final(s).blocked().contains(id.0),
        forall|x: u32| x != id.0 ==> final(s).blocked().contains(x) == old(s).blocked().contains(x),
        !old(s).queues()[classes_before(class)].contains(id) ==> {
            let q = final(s).queues()[classes_before(class)];
            &&& q.last() == id
            &&& q.drop_last() == old(s).queues()[classes_before(class)]
        },
        old(s).queues()[classes_before(class)].contains(id) ==> final(s).queues()
            == old(s).queues(),
        k != classes_before(class) ==> final(s).queues()[k] == old(s).queues()[k],
{
    let r = classes_before(class);
    let (p, q) = (old(s).queues()[r], final(s).queues()[r]);
    if !p.contains(id) {
        assert(q == p.push(id));
        assert(q.drop_last() =~= p);
        assert(q[p.len() as int] == id);
    }
}

/// A processor that is blocked stands in no queue; every queue keeps its others,
/// in their order.
pub proof fn blocked_stands_nowhere(s: &mut Scheduler, id: VcpuId, u: (), k: int)
    requires
        call_ensures(Scheduler::block, (s, id), u),
        old(s).wf(),
        0 <= k < 6,
    ensures
        final(s).blocked().contains(id.0),
        forall|x: u32| x != id.0 ==> final(s).blocked().contains(x) == old(s).blocked().contains(x),
        !final(s).queues()[k].contains(id),
        final(s).queues()[k] == old(s).queues()[k].filter(|x: VcpuId| x != id),
{
    taken_out_is_filtered(old(s).queues()[k], id);
    assert(final(s).queues()[k] == vcpu::without(old(s).queues()[k], id));
}

proof fn taken_out_is_filtered(q: Seq<VcpuId>, id: VcpuId)
    ensures
        vcpu::without(q, id) == q.filter(|x: VcpuId| x != id),
        !vcpu::without(q, id).contains(id),
    decreases q.len(),
{
    reveal(Seq::filter);
    if q.len() > 0 {
        taken_out_is_filtered(q.drop_last(), id);
        let w = vcpu::without(q, id);
        let v = vcpu::without(q.drop_last(), id);
        if w.contains(id) {
            let i = choose|i: int| 0 <= i < w.len() && w[i] == id;
            assert(i < v.len() ==> v[i] == id);
        }
    }
}

/// Strict priority and turns: what is picked stood first in a class, no class
/// above which had anything to run, and now stands last in it; nothing else moves.
/// Nothing is picked only where no class has anything to run. What is blocked is
/// never picked.
pub proof fn pick_is_first_of_the_first_class(
    s: &mut Scheduler,
    r: Option<VcpuId>,
    k: int,
)
    requires
        call_ensures(Scheduler::next_runnable, (s,), r),
        old(s).wf(),
        0 <= k < 6,
        old(s).queues()[k].len() > 0,
        forall|j: int| 0 <= j < k ==> (#[trigger] old(s).queues()[j]).len() == 0,
    ensures
        r == Some(old(s).queues()[k][0]),
        !old(s).blocked().contains(old(s).queues()[k][0].0),
        final(s).queues()[k].last() == old(s).queues()[k][0],
        final(s).queues()[k].drop_last() == old(s).queues()[k].drop_first(),
        forall|j: int| 0 <= j < 6 && j != k ==> #[trigger] final(s).queues()[j]
            == old(s).queues()[j],
        final(s).blocked() == old(s).blocked(),
{
    let q = old(s).queues()[k];
    assert(q.contains(q[0]));
    if r is None {
        assert(old(s).queues()[k].len() == 0);
    }
    let m = choose|m: int|
        {
            &&& #[trigger] old(s).first_busy(m)
            &&& r->0 == old(s).queues()[m][0]
            &&& final(s).queues() == old(s).queues().update(
                m,
                old(s).queues()[m].drop_first().push(r->0),
            )
        };
    assert(m == k) by {
        if m < k {
            assert(old(s).queues()[m].len() == 0);
        } else if k < m {
            assert(old(s).queues()[k].len() == 0);
        }
    }
    assert(final(s).queues()[k].drop_last() =~= q.drop_first());
}

/// Where no class has anything to run, nothing is picked and nothing moves.
pub proof fn idle_scheduler_picks_nothing(s: &mut Scheduler, r: Option<VcpuId>)
    requires
        call_ensures(Scheduler::next_runnable, (s,), r),
        old(s).wf(),
        forall|j: int| 0 <= j < 6 ==> (#[trigger] old(s).queues()[j]).len() == 0,
    ensures
        r is None,
        final(s).queues() == old(s).queues(),
{
    if r is Some {
        let m = choose|m: int| #[trigger] old(s).first_busy(m);
        assert(old(s).queues()[m].len() == 0);
    }
}

/// A blocked processor is not picked until it is enqueued again.
pub proof fn blocked_is_not_picked(
    s: &mut Scheduler,
    t: &mut Scheduler,
    id: VcpuId,
    u: (),
    r: Option<VcpuId>,
)
    requires
        call_ensures(Scheduler::block, (s, id), u),
        old(s).wf(),
        *old(t) == *final(s),
        call_ensures(Scheduler::next_runnable, (t,), r),
    ensures
        r != Some(id),
{
    if let Some(x) = r {
        let m = choose|m: int|
            {
                &&& #[trigger] old(t).first_busy(m)
                &&& x == old(t).queues()[m][0]
            };
        blocked_stands_nowhere(s, id, u, m);
        assert(old(t).queues()[m].contains(x));
    }
}

/// The length counts every queue once, and a scheduler is empty exactly where
/// nothing is queued.
pub proof fn length_counts_every_queue(s: &Scheduler, n: usize, e: bool)
    requires
        call_ensures(Scheduler::len, (s,), n),
        call_ensures(Scheduler::is_empty, (s,), e),
    ensures
        n == s.queues()[0].len() + s.queues()[1].len() + s.queues()[2].len() + s.queues()[3].len()
            + s.queues()[4].len() + s.queues()[5].len(),
        e <==> n == 0,
{
    reveal_with_fuel(vcpu::total, 7);
    let q = s.queues();
    assert(e ==> q[0].len() == 0 && q[1].len() == 0 && q[2].len() == 0);
    assert(e ==> q[3].len() == 0 && q[4].len() == 0 && q[5].len() == 0);
}

} // verus!
