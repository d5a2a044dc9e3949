//! Virtual processors: exits, their dispatch, and scheduling.
use std::collections::BTreeSet;

use hyper_slate::mm::VmId;
use hyper_slate::vcpu::{
    run_loop, ExitDispatcher, FakeBackend, InterceptPolicy, SchedClass, Scheduler, Vcpu, VcpuError,
    VcpuId, VcpuIdAllocator, VcpuState, VmExitAction, VmExitReason, GP_FAULT_VECTOR,
};


fn vm() -> VmId {
    VmId::new("vm-test")
}

fn vcpu() -> Vcpu {
    Vcpu::new(VcpuId(0), vm())
}

#[test]
fn id_allocator_is_deterministic() {
    let mut a = VcpuIdAllocator::new();
    let mut b = VcpuIdAllocator::new();
    assert_eq!(a.allocate(), VcpuId(0));
    assert_eq!(a.allocate(), VcpuId(1));
    assert_eq!(b.allocate(), VcpuId(0));
    assert_eq!(b.allocate(), VcpuId(1));
    assert_eq!(a.allocate().as_u32(), 2);
}

#[test]
fn intercept_policy_defaults_all_true() {
    let p = InterceptPolicy::default();
    assert!(p.cpuid && p.msr && p.io && p.hlt);
}

#[test]
fn cpuid_emulates_and_resumes() {
    let d = ExitDispatcher::default();
    let mut v = vcpu();
    let action = d.handle(VmExitReason::Cpuid { leaf: 1 }, &mut v);
    assert_eq!(action, VmExitAction::EmulateAndResume);
    assert_eq!(v.state, VcpuState::Running);
    assert_eq!(v.run_stats.exits, 1);
    assert_eq!(
        v.run_stats.last_exit_reason,
        Some(VmExitReason::Cpuid { leaf: 1 })
    );
}

#[test]
fn unknown_exit_kills_vm() {
    let d = ExitDispatcher::default();
    let mut v = vcpu();
    let action = d.handle(VmExitReason::Unknown(0xdead), &mut v);
    assert_eq!(action, VmExitAction::KillVm);
    assert_eq!(v.state, VcpuState::Killed);
}

#[test]
fn shutdown_kills_vm() {
    let d = ExitDispatcher::default();
    let mut v = vcpu();
    assert_eq!(d.handle(VmExitReason::Shutdown, &mut v), VmExitAction::KillVm);
    assert_eq!(v.state, VcpuState::Killed);
}

#[test]
fn msr_not_allowlisted_is_denied() {
    let d = ExitDispatcher::default();
    let mut v = vcpu();
    // read
    assert_eq!(
        d.handle(VmExitReason::MsrRead { msr: 0x10 }, &mut v),
        VmExitAction::InjectException(GP_FAULT_VECTOR)
    );
    // write
    assert_eq!(
        d.handle(VmExitReason::MsrWrite { msr: 0x10, val: 7 }, &mut v),
        VmExitAction::InjectException(GP_FAULT_VECTOR)
    );
}

#[test]
fn msr_allowlisted_is_emulated() {
    let mut allow = BTreeSet::new();
    allow.insert(0x10u32);
    let d = ExitDispatcher::new(allow, BTreeSet::new(), 1024);
    let mut v = vcpu();
    assert_eq!(
        d.handle(VmExitReason::MsrRead { msr: 0x10 }, &mut v),
        VmExitAction::EmulateAndResume
    );
}

#[test]
fn io_not_allowlisted_is_denied() {
    let d = ExitDispatcher::default();
    let mut v = vcpu();
    let action = d.handle(VmExitReason::Io { port: 0x60, write: true }, &mut v);
    assert_eq!(action, VmExitAction::QuarantineVm);
    assert_eq!(v.state, VcpuState::Quarantined);
}

#[test]
fn io_allowlisted_is_emulated() {
    let mut io = BTreeSet::new();
    io.insert(0x60u16);
    let d = ExitDispatcher::new(BTreeSet::new(), io, 1024);
    let mut v = vcpu();
    assert_eq!(
        d.handle(VmExitReason::Io { port: 0x60, write: false }, &mut v),
        VmExitAction::EmulateAndResume
    );
}

#[test]
fn hlt_blocks_vcpu() {
    let d = ExitDispatcher::default();
    let mut v = vcpu();
    assert_eq!(d.handle(VmExitReason::Hlt, &mut v), VmExitAction::BlockVcpu);
    assert_eq!(v.state, VcpuState::Blocked);
}

#[test]
fn npt_fault_emulates_or_kills() {
    let d = ExitDispatcher::default();
    let mut v = vcpu();
    assert_eq!(
        d.handle(VmExitReason::NestedPageFault { gpa: 0x1000 }, &mut v),
        VmExitAction::EmulateAndResume
    );
    let mut v2 = vcpu();
    assert_eq!(
        d.handle(VmExitReason::NestedPageFault { gpa: 0 }, &mut v2),
        VmExitAction::KillVm
    );
    assert_eq!(v2.state, VcpuState::Killed);
}

#[test]
fn external_irq_resumes() {
    let d = ExitDispatcher::default();
    let mut v = vcpu();
    assert_eq!(
        d.handle(VmExitReason::ExternalIrq { vector: 32 }, &mut v),
        VmExitAction::Resume
    );
}

#[test]
fn disabled_interception_passes_through() {
    let d = ExitDispatcher::default();
    let mut v = vcpu();
    v.intercept_policy.msr = false;
    v.intercept_policy.io = false;
    v.intercept_policy.cpuid = false;
    v.intercept_policy.hlt = false;
    assert_eq!(
        d.handle(VmExitReason::MsrRead { msr: 0x10 }, &mut v),
        VmExitAction::Resume
    );
    assert_eq!(
        d.handle(VmExitReason::Io { port: 0x99, write: true }, &mut v),
        VmExitAction::Resume
    );
    assert_eq!(
        d.handle(VmExitReason::Cpuid { leaf: 0 }, &mut v),
        VmExitAction::Resume
    );
    assert_eq!(d.handle(VmExitReason::Hlt, &mut v), VmExitAction::Resume);
}

#[test]
fn exit_storm_kills_vm() {
    let d = ExitDispatcher::new(BTreeSet::new(), BTreeSet::new(), 3);
    let mut v = vcpu();
    // First 3 exits are within budget (ExternalIrq -> Resume).
    for _ in 0..3 {
        let a = d.handle(VmExitReason::ExternalIrq { vector: 1 }, &mut v);
        assert_eq!(a, VmExitAction::Resume);
    }
    // 4th exit exceeds the budget -> KillVm regardless of reason.
    let a = d.handle(VmExitReason::ExternalIrq { vector: 1 }, &mut v);
    assert_eq!(a, VmExitAction::KillVm);
    assert_eq!(v.state, VcpuState::Killed);
}

#[test]
fn round_robin_fairness_within_class() {
    let mut s = Scheduler::new();
    s.enqueue(VcpuId(1), SchedClass::NormalGuest);
    s.enqueue(VcpuId(2), SchedClass::NormalGuest);
    s.enqueue(VcpuId(3), SchedClass::NormalGuest);
    let seq: Vec<u32> = (0..6)
        .map(|_| s.next_runnable().unwrap().as_u32())
        .collect();
    assert_eq!(seq, vec![1, 2, 3, 1, 2, 3]);
}

#[test]
fn strict_priority_across_classes() {
    let mut s = Scheduler::new();
    s.enqueue(VcpuId(9), SchedClass::BackgroundGuest);
    s.enqueue(VcpuId(1), SchedClass::CriticalHost);
    s.enqueue(VcpuId(5), SchedClass::NormalGuest);
    // CriticalHost wins and keeps winning under strict priority.
    assert_eq!(s.next_runnable(), Some(VcpuId(1)));
    assert_eq!(s.next_runnable(), Some(VcpuId(1)));
    s.block(VcpuId(1));
    assert_eq!(s.next_runnable(), Some(VcpuId(5)));
    s.block(VcpuId(5));
    assert_eq!(s.next_runnable(), Some(VcpuId(9)));
}

#[test]
fn block_removes_from_queue() {
    let mut s = Scheduler::new();
    s.enqueue(VcpuId(1), SchedClass::NormalGuest);
    s.enqueue(VcpuId(2), SchedClass::NormalGuest);
    s.block(VcpuId(1));
    assert_eq!(s.next_runnable(), Some(VcpuId(2)));
    assert_eq!(s.next_runnable(), Some(VcpuId(2)));
    assert_eq!(s.len(), 1);
}

#[test]
fn enqueue_clears_block_and_dedups() {
    let mut s = Scheduler::new();
    s.enqueue(VcpuId(1), SchedClass::NormalGuest);
    s.enqueue(VcpuId(1), SchedClass::NormalGuest); // dup ignored
    assert_eq!(s.len(), 1);
    s.block(VcpuId(1));
    assert!(s.is_empty());
    s.enqueue(VcpuId(1), SchedClass::NormalGuest); // un-blocks
    assert_eq!(s.next_runnable(), Some(VcpuId(1)));
}

#[test]
fn empty_scheduler_returns_none() {
    let mut s = Scheduler::new();
    assert!(s.is_empty());
    assert_eq!(s.next_runnable(), None);
}

#[test]
fn fake_backend_drives_run_loop() {
    let mut backend = FakeBackend::new(vec![
        VmExitReason::Cpuid { leaf: 0 },
        VmExitReason::ExternalIrq { vector: 32 },
        VmExitReason::Hlt, // -> BlockVcpu ends the loop
    ]);
    let d = ExitDispatcher::default();
    let mut v = vcpu();
    let steps = run_loop(&mut backend, &d, &mut v, 100).unwrap();
    assert_eq!(steps, 3);
    assert_eq!(v.state, VcpuState::Blocked);
    assert_eq!(v.run_stats.exits, 3);
    assert!(backend.is_exhausted());
}

#[test]
fn run_loop_kills_on_unknown() {
    let mut backend = FakeBackend::new(vec![
        VmExitReason::Cpuid { leaf: 0 },
        VmExitReason::Unknown(0xbad),
        VmExitReason::Cpuid { leaf: 1 }, // never reached
    ]);
    let d = ExitDispatcher::default();
    let mut v = vcpu();
    let steps = run_loop(&mut backend, &d, &mut v, 100).unwrap();
    assert_eq!(steps, 2);
    assert_eq!(v.state, VcpuState::Killed);
}

#[test]
fn run_loop_exhausted_backend_shuts_down() {
    let mut backend = FakeBackend::new(vec![]);
    let d = ExitDispatcher::default();
    let mut v = vcpu();
    // Empty script -> Shutdown -> KillVm on first step.
    let steps = run_loop(&mut backend, &d, &mut v, 100).unwrap();
    assert_eq!(steps, 1);
    assert_eq!(v.state, VcpuState::Killed);
}

#[test]
fn run_loop_rejects_non_runnable() {
    let mut backend = FakeBackend::new(vec![]);
    let d = ExitDispatcher::default();
    let mut v = vcpu();
    v.state = VcpuState::Killed;
    let err = run_loop(&mut backend, &d, &mut v, 10).unwrap_err();
    assert_eq!(err, VcpuError::NotRunnable(VcpuId(0), VcpuState::Killed));
}

#[test]
fn run_loop_step_budget_enforced() {
    // ExternalIrq always resumes; with a huge storm limit it never ends.
    let mut backend = FakeBackend::new(
        std::iter::repeat(VmExitReason::ExternalIrq { vector: 1 }).take(50).collect(),
    );
    let d = ExitDispatcher::new(BTreeSet::new(), BTreeSet::new(), u64::MAX);
    let mut v = vcpu();
    let err = run_loop(&mut backend, &d, &mut v, 5).unwrap_err();
    assert_eq!(err, VcpuError::StepBudgetExceeded(5));
}

#[test]
fn classes_are_served_in_priority_order() {
    let order = SchedClass::priority_order();
    let mut s = Scheduler::new();
    for (i, class) in order.iter().enumerate().rev() {
        s.enqueue(VcpuId(i as u32), *class);
    }
    for i in 0..order.len() {
        assert_eq!(s.next_runnable(), Some(VcpuId(i as u32)));
        s.block(VcpuId(i as u32));
    }
    assert_eq!(s.next_runnable(), None);
}

#[test]
fn copy_of_a_scheduler_picks_on_its_own() {
    let mut s = Scheduler::default();
    s.enqueue(VcpuId(1), SchedClass::NormalGuest);
    s.enqueue(VcpuId(2), SchedClass::NormalGuest);
    let mut copy = s.clone();
    assert_eq!(s.next_runnable(), Some(VcpuId(1)));
    s.block(VcpuId(2));
    assert_eq!(copy.next_runnable(), Some(VcpuId(1)));
    assert_eq!(copy.next_runnable(), Some(VcpuId(2)));
    assert_eq!(copy.len(), 2);
    assert_eq!(s.len(), 1);
}

#[test]
fn vcpu_errors_show_what_is_wrong() {
    let states = [
        (VcpuState::Ready, "Ready"),
        (VcpuState::Running, "Running"),
        (VcpuState::Blocked, "Blocked"),
        (VcpuState::Halted, "Halted"),
        (VcpuState::Killed, "Killed"),
        (VcpuState::Quarantined, "Quarantined"),
    ];
    for (state, name) in states {
        assert_eq!(
            VcpuError::NotRunnable(VcpuId(3), state).message(),
            format!("vcpu VcpuId(3) is not runnable (state {name})")
        );
        assert_eq!(format!("{state:?}"), name);
    }
    assert_eq!(format!("{:?}", VcpuId(3)), "VcpuId(3)");
    assert_eq!(
        VcpuError::StepBudgetExceeded(5).message(),
        "run loop exceeded step budget of 5"
    );
}
