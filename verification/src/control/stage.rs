//! The stages of a machine, the commands, and which command takes a machine
//! from which stage to which.
use vstd::prelude::*;

use crate::text;
use crate::text_map;

verus! {

/// Where a registered machine stands.
#[derive(Debug, PartialEq, Eq)]
pub enum VmStage {
    /// Its capsule was admitted.
    Defined,
    /// It passed the launch gate.
    Verified,
    /// It runs.
    Running,
    /// It is paused.
    Paused,
    /// It is stopped.
    Stopped,
    /// Its memory and keys are gone. Terminal.
    Destroyed,
    /// A snapshot consumed it. Terminal.
    Snapshotted,
    /// A fault left it unusable, for this reason. Terminal.
    Failed(String),
}

impl VmStage {
    /// The name that is shown.
    pub open spec fn name(self) -> Seq<char> {
        match self {
            VmStage::Defined => "defined"@,
            VmStage::Verified => "verified"@,
            VmStage::Running => "running"@,
            VmStage::Paused => "paused"@,
            VmStage::Stopped => "stopped"@,
            VmStage::Destroyed => "destroyed"@,
            VmStage::Snapshotted => "snapshotted"@,
            VmStage::Failed(reason) => "failed: "@ + reason@,
        }
    }

    /// The name that is shown.
    pub fn state_name(&self) -> (r: String)
        ensures
            r@ == self.name(),
    {
        match self {
            VmStage::Defined => "defined".to_string(),
            VmStage::Verified => "verified".to_string(),
            VmStage::Running => "running".to_string(),
            VmStage::Paused => "paused".to_string(),
            VmStage::Stopped => "stopped".to_string(),
            VmStage::Destroyed => "destroyed".to_string(),
            VmStage::Snapshotted => "snapshotted".to_string(),
            VmStage::Failed(reason) => text::joined("failed: ", reason.as_str()),
        }
    }
}

/// A command on a registered machine.
#[derive(Debug, Clone, Copy, PartialEq, Eq, Structural)]
pub enum Verb {
    /// Run the launch gate.
    Verify,
    /// Bring up.
    Launch,
    /// Pause.
    Pause,
    /// Take a snapshot.
    Snapshot,
    /// Stop.
    Stop,
    /// Wipe and release.
    Destroy,
}

impl Verb {
    /// The name of the command.
    pub open spec fn name(self) -> Seq<char> {
        match self {
            Verb::Verify => "verify"@,
            Verb::Launch => "launch"@,
            Verb::Pause => "pause"@,
            Verb::Snapshot => "snapshot"@,
            Verb::Stop => "stop"@,
            Verb::Destroy => "destroy"@,
        }
    }

    /// The name of the command.
    pub fn as_str(self) -> (r: &'static str)
        ensures
            r@ == self.name(),
    {
        match self {
            Verb::Verify => "verify",
            Verb::Launch => "launch",
            Verb::Pause => "pause",
            Verb::Snapshot => "snapshot",
            Verb::Stop => "stop",
            Verb::Destroy => "destroy",
        }
    }

    /// The stages that the command needs, as they are shown.
    pub open spec fn needs(self) -> Seq<char> {
        match self {
            Verb::Verify => "defined"@,
            Verb::Launch => "verified"@,
            Verb::Pause => "running"@,
            Verb::Snapshot => "running|paused"@,
            Verb::Stop => "running"@,
            Verb::Destroy => "stopped"@,
        }
    }

    /// The stages that the command needs, as they are shown.
    pub fn needed(self) -> (r: &'static str)
        ensures
            r@ == self.needs(),
    {
        match self {
            Verb::Verify => "defined",
            Verb::Launch => "verified",
            Verb::Pause => "running",
            Verb::Snapshot => "running|paused",
            Verb::Stop => "running",
            Verb::Destroy => "stopped",
        }
    }

    /// The command is valid at this stage.
    pub open spec fn admits(self, stage: VmStage) -> bool {
        match self {
            Verb::Verify => stage is Defined,
            Verb::Launch => stage is Verified,
            Verb::Pause => stage is Running,
            Verb::Snapshot => stage is Running || stage is Paused,
            Verb::Stop => stage is Running,
            Verb::Destroy => stage is Stopped,
        }
    }

    /// Whether the command is valid at this stage.
    pub fn valid_at(self, stage: &VmStage) -> (r: bool)
        ensures
            r == self.admits(*stage),
    {
        match (self, stage) {
            (Verb::Verify, VmStage::Defined) => true,
            (Verb::Launch, VmStage::Verified) => true,
            (Verb::Pause, VmStage::Running) => true,
            (Verb::Snapshot, VmStage::Running) => true,
            (Verb::Snapshot, VmStage::Paused) => true,
            (Verb::Stop, VmStage::Running) => true,
            (Verb::Destroy, VmStage::Stopped) => true,
            _ => false,
        }
    }

    /// The stage of a machine after the command succeeded on it.
    pub open spec fn result(self) -> VmStage {
        match self {
            Verb::Verify => VmStage::Verified,
            Verb::Launch => VmStage::Running,
            Verb::Pause => VmStage::Paused,
            Verb::Snapshot => VmStage::Snapshotted,
            Verb::Stop => VmStage::Stopped,
            Verb::Destroy => VmStage::Destroyed,
        }
    }
}

/// The stages of the registered machines, by id.
pub type Registry = Seq<(Seq<char>, VmStage)>;

/// Machine `id` is there, and the command is valid for it.
pub open spec fn open_for(registry: Registry, verb: Verb, id: Seq<char>) -> bool {
    match text_map::lookup(registry, id) {
        Some(stage) => verb.admits(stage),
        None => false,
    }
}

/// One command takes a machine from one stage (`None`: not registered) to
/// another.
pub open spec fn step(from: Option<VmStage>, to: VmStage) -> bool {
    ||| to is Defined
    ||| exists|verb: Verb|
        from is Some && verb.admits(from->0) && (to == #[trigger] verb.result() || to is Failed)
}

/// A command on machine `id` has left the registry as it was, or has taken that
/// machine one step.
pub open spec fn moves(before: Registry, after: Registry, id: Seq<char>) -> bool {
    ||| after == before
    ||| exists|to: VmStage|
        step(text_map::lookup(before, id), to) && after == #[trigger] text_map::put(before, id, to)
}

/// A command on one machine leaves every other machine where it stands.
pub proof fn other_machines_stay(
    before: Registry,
    after: Registry,
    id: Seq<char>,
    other: Seq<char>,
)
    requires
        moves(before, after, id),
        other != id,
    ensures
        text_map::lookup(after, other) == text_map::lookup(before, other),
{
    if after != before {
        let to = choose|to: VmStage|
            step(text_map::lookup(before, id), to) && after == #[trigger] text_map::put(
                before,
                id,
                to,
            );
        text_map::lookup_after_put(before, id, to, other);
    }
}

/// A command on a machine leaves it where it stands or takes it one step.
pub proof fn machine_takes_one_step(before: Registry, after: Registry, id: Seq<char>)
    requires
        moves(before, after, id),
    ensures
        text_map::lookup(after, id) == text_map::lookup(before, id) || (text_map::lookup(
            after,
            id,
        ) is Some && step(text_map::lookup(before, id), text_map::lookup(after, id)->0)),
{
    if after != before {
        let to = choose|to: VmStage|
            step(text_map::lookup(before, id), to) && after == #[trigger] text_map::put(
                before,
                id,
                to,
            );
        text_map::lookup_after_put(before, id, to, id);
    }
}

/// The stages that a machine goes through, from before it is registered.
pub open spec fn history(stages: Seq<Option<VmStage>>) -> bool {
    &&& stages.len() > 0
    &&& stages[0] is None
    &&& forall|i: int| 0 < i < stages.len() ==> #[trigger] went(stages, i)
}

/// Between `i - 1` and `i` the machine stood still or took one step.
pub open spec fn went(stages: Seq<Option<VmStage>>, i: int) -> bool {
    stages[i] == stages[i - 1] || (stages[i] is Some && step(stages[i - 1], stages[i]->0))
}

/// A machine that runs was verified before: no sequence of commands brings up a
/// machine that did not pass the launch gate.
pub proof fn running_was_verified(stages: Seq<Option<VmStage>>, i: int)
    requires
        history(stages),
        0 <= i < stages.len(),
        stages[i] == Some(VmStage::Running),
    ensures
        exists|j: int| 0 <= j < i && #[trigger] stages[j] == Some(VmStage::Verified),
    decreases i,
{
    assert(i > 0);
    assert(went(stages, i));
    if stages[i] == stages[i - 1] {
        running_was_verified(stages, i - 1);
        let j = choose|j: int| 0 <= j < i - 1 && #[trigger] stages[j] == Some(VmStage::Verified);
        assert(stages[j] == Some(VmStage::Verified));
    } else {
        let verb = choose|verb: Verb|
            stages[i - 1] is Some && verb.admits(stages[i - 1]->0) && (stages[i]->0
                == #[trigger] verb.result() || stages[i]->0 is Failed);
        assert(verb == Verb::Launch);
        assert(stages[i - 1] == Some(VmStage::Verified));
    }
}

/// A machine that is destroyed was stopped before.
pub proof fn destroyed_was_stopped(stages: Seq<Option<VmStage>>, i: int)
    requires
        history(stages),
        0 <= i < stages.len(),
        stages[i] == Some(VmStage::Destroyed),
    ensures
        exists|j: int| 0 <= j < i && #[trigger] stages[j] == Some(VmStage::Stopped),
    decreases i,
{
    assert(i > 0);
    assert(went(stages, i));
    if stages[i] == stages[i - 1] {
        destroyed_was_stopped(stages, i - 1);
        let j = choose|j: int| 0 <= j < i - 1 && #[trigger] stages[j] == Some(VmStage::Stopped);
        assert(stages[j] == Some(VmStage::Stopped));
    } else {
        let verb = choose|verb: Verb|
            stages[i - 1] is Some && verb.admits(stages[i - 1]->0) && (stages[i]->0
                == #[trigger] verb.result() || stages[i]->0 is Failed);
        assert(verb == Verb::Destroy);
        assert(stages[i - 1] == Some(VmStage::Stopped));
    }
}

/// From a terminal stage no command but a new definition leads anywhere.
pub proof fn terminal_stages_stay(stage: VmStage, to: VmStage)
    requires
        stage is Destroyed || stage is Snapshotted || stage is Failed,
        step(Some(stage), to),
    ensures
        to is Defined,
{
}

} // verus!
