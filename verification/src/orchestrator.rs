//! The course of one run: a cgroup is made and configured, a child is
//! started and put under it, the child is waited for, the cgroup is removed.
//!
//! The [`Orchestrator`] decides and never acts. It names the next
//! [`Action`]; a driver performs it and reports the [`Event`] that came of
//! it; [`Orchestrator::step`] takes the event and names the action after
//! that, until the action is to exit. Whatever fails once the cgroup
//! exists, the cgroup is removed before the run ends.
//!
//! Between the start of the child and the write that puts it under the
//! cgroup, the child runs without the CPU restriction. The sequence of
//! actions leaves that window open.

use vstd::prelude::*;
use vstd::string::*;
use vstd::slice::slice_to_vec;
use crate::cgroups::{CgroupView, CpusetCgroup, FsOp, FsOpView, CPUSET_ROOT};
use crate::error::InvalidInput;
use crate::path::is_safe_segment;

verus! {

/// How a child process came to its end.
#[derive(Clone, Copy, Debug, PartialEq, Eq, Structural)]
pub enum Outcome {
    /// It exited of its own accord with this code.
    Exited(i32),
    /// A signal ended it, and it left no code.
    Signaled,
}

/// The exit code that a run passes on for a child that ended with
/// `outcome`.
pub open spec fn exit_code_of(outcome: Outcome) -> i32 {
    match outcome {
        Outcome::Exited(code) => code,
        Outcome::Signaled => 1,
    }
}

impl Outcome {
    /// The outcome of a child of which the system reports this exit code.
    pub fn from_code(code: Option<i32>) -> (outcome: Outcome)
        ensures
            outcome == match code {
                Some(code) => Outcome::Exited(code),
                None => Outcome::Signaled,
            },
    {
        match code {
            Some(code) => Outcome::Exited(code),
            None => Outcome::Signaled,
        }
    }

    /// The exit code that a run passes on for this outcome: the code of the
    /// child if it left one, else 1.
    pub fn exit_code(self) -> (code: i32)
        ensures
            code == exit_code_of(self),
    {
        match self {
            Outcome::Exited(code) => code,
            Outcome::Signaled => 1,
        }
    }
}

/// The kind of step that failed.
#[derive(Clone, Copy, Debug, PartialEq, Eq, Structural)]
pub enum FailureKind {
    /// An operation on the cgroup filesystem.
    Io,
    /// The start of the child.
    Spawn,
    /// Waiting for the child.
    Wait,
}

/// A failed step and what the driver said of it.
#[derive(Debug, PartialEq, Eq)]
pub struct Failure {
    pub kind: FailureKind,
    pub message: String,
}

/// A [`Failure`] over sequences of characters.
pub struct FailureView {
    pub kind: FailureKind,
    pub message: Seq<char>,
}

impl View for Failure {
    type V = FailureView;

    open spec fn view(&self) -> FailureView {
        FailureView { kind: self.kind, message: self.message@ }
    }
}

/// What the driver reports of the action it performed.
#[derive(Debug, PartialEq, Eq)]
pub enum Event {
    /// The filesystem operation succeeded.
    Done,
    /// The child was started and has this process id.
    Spawned { pid: u32 },
    /// The child has ended.
    Terminated { outcome: Outcome },
    /// The action failed; `message` says why.
    Failed { message: String },
}

/// An [`Event`] over sequences of characters.
pub enum EventView {
    Done,
    Spawned { pid: u32 },
    Terminated { outcome: Outcome },
    Failed { message: Seq<char> },
}

impl View for Event {
    type V = EventView;

    open spec fn view(&self) -> EventView {
        match self {
            Event::Done => EventView::Done,
            Event::Spawned { pid } => EventView::Spawned { pid: *pid },
            Event::Terminated { outcome } => EventView::Terminated { outcome: *outcome },
            Event::Failed { message } => EventView::Failed { message: message@ },
        }
    }
}

/// What the driver is to do next.
#[derive(Debug, PartialEq, Eq)]
pub enum Action {
    /// Perform this filesystem operation and report `Done` or `Failed`.
    Apply { op: FsOp },
    /// Start the child with the standard streams of the driver and report
    /// `Spawned` or `Failed`.
    Spawn,
    /// Wait until the child has ended and report `Terminated` or `Failed`.
    Wait,
    /// End the run with this exit code. After a failure `failure` holds the
    /// first step that failed.
    Exit { code: i32, failure: Option<Failure> },
}

/// An [`Action`] over sequences of characters.
pub enum ActionView {
    Apply { op: FsOpView },
    Spawn,
    Wait,
    Exit { code: i32, failure: Option<FailureView> },
}

impl View for Action {
    type V = ActionView;

    open spec fn view(&self) -> ActionView {
        match self {
            Action::Apply { op } => ActionView::Apply { op: op@ },
            Action::Spawn => ActionView::Spawn,
            Action::Wait => ActionView::Wait,
            Action::Exit { code, failure } => ActionView::Exit {
                code: *code,
                failure: match failure {
                    Some(failure) => Some(failure@),
                    None => None,
                },
            },
        }
    }
}

/// How far a run has come.
#[derive(Debug, PartialEq, Eq)]
pub enum Stage {
    /// Nothing has been done.
    Start,
    /// The cgroup exists.
    Created,
    /// The cgroup is exclusive.
    Exclusive,
    /// The cgroup is exclusive and restricted to its cores.
    Configured,
    /// The child runs, not yet under the cgroup.
    Spawned { pid: u32 },
    /// The child runs under the cgroup.
    Attached,
    /// The child has ended.
    Waited { outcome: Outcome },
    /// The child has ended and the cgroup is removed: the run is over.
    Deleted { outcome: Outcome },
    /// A step failed while the cgroup existed, which is now to be removed.
    Aborting { failure: Failure },
    /// A step failed: the run is over.
    Failed { failure: Failure },
}

/// A [`Stage`] over sequences of characters.
pub enum StageView {
    Start,
    Created,
    Exclusive,
    Configured,
    Spawned { pid: u32 },
    Attached,
    Waited { outcome: Outcome },
    Deleted { outcome: Outcome },
    Aborting { failure: FailureView },
    Failed { failure: FailureView },
}

impl View for Stage {
    type V = StageView;

    open spec fn view(&self) -> StageView {
        match self {
            Stage::Start => StageView::Start,
            Stage::Created => StageView::Created,
            Stage::Exclusive => StageView::Exclusive,
            Stage::Configured => StageView::Configured,
            Stage::Spawned { pid } => StageView::Spawned { pid: *pid },
            Stage::Attached => StageView::Attached,
            Stage::Waited { outcome } => StageView::Waited { outcome: *outcome },
            Stage::Deleted { outcome } => StageView::Deleted { outcome: *outcome },
            Stage::Aborting { failure } => StageView::Aborting { failure: failure@ },
            Stage::Failed { failure } => StageView::Failed { failure: failure@ },
        }
    }
}

/// What a driver is taken to have said when its event does not answer the
/// action that was asked of it.
pub const OUT_OF_TURN: &'static str = "the step ended with an event that does not answer it";

/// The failure that the event `event` makes of a step of kind `kind`.
pub open spec fn failure_of(kind: FailureKind, event: EventView) -> FailureView {
    FailureView {
        kind,
        message: match event {
            EventView::Failed { message } => message,
            _ => OUT_OF_TURN@,
        },
    }
}

impl StageView {
    /// The stage that follows when the pending action ended in `event`.
    ///
    /// An event that is not the success of the pending action fails the
    /// run. If the cgroup exists then, the next stage removes it. The
    /// removal is tried once, and what comes of it does not replace the
    /// failure that led to it.
    pub open spec fn after(self, event: EventView) -> StageView {
        match self {
            StageView::Start => match event {
                EventView::Done => StageView::Created,
                _ => StageView::Failed { failure: failure_of(FailureKind::Io, event) },
            },
            StageView::Created => match event {
                EventView::Done => StageView::Exclusive,
                _ => StageView::Aborting { failure: failure_of(FailureKind::Io, event) },
            },
            StageView::Exclusive => match event {
                EventView::Done => StageView::Configured,
                _ => StageView::Aborting { failure: failure_of(FailureKind::Io, event) },
            },
            StageView::Configured => match event {
                EventView::Spawned { pid } => StageView::Spawned { pid },
                _ => StageView::Aborting { failure: failure_of(FailureKind::Spawn, event) },
            },
            StageView::Spawned { .. } => match event {
                EventView::Done => StageView::Attached,
                _ => StageView::Aborting { failure: failure_of(FailureKind::Io, event) },
            },
            StageView::Attached => match event {
                EventView::Terminated { outcome } => StageView::Waited { outcome },
                _ => StageView::Aborting { failure: failure_of(FailureKind::Wait, event) },
            },
            StageView::Waited { outcome } => match event {
                EventView::Done => StageView::Deleted { outcome },
                _ => StageView::Failed { failure: failure_of(FailureKind::Io, event) },
            },
            StageView::Aborting { failure } => StageView::Failed { failure },
            StageView::Deleted { outcome } => StageView::Deleted { outcome },
            StageView::Failed { failure } => StageView::Failed { failure },
        }
    }
}

/// A run as contracts see it.
pub struct OrchestratorView {
    pub cgroup: CgroupView,
    pub cpus: Seq<u32>,
    pub stage: StageView,
}

impl OrchestratorView {
    /// The action that is to be performed at this stage.
    pub open spec fn pending(self) -> ActionView {
        match self.stage {
            StageView::Start => ActionView::Apply { op: self.cgroup.provision() },
            StageView::Created => ActionView::Apply { op: self.cgroup.set_cpu_exclusive(true) },
            StageView::Exclusive => ActionView::Apply { op: self.cgroup.set_cpus(self.cpus) },
            StageView::Configured => ActionView::Spawn,
            StageView::Spawned { pid } => ActionView::Apply { op: self.cgroup.add_process(pid) },
            StageView::Attached => ActionView::Wait,
            StageView::Waited { .. } => ActionView::Apply { op: self.cgroup.delete() },
            StageView::Aborting { .. } => ActionView::Apply { op: self.cgroup.delete() },
            StageView::Deleted { outcome } => ActionView::Exit {
                code: exit_code_of(outcome),
                failure: None,
            },
            StageView::Failed { failure } => ActionView::Exit { code: 1, failure: Some(failure) },
        }
    }

    /// The run after the pending action ended in `event`.
    pub open spec fn step(self, event: EventView) -> OrchestratorView {
        OrchestratorView { stage: self.stage.after(event), ..self }
    }

    /// Whether the run is over.
    pub open spec fn finished(self) -> bool {
        self.stage is Deleted || self.stage is Failed
    }

    /// The run after `events`, one step for each.
    pub open spec fn run(self, events: Seq<EventView>) -> OrchestratorView
        decreases events.len(),
    {
        if events.len() == 0 {
            self
        } else {
            self.run(events.drop_last()).step(events.last())
        }
    }

    /// The run is over after `events` and was not over before the last of
    /// them.
    pub open spec fn ends_with(self, events: Seq<EventView>) -> bool {
        &&& self.run(events).finished()
        &&& forall|i: int| 0 <= i < events.len() ==> !(#[trigger] self.run(events.take(i))).finished()
    }

    /// The actions that are asked of a driver that reports `events`: the
    /// action before each event, and the one after the last.
    pub open spec fn trace(self, events: Seq<EventView>) -> Seq<ActionView> {
        Seq::new(events.len() + 1, |i: int| self.run(events.take(i)).pending())
    }
}

/// Whether `event` reports that `action` succeeded.
pub open spec fn answers(event: EventView, action: ActionView) -> bool {
    match action {
        ActionView::Apply { .. } => event is Done,
        ActionView::Spawn => event is Spawned,
        ActionView::Wait => event is Terminated,
        ActionView::Exit { .. } => false,
    }
}

/// The kind of failure that a failed `action` is.
pub open spec fn kind_of(action: ActionView) -> FailureKind {
    match action {
        ActionView::Spawn => FailureKind::Spawn,
        ActionView::Wait => FailureKind::Wait,
        _ => FailureKind::Io,
    }
}

/// One run of a command under a cpuset cgroup of its own.
#[derive(Debug)]
pub struct Orchestrator {
    cgroup: CpusetCgroup,
    cpus: Vec<u32>,
    stage: Stage,
}

impl View for Orchestrator {
    type V = OrchestratorView;

    closed spec fn view(&self) -> OrchestratorView {
        OrchestratorView { cgroup: self.cgroup@, cpus: self.cpus@, stage: self.stage@ }
    }
}

impl Orchestrator {
    #[verifier::type_invariant]
    spec fn well_formed(self) -> bool {
        self.cpus@.len() > 0
    }

    /// A run under the cgroup `name`, restricted to the cores `cpus`, at
    /// its start. An unsafe name and an empty list of cores are refused, in
    /// this order, before anything is asked of the driver.
    pub fn new(name: &str, cpus: &[u32]) -> (result: Result<Orchestrator, InvalidInput>)
        ensures
            match result {
                Ok(run) => {
                    &&& is_safe_segment(name@)
                    &&& cpus@.len() > 0
                    &&& run@ == OrchestratorView {
                        cgroup: CgroupView { root: CPUSET_ROOT@, name: name@ },
                        cpus: cpus@,
                        stage: StageView::Start,
                    }
                },
                Err(error) => if !is_safe_segment(name@) {
                    error == InvalidInput::UnsafeName
                } else {
                    cpus@.len() == 0 && error == InvalidInput::EmptyCpuList
                },
            },
    {
        match CpusetCgroup::create(name) {
            Ok(cgroup) => Orchestrator::with_cgroup(cgroup, cpus),
            Err(error) => Err(error),
        }
    }

    /// A run under `cgroup`, restricted to the cores `cpus`, at its start.
    /// An empty list of cores is refused.
    pub fn with_cgroup(cgroup: CpusetCgroup, cpus: &[u32]) -> (result: Result<
        Orchestrator,
        InvalidInput,
    >)
        ensures
            match result {
                Ok(run) => {
                    &&& cpus@.len() > 0
                    &&& run@ == OrchestratorView {
                        cgroup: cgroup@,
                        cpus: cpus@,
                        stage: StageView::Start,
                    }
                },
                Err(error) => cpus@.len() == 0 && error == InvalidInput::EmptyCpuList,
            },
    {
        if cpus.len() == 0 {
            return Err(InvalidInput::EmptyCpuList);
        }
        Ok(Orchestrator { cgroup, cpus: slice_to_vec(cpus), stage: Stage::Start })
    }

    /// How far the run has come.
    pub fn stage(&self) -> (stage: &Stage)
        ensures
            stage@ == self@.stage,
    {
        &self.stage
    }

    /// The cgroup of the run.
    pub fn cgroup(&self) -> (cgroup: &CpusetCgroup)
        ensures
            cgroup@ == self@.cgroup,
    {
        &self.cgroup
    }

    /// Whether the run is over.
    pub fn is_finished(&self) -> (finished: bool)
        ensures
            finished == self@.finished(),
    {
        match &self.stage {
            Stage::Deleted { .. } => true,
            Stage::Failed { .. } => true,
            _ => false,
        }
    }

    /// The action that the driver is to perform now.
    pub fn pending(&self) -> (action: Action)
        ensures
            action@ == self@.pending(),
    {
        proof {
            use_type_invariant(self);
        }
        match &self.stage {
            Stage::Start => Action::Apply { op: self.cgroup.provision() },
            Stage::Created => Action::Apply { op: self.cgroup.set_cpu_exclusive(true) },
            Stage::Exclusive => Action::Apply { op: self.cgroup.restrict(self.cpus.as_slice()) },
            Stage::Configured => Action::Spawn,
            Stage::Spawned { pid } => Action::Apply { op: self.cgroup.add_process(*pid) },
            Stage::Attached => Action::Wait,
            Stage::Waited { .. } => Action::Apply { op: self.cgroup.delete() },
            Stage::Aborting { .. } => Action::Apply { op: self.cgroup.delete() },
            Stage::Deleted { outcome } => Action::Exit {
                code: outcome.exit_code(),
                failure: None,
            },
            Stage::Failed { failure } => Action::Exit {
                code: 1,
                failure: Some(Failure { kind: failure.kind, message: failure.message.clone() }),
            },
        }
    }

    /// Takes what came of the pending action and names the action that
    /// follows.
    pub fn step(self, event: Event) -> (next: (Orchestrator, Action))
        ensures
            next.0@ == self@.step(event@),
            next.1@ == self@.step(event@).pending(),
    {
        proof {
            use_type_invariant(&self);
        }
        let Orchestrator { cgroup, cpus, stage } = self;
        let stage = next_stage(stage, event);
        let run = Orchestrator { cgroup, cpus, stage };
        let action = run.pending();
        (run, action)
    }
}

/// The failure that `event` makes of a step of kind `kind`.
fn failure(kind: FailureKind, event: Event) -> (failure: Failure)
    ensures
        failure@ == failure_of(kind, event@),
{
    match event {
        Event::Failed { message } => Failure { kind, message },
        _ => Failure { kind, message: String::from_str(OUT_OF_TURN) },
    }
}

/// The stage that follows `stage` when the pending action ended in `event`.
fn next_stage(stage: Stage, event: Event) -> (next: Stage)
    ensures
        next@ == stage@.after(event@),
{
    match stage {
        Stage::Start => match event {
            Event::Done => Stage::Created,
            event => Stage::Failed { failure: failure(FailureKind::Io, event) },
        },
        Stage::Created => match event {
            Event::Done => Stage::Exclusive,
            event => Stage::Aborting { failure: failure(FailureKind::Io, event) },
        },
        Stage::Exclusive => match event {
            Event::Done => Stage::Configured,
            event => Stage::Aborting { failure: failure(FailureKind::Io, event) },
        },
        Stage::Configured => match event {
            Event::Spawned { pid } => Stage::Spawned { pid },
            event => Stage::Aborting { failure: failure(FailureKind::Spawn, event) },
        },
        Stage::Spawned { .. } => match event {
            Event::Done => Stage::Attached,
            event => Stage::Aborting { failure: failure(FailureKind::Io, event) },
        },
        Stage::Attached => match event {
            Event::Terminated { outcome } => Stage::Waited { outcome },
            event => Stage::Aborting { failure: failure(FailureKind::Wait, event) },
        },
        Stage::Waited { outcome } => match event {
            Event::Done => Stage::Deleted { outcome },
            event => Stage::Failed { failure: failure(FailureKind::Io, event) },
        },
        Stage::Aborting { failure } => Stage::Failed { failure },
        Stage::Deleted { outcome } => Stage::Deleted { outcome },
        Stage::Failed { failure } => Stage::Failed { failure },
    }
}

} // verus!
