//! What holds of every run, whatever the driver reports.

use vstd::prelude::*;
use crate::orchestrator::{
    answers, exit_code_of, failure_of, kind_of, ActionView, EventView, OrchestratorView,
    Outcome, StageView,
};

verus! {

/// The cgroup exists and its removal has not been asked for.
spec fn holds_cgroup(stage: StageView) -> bool {
    stage is Created || stage is Exclusive || stage is Configured || stage is Spawned
        || stage is Attached
}

/// The removal of the cgroup is the pending action.
spec fn removes_cgroup(stage: StageView) -> bool {
    stage is Waited || stage is Aborting
}

/// The number of steps that lead to `stage` when none fails.
spec fn rank(stage: StageView) -> int {
    match stage {
        StageView::Start => 0,
        StageView::Created => 1,
        StageView::Exclusive => 2,
        StageView::Configured => 3,
        StageView::Spawned { .. } => 4,
        StageView::Attached => 5,
        StageView::Waited { .. } => 6,
        StageView::Deleted { .. } => 7,
        StageView::Aborting { .. } => -1,
        StageView::Failed { .. } => -1,
    }
}

/// No event changes the cgroup of a run or its cores.
proof fn lemma_run_keeps_cgroup(run: OrchestratorView, events: Seq<EventView>)
    ensures
        run.run(events).cgroup == run.cgroup,
        run.run(events).cpus == run.cpus,
    decreases events.len(),
{
    if events.len() > 0 {
        lemma_run_keeps_cgroup(run, events.drop_last());
    }
}

/// A run after one event more is the run after the events before it, one
/// step on.
proof fn lemma_run_prefix(run: OrchestratorView, events: Seq<EventView>, i: int)
    requires
        0 <= i < events.len(),
    ensures
        run.run(events.take(i + 1)) == run.run(events.take(i)).step(events[i]),
        run.run(events.take(i)).cgroup == run.cgroup,
        run.run(events.take(i)).cpus == run.cpus,
        run.run(events.take(0)) == run,
        run.run(events.take(events.len() as int)) == run.run(events),
{
    assert(events.take(i + 1).drop_last() =~= events.take(i));
    assert(events.take(events.len() as int) =~= events);
    lemma_run_keeps_cgroup(run, events.take(i));
}

/// While a run that began with the creation of the cgroup is not over after
/// `k` events, the cgroup is held, or, one event before the end, removed.
proof fn lemma_held_until_removed(run: OrchestratorView, events: Seq<EventView>, k: int)
    requires
        run.stage is Start,
        events.len() > 0,
        events[0] is Done,
        run.ends_with(events),
        1 <= k < events.len(),
    ensures
        holds_cgroup(run.run(events.take(k)).stage) || (k == events.len() - 1 && removes_cgroup(
            run.run(events.take(k)).stage,
        )),
    decreases k,
{
    lemma_run_prefix(run, events, k - 1);
    lemma_run_prefix(run, events, k);
    if k > 1 {
        lemma_held_until_removed(run, events, k - 1);
    }
    let reached = run.run(events.take(k));
    if removes_cgroup(reached.stage) {
        assert(run.run(events.take(k + 1)).finished());
    }
}

/// Once the cgroup exists, it is removed before the run ends, whichever
/// step fails and whether any does. In a run that ends and whose first
/// action, the creation of the cgroup, succeeded, the removal of the cgroup
/// is asked for exactly once, as the last action before the exit.
pub proof fn theorem_cgroup_is_removed(run: OrchestratorView, events: Seq<EventView>)
    requires
        run.stage is Start,
        events.len() > 0,
        events[0] is Done,
        run.ends_with(events),
    ensures
        events.len() >= 2,
        run.trace(events)[events.len() - 1] == (ActionView::Apply { op: run.cgroup.delete() }),
        forall|i: int|
            0 <= i < events.len() - 1 ==> #[trigger] run.trace(events)[i] != (ActionView::Apply {
                op: run.cgroup.delete(),
            }),
        run.trace(events).last() is Exit,
{
    let n = events.len() as int;
    lemma_run_prefix(run, events, 0);
    assert(run.run(events.take(1)).stage is Created);
    assert(n >= 2) by {
        if n == 1 {
            assert(events.take(1) =~= events);
        }
    }
    lemma_held_until_removed(run, events, n - 1);
    lemma_run_prefix(run, events, n - 1);
    assert(removes_cgroup(run.run(events.take(n - 1)).stage));
    assert(run.trace(events)[n - 1] == run.run(events.take(n - 1)).pending());
    assert(run.trace(events)[n] == run.run(events.take(n)).pending());
    assert forall|i: int| 0 <= i < n - 1 implies #[trigger] run.trace(events)[i] != (
    ActionView::Apply { op: run.cgroup.delete() }) by {
        if i > 0 {
            lemma_held_until_removed(run, events, i);
        }
    }
}

/// If the cgroup could not be created, the run ends at once, and the removal
/// of the cgroup is never asked for.
pub proof fn theorem_nothing_to_remove(run: OrchestratorView, events: Seq<EventView>)
    requires
        run.stage is Start,
        events.len() > 0,
        !(events[0] is Done),
        run.ends_with(events),
    ensures
        events.len() == 1,
        run.trace(events) == seq![
            ActionView::Apply { op: run.cgroup.provision() },
            ActionView::Exit { code: 1, failure: Some(failure_of(kind_of(run.pending()), events[0])) },
        ],
{
    lemma_run_prefix(run, events, 0);
    assert(run.run(events.take(1)).finished());
    assert(events.take(1) =~= events);
    assert(run.trace(events) =~= seq![
        ActionView::Apply { op: run.cgroup.provision() },
        ActionView::Exit { code: 1, failure: Some(failure_of(kind_of(run.pending()), events[0])) },
    ]);
}

/// The exit code of a child that exits of its own accord is the exit code
/// of the run, provided that the cgroup can be removed afterwards.
pub proof fn theorem_exit_code_is_passed_on(
    run: OrchestratorView,
    events: Seq<EventView>,
    i: int,
    code: i32,
)
    requires
        run.ends_with(events),
        0 <= i,
        i + 1 < events.len(),
        run.run(events.take(i)).pending() is Wait,
        events[i] == (EventView::Terminated { outcome: Outcome::Exited(code) }),
        events[i + 1] is Done,
    ensures
        run.run(events).pending() == (ActionView::Exit { code, failure: None }),
{
    lemma_run_prefix(run, events, i);
    lemma_run_prefix(run, events, i + 1);
    if i + 2 < events.len() {
        assert(run.run(events.take(i + 2)).finished());
    }
}

/// When a signal ends the child, the exit code of the run is 1.
pub proof fn theorem_signal_exits_with_one(
    run: OrchestratorView,
    events: Seq<EventView>,
    i: int,
)
    requires
        run.ends_with(events),
        0 <= i < events.len(),
        run.run(events.take(i)).pending() is Wait,
        events[i] == (EventView::Terminated { outcome: Outcome::Signaled }),
    ensures
        run.run(events).pending() is Exit,
        run.run(events).pending()->code == 1,
{
    lemma_run_prefix(run, events, i);
    if i + 1 < events.len() {
        lemma_run_prefix(run, events, i + 1);
        if i + 2 < events.len() {
            assert(run.run(events.take(i + 2)).finished());
        }
    }
}

/// A run in which no step has failed is as many steps on as it got events.
proof fn lemma_unfailing_rank(run: OrchestratorView, events: Seq<EventView>, k: int)
    requires
        run.stage is Start,
        0 <= k <= events.len(),
        k <= 7,
        forall|j: int|
            0 <= j < k ==> answers(events[j], (#[trigger] run.run(events.take(j))).pending()),
    ensures
        rank(run.run(events.take(k)).stage) == k,
        k >= 4 ==> events[3] is Spawned,
        k == 4 ==> run.run(events.take(k)).stage == (StageView::Spawned { pid: events[3]->pid }),
        k >= 6 ==> events[5] is Terminated,
        k == 6 ==> run.run(events.take(k)).stage == (StageView::Waited {
            outcome: events[5]->outcome,
        }),
        k == 7 ==> run.run(events.take(k)).stage == (StageView::Deleted {
            outcome: events[5]->outcome,
        }),
    decreases k,
{
    if k == 0 {
        assert(events.take(0) =~= Seq::<EventView>::empty());
    } else {
        lemma_unfailing_rank(run, events, k - 1);
        lemma_run_prefix(run, events, k - 1);
        assert(answers(events[k - 1], run.run(events.take(k - 1)).pending()));
    }
}

/// The course of a run in which every step succeeds: the cgroup is created,
/// made exclusive and restricted to its cores; then the child is started,
/// put under the cgroup and waited for; then the cgroup is removed, and the
/// run exits with the code that stands for the outcome of the child.
pub proof fn theorem_course_of_unfailing_run(run: OrchestratorView, events: Seq<EventView>)
    requires
        run.stage is Start,
        run.ends_with(events),
        forall|j: int|
            0 <= j < events.len() ==> answers(
                events[j],
                (#[trigger] run.run(events.take(j))).pending(),
            ),
    ensures
        events.len() == 7,
        events[3] is Spawned,
        events[5] is Terminated,
        run.trace(events) == seq![
            ActionView::Apply { op: run.cgroup.provision() },
            ActionView::Apply { op: run.cgroup.set_cpu_exclusive(true) },
            ActionView::Apply { op: run.cgroup.set_cpus(run.cpus) },
            ActionView::Spawn,
            ActionView::Apply { op: run.cgroup.add_process(events[3]->pid) },
            ActionView::Wait,
            ActionView::Apply { op: run.cgroup.delete() },
            ActionView::Exit { code: exit_code_of(events[5]->outcome), failure: None },
        ],
{
    let n = events.len() as int;
    if n > 7 {
        lemma_unfailing_rank(run, events, 7);
        assert(run.run(events.take(7)).finished());
    }
    lemma_unfailing_rank(run, events, n);
    assert(events.take(n) =~= events);
    assert(n == 7);
    lemma_unfailing_rank(run, events, 0);
    lemma_unfailing_rank(run, events, 1);
    lemma_unfailing_rank(run, events, 2);
    lemma_unfailing_rank(run, events, 3);
    lemma_unfailing_rank(run, events, 4);
    lemma_unfailing_rank(run, events, 5);
    lemma_unfailing_rank(run, events, 6);
    lemma_run_prefix(run, events, 0);
    lemma_run_prefix(run, events, 1);
    lemma_run_prefix(run, events, 2);
    lemma_run_prefix(run, events, 3);
    lemma_run_prefix(run, events, 4);
    lemma_run_prefix(run, events, 5);
    lemma_run_prefix(run, events, 6);
    let trace = run.trace(events);
    assert(trace[0] == run.run(events.take(0)).pending());
    assert(trace[1] == run.run(events.take(1)).pending());
    assert(trace[2] == run.run(events.take(2)).pending());
    assert(trace[3] == run.run(events.take(3)).pending());
    assert(trace[4] == run.run(events.take(4)).pending());
    assert(trace[5] == run.run(events.take(5)).pending());
    assert(trace[6] == run.run(events.take(6)).pending());
    assert(trace[7] == run.run(events.take(7)).pending());
    assert(run.trace(events) =~= seq![
        ActionView::Apply { op: run.cgroup.provision() },
        ActionView::Apply { op: run.cgroup.set_cpu_exclusive(true) },
        ActionView::Apply { op: run.cgroup.set_cpus(run.cpus) },
        ActionView::Spawn,
        ActionView::Apply { op: run.cgroup.add_process(events[3]->pid) },
        ActionView::Wait,
        ActionView::Apply { op: run.cgroup.delete() },
        ActionView::Exit { code: exit_code_of(events[5]->outcome), failure: None },
    ]);
}

/// After a failure, a run keeps that failure to its end.
proof fn lemma_failure_is_kept(run: OrchestratorView, events: Seq<EventView>, i: int, k: int)
    requires
        0 <= i < k <= events.len(),
        run.run(events.take(i + 1)).stage is Aborting || run.run(events.take(i + 1)).stage
            is Failed,
    ensures
        ({
            let failed = run.run(events.take(i + 1)).stage;
            let failure = if failed is Aborting {
                failed->Aborting_failure
            } else {
                failed->Failed_failure
            };
            let reached = run.run(events.take(k)).stage;
            reached == (StageView::Aborting { failure }) || reached == (StageView::Failed {
                failure,
            })
        }),
    decreases k,
{
    if k > i + 1 {
        lemma_failure_is_kept(run, events, i, k - 1);
        lemma_run_prefix(run, events, k - 1);
    }
}

/// The first step that fails ends the run with the exit code 1 and is what
/// the run reports, whatever comes of the removal of the cgroup after it.
pub proof fn theorem_first_failure_is_reported(
    run: OrchestratorView,
    events: Seq<EventView>,
    i: int,
)
    requires
        run.stage is Start,
        run.ends_with(events),
        0 <= i < events.len(),
        forall|j: int|
            0 <= j < i ==> answers(events[j], (#[trigger] run.run(events.take(j))).pending()),
        !answers(events[i], run.run(events.take(i)).pending()),
    ensures
        run.run(events).pending() == (ActionView::Exit {
            code: 1,
            failure: Some(failure_of(kind_of(run.run(events.take(i)).pending()), events[i])),
        }),
{
    let n = events.len() as int;
    if i > 7 {
        lemma_unfailing_rank(run, events, 7);
        assert(run.run(events.take(7)).finished());
    }
    lemma_unfailing_rank(run, events, i);
    assert(!run.run(events.take(i)).finished());
    lemma_run_prefix(run, events, i);
    lemma_failure_is_kept(run, events, i, n);
    assert(events.take(n) =~= events);
}

} // verus!
