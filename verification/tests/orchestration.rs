use cleanroom::cgroups::FsOp;
use cleanroom::error::InvalidInput;
use cleanroom::orchestrator::{
    Action, Event, Failure, FailureKind, Orchestrator, Outcome, OUT_OF_TURN,
};

const DIR: &str = "/sys/fs/cgroup/cpuset/cleanroom";

fn write(file: &str, contents: &str) -> Action {
    Action::Apply {
        op: FsOp::Write { path: format!("{}/{}", DIR, file), contents: contents.to_string() },
    }
}

fn create_dir() -> Action {
    Action::Apply { op: FsOp::CreateDirAll { path: DIR.to_string() } }
}

fn remove_dir() -> Action {
    Action::Apply { op: FsOp::RemoveDirAll { path: DIR.to_string() } }
}

fn failed(message: &str) -> Event {
    Event::Failed { message: message.to_string() }
}

fn exit_after(kind: FailureKind, message: &str) -> Action {
    Action::Exit { code: 1, failure: Some(Failure { kind, message: message.to_string() }) }
}

/// Runs to the end with the events given and returns every action that was
/// asked for, the exit included.
fn drive(cpus: &[u32], events: Vec<Event>) -> Vec<Action> {
    let mut run = Orchestrator::new("cleanroom", cpus).unwrap();
    let mut actions = vec![run.pending()];
    for event in events {
        assert!(!run.is_finished());
        let next = run.step(event);
        run = next.0;
        assert_eq!(next.1, run.pending());
        actions.push(next.1);
    }
    assert!(run.is_finished());
    actions
}

/// The events of a run in which every step succeeds.
fn unfailing(pid: u32, outcome: Outcome) -> Vec<Event> {
    vec![
        Event::Done,
        Event::Done,
        Event::Done,
        Event::Spawned { pid },
        Event::Done,
        Event::Terminated { outcome },
        Event::Done,
    ]
}

/// The events of a run that goes well for `steps` steps and fails then.
fn failing_after(steps: usize, message: &str) -> Vec<Event> {
    let mut events = unfailing(4321, Outcome::Exited(0));
    events.truncate(steps);
    events.push(failed(message));
    events
}

#[test]
fn run_on_two_cores_with_a_child_that_exits_with_zero() {
    let actions = drive(&[0, 1], unfailing(4321, Outcome::Exited(0)));
    assert_eq!(
        actions,
        vec![
            create_dir(),
            write("cpuset.cpu_exclusive", "1"),
            write("cpuset.cpus", "0-1"),
            Action::Spawn,
            write("cgroup.procs", "4321"),
            Action::Wait,
            remove_dir(),
            Action::Exit { code: 0, failure: None },
        ]
    );
}

#[test]
fn run_without_cores_is_refused_at_once() {
    assert_eq!(Orchestrator::new("cleanroom", &[]).unwrap_err(), InvalidInput::EmptyCpuList);
}

#[test]
fn run_under_an_unsafe_name_is_refused_at_once() {
    assert_eq!(Orchestrator::new("../escape", &[0]).unwrap_err(), InvalidInput::UnsafeName);
    assert_eq!(Orchestrator::new("", &[]).unwrap_err(), InvalidInput::UnsafeName);
}

#[test]
fn exit_code_of_the_child_is_passed_on() {
    for code in [0, 1, 2, 42, 127, 255] {
        let actions = drive(&[3], unfailing(99, Outcome::Exited(code)));
        assert_eq!(actions.last(), Some(&Action::Exit { code, failure: None }));
    }
    for code in 0..=255 {
        assert_eq!(Outcome::Exited(code).exit_code(), code);
    }
    assert_eq!(Outcome::Exited(-1).exit_code(), -1);
}

#[test]
fn signal_gives_exit_code_one() {
    let actions = drive(&[3], unfailing(99, Outcome::Signaled));
    assert_eq!(actions.len(), 8);
    assert_eq!(actions[6], remove_dir());
    assert_eq!(actions[7], Action::Exit { code: 1, failure: None });
    assert_eq!(Outcome::Signaled.exit_code(), 1);
}

#[test]
fn outcome_is_read_from_the_reported_code() {
    assert_eq!(Outcome::from_code(Some(0)), Outcome::Exited(0));
    assert_eq!(Outcome::from_code(Some(3)), Outcome::Exited(3));
    assert_eq!(Outcome::from_code(None), Outcome::Signaled);
}

#[test]
fn failed_creation_ends_the_run_without_a_removal() {
    let actions = drive(&[0, 1], vec![failed("permission denied")]);
    assert_eq!(actions, vec![create_dir(), exit_after(FailureKind::Io, "permission denied")]);
}

#[test]
fn cgroup_is_removed_after_a_failure_at_any_later_step() {
    let kinds = [
        FailureKind::Io,
        FailureKind::Io,
        FailureKind::Spawn,
        FailureKind::Io,
        FailureKind::Wait,
    ];
    for (at, kind) in kinds.iter().enumerate() {
        let steps = at + 1;
        let mut events = failing_after(steps, "it broke");
        events.push(Event::Done);
        let actions = drive(&[0, 1], events);
        assert_eq!(actions.len(), steps + 3);
        assert_eq!(actions[steps + 1], remove_dir());
        assert_eq!(actions[steps + 2], exit_after(*kind, "it broke"));
        let removals = actions.iter().filter(|action| **action == remove_dir()).count();
        assert_eq!(removals, 1);
    }
}

#[test]
fn failed_spawn_asks_for_no_attach_and_no_wait() {
    let mut events = failing_after(3, "No such file or directory");
    events.push(Event::Done);
    let actions = drive(&[0, 1], events);
    assert_eq!(
        actions,
        vec![
            create_dir(),
            write("cpuset.cpu_exclusive", "1"),
            write("cpuset.cpus", "0-1"),
            Action::Spawn,
            remove_dir(),
            exit_after(FailureKind::Spawn, "No such file or directory"),
        ]
    );
}

#[test]
fn failed_removal_after_the_child_gives_exit_code_one() {
    let actions = drive(&[0, 1], failing_after(6, "Device or resource busy"));
    assert_eq!(actions.len(), 8);
    assert_eq!(actions[6], remove_dir());
    assert_eq!(actions[7], exit_after(FailureKind::Io, "Device or resource busy"));
}

#[test]
fn failed_removal_does_not_replace_the_first_failure() {
    let mut events = failing_after(4, "cannot attach");
    events.push(failed("Device or resource busy"));
    let actions = drive(&[0, 1], events);
    assert_eq!(actions.len(), 7);
    assert_eq!(actions[5], remove_dir());
    assert_eq!(actions[6], exit_after(FailureKind::Io, "cannot attach"));
}

#[test]
fn event_out_of_turn_fails_the_step() {
    let actions = drive(&[0, 1], vec![Event::Done, Event::Spawned { pid: 5 }, Event::Done]);
    assert_eq!(
        actions,
        vec![
            create_dir(),
            write("cpuset.cpu_exclusive", "1"),
            remove_dir(),
            exit_after(FailureKind::Io, OUT_OF_TURN),
        ]
    );
    let actions = drive(&[0, 1], vec![Event::Terminated { outcome: Outcome::Exited(0) }]);
    assert_eq!(actions, vec![create_dir(), exit_after(FailureKind::Io, OUT_OF_TURN)]);
    let mut events = unfailing(4321, Outcome::Exited(0));
    events.truncate(3);
    events.push(Event::Done);
    events.push(Event::Done);
    let actions = drive(&[0, 1], events);
    assert_eq!(actions[4], remove_dir());
    assert_eq!(actions[5], exit_after(FailureKind::Spawn, OUT_OF_TURN));
}

#[test]
fn finished_run_stays_as_it_is() {
    let mut run = Orchestrator::new("cleanroom", &[2]).unwrap();
    for event in unfailing(1, Outcome::Exited(7)) {
        run = run.step(event).0;
    }
    assert!(run.is_finished());
    for event in [Event::Done, failed("late"), Event::Spawned { pid: 2 }] {
        let next = run.step(event);
        run = next.0;
        assert!(run.is_finished());
        assert_eq!(next.1, Action::Exit { code: 7, failure: None });
    }
}

#[test]
fn cores_are_written_in_their_encoding() {
    let actions = drive(&[8, 6, 7, 0, 2, 1, 4, 4], unfailing(10, Outcome::Exited(0)));
    assert_eq!(actions[2], write("cpuset.cpus", "0-2,4,6-8"));
    assert_eq!(actions[4], write("cgroup.procs", "10"));
}
