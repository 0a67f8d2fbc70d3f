use chatbot_core::pyremote::{Error, Output, Race};
use chatbot_core::supervisor::{Action, Event, State, Supervisor};
use std::time::Duration;

fn io_error(text: &str) -> std::io::Error {
    std::io::Error::new(std::io::ErrorKind::Other, text.to_string())
}

const PATH: &str = "./python_dir/.tmpA1b2C3";

fn running(budget: Duration) -> Supervisor {
    let (s, a) = Supervisor::new(budget);
    assert!(matches!(a, Action::CreateWorkspace));
    let (s, a) = s.step(Event::Created(PATH.to_string()));
    assert!(matches!(a, Action::FillWorkspace(path) if path == PATH));
    let (s, a) = s.step(Event::Filled);
    assert!(matches!(a, Action::Spawn(path) if path == PATH));
    let (s, a) = s.step(Event::Spawned);
    match a {
        Action::Race(limit) => assert_eq!(limit, budget),
        other => panic!("unexpected action {:?}", other),
    }
    assert!(matches!(&s.state, State::Running(path) if path == PATH));
    s
}

fn removes(action: &Action, expected: &str) -> bool {
    matches!(action, Action::RemoveWorkspace(path) if path == expected)
}

#[test]
fn new_supervisor_asks_for_a_workspace() {
    let (s, a) = Supervisor::new(Duration::from_secs(5));
    assert_eq!(s.budget, Duration::from_secs(5));
    assert!(matches!(s.state, State::Creating));
    assert!(matches!(a, Action::CreateWorkspace));
    assert!(!s.is_finished());
}

#[test]
fn completed_run_removes_workspace_then_returns_output() {
    let s = running(Duration::from_secs(2));
    let out = Output { status: Some(0), stdout: b"2\n".to_vec(), stderr: Vec::new() };
    let (s, a) = s.step(Event::Raced(Race::Completed(out)));
    assert!(removes(&a, PATH));
    assert!(matches!(&s.state, State::Releasing(path, Ok(_)) if path == PATH));
    assert!(!s.is_finished());
    let (s, a) = s.step(Event::Removed);
    assert!(s.is_finished());
    match a {
        Action::Return(Ok(out)) => {
            assert_eq!(out.stdout, b"2\n");
            assert!(out.stderr.is_empty());
            assert_eq!(out.status, Some(0));
        }
        other => panic!("unexpected action {:?}", other),
    }
}

#[test]
fn timeout_kills_reaps_removes_and_reports_budget() {
    let budget = Duration::from_secs(2);
    let s = running(budget);
    let (s, a) = s.step(Event::Raced(Race::Elapsed));
    assert!(matches!(a, Action::Kill));
    assert!(matches!(&s.state, State::Killing(path, Error::Timeout { .. }) if path == PATH));
    let (s, a) = s.step(Event::Reaped);
    assert!(removes(&a, PATH));
    let (s, a) = s.step(Event::Removed);
    assert!(s.is_finished());
    match a {
        Action::Return(Err(Error::Timeout { timeout })) => assert_eq!(timeout, budget),
        other => panic!("unexpected action {:?}", other),
    }
}

#[test]
fn failed_wait_kills_before_reporting_io() {
    let s = running(Duration::from_secs(2));
    let (s, a) = s.step(Event::Raced(Race::Failed(io_error("read failed"))));
    assert!(matches!(a, Action::Kill));
    let (s, a) = s.step(Event::Reaped);
    assert!(removes(&a, PATH));
    let (s, a) = s.step(Event::Removed);
    assert!(s.is_finished());
    match a {
        Action::Return(Err(Error::IO(error))) => assert_eq!(error.to_string(), "read failed"),
        other => panic!("unexpected action {:?}", other),
    }
}

#[test]
fn workspace_creation_failure_returns_at_once() {
    let (s, _) = Supervisor::new(Duration::from_secs(2));
    let (s, a) = s.step(Event::Failed(io_error("no directory")));
    assert!(s.is_finished());
    match a {
        Action::Return(Err(Error::IO(error))) => assert_eq!(error.to_string(), "no directory"),
        other => panic!("unexpected action {:?}", other),
    }
}

#[test]
fn fill_failure_removes_workspace_first() {
    let (s, _) = Supervisor::new(Duration::from_secs(2));
    let (s, _) = s.step(Event::Created(PATH.to_string()));
    let (s, a) = s.step(Event::Failed(io_error("no prelude")));
    assert!(removes(&a, PATH));
    assert!(!s.is_finished());
    let (s, a) = s.step(Event::Removed);
    assert!(s.is_finished());
    match a {
        Action::Return(Err(Error::IO(error))) => assert_eq!(error.to_string(), "no prelude"),
        other => panic!("unexpected action {:?}", other),
    }
}

#[test]
fn spawn_failure_never_starts_the_race() {
    let (s, _) = Supervisor::new(Duration::from_secs(2));
    let (s, _) = s.step(Event::Created(PATH.to_string()));
    let (s, a) = s.step(Event::Filled);
    assert!(matches!(a, Action::Spawn(_)));
    let (s, a) = s.step(Event::Failed(io_error("python3 not found")));
    assert!(removes(&a, PATH));
    let (s, a) = s.step(Event::Removed);
    assert!(s.is_finished());
    match a {
        Action::Return(Err(Error::IO(error))) => {
            assert_eq!(error.to_string(), "python3 not found")
        }
        other => panic!("unexpected action {:?}", other),
    }
}

#[test]
fn events_that_do_not_fit_change_nothing() {
    let (s, _) = Supervisor::new(Duration::from_secs(2));
    let (s, a) = s.step(Event::Spawned);
    assert!(matches!(a, Action::Nothing));
    assert!(matches!(s.state, State::Creating));
    let (s, a) = s.step(Event::Removed);
    assert!(matches!(a, Action::Nothing));
    assert!(matches!(s.state, State::Creating));
    let s = running(Duration::from_secs(2));
    let (s, a) = s.step(Event::Failed(io_error("stray")));
    assert!(matches!(a, Action::Nothing));
    assert!(matches!(s.state, State::Running(_)));
    let (s, a) = s.step(Event::Reaped);
    assert!(matches!(a, Action::Nothing));
    assert!(matches!(s.state, State::Running(_)));
    let (s, a) = s.step(Event::Created("./python_dir/.tmpOther".to_string()));
    assert!(matches!(a, Action::Nothing));
    assert!(matches!(&s.state, State::Running(path) if path == PATH));
}

#[test]
fn finished_supervisor_returns_nothing_more() {
    let s = running(Duration::from_secs(2));
    let (s, _) = s.step(Event::Raced(Race::Elapsed));
    let (s, _) = s.step(Event::Reaped);
    let (s, a) = s.step(Event::Removed);
    assert!(matches!(a, Action::Return(_)));
    let (s, a) = s.step(Event::Removed);
    assert!(matches!(a, Action::Nothing));
    let (s, a) = s.step(Event::Created(PATH.to_string()));
    assert!(matches!(a, Action::Nothing));
    assert!(s.is_finished());
}

#[test]
fn side_by_side_executions_keep_their_own_outcomes() {
    let first = running(Duration::from_secs(1));
    let second = running(Duration::from_secs(7));
    let third = running(Duration::from_secs(3));
    let out = Output { status: Some(0), stdout: b"second\n".to_vec(), stderr: Vec::new() };
    let (third, _) = third.step(Event::Raced(Race::Failed(io_error("third"))));
    let (first, _) = first.step(Event::Raced(Race::Elapsed));
    let (second, _) = second.step(Event::Raced(Race::Completed(out)));
    let (second, b) = second.step(Event::Removed);
    let (first, _) = first.step(Event::Reaped);
    let (third, _) = third.step(Event::Reaped);
    let (third, c) = third.step(Event::Removed);
    let (first, a) = first.step(Event::Removed);
    assert!(first.is_finished() && second.is_finished() && third.is_finished());
    match a {
        Action::Return(Err(Error::Timeout { timeout })) => {
            assert_eq!(timeout, Duration::from_secs(1))
        }
        other => panic!("unexpected action {:?}", other),
    }
    match b {
        Action::Return(Ok(out)) => assert_eq!(out.stdout, b"second\n"),
        other => panic!("unexpected action {:?}", other),
    }
    match c {
        Action::Return(Err(Error::IO(error))) => assert_eq!(error.to_string(), "third"),
        other => panic!("unexpected action {:?}", other),
    }
}

fn started(path: &str, budget: Duration) -> (Supervisor, Vec<String>) {
    let mut named = Vec::new();
    let (s, _) = Supervisor::new(budget);
    let (s, a) = s.step(Event::Created(path.to_string()));
    if let Action::FillWorkspace(path) = a {
        named.push(path);
    }
    let (s, a) = s.step(Event::Filled);
    if let Action::Spawn(path) = a {
        named.push(path);
    }
    let (s, _) = s.step(Event::Spawned);
    (s, named)
}

#[test]
fn each_execution_names_its_own_workspace_only() {
    let (first, mut first_named) = started("./python_dir/.tmpOne", Duration::from_secs(1));
    let (second, mut second_named) = started("./python_dir/.tmpTwo", Duration::from_secs(2));
    let out = Output { status: Some(0), stdout: Vec::new(), stderr: Vec::new() };
    let (second, a) = second.step(Event::Raced(Race::Completed(out)));
    if let Action::RemoveWorkspace(path) = a {
        second_named.push(path);
    }
    let (first, _) = first.step(Event::Raced(Race::Elapsed));
    let (first, a) = first.step(Event::Reaped);
    if let Action::RemoveWorkspace(path) = a {
        first_named.push(path);
    }
    assert_eq!(first_named, vec!["./python_dir/.tmpOne"; 3]);
    assert_eq!(second_named, vec!["./python_dir/.tmpTwo"; 3]);
    let (first, _) = first.step(Event::Removed);
    let (second, _) = second.step(Event::Removed);
    assert!(first.is_finished() && second.is_finished());
}
