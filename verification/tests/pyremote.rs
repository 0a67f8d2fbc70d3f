use chatbot_core::pyremote::{race_outcome, workspace_contents, Error, Output, Race};
use std::time::Duration;

fn output(status: Option<i32>, stdout: &[u8], stderr: &[u8]) -> Output {
    Output { status, stdout: stdout.to_vec(), stderr: stderr.to_vec() }
}

#[test]
fn workspace_is_prelude_then_source() {
    let contents = workspace_contents(b"import sys\n", b"print(1+1)");
    assert_eq!(contents, b"import sys\nprint(1+1)".to_vec());
}

#[test]
fn workspace_keeps_every_byte() {
    let prelude = [0u8, 255, 10, 13];
    let contents = workspace_contents(&prelude, "π = 'é'\n".as_bytes());
    let mut expected = prelude.to_vec();
    expected.extend_from_slice("π = 'é'\n".as_bytes());
    assert_eq!(contents, expected);
}

#[test]
fn workspace_of_empty_parts() {
    assert_eq!(workspace_contents(b"", b""), Vec::<u8>::new());
    assert_eq!(workspace_contents(b"x", b""), b"x".to_vec());
    assert_eq!(workspace_contents(b"", b"y"), b"y".to_vec());
}

#[test]
fn distinct_sources_give_distinct_workspaces() {
    let prelude = b"gate()\n";
    assert_ne!(workspace_contents(prelude, b"print(1)"), workspace_contents(prelude, b"print(2)"));
}

#[test]
fn completed_race_is_success_with_raw_output() {
    let outcome = race_outcome(
        Race::Completed(output(Some(0), b"2\n", b"")),
        Duration::from_secs(2),
    );
    let out = outcome.unwrap();
    assert_eq!(out.status, Some(0));
    assert_eq!(out.stdout, b"2\n");
    assert!(out.stderr.is_empty());
}

#[test]
fn failing_program_is_still_success() {
    let stderr = b"Traceback (most recent call last):\nZeroDivisionError: division by zero\n";
    let outcome = race_outcome(
        Race::Completed(output(Some(1), b"", stderr)),
        Duration::from_secs(2),
    );
    let out = outcome.unwrap();
    assert_eq!(out.status, Some(1));
    assert!(out.stdout.is_empty());
    assert!(String::from_utf8_lossy(&out.stderr).contains("ZeroDivisionError"));
}

#[test]
fn output_is_not_trimmed_or_decoded() {
    let outcome = race_outcome(
        Race::Completed(output(None, b"  \xff\xfe \n\n", b"\t\n")),
        Duration::from_secs(2),
    );
    let out = outcome.unwrap();
    assert_eq!(out.status, None);
    assert_eq!(out.stdout, b"  \xff\xfe \n\n");
    assert_eq!(out.stderr, b"\t\n");
}

#[test]
fn elapsed_race_is_timeout_with_the_budget() {
    let outcome = race_outcome(Race::Elapsed, Duration::from_secs(2));
    match outcome {
        Err(Error::Timeout { timeout }) => assert_eq!(timeout, Duration::from_secs(2)),
        other => panic!("unexpected outcome {:?}", other),
    }
}

#[test]
fn failed_race_is_io_error() {
    let cause = std::io::Error::new(std::io::ErrorKind::BrokenPipe, "pipe closed");
    let outcome = race_outcome(Race::Failed(cause), Duration::from_millis(1500));
    match outcome {
        Err(Error::IO(error)) => {
            assert_eq!(error.kind(), std::io::ErrorKind::BrokenPipe);
            assert_eq!(error.to_string(), "pipe closed");
        }
        other => panic!("unexpected outcome {:?}", other),
    }
}

#[test]
fn io_error_converts_into_error() {
    let cause = std::io::Error::new(std::io::ErrorKind::NotFound, "python3");
    match Error::from(cause) {
        Error::IO(error) => assert_eq!(error.kind(), std::io::ErrorKind::NotFound),
        other => panic!("unexpected error {:?}", other),
    }
}

#[test]
fn sources_reach_the_workspace_byte_for_byte() {
    let prelude = b"import sys\nsys.meta_path.insert(0, gate)\n";
    let sources = [
        "print(1+1)",
        "print(1/0)",
        "import math; print(math.sqrt(4))",
        "import os; print(os.listdir)",
        "exec('import os; print(os.listdir)')",
        "os = importlib.__import__('os'); print(os.listdir())",
        "exec('os = importlib.__import__(\"os\")\nprint(os.listdir())')",
        "os = __loader__.load_module('os'); print(os.listdir())",
        "os = __builtins__.__dict__['os']; print(os.listdir())",
    ];
    for source in sources {
        let contents = workspace_contents(prelude, source.as_bytes());
        assert_eq!(&contents[..prelude.len()], &prelude[..]);
        assert_eq!(&contents[prelude.len()..], source.as_bytes());
    }
}

#[test]
fn rejected_import_is_success_with_stderr_only() {
    let stderr = b"ImportError: secure_importer: module 'os' is not allowed\n";
    let outcome = race_outcome(
        Race::Completed(output(Some(1), b"", stderr)),
        Duration::from_secs(2),
    );
    let out = outcome.unwrap();
    assert!(out.stdout.is_empty());
    assert!(String::from_utf8_lossy(&out.stderr).contains("secure_importer"));
}

#[test]
fn source_need_not_be_text() {
    let contents = workspace_contents(b"# gate\n", b"print('\xff')\n");
    assert_eq!(contents, b"# gate\nprint('\xff')\n".to_vec());
}
