use pkgmanager_builder::error::BuilderError;
use pkgmanager_builder::process::{
    show_code, Outcome, ProcessResult, ProcessRunner, SequenceStep,
};

fn strings(items: &[&str]) -> Vec<String> {
    items.iter().map(|s| s.to_string()).collect()
}

/// What the two commands used below leave behind when they are run: `echo`
/// prints its arguments and succeeds, `false` fails with code 1.
fn outcome_of(command: &str, args: &[&str], captured: bool) -> Outcome {
    match command {
        "echo" => Outcome::Exited {
            success: true,
            exit_code: Some(0),
            stdout: if captured { format!("{}\n", args.join(" ")) } else { String::new() },
            stderr: String::new(),
        },
        "false" => Outcome::Exited {
            success: false,
            exit_code: Some(1),
            stdout: String::new(),
            stderr: String::new(),
        },
        _ => Outcome::NotStarted { reason: "No such file or directory (os error 2)".to_string() },
    }
}

fn status_of(command: &str, args: &[&str]) -> Outcome {
    outcome_of(command, args, false)
}

fn output_of(command: &str, args: &[&str]) -> Outcome {
    outcome_of(command, args, true)
}

fn run_command(runner: &ProcessRunner, command: &str, args: &[&str]) -> Result<(), BuilderError> {
    runner.status_result(command, &strings(args), &status_of(command, args))
}

fn run_command_with_output(
    runner: &ProcessRunner,
    command: &str,
    args: &[&str],
) -> Result<ProcessResult, BuilderError> {
    runner.output_result(command, &strings(args), output_of(command, args))
}

fn runs_of(commands: &[(&str, &[&str])]) -> Vec<(String, Vec<String>, Outcome)> {
    commands
        .iter()
        .map(|(command, args)| (command.to_string(), strings(args), output_of(command, args)))
        .collect()
}

#[test]
fn test_process_runner_creation() {
    let runner = ProcessRunner::new(true);
    assert!(runner.debug);

    let runner = ProcessRunner::default();
    assert!(!runner.debug);
}

#[test]
fn test_run_simple_command() {
    let runner = ProcessRunner::new(false);
    let result = run_command(&runner, "echo", &["hello"]);
    assert!(result.is_ok());
}

#[test]
fn test_run_command_with_output() {
    let runner = ProcessRunner::new(false);
    let result = run_command_with_output(&runner, "echo", &["hello", "world"]).unwrap();

    assert!(result.success);
    assert_eq!(result.stdout.trim(), "hello world");
    assert!(result.stderr.is_empty());
}

#[test]
fn test_run_failing_command() {
    let runner = ProcessRunner::new(false);
    let result = run_command(&runner, "false", &[]);
    assert!(result.is_err());

    if let Err(BuilderError::Process { command, exit_code, .. }) = result {
        assert_eq!(command, "false ");
        assert_eq!(exit_code, Some(1));
    } else {
        panic!("Expected ProcessError");
    }
}

#[test]
fn test_run_commands_sequence() {
    let runner = ProcessRunner::new(false);
    let commands = vec![("echo", &["first"][..]), ("echo", &["second"][..])];

    let results = runner.sequence_result(runs_of(&commands)).unwrap();
    assert_eq!(results.len(), 2);
    assert_eq!(results[0].stdout.trim(), "first");
    assert_eq!(results[1].stdout.trim(), "second");
}

#[test]
fn test_run_commands_sequence_failure() {
    let runner = ProcessRunner::new(false);
    let commands = vec![("echo", &["first"][..]), ("false", &[][..]), ("echo", &["third"][..])];

    let result = runner.sequence_result(runs_of(&commands));
    assert!(result.is_err());
}

#[test]
fn sequence_stops_at_the_first_failure() {
    let runner = ProcessRunner::new(false);
    let runs = vec![
        ("echo".to_string(), strings(&["first"]), output_of("echo", &["first"])),
        (
            "make".to_string(),
            strings(&["all"]),
            Outcome::Exited {
                success: false,
                exit_code: Some(2),
                stdout: "partial".to_string(),
                stderr: "broken".to_string(),
            },
        ),
        ("nope".to_string(), vec![], Outcome::NotStarted { reason: "missing".to_string() }),
    ];
    match runner.sequence_result(runs) {
        Err(BuilderError::Process { command, exit_code, stdout, stderr }) => {
            assert_eq!(command, "make all");
            assert_eq!(exit_code, Some(2));
            assert_eq!(stdout, "partial");
            assert_eq!(stderr, "broken");
        }
        other => panic!("expected a process error, got {:?}", other),
    }
    let runs = vec![
        ("nope".to_string(), vec![], Outcome::NotStarted { reason: "missing".to_string() }),
        ("echo".to_string(), strings(&["x"]), output_of("echo", &["x"])),
    ];
    match runner.sequence_result(runs) {
        Err(BuilderError::Process { command, exit_code, stderr, .. }) => {
            assert_eq!(command, "nope ");
            assert_eq!(exit_code, None);
            assert_eq!(stderr, "Failed to execute command: missing");
        }
        other => panic!("expected a process error, got {:?}", other),
    }
    assert!(runner.sequence_result(vec![]).unwrap().is_empty());
}

#[test]
fn sequence_runs_until_a_failure_or_the_end() {
    let mut runs = vec![];
    assert_eq!(ProcessRunner::sequence_step(&runs, 0), SequenceStep::Done);
    assert_eq!(ProcessRunner::sequence_step(&runs, 3), SequenceStep::Run { index: 0 });
    runs.push(("echo".to_string(), strings(&["a"]), output_of("echo", &["a"])));
    assert_eq!(ProcessRunner::sequence_step(&runs, 3), SequenceStep::Run { index: 1 });
    assert_eq!(ProcessRunner::sequence_step(&runs, 1), SequenceStep::Done);
    runs.push(("false".to_string(), vec![], output_of("false", &[])));
    assert_eq!(ProcessRunner::sequence_step(&runs, 3), SequenceStep::Done);
    runs.push(("echo".to_string(), strings(&["b"]), output_of("echo", &["b"])));
    assert_eq!(ProcessRunner::sequence_step(&runs, 4), SequenceStep::Done);
}

#[test]
fn outcomes_tell_success_from_failure() {
    assert!(output_of("echo", &["x"]).succeeded());
    assert!(!output_of("false", &[]).succeeded());
    assert!(!Outcome::NotStarted { reason: String::new() }.succeeded());
}

#[test]
fn command_line_joins_with_spaces() {
    assert_eq!(ProcessRunner::command_line("ls", &strings(&["-la", "a b"])), "ls -la a b");
    assert_eq!(ProcessRunner::command_line("false", &vec![]), "false ");
}

#[test]
fn exit_codes_are_shown_like_options() {
    assert_eq!(show_code(None), "None");
    assert_eq!(show_code(Some(1)), "Some(1)");
    assert_eq!(show_code(Some(0)), "Some(0)");
    assert_eq!(show_code(Some(-15)), "Some(-15)");
    assert_eq!(show_code(Some(i32::MIN)), "Some(-2147483648)");
    assert_eq!(show_code(Some(i32::MAX)), "Some(2147483647)");
}

#[test]
fn failed_status_is_a_process_error() {
    let runner = ProcessRunner::new(true);
    let outcome = Outcome::Exited {
        success: false,
        exit_code: Some(2),
        stdout: String::new(),
        stderr: String::new(),
    };
    match runner.status_result("make", &strings(&["all"]), &outcome) {
        Err(BuilderError::Process { command, exit_code, stdout, stderr }) => {
            assert_eq!(command, "make all");
            assert_eq!(exit_code, Some(2));
            assert_eq!(stdout, "");
            assert_eq!(stderr, "Command failed with exit code: Some(2)");
        }
        other => panic!("expected a process error, got {:?}", other),
    }
}

#[test]
fn command_that_cannot_start_is_a_process_error() {
    let runner = ProcessRunner::new(false);
    let outcome = Outcome::NotStarted { reason: "No such file".to_string() };
    match runner.status_result("nope", &vec![], &outcome) {
        Err(BuilderError::Process { command, exit_code, stdout, stderr }) => {
            assert_eq!(command, "nope ");
            assert_eq!(exit_code, None);
            assert_eq!(stdout, "");
            assert_eq!(stderr, "Failed to execute command: No such file");
        }
        other => panic!("expected a process error, got {:?}", other),
    }
    let outcome = Outcome::NotStarted { reason: "denied".to_string() };
    match runner.output_result("nope", &strings(&["x"]), outcome) {
        Err(BuilderError::Process { command, exit_code, stderr, .. }) => {
            assert_eq!(command, "nope x");
            assert_eq!(exit_code, None);
            assert_eq!(stderr, "Failed to execute command: denied");
        }
        other => panic!("expected a process error, got {:?}", other),
    }
}

#[test]
fn failed_output_keeps_what_was_captured() {
    let runner = ProcessRunner::new(false);
    let outcome = Outcome::Exited {
        success: false,
        exit_code: None,
        stdout: "out".to_string(),
        stderr: "err".to_string(),
    };
    match runner.output_result("cmd", &vec![], outcome) {
        Err(BuilderError::Process { command, exit_code, stdout, stderr }) => {
            assert_eq!(command, "cmd ");
            assert_eq!(exit_code, None);
            assert_eq!(stdout, "out");
            assert_eq!(stderr, "err");
        }
        other => panic!("expected a process error, got {:?}", other),
    }
}

#[test]
fn kill_arguments_name_signal_and_pid() {
    assert_eq!(ProcessRunner::kill_arguments(4242, 9), strings(&["-9", "4242"]));
    assert_eq!(ProcessRunner::kill_arguments(0, 15), strings(&["-15", "0"]));
    assert_eq!(ProcessRunner::kill_arguments(u32::MAX, -1), strings(&["--1", "4294967295"]));
}

#[test]
fn pids_are_read_line_by_line() {
    assert_eq!(ProcessRunner::parse_pids("1\n22\n333\n"), vec![1, 22, 333]);
    assert_eq!(ProcessRunner::parse_pids(" 7 \r\nabc\n\n+8\n-9\n4294967295\n4294967296\n"), vec![7, 8, 4294967295]);
    assert!(ProcessRunner::parse_pids("").is_empty());
    assert_eq!(ProcessRunner::parse_pids("0012"), vec![12]);
}
