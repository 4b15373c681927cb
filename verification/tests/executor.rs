use pagoo::actions::executor::capture_text;
use pagoo::actions::executor::parse_command_line;
use pagoo::actions::executor::split_command_line;
use pagoo::actions::executor::BatchOutcome;
use pagoo::actions::executor::BatchRun;
use pagoo::actions::executor::ExecutionLogEntry;
use pagoo::actions::executor::ProcessOutput;
use pagoo::actions::executor::WorkerEvent;
use pagoo::actions::executor::WorkerStep;
use pagoo::config::Webhook;

fn rule(name: &str, command: &str) -> Webhook {
    Webhook {
        name: name.to_string(),
        matchers_strategy: None,
        matchers: Vec::new(),
        actions_to_execute: command.to_string(),
    }
}

fn exited(exit_code: i32, stdout: &[u8], stderr: &[u8]) -> WorkerEvent {
    WorkerEvent::Exited(ProcessOutput {
        exit_code,
        stdout: stdout.to_vec(),
        stderr: stderr.to_vec(),
    })
}

fn expect_run(step: WorkerStep) -> (String, Vec<String>) {
    match step {
        WorkerStep::Run(command) => (command.program, command.arguments),
        other => panic!("expected a command, got {:?}", other),
    }
}

fn expect_record(step: WorkerStep) -> ExecutionLogEntry {
    match step {
        WorkerStep::Record(entry) => entry,
        other => panic!("expected a record, got {:?}", other),
    }
}

fn expect_done(step: WorkerStep) -> BatchOutcome {
    match step {
        WorkerStep::Done(outcome) => outcome,
        other => panic!("expected the end, got {:?}", other),
    }
}

#[test]
fn test_split_command_line() {
    assert_eq!(split_command_line("echo \"success!\""), vec!["echo", "\"success!\""]);
    assert_eq!(split_command_line("ls"), vec!["ls"]);
    assert_eq!(split_command_line("  a  b\tc\nd  "), vec!["a", "b", "c", "d"]);
    assert_eq!(split_command_line("caf\u{e9}\u{a0}cr\u{e8}me"), vec!["caf\u{e9}", "cr\u{e8}me"]);
    assert_eq!(split_command_line("'one two'"), vec!["'one", "two'"]);
    assert_eq!(split_command_line("a\\ b $HOME"), vec!["a\\", "b", "$HOME"]);
    assert_eq!(split_command_line(""), Vec::<String>::new());
    assert_eq!(split_command_line(" \t\n"), Vec::<String>::new());
}

#[test]
fn test_parse_command_line() {
    let command = parse_command_line("deploy.sh --fast  production").unwrap();
    assert_eq!(command.program, "deploy.sh");
    assert_eq!(command.arguments, vec!["--fast", "production"]);

    let alone = parse_command_line(" true ").unwrap();
    assert_eq!(alone.program, "true");
    assert_eq!(alone.arguments.len(), 0);

    assert!(parse_command_line("").is_none());
    assert!(parse_command_line("   ").is_none());
}

#[test]
fn test_capture_text() {
    assert_eq!(capture_text(b"\"success!\"\n"), "\"success!\"");
    assert_eq!(capture_text(b"  two words \r\n\t"), "two words");
    assert_eq!(capture_text(b""), "");
    assert_eq!(capture_text(b" \n "), "");
    assert_eq!(capture_text(&[b'a', 0xff, b'b', b'\n']), "a\u{fffd}b");
    assert_eq!(capture_text("caf\u{e9}\n".as_bytes()), "caf\u{e9}");
}

#[test]
fn test_log_entry_from_output() {
    let webhook = rule("my_webhook_name", "echo  hello   world");
    let output = ProcessOutput {
        exit_code: 3,
        stdout: b"hello world\n".to_vec(),
        stderr: b"  warning\n".to_vec(),
    };

    let entry = ExecutionLogEntry::from_output(&webhook, &output);

    assert_eq!(entry.webhook_name, "my_webhook_name");
    assert_eq!(entry.executed_command, "echo  hello   world");
    assert_eq!(entry.exit_code, 3);
    assert_eq!(entry.stdout, "hello world");
    assert_eq!(entry.stderr, "warning");

    let given = ExecutionLogEntry::new(&webhook, -1, " kept as given ".to_string(), String::new());
    assert_eq!(given.exit_code, -1);
    assert_eq!(given.stdout, " kept as given ");
    assert_eq!(given.stderr, "");
}

#[test]
fn test_successful_command_is_recorded_once() {
    let mut run = BatchRun::new(vec![rule("my_webhook_name", "echo \"success!\"")]);

    let (program, arguments) = expect_run(run.pending());
    assert_eq!(program, "echo");
    assert_eq!(arguments, vec!["\"success!\""]);

    run.report(exited(0, b"\"success!\"\n", b""));
    let entry = expect_record(run.pending());
    assert_eq!(entry.webhook_name, "my_webhook_name");
    assert_eq!(entry.executed_command, "echo \"success!\"");
    assert_eq!(entry.exit_code, 0);
    assert_eq!(entry.stdout, "\"success!\"");
    assert_eq!(entry.stderr, "");

    run.report(WorkerEvent::Recorded);
    assert_eq!(expect_done(run.pending()), BatchOutcome::Completed);
}

#[test]
fn test_batch_runs_in_order() {
    let mut run = BatchRun::new(vec![rule("first", "one 1"), rule("second", "two 2 2")]);

    assert_eq!(expect_run(run.pending()), ("one".to_string(), vec!["1".to_string()]));
    run.report(exited(0, b"1", b""));
    assert_eq!(expect_record(run.pending()).webhook_name, "first");
    run.report(WorkerEvent::Recorded);

    assert_eq!(
        expect_run(run.pending()),
        ("two".to_string(), vec!["2".to_string(), "2".to_string()])
    );
    run.report(exited(7, b"", b"failed"));
    let entry = expect_record(run.pending());
    assert_eq!(entry.webhook_name, "second");
    assert_eq!(entry.exit_code, 7);
    assert_eq!(entry.stderr, "failed");
    run.report(WorkerEvent::Recorded);

    assert_eq!(expect_done(run.pending()), BatchOutcome::Completed);
}

#[test]
fn test_spawn_failure_abandons_the_rest() {
    let mut run = BatchRun::new(vec![
        rule("first", "one"),
        rule("second", "missing-binary"),
        rule("third", "three"),
    ]);

    run.report(exited(0, b"", b""));
    run.report(WorkerEvent::Recorded);
    assert_eq!(expect_run(run.pending()).0, "missing-binary");

    run.report(WorkerEvent::SpawnFailed);

    assert_eq!(expect_done(run.pending()), BatchOutcome::Abandoned { position: 1 });
    run.report(exited(0, b"", b""));
    run.report(WorkerEvent::Recorded);
    assert_eq!(expect_done(run.pending()), BatchOutcome::Abandoned { position: 1 });
}

#[test]
fn test_lost_record_does_not_stop_the_batch() {
    let mut run = BatchRun::new(vec![rule("first", "one"), rule("second", "two")]);

    run.report(exited(0, b"", b""));
    assert_eq!(expect_record(run.pending()).webhook_name, "first");
    run.report(WorkerEvent::RecordFailed);

    assert_eq!(expect_run(run.pending()).0, "two");
    run.report(exited(0, b"", b""));
    run.report(WorkerEvent::RecordFailed);
    assert_eq!(expect_done(run.pending()), BatchOutcome::Completed);
}

#[test]
fn test_report_that_answers_nothing_changes_nothing() {
    let mut run = BatchRun::new(vec![rule("first", "one")]);

    run.report(WorkerEvent::Recorded);
    run.report(WorkerEvent::RecordFailed);
    assert_eq!(expect_run(run.pending()).0, "one");

    run.report(exited(1, b"out", b"err"));
    run.report(exited(2, b"other", b""));
    run.report(WorkerEvent::SpawnFailed);
    let entry = expect_record(run.pending());
    assert_eq!(entry.exit_code, 1);
    assert_eq!(entry.stdout, "out");
}

#[test]
fn test_empty_batch_is_done_at_once() {
    let mut run = BatchRun::new(Vec::new());

    assert_eq!(expect_done(run.pending()), BatchOutcome::Completed);
    run.report(WorkerEvent::SpawnFailed);
    assert_eq!(expect_done(run.pending()), BatchOutcome::Completed);
}

#[test]
fn test_command_line_without_program_abandons_the_batch() {
    let mut first = BatchRun::new(vec![rule("blank", "   "), rule("next", "one")]);
    assert_eq!(expect_done(first.pending()), BatchOutcome::Abandoned { position: 0 });

    let mut later = BatchRun::new(vec![rule("first", "one"), rule("blank", "")]);
    later.report(exited(0, b"", b""));
    assert_eq!(expect_record(later.pending()).webhook_name, "first");
    later.report(WorkerEvent::Recorded);
    assert_eq!(expect_done(later.pending()), BatchOutcome::Abandoned { position: 1 });

    first.report(WorkerEvent::Recorded);
    assert_eq!(expect_done(first.pending()), BatchOutcome::Abandoned { position: 0 });
}
