use agent::error::AgentError;
use agent::json::Json;
use agent::tool::bash::{report_output, BashOutcome, BashParams, BashTool};

fn params(command: &str) -> BashParams {
    BashParams { command: command.to_string(), timeout: None, description: None }
}

fn completed(stdout: &str, stderr: &str, exit_code: i32) -> BashOutcome {
    BashOutcome::Completed {
        stdout: stdout.to_string(),
        stderr: stderr.to_string(),
        exit_code,
    }
}

#[test]
fn a_command_that_succeeds_gives_its_output() {
    let p = params("echo 'hello world'");
    let result = BashTool.finish(&p, &completed("hello world\n", "", 0)).unwrap();
    assert_eq!(result.output, "hello world\n");
    assert_eq!(result.metadata.get("exitCode"), Some(&Json::Number(0)));
    assert_eq!(
        result.metadata.get("command").and_then(|c| c.as_str()),
        Some("echo 'hello world'")
    );
    assert_eq!(result.title, "echo 'hello world'");
    assert!(result.attachments.is_none());
}

#[test]
fn a_command_that_exits_with_42_says_so() {
    let p = params("exit 42");
    let result = BashTool.finish(&p, &completed("", "", 42)).unwrap();
    assert_eq!(result.metadata.get("exitCode"), Some(&Json::Number(42)));
    assert_eq!(result.output, "\n(exit code: 42)");
    let result = BashTool.finish(&p, &completed("out\n", "", 42)).unwrap();
    assert_eq!(result.output, "out\n\n(exit code: 42)");
}

#[test]
fn a_negative_exit_code_is_written_with_its_sign() {
    assert_eq!(report_output("", "", -1), "\n(exit code: -1)");
    assert_eq!(report_output("", "", i32::MIN), "\n(exit code: -2147483648)");
    assert_eq!(report_output("", "", i32::MAX), "\n(exit code: 2147483647)");
}

#[test]
fn errors_follow_the_output_after_a_marker() {
    assert_eq!(report_output("out", "err", 0), "out\n--- stderr ---\nerr");
    assert_eq!(report_output("", "error message\n", 0), "error message\n");
    assert_eq!(report_output("out", "", 0), "out");
    assert_eq!(report_output("", "", 0), "");
}

#[test]
fn long_output_is_cut_off_after_30000_characters() {
    let long = "x".repeat(30001);
    let shown = report_output(&long, "", 0);
    assert_eq!(shown, format!("{}\n... (output truncated)", "x".repeat(30000)));
    let exact = "x".repeat(30000);
    assert_eq!(report_output(&exact, "", 0), exact);
    let shown = report_output(&long, "", 3);
    assert!(shown.ends_with("\n... (output truncated)\n(exit code: 3)"));
}

#[test]
fn output_is_cut_off_between_characters() {
    let long = "é".repeat(30001);
    let shown = report_output(&long, "", 0);
    assert_eq!(shown, format!("{}\n... (output truncated)", "é".repeat(30000)));
}

#[test]
fn the_timeout_has_a_default_and_a_maximum() {
    let mut p = params("sleep 1");
    assert_eq!(BashTool.timeout_ms(&p), 120_000);
    p.timeout = Some(5);
    assert_eq!(BashTool.timeout_ms(&p), 5);
    p.timeout = Some(600_000);
    assert_eq!(BashTool.timeout_ms(&p), 600_000);
    p.timeout = Some(600_001);
    assert_eq!(BashTool.timeout_ms(&p), 600_000);
    p.timeout = Some(u64::MAX);
    assert_eq!(BashTool.timeout_ms(&p), 600_000);
}

#[test]
fn the_title_is_the_description_or_three_words_of_the_command() {
    let mut p = params("  git   commit -m 'a message'  ");
    assert_eq!(BashTool.title(&p), "git commit -m");
    p.description = Some("Commit the change".to_string());
    assert_eq!(BashTool.title(&p), "Commit the change");
    assert_eq!(BashTool.title(&params("ls")), "ls");
    assert_eq!(BashTool.title(&params("")), "");
    assert_eq!(BashTool.title(&params("a\tb\nc d")), "a b c");
}

#[test]
fn a_command_that_ran_out_of_time_fails_the_call() {
    let mut p = params("sleep 1000");
    p.timeout = Some(1500);
    match BashTool.finish(&p, &BashOutcome::TimedOut) {
        Err(AgentError::ToolExecution { tool, message }) => {
            assert_eq!(tool, "bash");
            assert_eq!(message, "Command timed out after 1500ms");
        }
        other => panic!("{:?}", other),
    }
    match BashTool.finish(&params("sleep 1000"), &BashOutcome::TimedOut) {
        Err(AgentError::ToolExecution { message, .. }) => {
            assert_eq!(message, "Command timed out after 120000ms");
        }
        other => panic!("{:?}", other),
    }
}

#[test]
fn a_command_that_could_not_run_fails_the_call() {
    match BashTool.finish(&params("x"), &BashOutcome::Failed("No such file".to_string())) {
        Err(AgentError::ToolExecution { tool, message }) => {
            assert_eq!(tool, "bash");
            assert_eq!(message, "No such file");
        }
        other => panic!("{:?}", other),
    }
}
