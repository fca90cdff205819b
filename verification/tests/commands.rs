use shipyard::git::command::{
    after_wait, ancestry, error, optional_text, poll_check, text, with_termination_message, GitOutput, PollCheck,
    PollNext, WaitOutcome,
};

fn output(code: Option<i32>, stdout: &str, stderr: &str) -> GitOutput {
    GitOutput { code, stdout: stdout.as_bytes().to_vec(), stderr: stderr.as_bytes().to_vec() }
}

#[test]
fn reports_the_exit_status_when_git_writes_nothing() {
    assert_eq!(error(&output(Some(7), "", "")), "Git exited with status 7");
    assert_eq!(error(&output(Some(-3), " \n", "\t")), "Git exited with status -3");
    assert_eq!(error(&output(None, "", "")), "Git terminated unexpectedly");
}

#[test]
fn prefers_error_output_then_standard_output() {
    assert_eq!(error(&output(Some(128), "ignored", "  fatal: not a git repository\n")), "fatal: not a git repository");
    assert_eq!(error(&output(Some(1), "  conflict in a.txt \n", "")), "conflict in a.txt");
    let invalid = GitOutput { code: Some(2), stdout: Vec::new(), stderr: vec![0xff, 0xfe] };
    assert_eq!(error(&invalid), "Git exited with status 2");
}

#[test]
fn text_names_the_directory_of_a_failed_command() {
    assert_eq!(text("/repo", &output(Some(0), "main\n", "warning")).unwrap(), "main\n");
    assert_eq!(
        text("/repo", &output(Some(1), "", "fatal: bad revision")).unwrap_err(),
        "Git command failed in /repo: fatal: bad revision"
    );
    assert_eq!(optional_text(&output(Some(0), "abc", "")), Some("abc".to_string()));
    assert_eq!(optional_text(&output(Some(1), "abc", "")), None);
}

#[test]
fn ancestry_reads_the_exit_code() {
    assert_eq!(ancestry(&output(Some(0), "", "")), Ok(true));
    assert_eq!(ancestry(&output(Some(1), "", "")), Ok(false));
    assert_eq!(ancestry(&output(Some(128), "", "fatal: no such commit")), Err("fatal: no such commit".to_string()));
}

#[test]
fn termination_reason_goes_on_a_line_of_its_own() {
    assert_eq!(with_termination_message(b"partial".to_vec(), "Git command cancelled"), b"partial\nGit command cancelled\n".to_vec());
    assert_eq!(with_termination_message(b"done\n".to_vec(), "stop"), b"done\nstop\n".to_vec());
    assert_eq!(with_termination_message(Vec::new(), "stop"), b"stop\n".to_vec());
}

#[test]
fn cancellation_comes_before_the_time_limit() {
    assert_eq!(poll_check(true, 10_000, 5), PollCheck::Terminate("Git command cancelled".to_string()));
    assert_eq!(poll_check(false, 5_000, 5), PollCheck::Terminate("Git command timed out after 5 seconds".to_string()));
    assert_eq!(poll_check(false, 4_999, 5), PollCheck::Wait);
}

#[test]
fn a_look_at_the_command_decides_what_follows() {
    assert_eq!(after_wait(&WaitOutcome::Exited(Some(0))), PollNext::Finished(Some(0)));
    assert_eq!(after_wait(&WaitOutcome::Running), PollNext::Sleep);
    assert_eq!(
        after_wait(&WaitOutcome::Failed("interrupted".to_string())),
        PollNext::Terminate("could not wait for Git: interrupted".to_string())
    );
}
