use shipyard::git::command::GitOutput;
use shipyard::git::commits::{
    base_reference, commit_count, history_source, missing_head, parse_commit, parse_commits,
    pull_request_head, read, CommitFacts, WorkItemCommitsRequest,
};
use shipyard::git::diff_view::{
    append_untracked_file, comparison, diff_args, local_base, local_base_source, local_label,
    pull_request_base_branch, pull_request_base_source, pull_request_diff_head, pull_request_label,
    read as read_diff, untracked_paths, working_tree_references, BaseSource, Comparison, DiffFacts,
    DiffReferences, PullRequestReferenceFacts, WorkItemDiffRequest,
};
use shipyard::git::diff_view::{next_reference_step, pull_request_merge_head, pull_request_references, ReferenceStep};

fn commits_request(branch: Option<&str>, worktree: Option<&str>, head: &str, number: Option<u64>) -> WorkItemCommitsRequest {
    WorkItemCommitsRequest {
        project_path: "/repo".to_owned(),
        project_id: "/repo/.git".to_owned(),
        branch: branch.map(str::to_owned),
        worktree_path: worktree.map(str::to_owned),
        head_sha: head.to_owned(),
        default_branch: Some("main".to_owned()),
        pull_request_number: number,
        pull_request_base_branch: None,
        pull_request_head_sha: None,
    }
}

fn record(sha: &str, subject: &str) -> String {
    format!("\u{1e}{sha}\0Ada\0ada@example.com\01700000000\01700000100\0G\0Ada Key\0p1 p2\0{subject}\0Body text\n\0\u{1f}\n 1 file changed, 2 insertions(+)\n")
}

#[test]
fn parses_a_commit_record_of_the_log() {
    let text: Vec<char> = record("0123456789abcdef", " Subject ").trim_start_matches('\u{1e}').chars().collect();
    let commit = parse_commit(&text).unwrap();
    assert_eq!(commit.sha, "0123456789abcdef");
    assert_eq!(commit.short_sha, "0123456");
    assert_eq!(commit.subject, "Subject");
    assert_eq!(commit.body, "Body text");
    assert_eq!(commit.author_name, "Ada");
    assert_eq!(commit.author_email, "ada@example.com");
    assert_eq!(commit.authored_at, 1700000000);
    assert_eq!(commit.committed_at, 1700000100);
    assert_eq!(commit.verification, "verified");
    assert_eq!(commit.verification_signer.as_deref(), Some("Ada Key"));
    assert_eq!(commit.parent_count, 2);
    assert_eq!((commit.changed_files, commit.additions, commit.deletions), (1, 2, 0));
    let short: Vec<char> = "abc\0def\u{1f}".chars().collect();
    assert!(parse_commit(&short).is_none());
}

#[test]
fn parses_every_record_of_the_log_in_order() {
    let output = format!("{}{}", record("aaa", "first"), record("bbb", "second"));
    let commits = parse_commits(&output);
    assert_eq!(commits.len(), 2);
    assert_eq!(commits[0].sha, "aaa");
    assert_eq!(commits[1].subject, "second");
}

#[test]
fn names_where_a_history_comes_from() {
    assert_eq!(history_source(&commits_request(None, None, "a", Some(3)), false), "pullRequest");
    assert_eq!(history_source(&commits_request(Some("x"), None, "a", Some(3)), false), "local");
    assert_eq!(history_source(&commits_request(None, Some("/wt"), "a", Some(3)), true), "detached");
    assert!(missing_head(""));
    assert!(missing_head("0000000000000000000000000000000000000000"));
    assert!(!missing_head("00a"));
    assert_eq!(commit_count(" 12\n"), 12);
    assert_eq!(commit_count("x"), 0);
}

#[test]
fn finds_the_head_of_a_pull_request_history() {
    let request = commits_request(None, None, "abc", Some(4));
    assert_eq!(pull_request_head(&request, &None, &Ok("abc".to_owned()), false), Ok("abc".to_owned()));
    assert_eq!(
        pull_request_head(&request, &None, &Ok("def".to_owned()), false),
        Err("The pull request changed on GitHub. Refresh the project and try again.".to_owned())
    );
    assert_eq!(pull_request_head(&request, &Some("abc".to_owned()), &Err("offline".to_owned()), false), Ok("abc".to_owned()));
    assert_eq!(pull_request_head(&request, &None, &Err("offline".to_owned()), true), Ok("abc".to_owned()));
    assert_eq!(pull_request_head(&request, &None, &Err("offline".to_owned()), false), Err("offline".to_owned()));
    let unnumbered = commits_request(None, None, "abc", None);
    assert_eq!(
        pull_request_head(&unnumbered, &None, &Ok("abc".to_owned()), false),
        Err("pull request history is missing its number".to_owned())
    );
}

#[test]
fn compares_with_the_remote_base_when_it_can() {
    assert_eq!(
        base_reference("main", false, true, true),
        Some(("refs/shipyard/bases/main".to_owned(), "main".to_owned()))
    );
    assert_eq!(
        base_reference("main", false, false, true),
        Some(("refs/heads/main".to_owned(), "main".to_owned()))
    );
    assert_eq!(base_reference("main", false, false, false), None);
}

fn commit_facts(log: &str, count: &str) -> CommitFacts {
    CommitFacts {
        common_dir: "/repo/.git".to_owned(),
        checkout: Ok(()),
        branch_head: Ok("abc\n".to_owned()),
        checkout_head: Ok("abc\n".to_owned()),
        current_branch: Ok("feature\n".to_owned()),
        pull_request_cached: None,
        pull_request_fetched: Err("not asked".to_owned()),
        pull_request_known: false,
        base: Some(("refs/shipyard/bases/main".to_owned(), "main".to_owned())),
        merge_base: Some("base\n".to_owned()),
        count: Ok(count.to_owned()),
        log: Ok(log.to_owned()),
    }
}

#[test]
fn reads_the_history_of_a_checked_out_branch() {
    let request = commits_request(Some("feature"), Some("/wt"), "abc", None);
    let history = read(&request, &commit_facts(&record("abc", "work"), "1\n")).unwrap();
    assert_eq!(history.total, 1);
    assert!(!history.has_more);
    assert_eq!(history.source, "local");
    assert_eq!(history.comparison_label.as_deref(), Some("main"));
    assert_eq!(history.head_sha.as_deref(), Some("abc"));
    assert_eq!(history.commits.len(), 1);
    let many = read(&request, &commit_facts(&record("abc", "work"), "250")).unwrap();
    assert!(many.has_more);
    let none = read(&request, &commit_facts("", "0")).unwrap();
    assert!(none.commits.is_empty());
    assert_eq!(none.total, 0);
}

#[test]
fn refuses_histories_of_changed_or_foreign_work() {
    let request = commits_request(Some("feature"), Some("/wt"), "abc", None);
    let mut foreign = commit_facts("", "0");
    foreign.common_dir = "/other/.git".to_owned();
    assert_eq!(read(&request, &foreign).err(), Some("work item does not belong to the selected project".to_owned()));
    let mut moved = commit_facts("", "0");
    moved.branch_head = Ok("zzz".to_owned());
    assert_eq!(
        read(&request, &moved).err(),
        Some("This work item changed since the last scan. Refresh and try again.".to_owned())
    );
    let mut switched = commit_facts("", "0");
    switched.current_branch = Ok("other".to_owned());
    assert_eq!(
        read(&request, &switched).err(),
        Some("The selected worktree now contains a different branch.".to_owned())
    );
    let empty = read(&commits_request(Some("feature"), None, "", None), &commit_facts("", "0")).unwrap();
    assert_eq!(empty.head_sha, None);
    assert_eq!(empty.source, "local");
}

fn diff_request(branch: Option<&str>, worktree: Option<&str>, number: Option<u64>, default: Option<&str>) -> WorkItemDiffRequest {
    WorkItemDiffRequest {
        project_path: "/repo".to_owned(),
        project_id: "/repo/.git".to_owned(),
        branch: branch.map(str::to_owned),
        worktree_path: worktree.map(str::to_owned),
        head_sha: "abc".to_owned(),
        default_branch: default.map(str::to_owned),
        pull_request_number: number,
        pull_request_base_branch: None,
        pull_request_head_sha: None,
    }
}

#[test]
fn chooses_what_a_patch_is_compared_with() {
    assert!(matches!(comparison(&diff_request(None, None, Some(3), Some("main"))), Comparison::PullRequest(3)));
    assert!(matches!(comparison(&diff_request(Some("main"), None, None, Some("main"))), Comparison::WorkingTree));
    assert!(matches!(comparison(&diff_request(Some("x"), None, None, None)), Comparison::WorkingTree));
    match comparison(&diff_request(Some("x"), None, None, Some("main"))) {
        Comparison::DefaultBranch(name) => assert_eq!(name, "main"),
        _ => panic!("expected the default branch"),
    }
    let refs = working_tree_references(&diff_request(None, None, None, None));
    assert_eq!((refs.base.as_str(), refs.head.as_deref(), refs.label.as_str()), ("abc", None, "working tree"));
}

#[test]
fn finds_the_base_and_head_of_a_pull_request_patch() {
    assert_eq!(
        pull_request_base_branch(&diff_request(None, None, Some(9), None), 9),
        Err("Pull request #9 does not specify a base branch".to_owned())
    );
    assert_eq!(pull_request_base_branch(&diff_request(None, None, Some(9), Some("main")), 9), Ok("main".to_owned()));
    assert_eq!(pull_request_base_source(Ok(()), false), Ok(false));
    assert_eq!(pull_request_base_source(Err("offline".to_owned()), true), Ok(true));
    assert_eq!(pull_request_base_source(Err("offline".to_owned()), false), Err("offline".to_owned()));
    assert_eq!(pull_request_label("main", true), "main (cached)");
    let head = "refs/shipyard/pull-requests/9/head";
    assert_eq!(pull_request_diff_head(true, "abc", &Ok("abc".to_owned()), &None, head), Ok(Some(head.to_owned())));
    assert_eq!(
        pull_request_diff_head(true, "abc", &Ok("def".to_owned()), &None, head),
        Err("The pull request changed on GitHub. Refresh the project and try again.".to_owned())
    );
    assert_eq!(pull_request_diff_head(false, "abc", &Ok("def".to_owned()), &None, head), Ok(None));
    assert_eq!(pull_request_diff_head(true, "abc", &Err("x".to_owned()), &Some("abc".to_owned()), head), Ok(Some(head.to_owned())));
    assert_eq!(pull_request_diff_head(true, "abc", &Err("x".to_owned()), &None, head), Err("x".to_owned()));
    assert_eq!(pull_request_diff_head(false, "abc", &Err("x".to_owned()), &None, head), Ok(None));
}

#[test]
fn labels_the_default_branch_by_where_it_came_from() {
    assert_eq!(local_base_source(Ok(()), false, false), Ok(BaseSource::Remote));
    assert_eq!(local_base_source(Err("e".to_owned()), true, true), Ok(BaseSource::Cached));
    assert_eq!(local_base_source(Err("e".to_owned()), false, true), Ok(BaseSource::Local));
    assert_eq!(local_base_source(Err("e".to_owned()), false, false), Err("e".to_owned()));
    assert_eq!(local_base(BaseSource::Cached, "main"), "refs/shipyard/bases/main");
    assert_eq!(local_base(BaseSource::Local, "main"), "refs/heads/main");
    assert_eq!(local_label(BaseSource::Remote, "main", true), "main");
    assert_eq!(local_label(BaseSource::Cached, "main", true), "main (cached)");
    assert_eq!(local_label(BaseSource::Local, "main", true), "main (local)");
    assert_eq!(local_label(BaseSource::Local, "main", false), "main");
}

#[test]
fn builds_the_diff_command_for_checkouts_and_commits() {
    let refs = DiffReferences { base: "b".to_owned(), head: None, label: "main".to_owned() };
    assert_eq!(
        diff_args(&refs, true, "abc"),
        vec!["diff", "--no-ext-diff", "--find-renames", "--find-copies", "--binary", "--full-index", "--unified=5", "b", "--"]
    );
    assert_eq!(diff_args(&refs, false, "abc")[8], "abc");
    let with_head = DiffReferences { base: "b".to_owned(), head: Some("h".to_owned()), label: String::new() };
    assert_eq!(diff_args(&with_head, false, "abc")[8], "h");
}

#[test]
fn adds_untracked_files_to_the_patch() {
    assert_eq!(untracked_paths(&b"a.txt\0\0dir/b.txt\0".to_vec()), Ok(vec!["a.txt".to_owned(), "dir/b.txt".to_owned()]));
    assert_eq!(
        untracked_paths(&vec![b'a', 0, 0xff, 0]),
        Err("An untracked file path is not valid UTF-8".to_owned())
    );
    let mut patch = "diff --git a/x b/x".to_owned();
    let output = GitOutput { code: Some(1), stdout: b"new patch\n".to_vec(), stderr: Vec::new() };
    append_untracked_file(&mut patch, "y", &output, false).unwrap();
    assert_eq!(patch, "diff --git a/x b/x\nnew patch\n");
    let nothing = GitOutput { code: Some(0), stdout: Vec::new(), stderr: Vec::new() };
    let mut empty = String::new();
    append_untracked_file(&mut empty, "e.txt", &nothing, true).unwrap();
    assert_eq!(empty, "diff --git a/e.txt b/e.txt\nnew file mode 100644\nindex 0000000..e69de29\n");
    let failed = GitOutput { code: Some(2), stdout: Vec::new(), stderr: b"cannot read\n".to_vec() };
    let mut kept = "p".to_owned();
    assert!(append_untracked_file(&mut kept, "z", &failed, false).unwrap_err().starts_with("Could not read untracked file z: "));
    assert_eq!(kept, "p");
}

#[test]
fn reads_a_patch_with_its_label() {
    let request = diff_request(Some("feature"), Some("/wt"), None, Some("main"));
    let facts = DiffFacts {
        common_dir: "/repo/.git".to_owned(),
        checkout: Ok(()),
        checkout_head: Ok("abc\n".to_owned()),
        branch_head: Ok("abc".to_owned()),
        current_branch: Ok("feature".to_owned()),
        references: Ok(DiffReferences { base: "b".to_owned(), head: None, label: "main".to_owned() }),
        patch: Ok("diff".to_owned()),
    };
    let diff = read_diff(&request, &facts).unwrap();
    assert_eq!((diff.patch.as_str(), diff.comparison_label.as_str()), ("diff", "main"));
    let stale = DiffFacts { checkout_head: Ok("zzz".to_owned()), ..facts };
    assert_eq!(
        read_diff(&request, &stale).err().unwrap(),
        "This work item changed since the last scan. Refresh and try again."
    );
}

#[test]
fn finds_the_references_of_a_pull_request_patch() {
    let mut request = diff_request(None, None, Some(7), Some("main"));
    request.pull_request_base_branch = Some("release".to_owned());
    let facts = PullRequestReferenceFacts {
        base_cached: true,
        base_fetch: Err("offline".to_owned()),
        head_cached: Some("abc".to_owned()),
        head_fetch: Err("offline".to_owned()),
        merge_base: Ok("base123\n".to_owned()),
    };
    let references = pull_request_references(&request, false, 7, &facts).unwrap();
    assert_eq!(references.base, "base123");
    assert_eq!(references.head.as_deref(), Some("refs/shipyard/pull-requests/7/head"));
    assert_eq!(references.label, "release (cached)");

    let offline = PullRequestReferenceFacts { base_cached: false, ..facts };
    assert_eq!(pull_request_references(&request, false, 7, &offline).unwrap_err(), "offline");

    let moved = PullRequestReferenceFacts {
        base_cached: false,
        base_fetch: Ok(()),
        head_cached: None,
        head_fetch: Ok("def".to_owned()),
        merge_base: Ok("base123".to_owned()),
    };
    assert_eq!(
        pull_request_references(&request, false, 7, &moved).unwrap_err(),
        "The pull request changed on GitHub. Refresh the project and try again."
    );
    let local = pull_request_references(&diff_request(Some("feature"), None, Some(7), Some("main")), false, 7, &moved).unwrap();
    assert_eq!(local.head, None);
    assert_eq!(local.label, "main");
}

#[test]
fn stops_finding_pull_request_references_at_the_first_decisive_answer() {
    let mut request = diff_request(None, None, Some(7), Some("main"));
    request.pull_request_base_branch = Some("release".to_owned());
    let mut facts = PullRequestReferenceFacts {
        base_cached: false,
        base_fetch: Err("offline".to_owned()),
        head_cached: None,
        head_fetch: Err(String::new()),
        merge_base: Err(String::new()),
    };
    assert_eq!(next_reference_step(&request, false, 7, &facts, ReferenceStep::Start), ReferenceStep::CheckBaseCache);
    assert_eq!(next_reference_step(&request, false, 7, &facts, ReferenceStep::CheckBaseCache), ReferenceStep::FetchBase);
    assert_eq!(next_reference_step(&request, false, 7, &facts, ReferenceStep::FetchBase), ReferenceStep::Done);
    facts.base_cached = true;
    assert_eq!(next_reference_step(&request, false, 7, &facts, ReferenceStep::FetchBase), ReferenceStep::CheckHeadCache);
    assert_eq!(next_reference_step(&request, false, 7, &facts, ReferenceStep::CheckHeadCache), ReferenceStep::FetchHead);
    assert_eq!(next_reference_step(&request, false, 7, &facts, ReferenceStep::FetchHead), ReferenceStep::Done);
    facts.head_fetch = Ok("abc".to_owned());
    assert_eq!(next_reference_step(&request, false, 7, &facts, ReferenceStep::FetchHead), ReferenceStep::MergeBase);
    assert_eq!(pull_request_merge_head(&request, false, 7, &facts), "refs/shipyard/pull-requests/7/head");
    assert_eq!(next_reference_step(&request, false, 7, &facts, ReferenceStep::MergeBase), ReferenceStep::Done);

    let no_base = diff_request(None, None, Some(7), None);
    assert_eq!(next_reference_step(&no_base, false, 7, &facts, ReferenceStep::Start), ReferenceStep::Done);
    let local = diff_request(Some("feature"), None, Some(7), Some("main"));
    facts.head_fetch = Ok("other".to_owned());
    assert_eq!(pull_request_merge_head(&local, false, 7, &facts), "abc");
}
