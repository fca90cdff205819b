use shipyard::agents::{
    built_in, configuration, detected, preferred_agent_from, selected, settings_path,
    stored_name, AgentKind, AgentSettings, BuiltInAdapter,
};
use shipyard::git::repository::{belongs_to_project, common_dir, validate_worktree};
use shipyard::git::ship_safety::{validate_ship, ShipFacts};
use shipyard::git::work_item::{Project, WorkItem, WorkStatus};
use shipyard::git::worktree::Worktree;
use shipyard::github::{
    enrich_project, github_status, hydrate_pull_request, local_match, normalized_attention_state,
    pull_request_id, relevant, remote_pull_request_item, repository_name, synchronization,
    GhAccount, GhCheck, GhPullRequest, PullRequestLookup,
};
use shipyard::run::{active_or_error, run_command, run_finished, validate_working_directory};
use shipyard::ship::{ShipContext, ShipRequest};

fn check(conclusion: &str, status: &str, state: &str) -> GhCheck {
    GhCheck { conclusion: conclusion.to_owned(), status: status.to_owned(), state: state.to_owned() }
}

fn pull_request(number: u64, head: &str, oid: &str, checks: Vec<GhCheck>) -> GhPullRequest {
    GhPullRequest {
        number,
        title: "private title".to_owned(),
        url: format!("https://github.com/owner/repo/pull/{number}"),
        is_draft: false,
        merge_state_status: "CLEAN".to_owned(),
        head_ref_name: head.to_owned(),
        head_ref_oid: oid.to_owned(),
        base_ref_name: "main".to_owned(),
        review_decision: "APPROVED".to_owned(),
        status_check_rollup: checks,
        assignees: Vec::new(),
        review_requests: Vec::new(),
        author: None,
    }
}

#[test]
fn normalizes_review_and_check_attention_without_user_content() {
    let value = GhPullRequest {
        number: 7,
        title: "private title".to_owned(),
        url: "https://github.com/owner/repo/pull/7".to_owned(),
        is_draft: false,
        merge_state_status: "CLEAN".to_owned(),
        head_ref_name: "private-branch".to_owned(),
        head_ref_oid: "sha".to_owned(),
        base_ref_name: "main".to_owned(),
        review_decision: "CHANGES_REQUESTED".to_owned(),
        status_check_rollup: vec![GhCheck {
            conclusion: "FAILURE".to_owned(),
            status: "COMPLETED".to_owned(),
            state: "".to_owned(),
        }],
        assignees: Vec::new(),
        review_requests: Vec::new(),
        author: None,
    };

    assert_eq!(
        normalized_attention_state(&value, false, true),
        "review=changesRequested|checks=failed"
    );
}

#[test]
fn shows_the_most_pressing_merge_state() {
    let ready = hydrate_pull_request(&pull_request(1, "a", "x", vec![check("SUCCESS", "COMPLETED", "")]), 2, 3);
    assert_eq!(ready.merge_state, "ready");
    assert_eq!(ready.mergeable, Some(true));
    assert_eq!(ready.attention_state, "review=approved|checks=passed");
    assert_eq!((ready.local_commits, ready.remote_commits), (2, 3));
    let pending = hydrate_pull_request(&pull_request(1, "a", "x", vec![check("", "QUEUED", "")]), 0, 0);
    assert_eq!(pending.merge_state, "checksPending");
    let failed = hydrate_pull_request(&pull_request(1, "a", "x", vec![check("", "", "ERROR"), check("", "IN_PROGRESS", "")]), 0, 0);
    assert_eq!(failed.merge_state, "checksFailed");
    assert_eq!(failed.attention_state, "review=approved|checks=failed");
    let mut draft = pull_request(1, "a", "x", Vec::new());
    draft.is_draft = true;
    draft.merge_state_status = "DIRTY".to_owned();
    let draft = hydrate_pull_request(&draft, 0, 0);
    assert_eq!(draft.merge_state, "draft");
    assert_eq!(draft.mergeable, Some(false));
    assert_eq!(draft.attention_state, "review=approved|checks=none");
    let mut blocked = pull_request(1, "a", "x", Vec::new());
    blocked.merge_state_status = "BLOCKED".to_owned();
    blocked.review_decision = String::new();
    let blocked = hydrate_pull_request(&blocked, 0, 0);
    assert_eq!(blocked.merge_state, "reviewRequired");
    assert_eq!(blocked.mergeable, None);
    assert_eq!(blocked.attention_state, "review=none|checks=none");
}

#[test]
fn finds_pull_requests_that_concern_the_user() {
    let mut value = pull_request(1, "a", "x", Vec::new());
    assert!(!relevant(&value, "me"));
    value.review_requests.push(GhAccount { login: "me".to_owned() });
    assert!(relevant(&value, "me"));
    value.review_requests.clear();
    value.author = Some(GhAccount { login: "me".to_owned() });
    assert!(relevant(&value, "me"));
    assert_eq!(pull_request_id("/repo/.git", 7), "/repo/.git::pull-request::7");
    assert_eq!(synchronization("a", "a", Some((4, 4))), (0, 0));
    assert_eq!(synchronization("a", "b", Some((4, 1))), (4, 1));
    assert_eq!(synchronization("a", "b", None), (0, 1));
    assert_eq!(repository_name(Some("git@github.com:owner/repo.git\n".to_owned())).as_deref(), Some("owner/repo"));
    assert_eq!(repository_name(None), None);
}

fn local_item(id: &str, branch: Option<&str>, sha: &str, updated_at: u64) -> WorkItem {
    WorkItem {
        id: id.to_owned(),
        project_id: "/repo/.git".to_owned(),
        branch: branch.map(str::to_owned),
        worktree_path: None,
        head_sha: sha.to_owned(),
        last_commit_subject: "subject".to_owned(),
        status: WorkStatus::Ready,
        pull_request: None,
        completed: false,
        additions: 0,
        deletions: 0,
        changed_files: 0,
        ahead: 0,
        behind: 0,
        updated_at,
    }
}

fn project(items: Vec<WorkItem>) -> Project {
    Project {
        id: "/repo/.git".to_owned(),
        name: "repo".to_owned(),
        path: "/repo".to_owned(),
        default_branch: Some("main".to_owned()),
        work_items: items,
        github_repository: None,
        github_error: None,
    }
}

#[test]
fn attaches_pull_requests_to_their_local_work() {
    let mut p = project(vec![local_item("local", Some("feature"), "l1", 5), local_item("older", None, "d1", 1)]);
    let mut theirs = pull_request(9, "elsewhere", "r9", Vec::new());
    theirs.assignees.push(GhAccount { login: "me".to_owned() });
    let pulls = vec![pull_request(3, "feature", "r3", Vec::new()), theirs, pull_request(4, "x", "other", Vec::new())];
    assert_eq!(local_match(&p.work_items, &pulls[0]), Some(0));
    assert_eq!(local_match(&p.work_items, &pulls[1]), None);
    enrich_project(
        &mut p,
        Some("owner/repo".to_owned()),
        PullRequestLookup::Listed { login: "me".to_owned(), pull_requests: pulls, counted: vec![Some((1, 2)), None, None] },
    );
    assert_eq!(p.github_repository.as_deref(), Some("owner/repo"));
    assert_eq!(p.work_items.len(), 3);
    assert_eq!(p.work_items[0].id, "/repo/.git::pull-request::3");
    let attached = p.work_items[0].pull_request.as_ref().unwrap();
    assert_eq!((attached.local_commits, attached.remote_commits), (1, 2));
    assert_eq!(p.work_items[1].id, "older");
    assert_eq!(p.work_items[2].id, "/repo/.git::pull-request::9");
    assert_eq!(p.work_items[2].status, WorkStatus::Ready);
    let remote = remote_pull_request_item("/repo/.git", &pull_request(5, "b", "r5", Vec::new()));
    assert_eq!(remote.last_commit_subject, "private title");
    assert_eq!(remote.head_sha, "r5");
}

#[test]
fn reports_why_pull_requests_could_not_be_loaded() {
    let mut untouched = project(Vec::new());
    enrich_project(&mut untouched, None, PullRequestLookup::CliMissing);
    assert_eq!(untouched.github_repository, None);
    assert_eq!(untouched.github_error, None);
    let mut missing = project(Vec::new());
    enrich_project(&mut missing, Some("o/r".to_owned()), PullRequestLookup::CliMissing);
    assert_eq!(missing.github_error.as_deref(), Some("GitHub CLI is not installed"));
    let mut signed_out = project(Vec::new());
    enrich_project(&mut signed_out, Some("o/r".to_owned()), PullRequestLookup::SignedOut);
    assert_eq!(signed_out.github_error.as_deref(), Some("Sign in with `gh auth login` to load pull requests"));
    let mut failed = project(Vec::new());
    enrich_project(&mut failed, Some("o/r".to_owned()), PullRequestLookup::Failed("rate limited".to_owned()));
    assert_eq!(failed.github_error.as_deref(), Some("rate limited"));
}

#[test]
fn reports_the_github_setup() {
    let missing = github_status(false, None, Err("unused".to_owned()));
    assert!(!missing.installed);
    assert_eq!(missing.error.as_deref(), Some("GitHub CLI was not found. Install it, then refresh settings."));
    let signed_in = github_status(true, Some("gh version 2.0\nhttps://example\n".to_owned()), Ok("me".to_owned()));
    assert!(signed_in.authenticated);
    assert_eq!(signed_in.version.as_deref(), Some("gh version 2.0"));
    assert_eq!(signed_in.account.as_deref(), Some("me"));
    let signed_out = github_status(true, None, Err("401".to_owned()));
    assert!(!signed_out.authenticated);
    assert_eq!(signed_out.error.as_deref(), Some("Sign in with `gh auth login`: 401"));
}

#[test]
fn ignores_previously_configured_custom_agent() {
    let value: serde_json::Value = serde_json::from_str(
        r#"{"preferredAgent":"custom","customName":"Old","customCommand":"/tmp/agent"}"#,
    )
    .unwrap();
    let stored = value.get("preferredAgent").and_then(|v| v.as_str()).map(str::to_owned);
    let settings = AgentSettings { preferred_agent: preferred_agent_from(stored) };
    assert!(settings.preferred_agent.is_none());
}

#[test]
fn runs_the_chosen_agent_with_its_arguments() {
    assert_eq!(preferred_agent_from(Some("amp".to_owned())), Some(AgentKind::Amp));
    assert_eq!(preferred_agent_from(Some(stored_name(AgentKind::Codex).to_owned())), Some(AgentKind::Codex));
    assert_eq!(
        selected(&AgentSettings::new(), None).err(),
        Some("Choose a coding agent in Shipyard Settings before shipping".to_owned())
    );
    let codex = AgentSettings { preferred_agent: Some(AgentKind::Codex) };
    assert_eq!(selected(&codex, None).err(), Some("Codex is not installed".to_owned()));
    let adapter: BuiltInAdapter = selected(&codex, Some("/usr/bin/codex".to_owned())).unwrap();
    assert_eq!(adapter.label(), "Codex");
    assert_eq!(adapter.executable(), "/usr/bin/codex");
    assert_eq!(adapter.metadata_args(), vec!["exec", "--ephemeral", "-s", "read-only", "-a", "never", "-"]);
    assert_eq!(adapter.conflict_args()[3], "workspace-write");
    let amp = built_in(AgentKind::Amp, Some("/bin/amp".to_owned())).unwrap();
    assert_eq!(amp.metadata_args(), vec!["--no-ide", "--no-notifications", "-x"]);
    assert_eq!(built_in(AgentKind::Amp, None).err(), Some("Amp is not installed".to_owned()));
    let info = detected(AgentKind::Amp, Some("/bin/amp".to_owned()), Some(" 1.2.3\n".to_owned()));
    assert!(info.available);
    assert_eq!(info.version.as_deref(), Some("1.2.3"));
    let config = configuration(AgentSettings::new(), info, detected(AgentKind::Codex, None, None));
    assert_eq!(config.agents.len(), 2);
    assert!(!config.agents[1].available);
    assert_eq!(settings_path("/data"), "/data/agents/settings.json");
}

fn worktree(path: &str, branch: Option<&str>) -> Worktree {
    Worktree {
        path: path.to_owned(),
        sha: "s".to_owned(),
        branch: branch.map(str::to_owned),
        pull_request_number: None,
        detached: branch.is_none(),
        bare: false,
    }
}

fn ship_facts() -> ShipFacts {
    ShipFacts {
        belongs: Ok(true),
        source: Ok("/src".to_owned()),
        source_status: Ok(String::new()),
        source_head: Ok("abc\n".to_owned()),
        source_branch: Some("work\n".to_owned()),
        worktrees: Ok(vec![worktree("/main", Some("refs/heads/main")), worktree("/src", Some("refs/heads/work"))]),
        target_status: Ok(String::new()),
        target_branch: Ok("main\n".to_owned()),
    }
}

#[test]
fn ship_safety_blocks_dirty_or_moved_worktrees() {
    let branch = Some("work".to_owned());
    assert_eq!(validate_ship(&branch, "abc", "main", &ship_facts()), Ok("/main".to_owned()));
    let dirty_source = ShipFacts { source_status: Ok(" M a\n".to_owned()), ..ship_facts() };
    assert_eq!(
        validate_ship(&branch, "abc", "main", &dirty_source),
        Err("Ship blocked: source worktree has uncommitted changes".to_owned())
    );
    let dirty_target = ShipFacts { target_status: Ok("?? b\n".to_owned()), ..ship_facts() };
    assert_eq!(
        validate_ship(&branch, "abc", "main", &dirty_target),
        Err("Ship blocked: default branch worktree has uncommitted changes".to_owned())
    );
    assert_eq!(
        validate_ship(&branch, "abd", "main", &ship_facts()),
        Err("Ship source changed; rescan before retrying".to_owned())
    );
    assert_eq!(
        validate_ship(&None, "abc", "main", &ship_facts()),
        Err("Ship source branch or detached state changed; rescan first".to_owned())
    );
    assert_eq!(
        validate_ship(&branch, "abc", "trunk", &ship_facts()),
        Err("default branch “trunk” must be checked out in a worktree".to_owned())
    );
    let foreign = ShipFacts { belongs: Ok(false), ..ship_facts() };
    assert_eq!(
        validate_ship(&branch, "abc", "main", &foreign),
        Err("Ship source no longer belongs to this project".to_owned())
    );
    let into_itself = ShipFacts { source: Ok("/main".to_owned()), ..ship_facts() };
    assert_eq!(
        validate_ship(&branch, "abc", "main", &into_itself),
        Err("the default branch cannot be shipped into itself".to_owned())
    );
    let moved = ShipFacts { target_branch: Ok("other".to_owned()), ..ship_facts() };
    assert_eq!(
        validate_ship(&branch, "abc", "main", &moved),
        Err("default-branch worktree changed; rescan first".to_owned())
    );
}

#[test]
fn ship_safety_accepts_a_clean_detached_source() {
    let facts = ShipFacts { source_branch: None, ..ship_facts() };
    let request = ShipRequest {
        project_id: "/repo/.git".to_owned(),
        script_id: "s".to_owned(),
        work_item_id: "/repo/.git::worktree::/src".to_owned(),
        source_path: "/src".to_owned(),
        source_branch: None,
        source_sha: "abc".to_owned(),
        default_branch: "main".to_owned(),
    };
    let context: ShipContext = ShipContext::validated(&request, &facts).unwrap();
    assert_eq!(context.target_path, "/main");
    assert_eq!(context.source_branch, None);
    assert_eq!(context.source_path, "/src");
}

#[test]
fn resolves_which_project_a_checkout_belongs_to() {
    assert_eq!(common_dir("/repo", ".git\n"), "/repo/.git");
    assert_eq!(common_dir("/repo/wt", "/repo/.git"), "/repo/.git");
    assert_eq!(belongs_to_project("/repo/.git", &Ok(("/repo".to_owned(), "/repo/.git".to_owned()))), Ok(true));
    assert_eq!(belongs_to_project("/repo/.git", &Ok(("/x".to_owned(), "/x/.git".to_owned()))), Ok(false));
    assert_eq!(
        validate_worktree("/repo/.git", &Ok("/repo".to_owned()), &Ok(("/repo".to_owned(), "/repo/.git".to_owned()))),
        Ok("/repo".to_owned())
    );
    assert_eq!(
        validate_worktree("/repo/.git", &Ok("/repo/sub".to_owned()), &Ok(("/repo".to_owned(), "/repo/.git".to_owned()))),
        Err("selected path is not a checkout for this project".to_owned())
    );
    assert_eq!(
        validate_worktree("/repo/.git", &Ok("/x".to_owned()), &Err("not a git repository".to_owned())),
        Err("selected checkout is not an available Git worktree: not a git repository".to_owned())
    );
}

#[test]
fn starts_run_scripts_in_their_checkout() {
    let plan = run_command("/data/script.sh", "/repo");
    assert_eq!(plan.program, "/bin/zsh");
    assert_eq!(plan.args, vec!["/data/script.sh".to_owned()]);
    assert_eq!(plan.cwd, "/repo");
    assert_eq!(plan.env[0], ("SHIPYARD_WORKTREE_PATH".to_owned(), "/repo".to_owned()));
    assert_eq!(plan.env[1].1, "xterm-256color");
    assert_eq!(validate_working_directory(false, Ok(true)), Err("run checkout no longer exists".to_owned()));
    assert_eq!(
        validate_working_directory(true, Ok(false)),
        Err("run checkout does not belong to this project".to_owned())
    );
    assert_eq!(validate_working_directory(true, Ok(true)), Ok(()));
    let finished = run_finished("run-1".to_owned(), Some((3, false)));
    assert_eq!((finished.exit_code, finished.success), (Some(3), false));
    let lost = run_finished("run-2".to_owned(), None);
    assert_eq!((lost.exit_code, lost.success), (None, false));
    assert_eq!(active_or_error(false), Err("run is not active".to_owned()));
}
