use shipyard::git::branches::{
    ahead_behind, classify, commit_details, comparison, find_base, parse_branches, remote_tracking_base, same_commit,
    BaseBranch, Branch,
};
use shipyard::git::diff::{count_status_entries, numstat_in_range, read_stats, DiffStats};
use shipyard::git::scanner::{
    branch_item, detached_item, is_detached_checkout, is_unborn, next_branch_question, next_detached_question, project_name,
    project_root, scan_project, unborn_item, BranchFacts, BranchQuestion, DetachedQuestion,
};
use shipyard::git::work_item::{sort_newest_first, WorkItem, WorkStatus};
use shipyard::git::worktree::{is_shipyard_managed, paths, primary_path, Worktree};

fn branch(name: &str, sha: &str, updated_at: u64) -> Branch {
    Branch {
        name: name.to_owned(),
        reference: format!("refs/heads/{name}"),
        sha: sha.to_owned(),
        subject: format!("work on {name}"),
        updated_at,
    }
}

fn base(name: &str) -> Option<BaseBranch> {
    Some(BaseBranch {
        reference: format!("refs/heads/{name}"),
        name: name.to_owned(),
        remote: "origin".to_owned(),
    })
}

fn facts(upstream: Option<&str>, same: bool, ancestor: bool, counts: &str) -> BranchFacts {
    BranchFacts {
        upstream: upstream.map(str::to_owned),
        same_commit: Ok(same),
        ancestry: Ok(ancestor),
        remote_ancestry: None,
        counts: Ok(counts.to_owned()),
    }
}

fn clean() -> DiffStats {
    DiffStats::default()
}

fn dirty() -> DiffStats {
    DiffStats { dirty: true, additions: 3, deletions: 1, changed_files: 2 }
}

#[test]
fn parses_local_branches_from_for_each_ref_records() {
    let output = b"refs/heads/main\0aaa\0Initial\0100\0\nrefs/heads/work/x\0bbb\0Work\0notanumber\0\n".to_vec();
    let branches = parse_branches(&output);
    assert_eq!(branches.len(), 2);
    assert_eq!(branches[0].name, "main");
    assert_eq!(branches[0].reference, "refs/heads/main");
    assert_eq!(branches[0].sha, "aaa");
    assert_eq!(branches[0].subject, "Initial");
    assert_eq!(branches[0].updated_at, 100);
    assert_eq!(branches[1].name, "work/x");
    assert_eq!(branches[1].updated_at, 0);
    assert!(parse_branches(&Vec::new()).is_empty());
}

#[test]
fn prefers_the_remote_default_then_conventional_names_then_the_current_branch() {
    let branches = vec![branch("develop", "a", 1), branch("trunk", "b", 1), branch("topic", "c", 1)];
    let found = find_base(&branches, None, Some("topic".to_owned()), None).unwrap();
    assert_eq!(found.name, "topic");
    assert_eq!(found.reference, "refs/heads/topic");
    assert_eq!(found.remote, "origin");
    let found = find_base(&branches, Some("upstream".to_owned()), Some("missing".to_owned()), None).unwrap();
    assert_eq!(found.name, "trunk");
    assert_eq!(found.remote, "upstream");
    let only_topic = vec![branch("topic", "c", 1)];
    assert_eq!(
        find_base(&only_topic, None, None, Some("topic\n".to_owned())).unwrap().name,
        "topic"
    );
    assert!(find_base(&only_topic, None, None, Some("other".to_owned())).is_none());
}

#[test]
fn compares_the_base_with_its_upstream_and_others_with_the_base() {
    let main = branch("main", "a", 1);
    let feature = branch("feature", "b", 1);
    assert_eq!(
        comparison(&main, &base("main"), Some("refs/remotes/origin/main\n".to_owned())).as_deref(),
        Some("refs/remotes/origin/main")
    );
    assert_eq!(comparison(&main, &base("main"), Some("  ".to_owned())), None);
    assert_eq!(comparison(&feature, &base("main"), None).as_deref(), Some("refs/heads/main"));
    assert_eq!(comparison(&feature, &None, None), None);
}

#[test]
fn classifies_committed_work_by_ancestry() {
    assert_eq!(classify(true, true, Err("unused".to_owned())), Ok(WorkStatus::Working));
    assert_eq!(classify(false, false, Err("unused".to_owned())), Ok(WorkStatus::Ready));
    assert_eq!(classify(false, true, Ok(true)), Ok(WorkStatus::Shipped));
    assert_eq!(classify(false, true, Ok(false)), Ok(WorkStatus::Ready));
    assert_eq!(classify(false, true, Err("git failed".to_owned())), Err("git failed".to_owned()));
}

#[test]
fn reads_counts_and_commit_details() {
    assert_eq!(ahead_behind("3\t5\n"), (5, 3));
    assert_eq!(ahead_behind(""), (0, 0));
    assert!(same_commit("abc\n", " abc"));
    assert!(!same_commit("abc", "abd"));
    assert_eq!(commit_details("Fix things\u{0}1700000000\n"), ("Fix things".to_owned(), 1700000000));
    assert_eq!(commit_details("No time"), ("No time".to_owned(), 0));
}

#[test]
fn hides_a_clean_shipped_base_branch() {
    let item = branch_item("/repo/.git", branch("main", "a", 1), Some("/repo".to_owned()), clean(), &base("main"), facts(None, false, false, "0 0"));
    assert!(item.unwrap().is_none());
}

#[test]
fn lists_a_ready_feature_branch_with_its_counts() {
    let item = branch_item("/repo/.git", branch("feature", "b", 9), None, clean(), &base("main"), facts(None, false, false, "1\t4"))
        .unwrap()
        .unwrap();
    assert_eq!(item.id, "/repo/.git::branch::refs/heads/feature");
    assert_eq!(item.branch.as_deref(), Some("feature"));
    assert_eq!(item.status, WorkStatus::Ready);
    assert_eq!((item.ahead, item.behind), (4, 1));
    assert_eq!(item.updated_at, 9);
    assert_eq!(item.head_sha, "b");
}

#[test]
fn a_fresh_branch_at_the_base_commit_is_working() {
    let item = branch_item("/repo/.git", branch("fresh", "a", 2), Some("/wt".to_owned()), clean(), &base("main"), facts(None, true, true, "0 0"))
        .unwrap()
        .unwrap();
    assert_eq!(item.status, WorkStatus::Working);
    assert_eq!(item.worktree_path.as_deref(), Some("/wt"));
}

#[test]
fn a_merged_feature_branch_is_shipped_and_dirty_work_is_working() {
    let shipped = branch_item("/repo/.git", branch("done", "c", 2), None, clean(), &base("main"), facts(None, false, true, "0 0"))
        .unwrap()
        .unwrap();
    assert_eq!(shipped.status, WorkStatus::Shipped);
    let working = branch_item("/repo/.git", branch("wip", "d", 2), Some("/wip".to_owned()), dirty(), &base("main"), facts(None, false, true, "0 2"))
        .unwrap()
        .unwrap();
    assert_eq!(working.status, WorkStatus::Working);
    assert_eq!((working.additions, working.deletions, working.changed_files), (3, 1, 2));
}

#[test]
fn reports_the_first_git_error_of_a_branch() {
    let failing = BranchFacts {
        upstream: None,
        same_commit: Err("rev-parse failed".to_owned()),
        ancestry: Ok(false),
        remote_ancestry: None,
        counts: Ok("0 0".to_owned()),
    };
    assert_eq!(
        branch_item("/repo/.git", branch("x", "e", 1), None, clean(), &base("main"), failing).err(),
        Some("rev-parse failed".to_owned())
    );
}

fn worktree(path: &str, sha: &str, branch: Option<&str>, detached: bool, bare: bool) -> Worktree {
    Worktree {
        path: path.to_owned(),
        sha: sha.to_owned(),
        branch: branch.map(str::to_owned),
        pull_request_number: None,
        detached,
        bare,
    }
}

#[test]
fn includes_uncommitted_work_on_an_unborn_branch() {
    let w = worktree("/new", "", Some("refs/heads/new"), false, false);
    assert!(is_unborn(&w, &vec![branch("main", "a", 1)]));
    assert!(!is_unborn(&w, &vec![branch("new", "a", 1)]));
    assert!(unborn_item("/repo/.git", &w, clean()).is_none());
    let item = unborn_item("/repo/.git", &w, dirty()).unwrap();
    assert_eq!(item.id, "/repo/.git::branch::refs/heads/new");
    assert_eq!(item.branch.as_deref(), Some("new"));
    assert_eq!(item.status, WorkStatus::Working);
    assert_eq!(item.last_commit_subject, "");
}

#[test]
fn lists_a_detached_checkout_against_the_base() {
    let w = worktree("/detached", "f", None, true, false);
    let item = detached_item(
        "/repo/.git",
        &w,
        clean(),
        &base("main"),
        Ok(false),
        Ok("2 1".to_owned()),
        Ok(("Detached work".to_owned(), 55)),
    )
    .unwrap();
    assert_eq!(item.id, "/repo/.git::worktree::/detached");
    assert_eq!(item.branch, None);
    assert_eq!(item.status, WorkStatus::Ready);
    assert_eq!((item.ahead, item.behind), (1, 2));
    assert_eq!(item.last_commit_subject, "Detached work");
    assert_eq!(item.updated_at, 55);
    assert_eq!(
        detached_item("/repo/.git", &w, clean(), &None, Ok(false), Ok(String::new()), Err("show failed".to_owned())).err(),
        Some("show failed".to_owned())
    );
}

fn item(id: &str, updated_at: u64) -> WorkItem {
    WorkItem {
        id: id.to_owned(),
        project_id: "/repo/.git".to_owned(),
        branch: None,
        worktree_path: None,
        head_sha: String::new(),
        last_commit_subject: String::new(),
        status: WorkStatus::Ready,
        pull_request: None,
        completed: false,
        additions: 0,
        deletions: 0,
        changed_files: 0,
        ahead: 0,
        behind: 0,
        updated_at,
    }
}

#[test]
fn sorts_work_items_newest_first_keeping_ties_in_order() {
    let sorted = sort_newest_first(vec![item("a", 1), item("b", 5), item("c", 1), item("d", 5), item("e", 3)]);
    let ids: Vec<&str> = sorted.iter().map(|w| w.id.as_str()).collect();
    assert_eq!(ids, vec!["b", "d", "e", "a", "c"]);
}

#[test]
fn assembles_a_project_named_after_its_primary_checkout() {
    let worktrees = vec![
        worktree("/srv/repo.git", "", None, false, true),
        worktree("/home/me/shipyard", "a", Some("refs/heads/main"), false, false),
    ];
    assert_eq!(project_root("/fallback", &worktrees), "/home/me/shipyard");
    assert_eq!(project_root("/fallback", &Vec::new()), "/fallback");
    assert_eq!(project_name("/home/me/shipyard/"), "shipyard");
    assert_eq!(project_name("/"), "Repository");
    let project = scan_project("/repo/.git".to_owned(), "/fallback", &worktrees, base("main"), vec![item("old", 1), item("new", 2)]);
    assert_eq!(project.name, "shipyard");
    assert_eq!(project.path, "/home/me/shipyard");
    assert_eq!(project.default_branch.as_deref(), Some("main"));
    assert_eq!(project.work_items[0].id, "new");
    assert_eq!(project.github_repository, None);
}

#[test]
fn counts_status_entries_with_renames() {
    assert_eq!(count_status_entries(&b" M a.txt\0R  new.txt\0old.txt\0?? b.txt\0".to_vec()), 3);
    assert_eq!(count_status_entries(&Vec::new()), 0);
    let stats = read_stats(&b" M a.txt\0".to_vec(), &b"3\t1\ta.txt\n-\t-\timage.png\n2\t0\tb.txt\n".to_vec());
    assert_eq!(stats, DiffStats { dirty: true, additions: 5, deletions: 1, changed_files: 1 });
    assert_eq!(read_stats(&Vec::new(), &Vec::new()), DiffStats::default());
}

#[test]
fn detects_numstat_totals_that_do_not_fit() {
    let near = DiffStats { dirty: false, additions: u64::MAX - 1, deletions: 0, changed_files: 0 };
    assert!(numstat_in_range(&near, &b"1\t0\tx\n".to_vec()));
    assert!(!numstat_in_range(&near, &b"2\t0\tx\n".to_vec()));
}

#[test]
fn recognizes_managed_checkouts_and_lists_project_work() {
    assert!(is_shipyard_managed("/data/pull-request-checkouts/abc/pr-7"));
    assert!(is_shipyard_managed("/data/resolutions/shipping-1"));
    assert!(!is_shipyard_managed("/home/me/repo"));
    let mut managed = worktree("/data/pull-request-checkouts/abc/pr-7", "a", None, true, false);
    let listed = vec![
        worktree("/repo", "a", Some("refs/heads/main"), false, false),
        managed.clone(),
        worktree("/repo.git", "", None, false, true),
    ];
    assert_eq!(paths(&listed), vec!["/repo".to_owned()]);
    managed.pull_request_number = Some(7);
    assert_eq!(paths(&vec![managed]).len(), 1);
    assert_eq!(primary_path(&listed), Ok("/repo".to_owned()));
    assert_eq!(
        primary_path(&vec![worktree("/repo.git", "", None, false, true)]),
        Err("project has no primary checkout".to_owned())
    );
}

#[test]
fn classifies_a_primary_feature_branch_as_shipped_when_remote_main_contains_it() {
    let remote_main = remote_tracking_base(&base("main")).unwrap();
    assert_eq!(remote_main, "refs/remotes/origin/main");
    let contained = BranchFacts {
        upstream: None,
        same_commit: Ok(false),
        ancestry: Ok(false),
        remote_ancestry: Some(Ok(true)),
        counts: Ok("0\t1".to_owned()),
    };
    let item = branch_item("/repo/.git", branch("feature/direct", "f1", 5), Some("/repo".to_owned()), clean(), &base("main"), contained)
        .unwrap()
        .unwrap();
    assert_eq!(item.status, WorkStatus::Shipped);
    assert_eq!((item.ahead, item.behind), (1, 0));

    let elsewhere = BranchFacts {
        upstream: None,
        same_commit: Ok(false),
        ancestry: Ok(false),
        remote_ancestry: Some(Ok(false)),
        counts: Ok("0\t1".to_owned()),
    };
    let item = branch_item("/repo/.git", branch("feature/direct", "f1", 5), None, clean(), &base("main"), elsewhere)
        .unwrap()
        .unwrap();
    assert_eq!(item.status, WorkStatus::Ready);

    let unknown = BranchFacts {
        upstream: None,
        same_commit: Ok(false),
        ancestry: Ok(false),
        remote_ancestry: Some(Err("merge-base failed".to_owned())),
        counts: Ok("0\t1".to_owned()),
    };
    assert_eq!(
        branch_item("/repo/.git", branch("feature/direct", "f1", 5), None, clean(), &base("main"), unknown).err(),
        Some("merge-base failed".to_owned())
    );
}

fn questions(branch: &Branch, base: &Option<BaseBranch>, stats: &DiffStats, facts: &BranchFacts) -> Vec<BranchQuestion> {
    let mut asked = Vec::new();
    let mut question = BranchQuestion::Start;
    loop {
        question = next_branch_question(branch, base, stats, facts, question);
        if question == BranchQuestion::Done {
            return asked;
        }
        asked.push(question);
    }
}

#[test]
fn asks_git_only_what_a_branch_needs() {
    let main = base("main");
    let feature = branch("feature", "f", 1);
    assert_eq!(
        questions(&feature, &main, &clean(), &facts(None, false, false, "0\t1")),
        vec![BranchQuestion::SameCommit, BranchQuestion::Ancestry, BranchQuestion::RemoteAncestry, BranchQuestion::Counts]
    );
    assert_eq!(
        questions(&feature, &main, &clean(), &facts(None, false, true, "0\t1")),
        vec![BranchQuestion::SameCommit, BranchQuestion::Ancestry, BranchQuestion::Counts]
    );
    assert_eq!(questions(&feature, &main, &clean(), &facts(None, true, false, "0\t0")), vec![BranchQuestion::SameCommit, BranchQuestion::Counts]);
    assert_eq!(questions(&feature, &main, &dirty(), &facts(None, false, false, "0\t1")), vec![BranchQuestion::Counts]);
    assert_eq!(questions(&feature, &None, &clean(), &facts(None, false, false, "")), Vec::<BranchQuestion>::new());

    let trunk = branch("main", "m", 1);
    assert_eq!(questions(&trunk, &main, &clean(), &facts(None, false, false, "")), vec![BranchQuestion::Upstream]);
    assert_eq!(
        questions(&trunk, &main, &clean(), &facts(Some("refs/remotes/origin/main"), false, true, "0\t0")),
        vec![BranchQuestion::Upstream, BranchQuestion::Ancestry]
    );
    assert_eq!(
        questions(&trunk, &main, &clean(), &facts(Some("refs/remotes/origin/main"), false, false, "0\t2")),
        vec![BranchQuestion::Upstream, BranchQuestion::Ancestry, BranchQuestion::Counts]
    );

    let failing = BranchFacts {
        upstream: None,
        same_commit: Err("rev-parse failed".to_owned()),
        ancestry: Ok(false),
        remote_ancestry: None,
        counts: Ok(String::new()),
    };
    assert_eq!(questions(&feature, &main, &clean(), &failing), vec![BranchQuestion::SameCommit]);
}

#[test]
fn asks_git_only_what_a_detached_checkout_needs() {
    let main = base("main");
    let ok_counts: Result<String, String> = Ok("0\t1".to_owned());
    let mut asked = Vec::new();
    let mut question = DetachedQuestion::Start;
    loop {
        question = next_detached_question(&main, &clean(), &Ok(false), &ok_counts, question);
        if question == DetachedQuestion::Done {
            break;
        }
        asked.push(question);
    }
    assert_eq!(asked, vec![DetachedQuestion::Ancestry, DetachedQuestion::Counts, DetachedQuestion::Details]);
    assert_eq!(next_detached_question(&main, &dirty(), &Ok(false), &ok_counts, DetachedQuestion::Start), DetachedQuestion::Counts);
    assert_eq!(next_detached_question(&None, &clean(), &Ok(false), &ok_counts, DetachedQuestion::Start), DetachedQuestion::Details);
    assert_eq!(
        next_detached_question(&main, &clean(), &Err("failed".to_owned()), &ok_counts, DetachedQuestion::Ancestry),
        DetachedQuestion::Done
    );
    assert!(is_detached_checkout(&worktree("/w", "a", None, true, false)));
    assert!(!is_detached_checkout(&worktree("/w", "a", None, true, true)));
}
