use shipyard::git::branches::Branch;
use shipyard::git::deletion::{
    branch_unchanged, delete, deletion_result, inspect, is_pull_request_id, project_identity, DeleteWorkItemRequest,
    DeletionFacts, DeletionPlan,
};
use shipyard::git::worktree::Worktree;

fn worktree(path: &str, sha: &str, branch: Option<&str>, detached: bool) -> Worktree {
    Worktree {
        path: path.to_owned(),
        sha: sha.to_owned(),
        branch: branch.map(str::to_owned),
        pull_request_number: None,
        detached,
        bare: false,
    }
}

fn branch(name: &str, sha: &str) -> Branch {
    Branch {
        name: name.to_owned(),
        reference: format!("refs/heads/{name}"),
        sha: sha.to_owned(),
        subject: "subject".to_owned(),
        updated_at: 1,
    }
}

fn facts(primary_branch: &str, dirty: bool) -> DeletionFacts {
    DeletionFacts {
        root: "/repo".to_owned(),
        worktrees: vec![
            worktree("/repo", "m1", Some(&format!("refs/heads/{primary_branch}")), false),
            worktree("/repo-feature", "f1", Some("refs/heads/feature"), false),
            worktree("/repo-detached", "d1", None, true),
        ],
        branches: vec![
            branch("main", "m1"),
            branch("feature", "f1"),
            branch("loose", "l1"),
            branch("topic", "m1"),
        ],
        default_branch: Some("main".to_owned()),
        name_valid: true,
        has_uncommitted_changes: dirty,
        unpushed_commits: Ok(2),
    }
}

fn request(branch: Option<&str>, worktree_path: Option<&str>, head: &str, id: &str) -> DeleteWorkItemRequest {
    DeleteWorkItemRequest {
        project_path: "/repo".to_owned(),
        project_id: "/repo/.git".to_owned(),
        work_item_id: id.to_owned(),
        branch: branch.map(str::to_owned),
        worktree_path: worktree_path.map(str::to_owned),
        head_sha: head.to_owned(),
    }
}

fn feature_request() -> DeleteWorkItemRequest {
    request(
        Some("feature"),
        Some("/repo-feature"),
        "f1",
        "/repo/.git::branch::refs/heads/feature",
    )
}

#[test]
fn plans_removing_a_dirty_linked_worktree_and_its_branch() {
    let plan = inspect(&feature_request(), &facts("main", true)).unwrap();
    assert_eq!(plan.project_id, "/repo/.git");
    assert_eq!(plan.branch.as_deref(), Some("feature"));
    assert_eq!(plan.worktree_path.as_deref(), Some("/repo-feature"));
    assert_eq!(plan.default_branch.as_deref(), Some("main"));
    assert!(plan.removes_worktree);
    assert!(plan.deletes_branch);
    assert!(!plan.switches_primary_checkout);
    assert!(plan.has_uncommitted_changes);
    assert_eq!(plan.unpushed_commits, 2);
}

#[test]
fn plans_removing_a_detached_worktree_without_a_branch() {
    let plan = inspect(
        &request(None, Some("/repo-detached"), "d1", "/repo/.git::worktree::/repo-detached"),
        &facts("main", false),
    )
    .unwrap();
    assert!(plan.removes_worktree);
    assert!(!plan.deletes_branch);
    assert_eq!(plan.branch, None);
}

#[test]
fn plans_deleting_a_branch_that_is_not_checked_out() {
    let plan = inspect(
        &request(Some("loose"), None, "l1", "/repo/.git::branch::refs/heads/loose"),
        &facts("main", false),
    )
    .unwrap();
    assert!(!plan.removes_worktree);
    assert!(plan.deletes_branch);
    assert_eq!(plan.worktree_path, None);
}

#[test]
fn refuses_to_plan_deleting_the_default_branch() {
    assert_eq!(
        inspect(
            &request(Some("main"), Some("/repo"), "m1", "/repo/.git::branch::refs/heads/main"),
            &facts("main", false),
        )
        .unwrap_err(),
        "The repository's default branch cannot be deleted."
    );
}

#[test]
fn refuses_stale_or_mismatched_identities() {
    let stale = request(Some("feature"), Some("/repo-feature"), "zz", "/repo/.git::branch::refs/heads/feature");
    assert_eq!(
        inspect(&stale, &facts("main", false)).unwrap_err(),
        "This work item changed since the last scan. Rescan the project and try again."
    );
    let wrong_id = request(Some("feature"), Some("/repo-feature"), "f1", "/repo/.git::branch::refs/heads/other");
    assert_eq!(
        inspect(&wrong_id, &facts("main", false)).unwrap_err(),
        "Work item identity does not match the current branch or worktree. Rescan the project."
    );
    let pull_request = request(Some("feature"), Some("/repo-feature"), "f1", "/repo/.git::pull-request::12");
    assert!(inspect(&pull_request, &facts("main", false)).is_ok());
    let gone = request(Some("missing"), None, "f1", "/repo/.git::branch::refs/heads/missing");
    assert_eq!(
        inspect(&gone, &facts("main", false)).unwrap_err(),
        "This local branch no longer exists. Rescan the project."
    );
    let checked_out = request(Some("feature"), None, "f1", "/repo/.git::branch::refs/heads/feature");
    assert_eq!(
        inspect(&checked_out, &facts("main", false)).unwrap_err(),
        "This branch is now checked out in a worktree. Rescan before deleting it."
    );
    let moved = request(Some("feature"), Some("/repo-detached"), "f1", "/repo/.git::branch::refs/heads/feature");
    assert_eq!(
        inspect(&moved, &facts("main", false)).unwrap_err(),
        "The path now belongs to a different worktree. Nothing was deleted."
    );
    let unregistered = request(None, Some("/elsewhere"), "d1", "/repo/.git::worktree::/elsewhere");
    assert_eq!(
        inspect(&unregistered, &facts("main", false)).unwrap_err(),
        "The expected worktree is no longer registered with this project. Rescan before deleting."
    );
}

#[test]
fn refuses_an_invalid_branch_name() {
    let mut f = facts("main", false);
    f.name_valid = false;
    assert_eq!(
        inspect(&feature_request(), &f).unwrap_err(),
        "The branch name is not valid and will not be deleted."
    );
}

#[test]
fn refuses_when_the_project_path_is_not_the_primary_checkout() {
    let mut f = facts("main", false);
    f.root = "/repo-feature".to_owned();
    assert_eq!(
        inspect(&feature_request(), &f).unwrap_err(),
        "The saved project path is no longer the primary checkout. Rescan the project and try again."
    );
    f.worktrees.clear();
    assert_eq!(
        inspect(&feature_request(), &f).unwrap_err(),
        "This repository has no primary checkout to protect."
    );
}

#[test]
fn protects_a_dirty_primary_checkout_on_a_feature_branch() {
    let primary = request(Some("topic"), Some("/repo"), "m1", "/repo/.git::branch::refs/heads/topic");
    assert_eq!(
        inspect(&primary, &facts("topic", true)).unwrap_err(),
        "The primary checkout has uncommitted changes. Commit, stash, or discard them before deleting this branch."
    );
    let plan = inspect(&primary, &facts("topic", false)).unwrap();
    assert!(plan.switches_primary_checkout);
    assert!(!plan.removes_worktree);
    assert!(plan.deletes_branch);
    let mut unknown = facts("topic", false);
    unknown.default_branch = None;
    assert_eq!(
        inspect(&primary, &unknown).unwrap_err(),
        "ShipYard could not determine the default branch, so it will not change the primary checkout."
    );
}

#[test]
fn passes_on_the_error_counting_unpushed_commits() {
    let mut f = facts("main", false);
    f.unpushed_commits = Err("count failed".to_owned());
    assert_eq!(inspect(&feature_request(), &f).unwrap_err(), "count failed");
}

fn plan_copy(plan: &DeletionPlan) -> DeletionPlan {
    DeletionPlan {
        project_id: plan.project_id.clone(),
        work_item_id: plan.work_item_id.clone(),
        branch: plan.branch.clone(),
        worktree_path: plan.worktree_path.clone(),
        default_branch: plan.default_branch.clone(),
        removes_worktree: plan.removes_worktree,
        deletes_branch: plan.deletes_branch,
        switches_primary_checkout: plan.switches_primary_checkout,
        has_uncommitted_changes: plan.has_uncommitted_changes,
        unpushed_commits: plan.unpushed_commits,
    }
}

#[test]
fn carries_out_only_the_confirmed_plan() {
    let f = facts("main", true);
    let plan = inspect(&feature_request(), &f).unwrap();
    let steps = delete(&feature_request(), &plan_copy(&plan), &f).unwrap();
    assert_eq!(steps.switch_to, None);
    assert_eq!(steps.remove_worktree.as_deref(), Some("/repo-feature"));
    assert_eq!(
        steps.delete_branch,
        Some(("feature".to_owned(), "refs/heads/feature".to_owned()))
    );
    let result = deletion_result(&plan, &steps);
    assert!(result.worktree_removed && result.branch_deleted && !result.switched_primary_to_default);

    let mut changed = plan_copy(&plan);
    changed.unpushed_commits = 3;
    assert_eq!(
        delete(&feature_request(), &changed, &f).err(),
        Some("This work item changed after the confirmation opened. Review its current state and try again.".to_owned())
    );
}

#[test]
fn switches_the_primary_checkout_before_deleting_its_branch() {
    let f = facts("topic", false);
    let primary = request(Some("topic"), Some("/repo"), "m1", "/repo/.git::branch::refs/heads/topic");
    let plan = inspect(&primary, &f).unwrap();
    let steps = delete(&primary, &plan, &f).unwrap();
    assert_eq!(steps.switch_to.as_deref(), Some("main"));
    assert_eq!(steps.remove_worktree, None);
}

#[test]
fn deletes_a_branch_only_while_it_is_unchanged() {
    assert_eq!(branch_unchanged("feature", Some("f1\n".to_owned()), "f1"), Ok(()));
    assert_eq!(
        branch_unchanged("feature", None, "f1"),
        Err("The worktree was removed, but branch feature no longer exists. Rescan the project.".to_owned())
    );
    assert_eq!(
        branch_unchanged("feature", Some("f2".to_owned()), "f1"),
        Err("The worktree was removed, but branch feature changed before it could be deleted. The branch was left intact.".to_owned())
    );
}

#[test]
fn recognizes_pull_request_work_item_identifiers() {
    assert!(is_pull_request_id("/repo/.git::pull-request::12", "/repo/.git"));
    assert!(!is_pull_request_id("/repo/.git::pull-request::", "/repo/.git"));
    assert!(!is_pull_request_id("/repo/.git::pull-request::1a", "/repo/.git"));
    assert!(!is_pull_request_id("/other/.git::pull-request::1", "/repo/.git"));
}

#[test]
fn checks_that_the_project_is_still_the_one_named() {
    assert_eq!(project_identity("/repo/.git", Ok("/repo".to_owned()), Ok("/repo/.git".to_owned())), Ok("/repo".to_owned()));
    assert_eq!(
        project_identity("/repo/.git", Err("not a checkout".to_owned()), Ok("/repo/.git".to_owned())),
        Err("Project identity no longer matches: not a checkout".to_owned())
    );
    assert_eq!(
        project_identity("/repo/.git", Ok("/repo".to_owned()), Ok("/other/.git".to_owned())),
        Err("Project identity no longer matches. Rescan the project and try again.".to_owned())
    );
    assert_eq!(
        project_identity("/repo/.git", Ok("/repo".to_owned()), Err("rev-parse failed".to_owned())),
        Err("rev-parse failed".to_owned())
    );
}
