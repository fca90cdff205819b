use sha2::{Digest, Sha256};
use shipyard::git::checkout::{
    check_fetched_head, check_identity, combine_cleanup_results, ensure_not_cancelled,
    managed_pull_request_checkout_path, reusable_checkout, with_cleanup_error, CheckoutManager,
};
use shipyard::git::worktree::Worktree;

#[test]
fn serializes_checkout_operations_and_releases_them_after_completion() {
    let mut manager = CheckoutManager::new();
    manager.register("first", "/repo/.git", 7, 0).unwrap();
    assert!(manager.register("second", "/repo/.git", 7, 0).is_err());

    manager.cancel("first", 0).unwrap();
    assert!(manager.is_cancelled("first"));
    manager.finish("first", 0);
    assert!(manager.register("second", "/repo/.git", 7, 0).is_ok());
}

#[test]
fn cancels_all_active_checkout_operations_when_the_app_exits() {
    let mut manager = CheckoutManager::new();
    manager.register("first", "/repo/.git", 7, 0).unwrap();
    manager.register("second", "/repo/.git", 8, 0).unwrap();

    manager.cancel_all();

    assert!(manager.is_cancelled("first"));
    assert!(manager.is_cancelled("second"));
    manager.finish("first", 0);
    manager.finish("second", 0);
}

#[test]
fn records_a_cancel_requested_before_the_checkout_task_registers() {
    let mut manager = CheckoutManager::new();
    manager.cancel("queued", 0).unwrap();
    manager.register("queued", "/repo/.git", 8, 0).unwrap();
    assert!(manager.is_cancelled("queued"));
    manager.finish("queued", 0);
}

#[test]
fn refuses_operations_without_an_identifier() {
    let mut manager = CheckoutManager::new();
    assert_eq!(
        manager.register("  ", "/repo/.git", 1, 0),
        Err("checkout operation is missing an identifier".to_owned())
    );
    assert_eq!(
        manager.cancel("", 0),
        Err("checkout operation is missing an identifier".to_owned())
    );
}

#[test]
fn refuses_a_reused_operation_identifier() {
    let mut manager = CheckoutManager::new();
    manager.register("one", "/repo/.git", 1, 0).unwrap();
    assert_eq!(
        manager.register("one", "/repo/.git", 2, 0),
        Err("checkout operation is already active".to_owned())
    );
    assert_eq!(
        manager.register("two", "/repo/.git", 1, 0),
        Err("this pull request is already being checked out".to_owned())
    );
}

#[test]
fn a_stale_early_cancellation_is_forgotten() {
    let mut manager = CheckoutManager::new();
    manager.cancel("late", 1_000).unwrap();
    manager.register("late", "/repo/.git", 3, 61_000).unwrap();
    assert!(!manager.is_cancelled("late"));
}

#[test]
fn an_early_cancellation_within_the_window_applies() {
    let mut manager = CheckoutManager::new();
    manager.cancel("soon", 1_000).unwrap();
    manager.register("soon", "/repo/.git", 3, 60_999).unwrap();
    assert!(manager.is_cancelled("soon"));
}

#[test]
fn finishing_frees_the_identifier_of_a_waiting_cancellation() {
    let mut manager = CheckoutManager::new();
    manager.cancel("gone", 0).unwrap();
    manager.finish("gone", 0);
    manager.register("gone", "/repo/.git", 4, 0).unwrap();
    assert!(!manager.is_cancelled("gone"));
}

#[test]
fn places_managed_checkouts_under_the_project_digest() {
    let digest = Sha256::digest("/repo/.git".as_bytes());
    let project: String = digest.iter().take(8).map(|byte| format!("{byte:02x}")).collect();
    assert_eq!(
        managed_pull_request_checkout_path("/data", "/repo/.git", 12),
        format!("/data/pull-request-checkouts/{project}/pr-12")
    );
    assert_eq!(
        managed_pull_request_checkout_path("/data/", "/repo/.git", 3),
        format!("/data/pull-request-checkouts/{project}/pr-3")
    );
    assert_eq!(project.len(), 16);
}

fn worktree(path: &str, sha: &str, branch: Option<&str>, detached: bool, bare: bool) -> Worktree {
    Worktree {
        path: path.to_owned(),
        sha: sha.to_owned(),
        branch: branch.map(str::to_owned),
        pull_request_number: None,
        detached,
        bare,
    }
}

#[test]
fn reuses_a_detached_or_matching_branch_checkout_at_the_fetched_head() {
    let worktrees = vec![
        worktree("/repo", "abc", None, false, true),
        worktree("/repo/main", "abc", Some("refs/heads/main"), false, false),
        worktree("/repo/feature", "abc", Some("refs/heads/feature"), false, false),
        worktree("/repo/detached", "abc", None, true, false),
    ];
    assert_eq!(reusable_checkout(&worktrees, "abc", "feature"), Some(2));
    assert_eq!(reusable_checkout(&worktrees, "abc", "other"), Some(3));
    assert_eq!(reusable_checkout(&worktrees, "def", "feature"), None);
}

#[test]
fn reports_cleanup_failures_after_the_original_error() {
    assert_eq!(with_cleanup_error("boom".to_owned(), Ok(())), "boom");
    assert_eq!(
        with_cleanup_error("boom".to_owned(), Err("stuck".to_owned())),
        "boom; cleanup also failed: stuck"
    );
    assert_eq!(combine_cleanup_results(Ok(()), Ok(())), Ok(()));
    assert_eq!(
        combine_cleanup_results(Err("a".to_owned()), Ok(())),
        Err("a".to_owned())
    );
    assert_eq!(
        combine_cleanup_results(Ok(()), Err("b".to_owned())),
        Err("b".to_owned())
    );
    assert_eq!(
        combine_cleanup_results(Err("a".to_owned()), Err("b".to_owned())),
        Err("a; b".to_owned())
    );
}

#[test]
fn stops_a_cancelled_or_stale_checkout() {
    assert_eq!(ensure_not_cancelled(true), Err("checkout cancelled".to_owned()));
    assert_eq!(ensure_not_cancelled(false), Ok(()));
    assert!(check_identity("/repo/.git", "/repo/.git").is_ok());
    assert_eq!(
        check_identity("/other/.git", "/repo/.git"),
        Err("project identity no longer matches; rescan before checking out the pull request".to_owned())
    );
    assert!(check_fetched_head("abc", "abc").is_ok());
    assert_eq!(
        check_fetched_head("abc", "def"),
        Err("the pull request changed on GitHub; refresh it and try again".to_owned())
    );
}
