use shipyard::git::checkout::{
    next_checkout_step, CheckoutFacts, CheckoutPullRequestRequest, CheckoutStep, cleanup_partial_checkout, leftover_removal, prepare_managed_path, registered_removal, remove_existing_worktree,
    remove_unregistered_path, stale_removal, Removal,
};
use shipyard::git::worktree::Worktree;

fn ok_kind(link: bool, dir: bool) -> Result<(bool, bool), String> {
    Ok((link, dir))
}

#[test]
fn refuses_to_delete_nonempty_unregistered_checkout_paths() {
    let kind = ok_kind(false, true);
    let nonempty = Ok(true);
    assert_eq!(stale_removal(&kind, &nonempty), Removal::Keep);
    let error = remove_unregistered_path("/data/pr-12", &kind, &nonempty, &Ok(())).unwrap_err();
    assert!(error.contains("contains files"));
    assert_eq!(error, "stale PR checkout path /data/pr-12 contains files; remove it manually before retrying");
    let prepared = prepare_managed_path(false, false, true, false, Ok(()), true, Err(error.clone()));
    assert_eq!(prepared, Err(error));
}

#[test]
fn removes_only_links_and_empty_stale_directories() {
    assert_eq!(stale_removal(&ok_kind(true, false), &Ok(true)), Removal::RemoveLink);
    assert_eq!(stale_removal(&ok_kind(false, true), &Ok(false)), Removal::RemoveEmptyDir);
    assert_eq!(stale_removal(&ok_kind(false, true), &Err("unreadable".to_owned())), Removal::Keep);
    assert_eq!(stale_removal(&ok_kind(false, false), &Ok(false)), Removal::Keep);
    assert_eq!(stale_removal(&Err("gone".to_owned()), &Ok(false)), Removal::Keep);
    assert_eq!(
        remove_unregistered_path("/data/pr-3", &ok_kind(false, false), &Ok(false), &Ok(())).unwrap_err(),
        "stale PR checkout path /data/pr-3 is not a directory; remove it manually before retrying"
    );
    assert_eq!(
        remove_unregistered_path("/data/pr-3", &ok_kind(false, true), &Ok(false), &Err("busy".to_owned())).unwrap_err(),
        "could not remove stale PR checkout: busy"
    );
}

#[test]
fn keeps_a_diverged_checkout_on_retry() {
    assert_eq!(registered_removal(true, false, false), Removal::Keep);
    assert_eq!(registered_removal(true, true, true), Removal::Keep);
    assert_eq!(registered_removal(true, true, false), Removal::RemoveRegistered);
    assert_eq!(registered_removal(false, false, false), Removal::RemoveRegistered);
    let error = prepare_managed_path(true, true, false, false, Ok(()), false, Ok(())).unwrap_err();
    assert!(error.contains("dirty or has diverged"));
    assert_eq!(prepare_managed_path(true, true, true, true, Ok(()), false, Ok(())).unwrap_err(), "checkout cancelled");
}

#[test]
fn clears_what_git_left_of_a_removed_checkout() {
    let unread: Result<(bool, bool), String> = Ok((false, false));
    assert_eq!(leftover_removal(true, true, &unread, &Ok(true)), Removal::RemoveAll);
    assert_eq!(leftover_removal(true, false, &unread, &Ok(true)), Removal::Keep);
    assert_eq!(leftover_removal(false, true, &ok_kind(false, true), &Ok(true)), Removal::Keep);
    assert_eq!(leftover_removal(false, true, &ok_kind(false, true), &Ok(false)), Removal::RemoveEmptyDir);
    assert_eq!(
        remove_existing_worktree(&Err("locked".to_owned()), false, &Ok(())).unwrap_err(),
        "could not remove the previous PR checkout: locked"
    );
    assert_eq!(
        remove_existing_worktree(&Ok(()), true, &Err("busy".to_owned())).unwrap_err(),
        "could not clear the previous PR checkout: busy"
    );
    assert_eq!(
        cleanup_partial_checkout(&Err("failed".to_owned()), false, &Ok(()), &Ok(true)).unwrap_err(),
        "could not remove the partial PR checkout: failed"
    );
}

fn request() -> CheckoutPullRequestRequest {
    CheckoutPullRequestRequest {
        project_id: "/repo/.git".to_owned(),
        project_path: "/repo".to_owned(),
        pull_request_number: 7,
        head_sha: "abc".to_owned(),
        head_branch: "feature/pr".to_owned(),
    }
}

fn facts() -> CheckoutFacts {
    CheckoutFacts {
        root: Ok("/repo".to_owned()),
        common_dir: Ok("/repo/.git".to_owned()),
        cancelled_before_fetch: false,
        fetched: Ok("abc".to_owned()),
        cancelled_after_fetch: false,
        worktrees: Ok(Vec::new()),
        cancelled_before_reuse: false,
        link: Ok(false),
        associate: Ok(()),
        unlink: Ok(()),
        prepare: Ok(()),
        cancelled_after_prepare: false,
        create_parent: Ok(()),
        add: Ok(()),
        cleanup: Ok(()),
    }
}

#[test]
fn runs_the_steps_of_a_new_checkout_in_order() {
    let request = request();
    let facts = facts();
    let mut step = CheckoutStep::Start;
    let mut seen = Vec::new();
    loop {
        step = next_checkout_step(&request, &facts, step);
        if step == CheckoutStep::Done {
            break;
        }
        seen.push(step);
    }
    assert_eq!(
        seen,
        vec![
            CheckoutStep::ValidateRoot,
            CheckoutStep::ResolveCommonDir,
            CheckoutStep::CheckCancelledBeforeFetch,
            CheckoutStep::Fetch,
            CheckoutStep::CheckCancelledAfterFetch,
            CheckoutStep::ReadWorktrees,
            CheckoutStep::Prepare,
            CheckoutStep::CheckCancelledAfterPrepare,
            CheckoutStep::CreateParent,
            CheckoutStep::Add,
            CheckoutStep::Link(None),
            CheckoutStep::Associate(None),
        ]
    );
}

#[test]
fn failures_clean_up_only_the_managed_checkout() {
    let request = request();
    let mut failed = facts();
    failed.associate = Err("config failed".to_owned());
    failed.link = Ok(true);
    assert_eq!(next_checkout_step(&request, &failed, CheckoutStep::Associate(None)), CheckoutStep::Unlink(None));
    assert_eq!(next_checkout_step(&request, &failed, CheckoutStep::Unlink(None)), CheckoutStep::Cleanup);
    assert_eq!(next_checkout_step(&request, &failed, CheckoutStep::Unlink(Some(0))), CheckoutStep::Done);
    failed.add = Err("worktree add failed".to_owned());
    assert_eq!(next_checkout_step(&request, &failed, CheckoutStep::Add), CheckoutStep::Cleanup);
    failed.link = Err("link failed".to_owned());
    assert_eq!(next_checkout_step(&request, &failed, CheckoutStep::Link(Some(0))), CheckoutStep::Done);

    let mut stale = facts();
    stale.fetched = Ok("def".to_owned());
    assert_eq!(next_checkout_step(&request, &stale, CheckoutStep::CheckCancelledAfterFetch), CheckoutStep::Done);
}

#[test]
fn reuses_a_listed_checkout_at_the_fetched_commit() {
    let request = request();
    let mut listed = facts();
    listed.worktrees = Ok(vec![Worktree {
        path: "/data/pr-7".to_owned(),
        sha: "abc".to_owned(),
        branch: None,
        pull_request_number: None,
        detached: true,
        bare: false,
    }]);
    assert_eq!(next_checkout_step(&request, &listed, CheckoutStep::ReadWorktrees), CheckoutStep::CheckCancelledBeforeReuse);
    assert_eq!(next_checkout_step(&request, &listed, CheckoutStep::CheckCancelledBeforeReuse), CheckoutStep::Link(Some(0)));
}
