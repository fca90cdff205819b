use shipyard::git::commits::{parse_shortstat, verification_status};
use shipyard::git::remote::{base_reference, pull_request_base_reference, pull_request_head_reference};
use shipyard::github::parse_repository;
use shipyard::notifications::{material_revision, pull_request_identity, NotificationPullRequest};
use shipyard::ship::{active_states, record_success, ShipContext};

#[test]
fn parses_shortstat_variants() {
    let stat = parse_shortstat(" 2 files changed, 4 insertions(+), 1 deletion(-)");
    assert_eq!(stat.changed_files, 2);
    assert_eq!(stat.additions, 4);
    assert_eq!(stat.deletions, 1);
}

#[test]
fn maps_git_signature_states_to_ui_statuses() {
    assert_eq!(verification_status("G"), "verified");
    assert_eq!(verification_status("N"), "unsigned");
    assert_eq!(verification_status("B"), "unverified");
}

#[test]
fn keeps_shipyard_references_separate_from_user_branches() {
    assert_eq!(base_reference("main"), "refs/shipyard/bases/main");
    assert_eq!(
        pull_request_base_reference(7),
        "refs/shipyard/pull-requests/7/base"
    );
    assert_eq!(
        pull_request_head_reference(7),
        "refs/shipyard/pull-requests/7/head"
    );
}

#[test]
fn parses_supported_github_remotes() {
    assert_eq!(
        parse_repository("git@github.com:owner/repo.git").as_deref(),
        Some("owner/repo")
    );
    assert_eq!(
        parse_repository("https://github.com/owner/repo.git").as_deref(),
        Some("owner/repo")
    );
    assert_eq!(parse_repository("https://gitlab.com/owner/repo.git"), None);
}

#[test]
fn revision_contains_only_material_pr_fields() {
    let pull_request = NotificationPullRequest {
        number: 1,
        head_sha: "sha".to_owned(),
        draft: false,
        merge_state: "ready".to_owned(),
        attention_state: "review=none|checks=passed".to_owned(),
        base_branch: "main".to_owned(),
    };
    assert_eq!(
        material_revision(&pull_request),
        "sha|false|ready|review=none|checks=passed|main"
    );
    assert_eq!(
        pull_request_identity("/repo/.git", 1),
        "/repo/.git::pull-request::1"
    );
}

fn ship_context(label: &str) -> ShipContext {
    let project_id = format!("/tmp/shipyard-ship-{label}/.git");
    ShipContext {
        project_id: project_id.clone(),
        work_item_id: format!("{project_id}::branch::refs/heads/work/ship"),
        source_path: format!("/tmp/shipyard-ship-{label}.source"),
        source_branch: Some("work/ship".to_owned()),
        source_sha: "3f5e1c0a9b8d7e6f5a4b3c2d1e0f9a8b7c6d5e4f".to_owned(),
        default_branch: "main".to_owned(),
        target_path: format!("/tmp/shipyard-ship-{label}"),
    }
}

#[test]
fn successful_ship_state_survives_ordinary_rescans() {
    let context = ship_context("success");
    let records = record_success(&Vec::new(), &context);
    let merged = vec![false; records.len()];
    let (states, rewrite) = active_states(&records, &merged);
    assert_eq!(
        states.shipped,
        vec![(context.work_item_id.clone(), context.source_sha.clone())]
    );
    assert!(rewrite.is_none());
    assert_eq!(active_states(&records, &merged).0.shipped.len(), 1);
}

#[test]
fn conflict_persists_until_git_proves_the_source_was_merged() {
    let context = ship_context("conflict");
    let records = shipyard::ship::record_conflict(&Vec::new(), &context);
    assert_eq!(active_states(&records, &vec![false]).0.conflicts.len(), 1);
    let (states, rewrite) = active_states(&records, &vec![true]);
    assert!(states.conflicts.is_empty());
    assert_eq!(rewrite.map(|kept| kept.len()), Some(0));
}

#[test]
fn keeps_one_record_per_work_item() {
    let context = ship_context("repeat");
    let conflicted = shipyard::ship::record_conflict(&Vec::new(), &context);
    let shipped = record_success(&conflicted, &context);
    assert_eq!(shipped.len(), 1);
    assert!(shipped[0].successful);
    let (states, _) = active_states(&shipped, &vec![true]);
    assert_eq!(states.shipped.len(), 1);
    assert!(states.conflicts.is_empty());
}
