use shipyard::notifications::{
    load_settings, observations_unique, observe, restore_observations, settings_fields, NotificationEvent, NotificationEventKind,
    NotificationProject, NotificationPullRequest, NotificationSettings, ObservationDocument, SettingsDocument,
    SettingsFields, StoredObservationState, StoredProjectObservation, StoredPullRequestObservation,
};

struct Poller {
    state: StoredObservationState,
}

impl Poller {
    fn new() -> Self {
        Poller { state: restore_observations(ObservationDocument::Missing) }
    }

    fn poll(&mut self, projects: Vec<NotificationProject>) -> Vec<NotificationEvent> {
        let (next, events) = observe(self.state.clone(), &projects);
        self.state = next;
        events
    }
}

fn project_with_attention(name: &str, number: u64, head_sha: &str, merge_state: &str, attention_state: &str) -> NotificationProject {
    NotificationProject {
        id: format!("/{name}/.git"),
        name: name.to_owned(),
        available: true,
        pull_requests: vec![NotificationPullRequest {
            number,
            head_sha: head_sha.to_owned(),
            draft: false,
            merge_state: merge_state.to_owned(),
            attention_state: attention_state.to_owned(),
            base_branch: "main".to_owned(),
        }],
    }
}

fn project(name: &str, number: u64, head_sha: &str, merge_state: &str) -> NotificationProject {
    project_with_attention(name, number, head_sha, merge_state, "review=none|checks=passed")
}

fn project_without_prs(name: &str) -> NotificationProject {
    NotificationProject { id: format!("/{name}/.git"), name: name.to_owned(), available: true, pull_requests: Vec::new() }
}

fn unavailable_project(name: &str) -> NotificationProject {
    NotificationProject { id: format!("/{name}/.git"), name: name.to_owned(), available: false, pull_requests: Vec::new() }
}

fn quiet() -> NotificationSettings {
    NotificationSettings { new_pull_requests: false, pull_request_updates: false }
}

#[test]
fn defaults_keep_every_notification_type_off() {
    assert_eq!(NotificationSettings::default(), quiet());
    assert_eq!(load_settings(&SettingsDocument::Missing), Ok((quiet(), false)));
}

#[test]
fn corrupt_persistence_resets_to_a_quiet_safe_baseline() {
    assert_eq!(load_settings(&SettingsDocument::NotJson), Ok((quiet(), true)));
    let mut poller = Poller { state: restore_observations(ObservationDocument::Unreadable) };
    assert!(poller.poll(vec![project("harbor", 7, "sha-1", "ready")]).is_empty());
}

#[test]
fn migrates_a_legacy_global_notification_choice_without_losing_opt_in() {
    let fields = SettingsFields { enabled: Some(true), ..SettingsFields::default() };
    let (settings, rewrite) = load_settings(&SettingsDocument::Json(fields)).unwrap();
    assert!(settings.new_pull_requests);
    assert!(settings.pull_request_updates);
    assert!(rewrite);
    assert_eq!(settings_fields(&settings).version, Some(1));
}

#[test]
fn upgrades_observation_schema_with_a_quiet_baseline() {
    let old = StoredObservationState {
        version: 1,
        projects: vec![StoredProjectObservation {
            id: "/harbor/.git".to_owned(),
            bootstrapped: true,
            pull_requests: vec![StoredPullRequestObservation {
                key: "7".to_owned(),
                identity: "/harbor/.git::pull-request::7".to_owned(),
                revision: "sha-1|false|ready|main".to_owned(),
                attention_state: String::new(),
                event_state: "unchanged".to_owned(),
                present: true,
            }],
        }],
    };
    let mut poller = Poller { state: restore_observations(ObservationDocument::Parsed(old)) };
    assert!(poller.poll(vec![project("harbor", 7, "sha-1", "ready")]).is_empty());
    assert_eq!(poller.state.version, 2);
}

#[test]
fn bootstraps_existing_prs_then_detects_new_and_material_updates() {
    let mut poller = Poller::new();
    let baseline = project("harbor", 7, "sha-1", "ready");
    assert!(poller.poll(vec![baseline.clone()]).is_empty());

    let mut new_pr = project("harbor", 8, "sha-8", "ready");
    new_pr.pull_requests.push(baseline.pull_requests[0].clone());
    let events = poller.poll(vec![new_pr]);
    assert_eq!(events.len(), 1);
    assert_eq!(events[0].kind, NotificationEventKind::NewPullRequest);
    assert_eq!(events[0].title, "New pull request · harbor");
    assert_eq!(events[0].body, "Pull request #8 is now open.");

    let mut updated = project("harbor", 7, "sha-2", "ready");
    updated.pull_requests.push(project("harbor", 8, "sha-8", "ready").pull_requests[0].clone());
    let events = poller.poll(vec![updated]);
    assert_eq!(events.len(), 1);
    assert_eq!(events[0].kind, NotificationEventKind::PullRequestUpdated);
    assert!(events[0].body.contains("new commits"));
}

#[test]
fn repeated_polls_of_the_same_revision_are_deduplicated_and_persisted() {
    let mut poller = Poller::new();
    poller.poll(vec![project("harbor", 7, "sha-1", "ready")]);
    let updated = project("harbor", 7, "sha-2", "checksFailed");
    assert_eq!(poller.poll(vec![updated.clone()]).len(), 1);
    assert!(poller.poll(vec![updated]).is_empty());
}

#[test]
fn a_pr_that_disappears_and_reappears_is_a_new_appearance() {
    let mut poller = Poller::new();
    let current = project("harbor", 7, "sha-1", "ready");
    poller.poll(vec![current.clone()]);
    poller.poll(vec![project_without_prs("harbor")]);
    let events = poller.poll(vec![current]);
    assert_eq!(events.len(), 1);
    assert_eq!(events[0].kind, NotificationEventKind::NewPullRequest);
}

#[test]
fn unavailable_project_scans_do_not_create_false_disappearances() {
    let mut poller = Poller::new();
    let current = project("harbor", 7, "sha-1", "ready");
    poller.poll(vec![current.clone()]);
    poller.poll(vec![unavailable_project("harbor")]);
    assert!(poller.poll(vec![current]).is_empty());
}

#[test]
fn payloads_identify_project_and_pr_without_user_content() {
    let mut poller = Poller::new();
    let folder = project("folder", 42, "sha-1", "ready");
    poller.poll(vec![folder.clone()]);
    assert!(poller.poll(vec![NotificationProject { name: "folder\n".to_owned(), ..folder.clone() }]).is_empty());
    let events = poller.poll(vec![NotificationProject {
        name: "folder\n".to_owned(),
        pull_requests: vec![NotificationPullRequest {
            number: 42,
            head_sha: "sha-2".to_owned(),
            draft: false,
            merge_state: "reviewRequired".to_owned(),
            attention_state: "review=reviewRequired|checks=passed".to_owned(),
            base_branch: "main".to_owned(),
        }],
        ..project_without_prs("folder")
    }]);
    assert_eq!(events.len(), 1);
    assert_eq!(events[0].title, "Pull request update · folder");
    assert!(events[0].body.contains("#42"));
    assert!(!events[0].body.contains("sha-2"));
}

#[test]
fn setting_round_trip_preserves_independent_rules() {
    let settings = NotificationSettings { new_pull_requests: true, pull_request_updates: false };
    let fields = settings_fields(&settings);
    assert_eq!(load_settings(&SettingsDocument::Json(fields)), Ok((settings, false)));
}

#[test]
fn attention_state_changes_are_material_even_when_merge_state_is_unchanged() {
    let mut poller = Poller::new();
    poller.poll(vec![project_with_attention("harbor", 7, "sha-1", "ready", "review=none|checks=passed")]);
    let events = poller.poll(vec![project_with_attention("harbor", 7, "sha-1", "ready", "review=changesRequested|checks=passed")]);
    assert_eq!(events.len(), 1);
    assert!(events[0].body.contains("needs attention"));
}

#[test]
fn multiple_projects_keep_identity_and_deduplication_independent() {
    let mut poller = Poller::new();
    poller.poll(vec![project("harbor", 7, "sha-harbor", "ready"), project("dock", 3, "sha-dock", "ready")]);
    let events = poller.poll(vec![project("harbor", 7, "sha-harbor-2", "ready"), project("dock", 3, "sha-dock", "ready")]);
    assert_eq!(events.len(), 1);
    assert_eq!(events[0].project_id, "/harbor/.git");
    assert!(poller
        .poll(vec![project("harbor", 7, "sha-harbor-2", "ready"), project("dock", 3, "sha-dock", "ready")])
        .is_empty());
}

fn remembered_pull_request(key: &str) -> StoredPullRequestObservation {
    StoredPullRequestObservation {
        key: key.to_owned(),
        identity: format!("/harbor/.git::pull-request::{key}"),
        revision: "sha-1|false|ready|main".to_owned(),
        attention_state: String::new(),
        event_state: "unchanged".to_owned(),
        present: true,
    }
}

fn remembered_project(id: &str, keys: &[&str]) -> StoredProjectObservation {
    StoredProjectObservation {
        id: id.to_owned(),
        bootstrapped: true,
        pull_requests: keys.iter().map(|key| remembered_pull_request(key)).collect(),
    }
}

#[test]
fn a_remembered_state_names_each_project_and_pull_request_once() {
    let sound = StoredObservationState { version: 2, projects: vec![remembered_project("/a/.git", &["1", "2"]), remembered_project("/b/.git", &["1"])] };
    assert!(observations_unique(&sound));
    let restored = restore_observations(ObservationDocument::Parsed(sound));
    assert_eq!(restored.projects.len(), 2);

    let twice = StoredObservationState { version: 2, projects: vec![remembered_project("/a/.git", &["1"]), remembered_project("/a/.git", &["2"])] };
    assert!(!observations_unique(&twice));
    assert!(restore_observations(ObservationDocument::Parsed(twice)).projects.is_empty());

    let repeated_key = StoredObservationState { version: 2, projects: vec![remembered_project("/a/.git", &["3", "3"])] };
    assert!(!observations_unique(&repeated_key));
    assert!(restore_observations(ObservationDocument::Parsed(repeated_key)).projects.is_empty());
}
