//! Deciding which pull-request notifications to raise from one poll of the
//! open pull requests, and what to remember for the next poll.
//!
//! Reading and writing the remembered state and the settings are left to the
//! caller; this module holds the decisions.
use crate::external::{chars_of, string_of};
use crate::text::{
    bool_text, bool_text_of, chars_eq, chars_of_string, decimal, decimal_of, first_match,
    is_control, join, join_chars, push_chars, push_str, same_text, seqs, split, split_chars,
    take_chars, take_chars_of, upsert, words, words_of, char_is_control,
};
use vstd::prelude::*;

verus! {

/// Version of the settings document that is written.
pub const SETTINGS_VERSION: u32 = 1;

/// Version of the remembered-observation document that is written.
pub const OBSERVED_VERSION: u32 = 2;

/// Which kinds of notification the user asked for.
#[derive(Clone, Debug, Default, PartialEq, Eq, Structural)]
pub struct NotificationSettings {
    pub new_pull_requests: bool,
    pub pull_request_updates: bool,
}

/// A project as one poll saw it.
#[derive(Clone, Debug)]
pub struct NotificationProject {
    pub id: String,
    pub name: String,
    pub available: bool,
    pub pull_requests: Vec<NotificationPullRequest>,
}

/// An open pull request as one poll saw it.
#[derive(Clone, Debug)]
pub struct NotificationPullRequest {
    pub number: u64,
    pub head_sha: String,
    pub draft: bool,
    pub merge_state: String,
    pub attention_state: String,
    pub base_branch: String,
}

/// A notification to show.
#[derive(Clone, Debug, PartialEq, Eq)]
pub struct NotificationEvent {
    pub kind: NotificationEventKind,
    pub identity: String,
    pub project_id: String,
    pub pull_request_number: u64,
    pub title: String,
    pub body: String,
}

#[derive(Clone, Copy, Debug, PartialEq, Eq, Structural)]
pub enum NotificationEventKind {
    NewPullRequest,
    PullRequestUpdated,
}

/// Everything remembered between polls.
#[derive(Clone, Debug)]
pub struct StoredObservationState {
    pub version: u32,
    pub projects: Vec<StoredProjectObservation>,
}

/// What is remembered of one project, under its identifier.
#[derive(Clone, Debug)]
pub struct StoredProjectObservation {
    pub id: String,
    pub bootstrapped: bool,
    pub pull_requests: Vec<StoredPullRequestObservation>,
}

/// What is remembered of one pull request, under the decimal text of its number.
#[derive(Clone, Debug)]
pub struct StoredPullRequestObservation {
    pub key: String,
    pub identity: String,
    pub revision: String,
    pub attention_state: String,
    pub event_state: String,
    pub present: bool,
}

/// Why a known pull request counts as updated.
#[derive(Clone, Copy, Debug, PartialEq, Eq, Structural)]
pub enum UpdateReason {
    NewCommits,
    NeedsAttention,
    StatusChanged,
}

// ---------------------------------------------------------------------------
// Mathematical model
// ---------------------------------------------------------------------------
pub struct PullRequestView {
    pub number: u64,
    pub head_sha: Seq<char>,
    pub draft: bool,
    pub merge_state: Seq<char>,
    pub attention_state: Seq<char>,
    pub base_branch: Seq<char>,
}

pub struct ProjectView {
    pub id: Seq<char>,
    pub name: Seq<char>,
    pub available: bool,
    pub pull_requests: Seq<PullRequestView>,
}

pub struct EventView {
    pub kind: NotificationEventKind,
    pub identity: Seq<char>,
    pub project_id: Seq<char>,
    pub pull_request_number: u64,
    pub title: Seq<char>,
    pub body: Seq<char>,
}

pub struct ObservationView {
    pub key: Seq<char>,
    pub identity: Seq<char>,
    pub revision: Seq<char>,
    pub attention_state: Seq<char>,
    pub event_state: Seq<char>,
    pub present: bool,
}

pub struct ProjectObservationView {
    pub id: Seq<char>,
    pub bootstrapped: bool,
    pub pull_requests: Seq<ObservationView>,
}

pub struct StateView {
    pub version: u32,
    pub projects: Seq<ProjectObservationView>,
}

impl View for NotificationPullRequest {
    type V = PullRequestView;

    open spec fn view(&self) -> PullRequestView {
        PullRequestView {
            number: self.number,
            head_sha: self.head_sha@,
            draft: self.draft,
            merge_state: self.merge_state@,
            attention_state: self.attention_state@,
            base_branch: self.base_branch@,
        }
    }
}

impl View for NotificationProject {
    type V = ProjectView;

    open spec fn view(&self) -> ProjectView {
        ProjectView {
            id: self.id@,
            name: self.name@,
            available: self.available,
            pull_requests: self.pull_requests@.map_values(|p: NotificationPullRequest| p@),
        }
    }
}

impl View for NotificationEvent {
    type V = EventView;

    open spec fn view(&self) -> EventView {
        EventView {
            kind: self.kind,
            identity: self.identity@,
            project_id: self.project_id@,
            pull_request_number: self.pull_request_number,
            title: self.title@,
            body: self.body@,
        }
    }
}

impl View for StoredPullRequestObservation {
    type V = ObservationView;

    open spec fn view(&self) -> ObservationView {
        ObservationView {
            key: self.key@,
            identity: self.identity@,
            revision: self.revision@,
            attention_state: self.attention_state@,
            event_state: self.event_state@,
            present: self.present,
        }
    }
}

impl View for StoredProjectObservation {
    type V = ProjectObservationView;

    open spec fn view(&self) -> ProjectObservationView {
        ProjectObservationView {
            id: self.id@,
            bootstrapped: self.bootstrapped,
            pull_requests: self.pull_requests@.map_values(|o: StoredPullRequestObservation| o@),
        }
    }
}

impl View for StoredObservationState {
    type V = StateView;

    open spec fn view(&self) -> StateView {
        StateView {
            version: self.version,
            projects: self.projects@.map_values(|p: StoredProjectObservation| p@),
        }
    }
}

pub open spec fn events_view(events: Seq<NotificationEvent>) -> Seq<EventView> {
    events.map_values(|e: NotificationEvent| e@)
}

/// The fields of a pull request whose change is worth a notification, joined by `|`.
pub open spec fn spec_material_revision(pr: PullRequestView) -> Seq<char> {
    pr.head_sha + seq!['|'] + bool_text(pr.draft) + seq!['|'] + pr.merge_state + seq!['|']
        + pr.attention_state + seq!['|'] + pr.base_branch
}

/// `<project id>::pull-request::<number>`.
pub open spec fn spec_pull_request_identity(project_id: Seq<char>, number: u64) -> Seq<char> {
    project_id + "::pull-request::"@ + decimal(number as nat)
}

/// One `|`-separated piece of an attention state that asks for the user.
pub open spec fn attention_piece(piece: Seq<char>) -> bool {
    piece == "review=changesRequested"@ || piece == "review=reviewRequired"@ || piece
        == "checks=failed"@
}

pub open spec fn spec_requires_attention(merge_state: Seq<char>, attention_state: Seq<char>) -> bool {
    merge_state == "checksFailed"@ || merge_state == "reviewRequired"@ || merge_state
        == "conflicting"@ || exists|i: int|
        0 <= i < split(attention_state, '|').len() && attention_piece(
            #[trigger] split(attention_state, '|')[i],
        )
}

/// Why `current` differs materially from what was remembered, if it does.
pub open spec fn spec_material_update(previous: ObservationView, current: PullRequestView) -> Option<
    UpdateReason,
> {
    if previous.revision == spec_material_revision(current) {
        None
    } else if split(previous.revision, '|')[0] != current.head_sha {
        Some(UpdateReason::NewCommits)
    } else if previous.attention_state != current.attention_state && spec_requires_attention(
        current.merge_state,
        current.attention_state,
    ) {
        Some(UpdateReason::NeedsAttention)
    } else {
        Some(UpdateReason::StatusChanged)
    }
}

pub open spec fn reason_state(reason: UpdateReason) -> Seq<char> {
    match reason {
        UpdateReason::NewCommits => "newCommits"@,
        UpdateReason::NeedsAttention => "needsAttention"@,
        UpdateReason::StatusChanged => "statusChanged"@,
    }
}

/// A project name fit for a notification title: control characters become
/// spaces, whitespace runs become one space, at most 80 characters, and
/// `Project` when nothing is left.
pub open spec fn spec_safe_project_name(name: Seq<char>) -> Seq<char> {
    let mapped = name.map_values(|c: char| if is_control(c) { ' ' } else { c });
    let joined = take_chars(join(words(mapped), seq![' ']), 80);
    if joined.len() == 0 {
        "Project"@
    } else {
        joined
    }
}

pub open spec fn spec_new_event(project: ProjectView, number: u64, identity: Seq<char>) -> EventView {
    EventView {
        kind: NotificationEventKind::NewPullRequest,
        identity: identity,
        project_id: project.id,
        pull_request_number: number,
        title: "New pull request \u{b7} "@ + spec_safe_project_name(project.name),
        body: "Pull request #"@ + decimal(number as nat) + " is now open."@,
    }
}

pub open spec fn update_body(number: u64, reason: UpdateReason) -> Seq<char> {
    "Pull request #"@ + decimal(number as nat) + match reason {
        UpdateReason::NewCommits => " has new commits."@,
        UpdateReason::NeedsAttention => " needs attention."@,
        UpdateReason::StatusChanged => " changed."@,
    }
}

pub open spec fn spec_updated_event(
    project: ProjectView,
    number: u64,
    identity: Seq<char>,
    reason: UpdateReason,
) -> EventView {
    EventView {
        kind: NotificationEventKind::PullRequestUpdated,
        identity: identity,
        project_id: project.id,
        pull_request_number: number,
        title: "Pull request update \u{b7} "@ + spec_safe_project_name(project.name),
        body: update_body(number, reason),
    }
}

/// What one pass over a project's pull requests has gathered so far.
pub struct StepAcc {
    pub entries: Seq<ObservationView>,
    pub seen: Seq<Seq<char>>,
    pub events: Seq<EventView>,
}

pub open spec fn key_is(key: Seq<char>) -> spec_fn(ObservationView) -> bool {
    |o: ObservationView| o.key == key
}

pub open spec fn id_is(id: Seq<char>) -> spec_fn(ProjectObservationView) -> bool {
    |o: ProjectObservationView| o.id == id
}

/// What was remembered of a pull request under `key`, if anything.
pub open spec fn remembered(entries: Seq<ObservationView>, key: Seq<char>) -> Option<
    ObservationView,
> {
    match first_match(entries, key_is(key)) {
        Some(i) => Some(entries[i]),
        None => None,
    }
}

/// Whether a pull request is new to a project that was already observed.
pub open spec fn is_new_appearance(was_bootstrapped: bool, previous: Option<ObservationView>) -> bool {
    was_bootstrapped && match previous {
        Some(p) => !p.present,
        None => true,
    }
}

pub open spec fn reason_of(previous: Option<ObservationView>, pr: PullRequestView) -> Option<
    UpdateReason,
> {
    match previous {
        Some(p) => spec_material_update(p, pr),
        None => None,
    }
}

/// The event, if any, that one pull request raises.
pub open spec fn pr_event(
    project: ProjectView,
    was_bootstrapped: bool,
    previous: Option<ObservationView>,
    pr: PullRequestView,
) -> Option<EventView> {
    let identity = spec_pull_request_identity(project.id, pr.number);
    if is_new_appearance(was_bootstrapped, previous) {
        Some(spec_new_event(project, pr.number, identity))
    } else if was_bootstrapped && reason_of(previous, pr) is Some {
        Some(spec_updated_event(project, pr.number, identity, reason_of(previous, pr)->0))
    } else {
        None
    }
}

pub open spec fn pr_event_state(
    was_bootstrapped: bool,
    previous: Option<ObservationView>,
    pr: PullRequestView,
) -> Seq<char> {
    if is_new_appearance(was_bootstrapped, previous) {
        "new"@
    } else if reason_of(previous, pr) is Some {
        reason_state(reason_of(previous, pr)->0)
    } else if was_bootstrapped {
        "unchanged"@
    } else {
        "baseline"@
    }
}

pub open spec fn option_seq<T>(o: Option<T>) -> Seq<T> {
    match o {
        Some(v) => seq![v],
        None => Seq::empty(),
    }
}

/// One pull request of a project taken into account.
pub open spec fn pr_step(
    project: ProjectView,
    was_bootstrapped: bool,
    acc: StepAcc,
    pr: PullRequestView,
) -> StepAcc {
    let key = decimal(pr.number as nat);
    if acc.seen.contains(key) {
        acc
    } else {
        let previous = remembered(acc.entries, key);
        let entry = ObservationView {
            key: key,
            identity: spec_pull_request_identity(project.id, pr.number),
            revision: spec_material_revision(pr),
            attention_state: pr.attention_state,
            event_state: pr_event_state(was_bootstrapped, previous, pr),
            present: true,
        };
        StepAcc {
            entries: upsert(acc.entries, key_is(key), entry),
            seen: acc.seen.push(key),
            events: acc.events + option_seq(pr_event(project, was_bootstrapped, previous, pr)),
        }
    }
}

pub open spec fn observe_prs(
    project: ProjectView,
    was_bootstrapped: bool,
    start: StepAcc,
    prs: Seq<PullRequestView>,
) -> StepAcc
    decreases prs.len(),
{
    if prs.len() == 0 {
        start
    } else {
        pr_step(
            project,
            was_bootstrapped,
            observe_prs(project, was_bootstrapped, start, prs.drop_last()),
            prs.last(),
        )
    }
}

/// Every remembered pull request marked present exactly when this poll saw it.
pub open spec fn mark_presence(entries: Seq<ObservationView>, seen: Seq<Seq<char>>) -> Seq<
    ObservationView,
> {
    Seq::new(
        entries.len(),
        |i: int| ObservationView { present: seen.contains(entries[i].key), ..entries[i] },
    )
}

/// One available project taken into account: what is remembered of it
/// afterwards, and the events it raises.
pub open spec fn observe_project(obs: ProjectObservationView, project: ProjectView) -> (
    ProjectObservationView,
    Seq<EventView>,
) {
    let acc = observe_prs(
        project,
        obs.bootstrapped,
        StepAcc { entries: obs.pull_requests, seen: Seq::empty(), events: Seq::empty() },
        project.pull_requests,
    );
    (
        ProjectObservationView {
            id: obs.id,
            bootstrapped: true,
            pull_requests: mark_presence(acc.entries, acc.seen),
        },
        acc.events,
    )
}

pub open spec fn remembered_project(projects: Seq<ProjectObservationView>, id: Seq<char>) -> ProjectObservationView {
    match first_match(projects, id_is(id)) {
        Some(i) => projects[i],
        None => ProjectObservationView { id: id, bootstrapped: false, pull_requests: Seq::empty() },
    }
}

pub open spec fn observe_projects(
    state: Seq<ProjectObservationView>,
    projects: Seq<ProjectView>,
) -> (Seq<ProjectObservationView>, Seq<EventView>)
    decreases projects.len(),
{
    if projects.len() == 0 {
        (state, Seq::empty())
    } else {
        let (before, events) = observe_projects(state, projects.drop_last());
        let project = projects.last();
        if !project.available {
            (before, events)
        } else {
            let (obs, new_events) = observe_project(
                remembered_project(before, project.id),
                project,
            );
            (upsert(before, id_is(project.id), obs), events + new_events)
        }
    }
}

/// No two pull requests of a project are remembered under the same key.
pub open spec fn keys_unique(entries: Seq<ObservationView>) -> bool {
    forall|i: int, j: int| 0 <= i < j < entries.len() ==> (#[trigger] entries[i]).key != (#[trigger] entries[j]).key
}

/// No two projects are remembered under the same identifier, and within
/// each project no two pull requests under the same key.
pub open spec fn state_unique(projects: Seq<ProjectObservationView>) -> bool {
    &&& forall|i: int, j: int| 0 <= i < j < projects.len() ==> (#[trigger] projects[i]).id != (#[trigger] projects[j]).id
    &&& forall|i: int| 0 <= i < projects.len() ==> keys_unique(#[trigger] projects[i].pull_requests)
}

/// One poll taken into account: the state to remember and the events to show.
pub open spec fn spec_observe(state: StateView, projects: Seq<ProjectView>) -> (StateView, Seq<EventView>) {
    let (after, events) = observe_projects(state.projects, projects);
    (StateView { version: OBSERVED_VERSION, projects: after }, events)
}

// ---------------------------------------------------------------------------
// Executable functions
// ---------------------------------------------------------------------------
impl UpdateReason {
    /// The word remembered for this reason.
    pub fn event_state(self) -> (r: &'static str)
        ensures
            r@ == reason_state(self),
    {
        match self {
            UpdateReason::NewCommits => "newCommits",
            UpdateReason::NeedsAttention => "needsAttention",
            UpdateReason::StatusChanged => "statusChanged",
        }
    }
}

/// The fields of a pull request whose change is worth a notification.
pub fn material_revision(pull_request: &NotificationPullRequest) -> (r: String)
    ensures
        r@ == spec_material_revision(pull_request@),
{
    let mut v = chars_of_string(&pull_request.head_sha);
    v.push('|');
    let b = bool_text_of(pull_request.draft);
    push_chars(&mut v, &b);
    v.push('|');
    push_str(&mut v, pull_request.merge_state.as_str());
    v.push('|');
    push_str(&mut v, pull_request.attention_state.as_str());
    v.push('|');
    push_str(&mut v, pull_request.base_branch.as_str());
    assert(v@ =~= spec_material_revision(pull_request@));
    string_of(&v)
}

/// The identity under which a pull request of a project is known.
pub fn pull_request_identity(project_id: &str, number: u64) -> (r: String)
    ensures
        r@ == spec_pull_request_identity(project_id@, number),
{
    let mut v = chars_of(project_id);
    push_str(&mut v, "::pull-request::");
    let d = decimal_of(number as u128);
    push_chars(&mut v, &d);
    string_of(&v)
}

fn is_attention_piece(piece: &Vec<char>) -> (r: bool)
    ensures
        r == attention_piece(piece@),
{
    let a = chars_of("review=changesRequested");
    let b = chars_of("review=reviewRequired");
    let c = chars_of("checks=failed");
    chars_eq(piece, &a) || chars_eq(piece, &b) || chars_eq(piece, &c)
}

/// Whether a pull request in this state asks for the user's attention.
pub fn requires_attention(merge_state: &str, attention_state: &str) -> (r: bool)
    ensures
        r == spec_requires_attention(merge_state@, attention_state@),
{
    if same_text(merge_state, "checksFailed") || same_text(merge_state, "reviewRequired")
        || same_text(merge_state, "conflicting") {
        return true;
    }
    let text = chars_of(attention_state);
    let pieces = split_chars(&text, '|');
    let mut i: usize = 0;
    while i < pieces.len()
        invariant
            i <= pieces.len(),
            seqs(pieces@) == split(attention_state@, '|'),
            forall|k: int| 0 <= k < i ==> !attention_piece(#[trigger] split(attention_state@, '|')[k]),
        decreases pieces.len() - i,
    {
        assert(seqs(pieces@)[i as int] == pieces@[i as int]@);
        if is_attention_piece(&pieces[i]) {
            return true;
        }
        i = i + 1;
    }
    false
}

/// Why `current` differs materially from what was remembered, if it does.
pub fn material_update(
    previous: &StoredPullRequestObservation,
    current: &NotificationPullRequest,
) -> (r: Option<UpdateReason>)
    ensures
        r == spec_material_update(previous@, current@),
{
    let revision = material_revision(current);
    if previous.revision == revision {
        return None;
    }
    let previous_revision = chars_of_string(&previous.revision);
    let pieces = split_chars(&previous_revision, '|');
    let head = chars_of_string(&current.head_sha);
    assert(seqs(pieces@)[0] == pieces@[0]@);
    if !chars_eq(&pieces[0], &head) {
        return Some(UpdateReason::NewCommits);
    }
    if previous.attention_state != current.attention_state && requires_attention(
        current.merge_state.as_str(),
        current.attention_state.as_str(),
    ) {
        return Some(UpdateReason::NeedsAttention);
    }
    Some(UpdateReason::StatusChanged)
}

/// A project name fit for a notification title.
pub fn safe_project_name(name: &str) -> (r: String)
    ensures
        r@ == spec_safe_project_name(name@),
{
    let chars = chars_of(name);
    let mut mapped: Vec<char> = Vec::new();
    let mut i: usize = 0;
    while i < chars.len()
        invariant
            i <= chars.len(),
            chars@ == name@,
            mapped@ == name@.subrange(0, i as int).map_values(
                |c: char| if is_control(c) { ' ' } else { c },
            ),
        decreases chars.len() - i,
    {
        let c = chars[i];
        if char_is_control(c) {
            mapped.push(' ');
        } else {
            mapped.push(c);
        }
        i = i + 1;
        assert(mapped@ =~= name@.subrange(0, i as int).map_values(
            |c: char| if is_control(c) { ' ' } else { c },
        ));
    }
    assert(name@.subrange(0, name@.len() as int) =~= name@);
    let ws = words_of(&mapped);
    let sep = vec![' '];
    assert(sep@ =~= seq![' ']);
    let joined = join_chars(&ws, &sep);
    let taken = take_chars_of(&joined, 80);
    if taken.len() == 0 {
        String::from_str("Project")
    } else {
        string_of(&taken)
    }
}

/// The notification for a pull request that has just appeared.
pub fn new_pull_request_event(
    project: &NotificationProject,
    number: u64,
    identity: &str,
) -> (r: NotificationEvent)
    ensures
        r@ == spec_new_event(project@, number, identity@),
{
    let name = safe_project_name(project.name.as_str());
    let mut title = chars_of("New pull request \u{b7} ");
    push_str(&mut title, name.as_str());
    let mut body = chars_of("Pull request #");
    let d = decimal_of(number as u128);
    push_chars(&mut body, &d);
    push_str(&mut body, " is now open.");
    NotificationEvent {
        kind: NotificationEventKind::NewPullRequest,
        identity: String::from_str(identity),
        project_id: project.id.clone(),
        pull_request_number: number,
        title: string_of(&title),
        body: string_of(&body),
    }
}

/// The notification for a pull request that changed materially.
pub fn updated_pull_request_event(
    project: &NotificationProject,
    number: u64,
    identity: &str,
    reason: UpdateReason,
) -> (r: NotificationEvent)
    ensures
        r@ == spec_updated_event(project@, number, identity@, reason),
{
    let name = safe_project_name(project.name.as_str());
    let mut title = chars_of("Pull request update \u{b7} ");
    push_str(&mut title, name.as_str());
    let mut body = chars_of("Pull request #");
    let d = decimal_of(number as u128);
    push_chars(&mut body, &d);
    match reason {
        UpdateReason::NewCommits => push_str(&mut body, " has new commits."),
        UpdateReason::NeedsAttention => push_str(&mut body, " needs attention."),
        UpdateReason::StatusChanged => push_str(&mut body, " changed."),
    }
    NotificationEvent {
        kind: NotificationEventKind::PullRequestUpdated,
        identity: String::from_str(identity),
        project_id: project.id.clone(),
        pull_request_number: number,
        title: string_of(&title),
        body: string_of(&body),
    }
}

pub open spec fn observations_view(v: Seq<StoredPullRequestObservation>) -> Seq<ObservationView> {
    v.map_values(|o: StoredPullRequestObservation| o@)
}

pub open spec fn project_observations_view(v: Seq<StoredProjectObservation>) -> Seq<ProjectObservationView> {
    v.map_values(|o: StoredProjectObservation| o@)
}

pub open spec fn projects_view(v: Seq<NotificationProject>) -> Seq<ProjectView> {
    v.map_values(|p: NotificationProject| p@)
}

pub open spec fn strings_view(v: Seq<String>) -> Seq<Seq<char>> {
    v.map_values(|s: String| s@)
}

impl StoredPullRequestObservation {
    /// A copy of this record whose presence is `present`.
    pub fn with_presence(&self, present: bool) -> (r: Self)
        ensures
            r@ == (ObservationView { present: present, ..self@ }),
    {
        StoredPullRequestObservation {
            key: self.key.clone(),
            identity: self.identity.clone(),
            revision: self.revision.clone(),
            attention_state: self.attention_state.clone(),
            event_state: self.event_state.clone(),
            present: present,
        }
    }
}

fn find_observation(entries: &Vec<StoredPullRequestObservation>, key: &String) -> (r: Option<usize>)
    ensures
        r matches Some(i) ==> i < entries.len() && first_match(
            observations_view(entries@),
            key_is(key@),
        ) == Some(i as int),
        r is None ==> first_match(observations_view(entries@), key_is(key@)) is None,
{
    let ghost v = observations_view(entries@);
    let mut i: usize = 0;
    while i < entries.len()
        invariant
            i <= entries.len(),
            v == observations_view(entries@),
            forall|k: int| 0 <= k < i ==> !key_is(key@)(#[trigger] v[k]),
        decreases entries.len() - i,
    {
        if entries[i].key == *key {
            proof {
                crate::text::lemma_first_match_at(v, key_is(key@), i as int);
            }
            return Some(i);
        }
        i = i + 1;
    }
    proof {
        crate::text::lemma_first_match_none(v, key_is(key@));
    }
    None
}

fn find_project(entries: &Vec<StoredProjectObservation>, id: &String) -> (r: Option<usize>)
    ensures
        r matches Some(i) ==> i < entries.len() && first_match(
            project_observations_view(entries@),
            id_is(id@),
        ) == Some(i as int),
        r is None ==> first_match(project_observations_view(entries@), id_is(id@)) is None,
{
    let ghost v = project_observations_view(entries@);
    let mut i: usize = 0;
    while i < entries.len()
        invariant
            i <= entries.len(),
            v == project_observations_view(entries@),
            forall|k: int| 0 <= k < i ==> !id_is(id@)(#[trigger] v[k]),
        decreases entries.len() - i,
    {
        if entries[i].id == *id {
            proof {
                crate::text::lemma_first_match_at(v, id_is(id@), i as int);
            }
            return Some(i);
        }
        i = i + 1;
    }
    proof {
        crate::text::lemma_first_match_none(v, id_is(id@));
    }
    None
}

fn seen_contains(seen: &Vec<String>, key: &String) -> (r: bool)
    ensures
        r == strings_view(seen@).contains(key@),
{
    let mut i: usize = 0;
    while i < seen.len()
        invariant
            i <= seen.len(),
            forall|k: int| 0 <= k < i ==> strings_view(seen@)[k] != key@,
        decreases seen.len() - i,
    {
        if seen[i] == *key {
            assert(strings_view(seen@)[i as int] == key@);
            return true;
        }
        i = i + 1;
    }
    false
}

/// One available project taken into account.
fn observe_one_project(obs: StoredProjectObservation, project: &NotificationProject) -> (r: (
    StoredProjectObservation,
    Vec<NotificationEvent>,
))
    ensures
        (r.0@, events_view(r.1@)) == observe_project(obs@, project@),
{
    let was = obs.bootstrapped;
    let ghost start = StepAcc {
        entries: observations_view(obs.pull_requests@),
        seen: Seq::empty(),
        events: Seq::empty(),
    };
    let ghost prs = project@.pull_requests;
    let id = obs.id;
    let mut entries = obs.pull_requests;
    let mut seen: Vec<String> = Vec::new();
    let mut events: Vec<NotificationEvent> = Vec::new();
    let mut i: usize = 0;
    assert(strings_view(seen@) =~= Seq::<Seq<char>>::empty());
    assert(events_view(events@) =~= Seq::<EventView>::empty());
    while i < project.pull_requests.len()
        invariant
            i <= project.pull_requests.len(),
            prs == project@.pull_requests,
            (StepAcc {
                entries: observations_view(entries@),
                seen: strings_view(seen@),
                events: events_view(events@),
            }) == observe_prs(project@, was, start, prs.subrange(0, i as int)),
        decreases project.pull_requests.len() - i,
    {
        let pr = &project.pull_requests[i];
        assert(prs.subrange(0, i + 1).drop_last() =~= prs.subrange(0, i as int));
        assert(prs.subrange(0, i + 1).last() == pr@);
        let ghost acc = observe_prs(project@, was, start, prs.subrange(0, i as int));
        let digits = decimal_of(pr.number as u128);
        let key = string_of(&digits);
        if !seen_contains(&seen, &key) {
            let idx = find_observation(&entries, &key);
            let ghost previous = remembered(acc.entries, key@);
            let is_new = was && match idx {
                Some(j) => !entries[j].present,
                None => true,
            };
            let reason = match idx {
                Some(j) => material_update(&entries[j], pr),
                None => None,
            };
            proof {
                match idx {
                    Some(j) => {
                        assert(previous == Some(entries@[j as int]@));
                    },
                    None => {
                        assert(previous is None);
                    },
                }
            }
            assert(is_new == is_new_appearance(was, previous));
            assert(reason == reason_of(previous, pr@));
            let identity = pull_request_identity(project.id.as_str(), pr.number);
            let event = if is_new {
                Some(new_pull_request_event(project, pr.number, identity.as_str()))
            } else if was && reason.is_some() {
                Some(updated_pull_request_event(project, pr.number, identity.as_str(), reason.unwrap()))
            } else {
                None
            };
            let event_state: &str = if is_new {
                "new"
            } else if reason.is_some() {
                reason.unwrap().event_state()
            } else if was {
                "unchanged"
            } else {
                "baseline"
            };
            let entry = StoredPullRequestObservation {
                key: key.clone(),
                identity: identity,
                revision: material_revision(pr),
                attention_state: pr.attention_state.clone(),
                event_state: String::from_str(event_state),
                present: true,
            };
            let ghost before_entries = observations_view(entries@);
            match idx {
                Some(j) => {
                    entries.set(j, entry);
                    assert(observations_view(entries@) =~= before_entries.update(j as int, entry@));
                },
                None => {
                    entries.push(entry);
                    assert(observations_view(entries@) =~= before_entries.push(entry@));
                },
            }
            let ghost before_seen = strings_view(seen@);
            seen.push(key);
            assert(strings_view(seen@) =~= before_seen.push(key@));
            let ghost before_events = events_view(events@);
            match event {
                Some(e) => {
                    events.push(e);
                    assert(events_view(events@) =~= before_events + option_seq(
                        pr_event(project@, was, previous, pr@),
                    ));
                },
                None => {
                    assert(events_view(events@) =~= before_events + option_seq(
                        pr_event(project@, was, previous, pr@),
                    ));
                },
            }
        }
        i = i + 1;
    }
    assert(prs.subrange(0, project.pull_requests.len() as int) =~= prs);
    let ghost acc = observe_prs(project@, was, start, prs);
    let mut marked: Vec<StoredPullRequestObservation> = Vec::new();
    let mut k: usize = 0;
    while k < entries.len()
        invariant
            k <= entries.len(),
            observations_view(entries@) == acc.entries,
            strings_view(seen@) == acc.seen,
            observations_view(marked@) =~= mark_presence(acc.entries, acc.seen).subrange(
                0,
                k as int,
            ),
        decreases entries.len() - k,
    {
        let present = seen_contains(&seen, &entries[k].key);
        let ghost before = observations_view(marked@);
        marked.push(entries[k].with_presence(present));
        assert(observations_view(marked@) =~= before.push(
            mark_presence(acc.entries, acc.seen)[k as int],
        ));
        k = k + 1;
    }
    assert(observations_view(marked@) =~= mark_presence(acc.entries, acc.seen));
    (StoredProjectObservation { id: id, bootstrapped: true, pull_requests: marked }, events)
}

/// One poll taken into account: the state to remember afterwards, and the
/// notifications to show, in the order of the projects and their pull requests.
pub fn observe(state: StoredObservationState, projects: &Vec<NotificationProject>) -> (r: (
    StoredObservationState,
    Vec<NotificationEvent>,
))
    ensures
        (r.0@, events_view(r.1@)) == spec_observe(state@, projects_view(projects@)),
        state_unique(state@.projects) ==> state_unique(r.0@.projects),
{
    let ghost all = projects_view(projects@);
    let mut entries = state.projects;
    let mut events: Vec<NotificationEvent> = Vec::new();
    let ghost start = project_observations_view(entries@);
    let mut i: usize = 0;
    assert(events_view(events@) =~= Seq::<EventView>::empty());
    while i < projects.len()
        invariant
            i <= projects.len(),
            all == projects_view(projects@),
            (project_observations_view(entries@), events_view(events@)) == observe_projects(
                start,
                all.subrange(0, i as int),
            ),
        decreases projects.len() - i,
    {
        let project = &projects[i];
        assert(all.subrange(0, i + 1).drop_last() =~= all.subrange(0, i as int));
        assert(all.subrange(0, i + 1).last() == project@);
        if project.available {
            let idx = find_project(&entries, &project.id);
            let ghost before = project_observations_view(entries@);
            let obs = match idx {
                Some(j) => entries[j].clone_observation(),
                None => StoredProjectObservation {
                    id: project.id.clone(),
                    bootstrapped: false,
                    pull_requests: Vec::new(),
                },
            };
            proof {
                match idx {
                    Some(j) => {},
                    None => {
                        assert(obs@.pull_requests =~= Seq::<ObservationView>::empty());
                    },
                }
            }
            assert(obs@ == remembered_project(before, project@.id));
            let (updated, new_events) = observe_one_project(obs, project);
            match idx {
                Some(j) => {
                    entries.set(j, updated);
                    assert(project_observations_view(entries@) =~= upsert(
                        before,
                        id_is(project@.id),
                        updated@,
                    ));
                },
                None => {
                    entries.push(updated);
                    assert(project_observations_view(entries@) =~= upsert(
                        before,
                        id_is(project@.id),
                        updated@,
                    ));
                },
            }
            let ghost before_events = events_view(events@);
            let mut moved = new_events;
            let mut k: usize = 0;
            let ghost added = events_view(moved@);
            while k < moved.len()
                invariant
                    k <= moved.len(),
                    added == events_view(moved@),
                    events_view(events@) =~= before_events + added.subrange(0, k as int),
                decreases moved.len() - k,
            {
                let e = moved[k].clone_event();
                let ghost prior = events_view(events@);
                events.push(e);
                assert(events_view(events@) =~= prior.push(e@));
                assert(added[k as int] == e@);
                k = k + 1;
                assert(added.subrange(0, k as int) =~= added.subrange(0, k - 1).push(e@));
            }
            assert(added.subrange(0, moved.len() as int) =~= added);
        }
        i = i + 1;
    }
    assert(all.subrange(0, projects.len() as int) =~= all);
    proof {
        if state_unique(state@.projects) {
            crate::notification_laws::law_observation_state_stays_unique(state@, projects_view(projects@));
        }
    }
    (StoredObservationState { version: OBSERVED_VERSION, projects: entries }, events)
}

/// The fields of a stored settings document that the settings are read from.
#[derive(Clone, Debug, Default)]
pub struct SettingsFields {
    /// `version`, when it is a non-negative integer.
    pub version: Option<u64>,
    /// `newPullRequests`, when it is a boolean.
    pub new_pull_requests: Option<bool>,
    /// `new_pull_requests`, an older spelling.
    pub new_pull_requests_snake: Option<bool>,
    /// `pullRequestUpdates`, when it is a boolean.
    pub pull_request_updates: Option<bool>,
    /// `pull_request_updates`, an older spelling.
    pub pull_request_updates_snake: Option<bool>,
    /// `enabled`, the single choice of an older version.
    pub enabled: Option<bool>,
    /// `notificationsEnabled`, another spelling of that choice.
    pub notifications_enabled: Option<bool>,
}

/// What was found where the settings are stored.
#[derive(Clone, Debug)]
pub enum SettingsDocument {
    Missing,
    NotJson,
    Json(SettingsFields),
}

/// What was found where the observations are stored.
#[derive(Clone, Debug)]
pub enum ObservationDocument {
    Missing,
    Unreadable,
    Parsed(StoredObservationState),
}

pub open spec fn or_else<T>(a: Option<T>, b: Option<T>) -> Option<T> {
    match a {
        Some(v) => Some(v),
        None => b,
    }
}

pub open spec fn unwrap_or_false(a: Option<bool>) -> bool {
    match a {
        Some(v) => v,
        None => false,
    }
}

/// The version a settings document declares, 0 when it declares none,
/// cut to 32 bits.
pub open spec fn declared_version(fields: SettingsFields) -> u32 {
    match fields.version {
        Some(v) => v as u32,
        None => 0,
    }
}

/// The settings a document holds, and whether it must be written back in
/// the current format; an error when it was written by a newer version.
pub open spec fn spec_migrate_settings(fields: SettingsFields) -> Result<(NotificationSettings, bool), Seq<char>> {
    let version = declared_version(fields);
    if version > SETTINGS_VERSION {
        Err("notification settings version "@ + decimal(version as nat) + " is newer than Shipyard supports"@)
    } else {
        let legacy = or_else(fields.enabled, fields.notifications_enabled);
        Ok((
            NotificationSettings {
                new_pull_requests: unwrap_or_false(
                    or_else(or_else(fields.new_pull_requests, fields.new_pull_requests_snake), legacy),
                ),
                pull_request_updates: unwrap_or_false(
                    or_else(or_else(fields.pull_request_updates, fields.pull_request_updates_snake), legacy),
                ),
            },
            version != SETTINGS_VERSION,
        ))
    }
}

fn first_of(a: Option<bool>, b: Option<bool>) -> (r: Option<bool>)
    ensures
        r == or_else(a, b),
{
    match a {
        Some(v) => Some(v),
        None => b,
    }
}

/// The settings a document holds, and whether it must be written back.
pub fn migrate_settings(fields: &SettingsFields) -> (r: Result<(NotificationSettings, bool), String>)
    ensures
        match (r, spec_migrate_settings(*fields)) {
            (Ok(a), Ok(b)) => a == b,
            (Err(e), Err(f)) => e@ == f,
            _ => false,
        },
{
    let version: u32 = match fields.version {
        Some(v) => v as u32,
        None => 0,
    };
    if version > SETTINGS_VERSION {
        let mut message = chars_of("notification settings version ");
        let d = decimal_of(version as u128);
        push_chars(&mut message, &d);
        push_str(&mut message, " is newer than Shipyard supports");
        return Err(string_of(&message));
    }
    let legacy = first_of(fields.enabled, fields.notifications_enabled);
    let new_pull_requests = first_of(first_of(fields.new_pull_requests, fields.new_pull_requests_snake), legacy);
    let pull_request_updates = first_of(first_of(fields.pull_request_updates, fields.pull_request_updates_snake), legacy);
    Ok((
        NotificationSettings {
            new_pull_requests: match new_pull_requests {
                Some(v) => v,
                None => false,
            },
            pull_request_updates: match pull_request_updates {
                Some(v) => v,
                None => false,
            },
        },
        version != SETTINGS_VERSION,
    ))
}

/// The settings in effect after reading what is stored, and whether the
/// stored document must be (re)written: a missing document gives the
/// defaults and is left alone; one that is not JSON gives the defaults and is
/// replaced; an older one is migrated and replaced.
pub fn load_settings(document: &SettingsDocument) -> (r: Result<(NotificationSettings, bool), String>)
    ensures
        match document {
            SettingsDocument::Missing => r == Ok::<(NotificationSettings, bool), String>((NotificationSettings { new_pull_requests: false, pull_request_updates: false }, false)),
            SettingsDocument::NotJson => r == Ok::<(NotificationSettings, bool), String>((NotificationSettings { new_pull_requests: false, pull_request_updates: false }, true)),
            SettingsDocument::Json(fields) => match (r, spec_migrate_settings(*fields)) {
                (Ok(a), Ok(b)) => a == b,
                (Err(e), Err(f)) => e@ == f,
                _ => false,
            },
        },
{
    match document {
        SettingsDocument::Missing => Ok((NotificationSettings { new_pull_requests: false, pull_request_updates: false }, false)),
        SettingsDocument::NotJson => Ok((NotificationSettings { new_pull_requests: false, pull_request_updates: false }, true)),
        SettingsDocument::Json(fields) => migrate_settings(fields),
    }
}

/// The fields of the document written for `settings`.
pub open spec fn written_fields(settings: NotificationSettings) -> SettingsFields {
    SettingsFields {
        version: Some(SETTINGS_VERSION as u64),
        new_pull_requests: Some(settings.new_pull_requests),
        new_pull_requests_snake: None,
        pull_request_updates: Some(settings.pull_request_updates),
        pull_request_updates_snake: None,
        enabled: None,
        notifications_enabled: None,
    }
}

/// The fields of the document to write for `settings`.
pub fn settings_fields(settings: &NotificationSettings) -> (r: SettingsFields)
    ensures
        r == written_fields(*settings),
{
    SettingsFields {
        version: Some(SETTINGS_VERSION as u64),
        new_pull_requests: Some(settings.new_pull_requests),
        new_pull_requests_snake: None,
        pull_request_updates: Some(settings.pull_request_updates),
        pull_request_updates_snake: None,
        enabled: None,
        notifications_enabled: None,
    }
}

fn keys_are_unique(entries: &Vec<StoredPullRequestObservation>) -> (r: bool)
    ensures
        r == keys_unique(observations_view(entries@)),
{
    let ghost v = observations_view(entries@);
    let mut i: usize = 0;
    while i < entries.len()
        invariant
            i <= entries.len(),
            v == observations_view(entries@),
            forall|a: int, b: int| 0 <= a < b < i ==> (#[trigger] v[a]).key != (#[trigger] v[b]).key,
        decreases entries.len() - i,
    {
        let mut j: usize = 0;
        while j < i
            invariant
                j <= i < entries.len(),
                v == observations_view(entries@),
                forall|a: int, b: int| 0 <= a < b < i ==> (#[trigger] v[a]).key != (#[trigger] v[b]).key,
                forall|a: int| 0 <= a < j ==> (#[trigger] v[a]).key != v[i as int].key,
            decreases i - j,
        {
            if crate::text::same_text(entries[j].key.as_str(), entries[i].key.as_str()) {
                assert(v[j as int].key == v[i as int].key);
                return false;
            }
            j = j + 1;
        }
        i = i + 1;
    }
    true
}

/// Whether a remembered state names each project, and each pull request of
/// a project, once (see `state_unique`).
pub fn observations_unique(state: &StoredObservationState) -> (r: bool)
    ensures
        r == state_unique(state@.projects),
{
    let ghost v = state@.projects;
    let projects = &state.projects;
    let mut i: usize = 0;
    while i < projects.len()
        invariant
            i <= projects.len(),
            v == state@.projects,
            projects@ == state.projects@,
            v == projects@.map_values(|p: StoredProjectObservation| p@),
            forall|a: int, b: int| 0 <= a < b < i ==> (#[trigger] v[a]).id != (#[trigger] v[b]).id,
            forall|a: int| 0 <= a < i ==> keys_unique(#[trigger] v[a].pull_requests),
        decreases projects.len() - i,
    {
        assert(v[i as int] == projects[i as int]@);
        assert(v[i as int].pull_requests =~= observations_view(projects[i as int].pull_requests@));
        if !keys_are_unique(&projects[i].pull_requests) {
            assert(!keys_unique(v[i as int].pull_requests));
            assert(!state_unique(v));
            return false;
        }
        let mut j: usize = 0;
        while j < i
            invariant
                j <= i < projects.len(),
                v == state@.projects,
                v == projects@.map_values(|p: StoredProjectObservation| p@),
                forall|a: int| 0 <= a < j ==> (#[trigger] v[a]).id != v[i as int].id,
            decreases i - j,
        {
            if crate::text::same_text(projects[j].id.as_str(), projects[i].id.as_str()) {
                assert(v.len() == projects.len());
                assert(v[j as int] == projects[j as int]@);
                assert(v[i as int] == projects[i as int]@);
                assert(v[j as int].id == v[i as int].id);
                assert(!state_unique(v));
                return false;
            }
            j = j + 1;
        }
        i = i + 1;
    }
    true
}

/// The observations to start a poll from: nothing remembered when the
/// document is missing, unreadable, of another version, or names a project
/// or a pull request of a project twice (which no stored state does).
pub fn restore_observations(document: ObservationDocument) -> (r: StoredObservationState)
    ensures
        match document {
            ObservationDocument::Parsed(state) => if state.version == OBSERVED_VERSION && state_unique(state@.projects) {
                r@ == state@
            } else {
                r@ == (StateView { version: OBSERVED_VERSION, projects: Seq::empty() })
            },
            _ => r@ == (StateView { version: OBSERVED_VERSION, projects: Seq::empty() }),
        },
        state_unique(r@.projects),
{
    match document {
        ObservationDocument::Parsed(state) => {
            if state.version == OBSERVED_VERSION && observations_unique(&state) {
                state
            } else {
                let r = StoredObservationState { version: OBSERVED_VERSION, projects: Vec::new() };
                assert(r@.projects =~= Seq::<ProjectObservationView>::empty());
                r
            }
        },
        _ => {
            let r = StoredObservationState { version: OBSERVED_VERSION, projects: Vec::new() };
            assert(r@.projects =~= Seq::<ProjectObservationView>::empty());
            r
        },
    }
}

/// Whether a poll has anything to observe; a poll of no projects reads and
/// writes nothing.
pub fn observation_needed(projects: &Vec<NotificationProject>) -> (r: bool)
    ensures
        r == (projects.len() > 0),
{
    projects.len() > 0
}

impl StoredProjectObservation {
    /// A copy of what is remembered of this project.
    pub fn clone_observation(&self) -> (r: Self)
        ensures
            r@ == self@,
    {
        let mut prs: Vec<StoredPullRequestObservation> = Vec::new();
        let mut i: usize = 0;
        while i < self.pull_requests.len()
            invariant
                i <= self.pull_requests.len(),
                observations_view(prs@) =~= observations_view(self.pull_requests@).subrange(
                    0,
                    i as int,
                ),
            decreases self.pull_requests.len() - i,
        {
            let x = self.pull_requests[i].with_presence(self.pull_requests[i].present);
            let ghost before = observations_view(prs@);
            prs.push(x);
            assert(observations_view(prs@) =~= before.push(x@));
            i = i + 1;
        }
        assert(observations_view(self.pull_requests@).subrange(0, self.pull_requests.len() as int)
            =~= observations_view(self.pull_requests@));
        StoredProjectObservation { id: self.id.clone(), bootstrapped: self.bootstrapped, pull_requests: prs }
    }
}

impl NotificationEvent {
    /// A copy of this notification.
    pub fn clone_event(&self) -> (r: Self)
        ensures
            r@ == self@,
    {
        NotificationEvent {
            kind: self.kind,
            identity: self.identity.clone(),
            project_id: self.project_id.clone(),
            pull_request_number: self.pull_request_number,
            title: self.title.clone(),
            body: self.body.clone(),
        }
    }
}

} // verus!
