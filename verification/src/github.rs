//! Turning what the GitHub CLI reports about open pull requests into the
//! pull-request state shown on work items.
use crate::external::{chars_of, string_of};
use crate::git::branches::opt_string;
use crate::git::work_item::{
    items_view, newest_first, sort_newest_first, Project, ProjectView, PullRequest, PullRequestView,
    WorkItem, WorkItemView, WorkStatus,
};
use crate::text::{
    decimal, decimal_of, first_match, lemma_first_match_at, lemma_first_match_none, lines,
    lines_of, push_chars, push_str, same_text, seqs, split, split_chars, strip_prefix,
    strip_prefix_of, strip_suffix, strip_suffix_of, trim, trim_char_of, trim_chars, trim_end_char,
    trim_start_char,
};
use vstd::prelude::*;

verus! {

/// The `owner/name` path that a remote URL of one of GitHub's forms names.
pub open spec fn remote_path(remote: Seq<char>) -> Option<Seq<char>> {
    match strip_prefix(remote, "git@github.com:"@) {
        Some(p) => Some(p),
        None => match strip_prefix(remote, "ssh://git@github.com/"@) {
            Some(p) => Some(p),
            None => strip_prefix(remote, "https://github.com/"@),
        },
    }
}

/// The repository (`owner/name`) of a GitHub remote URL, if it is one.
pub open spec fn spec_parse_repository(remote: Seq<char>) -> Option<Seq<char>> {
    match remote_path(remote) {
        Some(path) => {
            let bare = match strip_suffix(path, ".git"@) {
                Some(p) => p,
                None => path,
            };
            let trimmed = trim_end_char(trim_start_char(bare, '/'), '/');
            if split(trimmed, '/').len() == 2 {
                Some(trimmed)
            } else {
                None
            }
        },
        None => None,
    }
}

/// The repository (`owner/name`) of a GitHub remote URL, if it is one.
pub fn parse_repository(remote: &str) -> (r: Option<String>)
    ensures
        match spec_parse_repository(remote@) {
            Some(p) => r matches Some(s) && s@ == p,
            None => r is None,
        },
{
    let text = chars_of(remote);
    let path = match strip_prefix_of(&text, &chars_of("git@github.com:")) {
        Some(p) => p,
        None => match strip_prefix_of(&text, &chars_of("ssh://git@github.com/")) {
            Some(p) => p,
            None => match strip_prefix_of(&text, &chars_of("https://github.com/")) {
                Some(p) => p,
                None => return None,
            },
        },
    };
    let bare = match strip_suffix_of(&path, &chars_of(".git")) {
        Some(p) => p,
        None => path,
    };
    let trimmed = trim_char_of(&bare, '/');
    let pieces = split_chars(&trimmed, '/');
    if pieces.len() == 2 {
        Some(string_of(&trimmed))
    } else {
        None
    }
}

/// A status check of a pull request, as the GitHub CLI lists it.
#[derive(Debug)]
pub struct GhCheck {
    pub conclusion: String,
    pub status: String,
    pub state: String,
}

pub struct GhCheckView {
    pub conclusion: Seq<char>,
    pub status: Seq<char>,
    pub state: Seq<char>,
}

impl View for GhCheck {
    type V = GhCheckView;

    open spec fn view(&self) -> GhCheckView {
        GhCheckView { conclusion: self.conclusion@, status: self.status@, state: self.state@ }
    }
}

/// A GitHub account.
#[derive(Debug)]
pub struct GhAccount {
    pub login: String,
}

/// An open pull request, as the GitHub CLI lists it.
#[derive(Debug)]
pub struct GhPullRequest {
    pub number: u64,
    pub title: String,
    pub url: String,
    pub is_draft: bool,
    pub merge_state_status: String,
    pub head_ref_name: String,
    pub head_ref_oid: String,
    pub base_ref_name: String,
    pub review_decision: String,
    pub status_check_rollup: Vec<GhCheck>,
    pub assignees: Vec<GhAccount>,
    pub review_requests: Vec<GhAccount>,
    pub author: Option<GhAccount>,
}

pub struct GhPullRequestView {
    pub number: u64,
    pub title: Seq<char>,
    pub url: Seq<char>,
    pub is_draft: bool,
    pub merge_state_status: Seq<char>,
    pub head_ref_name: Seq<char>,
    pub head_ref_oid: Seq<char>,
    pub base_ref_name: Seq<char>,
    pub review_decision: Seq<char>,
    pub checks: Seq<GhCheckView>,
    pub assignees: Seq<Seq<char>>,
    pub review_requests: Seq<Seq<char>>,
    pub author: Option<Seq<char>>,
}

pub open spec fn logins(v: Seq<GhAccount>) -> Seq<Seq<char>> {
    v.map_values(|a: GhAccount| a.login@)
}

impl View for GhPullRequest {
    type V = GhPullRequestView;

    open spec fn view(&self) -> GhPullRequestView {
        GhPullRequestView {
            number: self.number,
            title: self.title@,
            url: self.url@,
            is_draft: self.is_draft,
            merge_state_status: self.merge_state_status@,
            head_ref_name: self.head_ref_name@,
            head_ref_oid: self.head_ref_oid@,
            base_ref_name: self.base_ref_name@,
            review_decision: self.review_decision@,
            checks: self.status_check_rollup@.map_values(|c: GhCheck| c@),
            assignees: logins(self.assignees@),
            review_requests: logins(self.review_requests@),
            author: match self.author {
                Some(a) => Some(a.login@),
                None => None,
            },
        }
    }
}

pub open spec fn pull_requests_view(v: Seq<GhPullRequest>) -> Seq<GhPullRequestView> {
    v.map_values(|p: GhPullRequest| p@)
}

/// A check that has not finished: in progress, queued, pending, or with
/// neither a conclusion nor a state yet.
pub open spec fn check_pending(c: GhCheckView) -> bool {
    c.status == "IN_PROGRESS"@ || c.status == "QUEUED"@ || c.state == "PENDING"@
        || (c.conclusion.len() == 0 && c.state.len() == 0)
}

/// A check that failed: concluded as a failure, cancelled, timed out or
/// needing action, or in a failure or error state.
pub open spec fn check_failed(c: GhCheckView) -> bool {
    c.conclusion == "FAILURE"@ || c.conclusion == "CANCELLED"@ || c.conclusion == "TIMED_OUT"@
        || c.conclusion == "ACTION_REQUIRED"@ || c.state == "FAILURE"@ || c.state == "ERROR"@
}

pub open spec fn any_pending(cs: Seq<GhCheckView>) -> bool {
    exists|i: int| 0 <= i < cs.len() && check_pending(#[trigger] cs[i])
}

pub open spec fn any_failed(cs: Seq<GhCheckView>) -> bool {
    exists|i: int| 0 <= i < cs.len() && check_failed(#[trigger] cs[i])
}

fn is_pending(c: &GhCheck) -> (r: bool)
    ensures
        r == check_pending(c@),
{
    same_text(c.status.as_str(), "IN_PROGRESS") || same_text(c.status.as_str(), "QUEUED")
        || same_text(c.state.as_str(), "PENDING") || (chars_of(c.conclusion.as_str()).len() == 0
        && chars_of(c.state.as_str()).len() == 0)
}

fn is_failed(c: &GhCheck) -> (r: bool)
    ensures
        r == check_failed(c@),
{
    let k = c.conclusion.as_str();
    let s = c.state.as_str();
    same_text(k, "FAILURE") || same_text(k, "CANCELLED") || same_text(k, "TIMED_OUT") || same_text(k, "ACTION_REQUIRED")
        || same_text(s, "FAILURE") || same_text(s, "ERROR")
}

/// Whether any check is pending, and whether any failed.
pub fn check_summary(checks: &Vec<GhCheck>) -> (r: (bool, bool))
    ensures
        r.0 == any_pending(checks@.map_values(|c: GhCheck| c@)),
        r.1 == any_failed(checks@.map_values(|c: GhCheck| c@)),
{
    let ghost cs = checks@.map_values(|c: GhCheck| c@);
    let mut pending = false;
    let mut failed = false;
    let mut i: usize = 0;
    while i < checks.len()
        invariant
            i <= checks.len(),
            cs == checks@.map_values(|c: GhCheck| c@),
            pending == exists|j: int| 0 <= j < i && check_pending(#[trigger] cs[j]),
            failed == exists|j: int| 0 <= j < i && check_failed(#[trigger] cs[j]),
        decreases checks.len() - i,
    {
        assert(cs[i as int] == checks@[i as int]@);
        if is_pending(&checks[i]) {
            pending = true;
        }
        if is_failed(&checks[i]) {
            failed = true;
        }
        i = i + 1;
    }
    (pending, failed)
}

/// The state a pull request's card shows: draft, conflicting, checks failed,
/// checks pending, review required, or ready, the first that applies.
pub open spec fn spec_merge_state(v: GhPullRequestView, pending: bool, failed: bool) -> Seq<char> {
    if v.is_draft {
        "draft"@
    } else if v.merge_state_status == "DIRTY"@ {
        "conflicting"@
    } else if failed {
        "checksFailed"@
    } else if pending {
        "checksPending"@
    } else if v.review_decision == "REVIEW_REQUIRED"@ || v.review_decision == "CHANGES_REQUESTED"@
        || v.merge_state_status == "BLOCKED"@ {
        "reviewRequired"@
    } else {
        "ready"@
    }
}

/// Whether GitHub can merge the pull request: yes when clean, with hooks or
/// unstable, no when conflicting, unknown otherwise.
pub open spec fn spec_mergeable(status: Seq<char>) -> Option<bool> {
    if status == "CLEAN"@ || status == "HAS_HOOKS"@ || status == "UNSTABLE"@ {
        Some(true)
    } else if status == "DIRTY"@ {
        Some(false)
    } else {
        None
    }
}

/// The review part of the attention state.
pub open spec fn review_word(decision: Seq<char>) -> Seq<char> {
    if decision == "APPROVED"@ {
        "approved"@
    } else if decision == "CHANGES_REQUESTED"@ {
        "changesRequested"@
    } else if decision == "REVIEW_REQUIRED"@ {
        "reviewRequired"@
    } else if decision.len() == 0 {
        "none"@
    } else {
        "other"@
    }
}

/// The checks part of the attention state.
pub open spec fn checks_word(checks: Seq<GhCheckView>, pending: bool, failed: bool) -> Seq<char> {
    if failed {
        "failed"@
    } else if pending {
        "pending"@
    } else if checks.len() == 0 {
        "none"@
    } else {
        "passed"@
    }
}

/// What a notification compares to tell whether a pull request needs
/// attention again: `review=<review>|checks=<checks>`, made of states only,
/// never of the pull request's own text.
pub open spec fn spec_attention_state(v: GhPullRequestView, pending: bool, failed: bool) -> Seq<char> {
    "review="@ + review_word(v.review_decision) + "|checks="@ + checks_word(v.checks, pending, failed)
}

/// The attention state of a pull request.
pub fn normalized_attention_state(value: &GhPullRequest, checks_pending: bool, checks_failed: bool) -> (r: String)
    ensures
        r@ == spec_attention_state(value@, checks_pending, checks_failed),
{
    let d = value.review_decision.as_str();
    let review = if same_text(d, "APPROVED") {
        "approved"
    } else if same_text(d, "CHANGES_REQUESTED") {
        "changesRequested"
    } else if same_text(d, "REVIEW_REQUIRED") {
        "reviewRequired"
    } else if chars_of(d).len() == 0 {
        "none"
    } else {
        "other"
    };
    let checks = if checks_failed {
        "failed"
    } else if checks_pending {
        "pending"
    } else if value.status_check_rollup.len() == 0 {
        "none"
    } else {
        "passed"
    };
    let mut v = chars_of("review=");
    push_str(&mut v, review);
    push_str(&mut v, "|checks=");
    push_str(&mut v, checks);
    string_of(&v)
}

/// A pull request as the board shows it, with the commits that the local
/// checkout and GitHub each have that the other has not.
pub open spec fn spec_hydrate(v: GhPullRequestView, local_commits: u32, remote_commits: u32) -> PullRequestView {
    let pending = any_pending(v.checks);
    let failed = any_failed(v.checks);
    PullRequestView {
        number: v.number,
        title: v.title,
        url: v.url,
        draft: v.is_draft,
        mergeable: spec_mergeable(v.merge_state_status),
        merge_state: spec_merge_state(v, pending, failed),
        attention_state: spec_attention_state(v, pending, failed),
        head_branch: v.head_ref_name,
        base_branch: v.base_ref_name,
        head_sha: v.head_ref_oid,
        local_commits: local_commits,
        remote_commits: remote_commits,
    }
}

/// A pull request as the board shows it.
pub fn hydrate_pull_request(value: &GhPullRequest, local_commits: u32, remote_commits: u32) -> (r: PullRequest)
    ensures
        r@ == spec_hydrate(value@, local_commits, remote_commits),
{
    let (pending, failed) = check_summary(&value.status_check_rollup);
    let m = value.merge_state_status.as_str();
    let merge_state = if value.is_draft {
        "draft"
    } else if same_text(m, "DIRTY") {
        "conflicting"
    } else if failed {
        "checksFailed"
    } else if pending {
        "checksPending"
    } else if same_text(value.review_decision.as_str(), "REVIEW_REQUIRED")
        || same_text(value.review_decision.as_str(), "CHANGES_REQUESTED") || same_text(m, "BLOCKED") {
        "reviewRequired"
    } else {
        "ready"
    };
    let mergeable = if same_text(m, "CLEAN") || same_text(m, "HAS_HOOKS") || same_text(m, "UNSTABLE") {
        Some(true)
    } else if same_text(m, "DIRTY") {
        Some(false)
    } else {
        None
    };
    PullRequest {
        number: value.number,
        title: value.title.clone(),
        url: value.url.clone(),
        draft: value.is_draft,
        mergeable,
        merge_state: String::from_str(merge_state),
        attention_state: normalized_attention_state(value, pending, failed),
        head_branch: value.head_ref_name.clone(),
        base_branch: value.base_ref_name.clone(),
        head_sha: value.head_ref_oid.clone(),
        local_commits,
        remote_commits,
    }
}

/// A pull request concerns the user when they wrote it, are assigned to it
/// or are asked to review it.
pub open spec fn spec_relevant(v: GhPullRequestView, login: Seq<char>) -> bool {
    v.author == Some(login) || v.assignees.contains(login) || v.review_requests.contains(login)
}

fn any_login(accounts: &Vec<GhAccount>, login: &str) -> (r: bool)
    ensures
        r == logins(accounts@).contains(login@),
{
    let ghost ls = logins(accounts@);
    let mut i: usize = 0;
    while i < accounts.len()
        invariant
            i <= accounts.len(),
            ls == logins(accounts@),
            forall|j: int| 0 <= j < i ==> ls[j] != login@,
        decreases accounts.len() - i,
    {
        if same_text(accounts[i].login.as_str(), login) {
            assert(ls[i as int] == login@);
            return true;
        }
        i = i + 1;
    }
    false
}

/// Whether a pull request concerns the user.
pub fn relevant(value: &GhPullRequest, login: &str) -> (r: bool)
    ensures
        r == spec_relevant(value@, login@),
{
    let by_author = match &value.author {
        Some(a) => same_text(a.login.as_str(), login),
        None => false,
    };
    by_author || any_login(&value.assignees, login) || any_login(&value.review_requests, login)
}

/// The identifier of a pull request's work item.
pub open spec fn spec_pull_request_id(project_id: Seq<char>, number: u64) -> Seq<char> {
    project_id + "::pull-request::"@ + decimal(number as nat)
}

/// The identifier of a pull request's work item.
pub fn pull_request_id(project_id: &str, number: u64) -> (r: String)
    ensures
        r@ == spec_pull_request_id(project_id@, number),
{
    let mut v = chars_of(project_id);
    push_str(&mut v, "::pull-request::");
    push_chars(&mut v, &decimal_of(number as u128));
    string_of(&v)
}

/// The repository of the `origin` remote (the output of `git remote get-url
/// origin`, trimmed), when it is on GitHub.
pub fn repository_name(remote_url: Option<String>) -> (r: Option<String>)
    ensures
        match remote_url {
            Some(u) => opt_string(r) == spec_parse_repository(trim(u@)),
            None => r is None,
        },
{
    match remote_url {
        Some(u) => {
            let t = string_of(&trim_chars(&chars_of(u.as_str())));
            parse_repository(t.as_str())
        },
        None => None,
    }
}

/// The commits that the local checkout and the pull request each have that
/// the other has not: none when they are at the same commit; else what Git
/// counted, or one commit to fetch when Git could not tell.
pub open spec fn spec_synchronization(local_sha: Seq<char>, remote_sha: Seq<char>, counted: Option<(u32, u32)>) -> (u32, u32) {
    if local_sha == remote_sha {
        (0, 0)
    } else {
        match counted {
            Some(c) => c,
            None => (0, 1),
        }
    }
}

/// The commits that the local checkout and the pull request each have that
/// the other has not. `counted` is Git's count, asked only when the commits
/// differ.
pub fn synchronization(local_sha: &str, remote_sha: &str, counted: Option<(u32, u32)>) -> (r: (u32, u32))
    ensures
        r == spec_synchronization(local_sha@, remote_sha@, counted),
{
    if same_text(local_sha, remote_sha) {
        (0, 0)
    } else {
        match counted {
            Some(c) => c,
            None => (0, 1),
        }
    }
}

/// The work item of a pull request that has no local branch or checkout.
pub open spec fn spec_remote_item(project_id: Seq<char>, v: GhPullRequestView) -> WorkItemView {
    WorkItemView {
        id: spec_pull_request_id(project_id, v.number),
        project_id: project_id,
        branch: None,
        worktree_path: None,
        head_sha: v.head_ref_oid,
        last_commit_subject: v.title,
        status: WorkStatus::Ready,
        pull_request: Some(spec_hydrate(v, 0, 0)),
        completed: false,
        additions: 0,
        deletions: 0,
        changed_files: 0,
        ahead: 0,
        behind: 0,
        updated_at: 0,
    }
}

/// The work item of a pull request that has no local branch or checkout.
pub fn remote_pull_request_item(project_id: &str, value: &GhPullRequest) -> (r: WorkItem)
    ensures
        r@ == spec_remote_item(project_id@, value@),
{
    WorkItem {
        id: pull_request_id(project_id, value.number),
        project_id: project_id.to_string(),
        branch: None,
        worktree_path: None,
        head_sha: value.head_ref_oid.clone(),
        last_commit_subject: value.title.clone(),
        status: WorkStatus::Ready,
        pull_request: Some(hydrate_pull_request(value, 0, 0)),
        completed: false,
        additions: 0,
        deletions: 0,
        changed_files: 0,
        ahead: 0,
        behind: 0,
        updated_at: 0,
    }
}

/// A work item belongs to a pull request when it is on the pull request's
/// branch, or has no branch and is at the pull request's head commit.
pub open spec fn belongs_to(v: GhPullRequestView) -> spec_fn(WorkItemView) -> bool {
    |w: WorkItemView| w.branch == Some(v.head_ref_name) || (w.branch is None && w.head_sha == v.head_ref_oid)
}

/// The first work item that belongs to a pull request.
pub fn local_match(items: &Vec<WorkItem>, value: &GhPullRequest) -> (r: Option<usize>)
    ensures
        r matches Some(i) ==> i < items.len() && first_match(items_view(items@), belongs_to(value@)) == Some(i as int),
        r is None ==> first_match(items_view(items@), belongs_to(value@)) is None,
{
    let ghost ws = items_view(items@);
    let ghost p = belongs_to(value@);
    let mut i: usize = 0;
    while i < items.len()
        invariant
            i <= items.len(),
            ws == items_view(items@),
            p == belongs_to(value@),
            forall|j: int| 0 <= j < i ==> !(#[trigger] p(ws[j])),
        decreases items.len() - i,
    {
        let w = &items[i];
        assert(ws[i as int] == w@);
        let hit = match &w.branch {
            Some(b) => same_text(b.as_str(), value.head_ref_name.as_str()),
            None => same_text(w.head_sha.as_str(), value.head_ref_oid.as_str()),
        };
        if hit {
            proof {
                lemma_first_match_at(ws, p, i as int);
            }
            return Some(i);
        }
        i = i + 1;
    }
    proof {
        lemma_first_match_none(ws, p);
    }
    None
}

/// One pull request applied to the work items: the item that belongs to it
/// takes its identifier and shows it; otherwise it is added when it
/// concerns the user. `counted` is what Git counted for the item that
/// belongs to it.
pub open spec fn spec_apply(
    items: Seq<WorkItemView>,
    project_id: Seq<char>,
    v: GhPullRequestView,
    login: Seq<char>,
    counted: Option<(u32, u32)>,
) -> Seq<WorkItemView> {
    match first_match(items, belongs_to(v)) {
        Some(i) => {
            let (local_commits, remote_commits) = spec_synchronization(items[i].head_sha, v.head_ref_oid, counted);
            items.update(i, WorkItemView {
                id: spec_pull_request_id(project_id, v.number),
                pull_request: Some(spec_hydrate(v, local_commits, remote_commits)),
                ..items[i]
            })
        },
        None => if spec_relevant(v, login) {
            items.push(spec_remote_item(project_id, v))
        } else {
            items
        },
    }
}

/// The first `n` pull requests applied to the work items, in order.
pub open spec fn spec_apply_all(
    items: Seq<WorkItemView>,
    project_id: Seq<char>,
    prs: Seq<GhPullRequestView>,
    login: Seq<char>,
    counted: Seq<Option<(u32, u32)>>,
    n: nat,
) -> Seq<WorkItemView>
    decreases n,
{
    if n == 0 {
        items
    } else {
        let before = spec_apply_all(items, project_id, prs, login, counted, (n - 1) as nat);
        spec_apply(before, project_id, prs[n - 1], login, counted[n - 1])
    }
}

/// What asking GitHub for a project's pull requests came to.
pub enum PullRequestLookup {
    /// The GitHub CLI is not installed.
    CliMissing,
    /// The CLI could not tell who the user is.
    SignedOut,
    /// Listing the pull requests failed, with the CLI's error.
    Failed(String),
    /// The open pull requests, the user's login, and for each pull request
    /// what Git counted for the work item that belongs to it.
    Listed { login: String, pull_requests: Vec<GhPullRequest>, counted: Vec<Option<(u32, u32)>> },
}

/// A project enriched with its GitHub state: nothing changes when the
/// project is not on GitHub; else it names its repository and either the
/// error that stopped the lookup or its pull requests, applied in order,
/// with the work items newest first again.
pub open spec fn spec_enrich(p: ProjectView, repository: Option<Seq<char>>, lookup: PullRequestLookup) -> ProjectView {
    match repository {
        None => p,
        Some(r) => {
            let named = ProjectView { github_repository: Some(r), ..p };
            match lookup {
                PullRequestLookup::CliMissing => ProjectView { github_error: Some("GitHub CLI is not installed"@), ..named },
                PullRequestLookup::SignedOut => ProjectView {
                    github_error: Some("Sign in with `gh auth login` to load pull requests"@),
                    ..named
                },
                PullRequestLookup::Failed(e) => ProjectView { github_error: Some(e@), ..named },
                PullRequestLookup::Listed { login, pull_requests, counted } => ProjectView {
                    work_items: newest_first(
                        spec_apply_all(p.work_items, p.id, pull_requests_view(pull_requests@), login@, counted@, pull_requests@.len()),
                    ),
                    ..named
                },
            }
        },
    }
}

pub open spec fn lookup_well_formed(lookup: PullRequestLookup) -> bool {
    lookup matches PullRequestLookup::Listed { pull_requests, counted, .. } ==> counted.len() == pull_requests.len()
}

/// Applies one pull request to the work items.
fn apply(items: &mut Vec<WorkItem>, project_id: &str, value: &GhPullRequest, login: &str, counted: Option<(u32, u32)>)
    ensures
        items_view(final(items)@) == spec_apply(items_view(old(items)@), project_id@, value@, login@, counted),
{
    let ghost before = items_view(items@);
    match local_match(items, value) {
        Some(i) => {
            let (local_commits, remote_commits) = synchronization(items[i].head_sha.as_str(), value.head_ref_oid.as_str(), counted);
            assert(before[i as int] == items@[i as int]@);
            let mut item = items.remove(i);
            item.id = pull_request_id(project_id, value.number);
            item.pull_request = Some(hydrate_pull_request(value, local_commits, remote_commits));
            items.insert(i, item);
            assert(items_view(items@) =~= spec_apply(before, project_id@, value@, login@, counted));
        },
        None => {
            if relevant(value, login) {
                items.push(remote_pull_request_item(project_id, value));
                assert(items_view(items@) =~= before.push(spec_remote_item(project_id@, value@)));
            }
        },
    }
}

/// Adds what GitHub knows to a project.
pub fn enrich_project(project: &mut Project, repository: Option<String>, lookup: PullRequestLookup)
    requires
        lookup_well_formed(lookup),
    ensures
        final(project)@ == spec_enrich(old(project)@, opt_string(repository), lookup),
{
    let r = match repository {
        None => return,
        Some(r) => r,
    };
    project.github_repository = Some(r);
    match lookup {
        PullRequestLookup::CliMissing => {
            project.github_error = Some(String::from_str("GitHub CLI is not installed"));
        },
        PullRequestLookup::SignedOut => {
            project.github_error = Some(String::from_str("Sign in with `gh auth login` to load pull requests"));
        },
        PullRequestLookup::Failed(e) => {
            project.github_error = Some(e);
        },
        PullRequestLookup::Listed { login, pull_requests, counted } => {
            let ghost start = items_view(project.work_items@);
            let ghost prs = pull_requests_view(pull_requests@);
            let mut items: Vec<WorkItem> = Vec::new();
            std::mem::swap(&mut items, &mut project.work_items);
            let mut k: usize = 0;
            while k < pull_requests.len()
                invariant
                    k <= pull_requests.len(),
                    counted.len() == pull_requests.len(),
                    prs == pull_requests_view(pull_requests@),
                    items_view(items@) == spec_apply_all(start, project.id@, prs, login@, counted@, k as nat),
                decreases pull_requests.len() - k,
            {
                assert(prs[k as int] == pull_requests@[k as int]@);
                apply(&mut items, project.id.as_str(), &pull_requests[k], login.as_str(), counted[k]);
                k = k + 1;
            }
            project.work_items = sort_newest_first(items);
        },
    }
}

/// What the GitHub CLI reports about the user's setup.
#[derive(Debug)]
pub struct GitHubStatus {
    pub installed: bool,
    pub authenticated: bool,
    pub account: Option<String>,
    pub version: Option<String>,
    pub error: Option<String>,
}

/// The setup report: not installed when the CLI was not found; else its
/// version (the first line of `gh --version`, when that succeeded) and the
/// account it is signed in to, or the error that asks the user to sign in.
pub fn github_status(installed: bool, version_output: Option<String>, user: Result<String, String>) -> (r: GitHubStatus)
    ensures
        !installed ==> !r.installed && !r.authenticated && r.account is None && r.version is None
            && opt_string(r.error) == Some("GitHub CLI was not found. Install it, then refresh settings."@),
        installed ==> r.installed && opt_string(r.version) == match version_output {
            Some(v) => if lines(v@).len() > 0 { Some(lines(v@)[0]) } else { None },
            None => None,
        },
        installed && user is Ok ==> r.authenticated && opt_string(r.account) == Some(user->Ok_0@) && r.error is None,
        installed && user is Err ==> !r.authenticated && r.account is None
            && opt_string(r.error) == Some("Sign in with `gh auth login`: "@ + user->Err_0@),
{
    if !installed {
        return GitHubStatus {
            installed: false,
            authenticated: false,
            account: None,
            version: None,
            error: Some(String::from_str("GitHub CLI was not found. Install it, then refresh settings.")),
        };
    }
    let version = match version_output {
        Some(v) => {
            let ls = lines_of(&chars_of(v.as_str()));
            if ls.len() > 0 {
                assert(seqs(ls@)[0] == ls@[0]@);
                Some(string_of(&ls[0]))
            } else {
                None
            }
        },
        None => None,
    };
    match user {
        Ok(login) => GitHubStatus { installed: true, authenticated: true, account: Some(login), version, error: None },
        Err(e) => {
            let mut v = chars_of("Sign in with `gh auth login`: ");
            push_str(&mut v, e.as_str());
            GitHubStatus { installed: true, authenticated: false, account: None, version, error: Some(string_of(&v)) }
        },
    }
}

/// Pull requests never take a work item away: every item of the project is
/// still listed once they are applied, and the list stays newest first.
pub proof fn law_enrich_keeps_items_newest_first(p: ProjectView, repository: Seq<char>, login: String, pull_requests: Vec<GhPullRequest>, counted: Vec<Option<(u32, u32)>>)
    requires
        counted.len() == pull_requests.len(),
    ensures
        ({
            let e = spec_enrich(p, Some(repository), PullRequestLookup::Listed { login, pull_requests, counted });
            &&& crate::git::work_item::is_newest_first(e.work_items)
            &&& e.work_items.len() >= p.work_items.len()
        }),
{
    let applied = spec_apply_all(p.work_items, p.id, pull_requests_view(pull_requests@), login@, counted@, pull_requests@.len());
    lemma_apply_all_len(p.work_items, p.id, pull_requests_view(pull_requests@), login@, counted@, pull_requests@.len());
    crate::git::work_item::lemma_newest_first_sorted(applied);
}

proof fn lemma_apply_all_len(
    items: Seq<WorkItemView>,
    project_id: Seq<char>,
    prs: Seq<GhPullRequestView>,
    login: Seq<char>,
    counted: Seq<Option<(u32, u32)>>,
    n: nat,
)
    ensures
        spec_apply_all(items, project_id, prs, login, counted, n).len() >= items.len(),
    decreases n,
{
    if n > 0 {
        lemma_apply_all_len(items, project_id, prs, login, counted, (n - 1) as nat);
        let before = spec_apply_all(items, project_id, prs, login, counted, (n - 1) as nat);
        match first_match(before, belongs_to(prs[n - 1])) {
            Some(i) => {
                crate::text::lemma_first_match_some(before, belongs_to(prs[n - 1]));
            },
            None => {},
        }
    }
}

/// A pull request on which changes were requested, or that still needs a
/// review, or that GitHub blocks, is never shown as ready: once it is not a
/// draft, not conflicting and has no failed or pending check, it shows that
/// a review is required. Conversely, a pull request shown as ready has none
/// of these.
pub proof fn law_review_blocks_ready(v: GhPullRequestView, local_commits: u32, remote_commits: u32)
    ensures
        !v.is_draft && v.merge_state_status != "DIRTY"@
            && (forall|i: int| 0 <= i < v.checks.len() ==> !check_failed(#[trigger] v.checks[i]) && !check_pending(v.checks[i]))
            && (v.review_decision == "CHANGES_REQUESTED"@ || v.review_decision == "REVIEW_REQUIRED"@
                || v.merge_state_status == "BLOCKED"@)
            ==> spec_hydrate(v, local_commits, remote_commits).merge_state == "reviewRequired"@,
        spec_hydrate(v, local_commits, remote_commits).merge_state == "ready"@ ==> {
            &&& !v.is_draft
            &&& v.review_decision != "CHANGES_REQUESTED"@
            &&& v.review_decision != "REVIEW_REQUIRED"@
            &&& v.merge_state_status != "BLOCKED"@
            &&& v.merge_state_status != "DIRTY"@
            &&& forall|i: int| 0 <= i < v.checks.len() ==> !check_failed(#[trigger] v.checks[i]) && !check_pending(v.checks[i])
        },
{
    reveal_strlit("ready");
    reveal_strlit("reviewRequired");
    reveal_strlit("checksPending");
    reveal_strlit("checksFailed");
    reveal_strlit("conflicting");
    reveal_strlit("draft");
    let pending = any_pending(v.checks);
    let failed = any_failed(v.checks);
    assert("ready"@.len() == 5);
    assert("draft"@.len() == 5 && "draft"@[0] != "ready"@[0]);
    assert("conflicting"@.len() != 5);
    assert("checksFailed"@.len() != 5);
    assert("checksPending"@.len() != 5);
    assert("reviewRequired"@.len() != 5);
    if spec_merge_state(v, pending, failed) == "ready"@ {
        assert(!v.is_draft);
        assert(v.merge_state_status != "DIRTY"@);
        assert(!failed);
        assert(!pending);
        assert forall|i: int| 0 <= i < v.checks.len() implies !check_failed(#[trigger] v.checks[i]) && !check_pending(v.checks[i]) by {
            if check_failed(v.checks[i]) {
                assert(failed);
            }
            if check_pending(v.checks[i]) {
                assert(pending);
            }
        }
    }
}


/// The state a pull request's card shows, by priority: a draft shows as a
/// draft; otherwise a conflict shows first, then a failed check, then a
/// pending one. GitHub's merge status tells whether it can be merged: yes
/// when clean, with hooks or unstable, no when conflicting.
pub proof fn law_merge_state_priority(v: GhPullRequestView, local_commits: u32, remote_commits: u32)
    ensures
        v.is_draft ==> spec_hydrate(v, local_commits, remote_commits).merge_state == "draft"@,
        !v.is_draft && v.merge_state_status == "DIRTY"@ ==> spec_hydrate(v, local_commits, remote_commits).merge_state
            == "conflicting"@,
        !v.is_draft && v.merge_state_status != "DIRTY"@ && (exists|i: int| 0 <= i < v.checks.len() && check_failed(#[trigger] v.checks[i]))
            ==> spec_hydrate(v, local_commits, remote_commits).merge_state == "checksFailed"@,
        !v.is_draft && v.merge_state_status != "DIRTY"@ && (forall|i: int| 0 <= i < v.checks.len() ==> !check_failed(#[trigger] v.checks[i]))
            && (exists|i: int| 0 <= i < v.checks.len() && check_pending(#[trigger] v.checks[i]))
            ==> spec_hydrate(v, local_commits, remote_commits).merge_state == "checksPending"@,
        v.merge_state_status == "CLEAN"@ || v.merge_state_status == "HAS_HOOKS"@ || v.merge_state_status == "UNSTABLE"@
            ==> spec_hydrate(v, local_commits, remote_commits).mergeable == Some(true),
        v.merge_state_status == "DIRTY"@ ==> spec_hydrate(v, local_commits, remote_commits).mergeable == Some(false),
        spec_hydrate(v, local_commits, remote_commits).draft == v.is_draft,
        spec_hydrate(v, local_commits, remote_commits).number == v.number,
        spec_hydrate(v, local_commits, remote_commits).head_sha == v.head_ref_oid,
{
    reveal_strlit("DIRTY");
    reveal_strlit("CLEAN");
    reveal_strlit("HAS_HOOKS");
    reveal_strlit("UNSTABLE");
    assert("DIRTY"@[0] != "CLEAN"@[0]);
    assert("DIRTY"@.len() != "HAS_HOOKS"@.len());
    assert("DIRTY"@.len() != "UNSTABLE"@.len());
    if !v.is_draft && v.merge_state_status != "DIRTY"@ && (forall|i: int| 0 <= i < v.checks.len() ==> !check_failed(#[trigger] v.checks[i])) {
        assert(!any_failed(v.checks));
    }
}

/// The attention state names the review decision and the checks in words
/// of its own: changes requested, review required, approved; checks failed
/// when any failed, pending when any is pending and none failed, passed when
/// all passed.
pub proof fn law_attention_state_words(v: GhPullRequestView, local_commits: u32, remote_commits: u32)
    ensures
        v.review_decision == "CHANGES_REQUESTED"@ ==> spec_hydrate(v, local_commits, remote_commits).attention_state.subrange(
            0,
            23,
        ) == "review=changesRequested"@,
        (exists|i: int| 0 <= i < v.checks.len() && check_failed(#[trigger] v.checks[i])) ==> {
            let a = spec_hydrate(v, local_commits, remote_commits).attention_state;
            a.subrange(a.len() - 14, a.len() as int) == "|checks=failed"@
        },
        v.checks.len() > 0 && (forall|i: int| 0 <= i < v.checks.len() ==> !check_failed(#[trigger] v.checks[i]) && !check_pending(v.checks[i]))
            ==> {
            let a = spec_hydrate(v, local_commits, remote_commits).attention_state;
            a.subrange(a.len() - 14, a.len() as int) == "|checks=passed"@
        },
{
    reveal_strlit("review=");
    reveal_strlit("changesRequested");
    reveal_strlit("review=changesRequested");
    reveal_strlit("|checks=");
    reveal_strlit("failed");
    reveal_strlit("passed");
    reveal_strlit("|checks=failed");
    reveal_strlit("|checks=passed");
    let pending = any_pending(v.checks);
    let failed = any_failed(v.checks);
    let a = spec_attention_state(v, pending, failed);
    if v.review_decision == "CHANGES_REQUESTED"@ {
        reveal_strlit("APPROVED");
        reveal_strlit("CHANGES_REQUESTED");
        assert("APPROVED"@.len() != "CHANGES_REQUESTED"@.len());
        assert(v.review_decision != "APPROVED"@);
        assert(review_word(v.review_decision) == "changesRequested"@);
        assert(a.subrange(0, 23) =~= "review=changesRequested"@);
    }
    if failed {
        assert(a.subrange(a.len() - 14, a.len() as int) =~= "|checks=failed"@);
    }
    if v.checks.len() > 0 && (forall|i: int| 0 <= i < v.checks.len() ==> !check_failed(#[trigger] v.checks[i]) && !check_pending(v.checks[i])) {
        assert(!failed);
        assert(!pending);
        assert(a.subrange(a.len() - 14, a.len() as int) =~= "|checks=passed"@);
    }
}

} // verus!
