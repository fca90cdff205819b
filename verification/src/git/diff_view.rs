//! The patch of a work item against what it is compared with: which
//! references to compare, how the pull request's base and head are found
//! when GitHub cannot be reached, and how untracked files join the patch.
use crate::external::{chars_of, string_of, utf8_text};
use crate::git::command::{bytes_text, error, spec_bytes_text, spec_error, GitOutput};
use crate::git::remote::{spec_base_reference, spec_pull_request_head_reference};
use crate::git::worktree::opt_view;
use crate::text::{chars_eq, decimal, decimal_of, push_chars, push_str, seqs, split, split_bytes, trim, trim_chars};
use vstd::prelude::*;
use vstd::utf8::{decode_utf8, valid_utf8};

verus! {

/// A request for the patch of a work item.
#[derive(Debug)]
pub struct WorkItemDiffRequest {
    pub project_path: String,
    pub project_id: String,
    pub branch: Option<String>,
    pub worktree_path: Option<String>,
    pub head_sha: String,
    pub default_branch: Option<String>,
    pub pull_request_number: Option<u64>,
    pub pull_request_base_branch: Option<String>,
    pub pull_request_head_sha: Option<String>,
}

/// The patch of a work item, with what it was compared with.
#[derive(Debug)]
pub struct WorkItemDiff {
    pub patch: String,
    pub comparison_label: String,
}

/// What a patch compares: the base commit, the head reference when the
/// patch is not taken against a checkout's working tree, and the label.
#[derive(Debug)]
pub struct DiffReferences {
    pub base: String,
    pub head: Option<String>,
    pub label: String,
}

pub struct DiffReferencesView {
    pub base: Seq<char>,
    pub head: Option<Seq<char>>,
    pub label: Seq<char>,
}

impl View for DiffReferences {
    type V = DiffReferencesView;

    open spec fn view(&self) -> DiffReferencesView {
        DiffReferencesView { base: self.base@, head: opt_view(self.head), label: self.label@ }
    }
}

pub open spec fn text_view(r: Result<String, String>) -> Result<Seq<char>, Seq<char>> {
    match r {
        Ok(t) => Ok(t@),
        Err(e) => Err(e@),
    }
}

pub open spec fn unit_view(r: Result<(), String>) -> Result<(), Seq<char>> {
    match r {
        Ok(()) => Ok(()),
        Err(e) => Err(e@),
    }
}

/// The work item must still be what the board showed: the checkout at the
/// scanned head, the branch at the scanned head, and the checkout still on
/// the branch. Each answer of Git is read only when it is needed.
pub open spec fn spec_validate_target(
    branch: Option<Seq<char>>,
    head_sha: Seq<char>,
    has_checkout: bool,
    checkout_head: Result<Seq<char>, Seq<char>>,
    branch_head: Result<Seq<char>, Seq<char>>,
    current_branch: Result<Seq<char>, Seq<char>>,
) -> Result<(), Seq<char>> {
    if has_checkout && checkout_head is Err {
        Err(checkout_head->Err_0)
    } else if has_checkout && trim(checkout_head->Ok_0) != head_sha {
        Err("This work item changed since the last scan. Refresh and try again."@)
    } else {
        match branch {
            None => Ok(()),
            Some(b) => match branch_head {
                Err(e) => Err(e),
                Ok(h) => if trim(h) != head_sha {
                    Err("This work item branch changed since the last scan. Refresh and try again."@)
                } else if !has_checkout {
                    Ok(())
                } else {
                    match current_branch {
                        Err(e) => Err(e),
                        Ok(c) => if trim(c) != b {
                            Err("The selected worktree now contains a different branch."@)
                        } else {
                            Ok(())
                        },
                    }
                },
            },
        }
    }
}

fn trimmed_is(text: &str, expected: &str) -> (r: bool)
    ensures
        r == (trim(text@) == expected@),
{
    chars_eq(&trim_chars(&chars_of(text)), &chars_of(expected))
}

/// Checks that the work item is still what the board showed.
pub fn validate_target(
    request: &WorkItemDiffRequest,
    has_checkout: bool,
    checkout_head: &Result<String, String>,
    branch_head: &Result<String, String>,
    current_branch: &Result<String, String>,
) -> (r: Result<(), String>)
    ensures
        unit_view(r) == spec_validate_target(opt_view(request.branch), request.head_sha@, has_checkout, text_view(*checkout_head), text_view(*branch_head), text_view(*current_branch)),
{
    if has_checkout {
        match checkout_head {
            Err(e) => return Err(e.clone()),
            Ok(h) => {
                if !trimmed_is(h.as_str(), request.head_sha.as_str()) {
                    return Err(String::from_str("This work item changed since the last scan. Refresh and try again."));
                }
            },
        }
    }
    match &request.branch {
        None => Ok(()),
        Some(b) => match branch_head {
            Err(e) => Err(e.clone()),
            Ok(h) => {
                if !trimmed_is(h.as_str(), request.head_sha.as_str()) {
                    Err(String::from_str("This work item branch changed since the last scan. Refresh and try again."))
                } else if !has_checkout {
                    Ok(())
                } else {
                    match current_branch {
                        Err(e) => Err(e.clone()),
                        Ok(c) => {
                            if !trimmed_is(c.as_str(), b.as_str()) {
                                Err(String::from_str("The selected worktree now contains a different branch."))
                            } else {
                                Ok(())
                            }
                        },
                    }
                }
            },
        },
    }
}

/// How a patch is compared.
#[derive(Debug)]
pub enum Comparison {
    /// Against the pull request's base.
    PullRequest(u64),
    /// Against the work item's own head: only the uncommitted changes.
    WorkingTree,
    /// Against the default branch.
    DefaultBranch(String),
}

/// How a patch is compared: against the pull request's base when it is a
/// pull request; against its own head when there is no default branch or
/// the item is the default branch; else against the default branch.
pub open spec fn spec_comparison(number: Option<u64>, branch: Option<Seq<char>>, default_branch: Option<Seq<char>>) -> (int, Seq<char>) {
    match number {
        Some(n) => (0, Seq::empty()),
        None => match default_branch {
            None => (1, Seq::empty()),
            Some(d) => if branch == Some(d) {
                (1, Seq::empty())
            } else {
                (2, d)
            },
        },
    }
}

pub open spec fn comparison_view(c: Comparison) -> (int, Seq<char>) {
    match c {
        Comparison::PullRequest(_) => (0, Seq::empty()),
        Comparison::WorkingTree => (1, Seq::empty()),
        Comparison::DefaultBranch(d) => (2, d@),
    }
}

/// How a patch is compared.
pub fn comparison(request: &WorkItemDiffRequest) -> (r: Comparison)
    ensures
        comparison_view(r) == spec_comparison(request.pull_request_number, opt_view(request.branch), opt_view(request.default_branch)),
        request.pull_request_number matches Some(n) ==> r == Comparison::PullRequest(n),
{
    if let Some(n) = request.pull_request_number {
        return Comparison::PullRequest(n);
    }
    match &request.default_branch {
        None => Comparison::WorkingTree,
        Some(d) => {
            let same = match &request.branch {
                Some(b) => chars_eq(&chars_of(b.as_str()), &chars_of(d.as_str())),
                None => false,
            };
            if same {
                Comparison::WorkingTree
            } else {
                Comparison::DefaultBranch(d.clone())
            }
        },
    }
}

/// The references of a patch against the item's own head.
pub fn working_tree_references(request: &WorkItemDiffRequest) -> (r: DiffReferences)
    ensures
        r@ == (DiffReferencesView { base: request.head_sha@, head: None, label: "working tree"@ }),
{
    DiffReferences { base: request.head_sha.clone(), head: None, label: String::from_str("working tree") }
}

/// The base branch of a pull request: its own, else the default branch; an
/// error when neither is known.
pub open spec fn spec_pull_request_base_branch(number: u64, base: Option<Seq<char>>, default_branch: Option<Seq<char>>) -> Result<Seq<char>, Seq<char>> {
    match base {
        Some(b) => Ok(b),
        None => match default_branch {
            Some(d) => Ok(d),
            None => Err("Pull request #"@ + decimal(number as nat) + " does not specify a base branch"@),
        },
    }
}

/// The base branch of a pull request.
pub fn pull_request_base_branch(request: &WorkItemDiffRequest, number: u64) -> (r: Result<String, String>)
    ensures
        text_view(r) == spec_pull_request_base_branch(number, opt_view(request.pull_request_base_branch), opt_view(request.default_branch)),
{
    match &request.pull_request_base_branch {
        Some(b) => Ok(b.clone()),
        None => match &request.default_branch {
            Some(d) => Ok(d.clone()),
            None => {
                let mut v = chars_of("Pull request #");
                push_chars(&mut v, &decimal_of(number as u128));
                push_str(&mut v, " does not specify a base branch");
                Err(string_of(&v))
            },
        },
    }
}

/// Where the base of a pull request's patch comes from: the fetch when it
/// succeeded (`Ok(false)`), the cached base when it failed (`Ok(true)`), or
/// the fetch's error when there is no cached base either.
pub open spec fn spec_pull_request_base_source(fetch: Result<(), Seq<char>>, cached: bool) -> Result<bool, Seq<char>> {
    match fetch {
        Ok(()) => Ok(false),
        Err(e) => if cached {
            Ok(true)
        } else {
            Err(e)
        },
    }
}

pub open spec fn bool_view(r: Result<bool, String>) -> Result<bool, Seq<char>> {
    match r {
        Ok(b) => Ok(b),
        Err(e) => Err(e@),
    }
}

/// Where the base of a pull request's patch comes from (`true`: cached).
pub fn pull_request_base_source(fetch: Result<(), String>, cached: bool) -> (r: Result<bool, String>)
    ensures
        bool_view(r) == spec_pull_request_base_source(unit_view(fetch), cached),
{
    match fetch {
        Ok(()) => Ok(false),
        Err(e) => if cached {
            Ok(true)
        } else {
            Err(e)
        },
    }
}

/// The head of a pull request's patch. When the patch is not taken against
/// a local branch or checkout, the pull request's head reference must hold
/// the expected commit: fetched, or cached when the fetch failed; otherwise
/// the error. Against a local branch or checkout, the head reference is used
/// only when the fetch gave the expected commit.
pub open spec fn spec_pull_request_diff_head(
    use_remote_head: bool,
    expected: Seq<char>,
    fetched: Result<Seq<char>, Seq<char>>,
    cached: Option<Seq<char>>,
    head_reference: Seq<char>,
) -> Result<Option<Seq<char>>, Seq<char>> {
    match fetched {
        Ok(f) => if f == expected {
            Ok(Some(head_reference))
        } else if use_remote_head {
            Err("The pull request changed on GitHub. Refresh the project and try again."@)
        } else {
            Ok(None)
        },
        Err(e) => if use_remote_head && cached == Some(expected) {
            Ok(Some(head_reference))
        } else if use_remote_head {
            Err(e)
        } else {
            Ok(None)
        },
    }
}

pub open spec fn opt_text_view(r: Result<Option<String>, String>) -> Result<Option<Seq<char>>, Seq<char>> {
    match r {
        Ok(o) => Ok(opt_view(o)),
        Err(e) => Err(e@),
    }
}

/// The head of a pull request's patch.
pub fn pull_request_diff_head(
    use_remote_head: bool,
    expected: &str,
    fetched: &Result<String, String>,
    cached: &Option<String>,
    head_reference: &str,
) -> (r: Result<Option<String>, String>)
    ensures
        opt_text_view(r) == spec_pull_request_diff_head(use_remote_head, expected@, text_view(*fetched), opt_view(*cached), head_reference@),
{
    match fetched {
        Ok(f) => {
            if chars_eq(&chars_of(f.as_str()), &chars_of(expected)) {
                Ok(Some(head_reference.to_string()))
            } else if use_remote_head {
                Err(String::from_str("The pull request changed on GitHub. Refresh the project and try again."))
            } else {
                Ok(None)
            }
        },
        Err(e) => {
            let hit = match cached {
                Some(c) => chars_eq(&chars_of(c.as_str()), &chars_of(expected)),
                None => false,
            };
            if use_remote_head && hit {
                Ok(Some(head_reference.to_string()))
            } else if use_remote_head {
                Err(e.clone())
            } else {
                Ok(None)
            }
        },
    }
}

/// The label of a pull request's patch: its base branch, marked cached when
/// the base could not be fetched.
pub open spec fn spec_pull_request_label(base_branch: Seq<char>, cached: bool) -> Seq<char> {
    if cached {
        base_branch + " (cached)"@
    } else {
        base_branch
    }
}

/// The label of a pull request's patch.
pub fn pull_request_label(base_branch: &str, cached: bool) -> (r: String)
    ensures
        r@ == spec_pull_request_label(base_branch@, cached),
{
    if cached {
        let mut v = chars_of(base_branch);
        push_str(&mut v, " (cached)");
        string_of(&v)
    } else {
        base_branch.to_string()
    }
}

/// Where the default branch compared with comes from.
#[derive(Debug, Clone, Copy, PartialEq, Eq, Structural)]
pub enum BaseSource {
    Remote,
    Cached,
    Local,
}

/// What Git answered while the references of a pull request's patch were
/// found: whether the base reference was cached before the base branch was
/// fetched, the fetch of the base branch, the commit cached under the head
/// reference, the fetch of the head (the fetched commit), and `git
/// merge-base` of the base reference and the head. Each is read only when
/// the answers before it did not decide the outcome.
pub struct PullRequestReferenceFacts {
    pub base_cached: bool,
    pub base_fetch: Result<(), String>,
    pub head_cached: Option<String>,
    pub head_fetch: Result<String, String>,
    pub merge_base: Result<String, String>,
}

/// Whether a pull request's patch is taken against the pull request's own
/// head: when there is neither a checkout nor a local branch.
pub open spec fn uses_remote_head(request: WorkItemDiffRequest, has_checkout: bool) -> bool {
    !has_checkout && request.branch is None
}

/// The commit the pull request's head is expected at.
pub open spec fn expected_head(request: WorkItemDiffRequest) -> Seq<char> {
    match request.pull_request_head_sha {
        Some(s) => s@,
        None => request.head_sha@,
    }
}

/// The references of a pull request's patch: its base branch, the base
/// reference (fetched, or cached when the fetch failed), the head (see
/// `spec_pull_request_diff_head`), and the merge base of the two, trimmed.
pub open spec fn spec_pull_request_references(
    request: WorkItemDiffRequest,
    has_checkout: bool,
    number: u64,
    facts: PullRequestReferenceFacts,
) -> Result<DiffReferencesView, Seq<char>> {
    match spec_pull_request_base_branch(number, opt_view(request.pull_request_base_branch), opt_view(request.default_branch)) {
        Err(e) => Err(e),
        Ok(base_branch) => match spec_pull_request_base_source(unit_view(facts.base_fetch), facts.base_cached) {
            Err(e) => Err(e),
            Ok(cached) => match spec_pull_request_diff_head(
                uses_remote_head(request, has_checkout),
                expected_head(request),
                text_view(facts.head_fetch),
                opt_view(facts.head_cached),
                spec_pull_request_head_reference(number),
            ) {
                Err(e) => Err(e),
                Ok(head) => match text_view(facts.merge_base) {
                    Err(e) => Err(e),
                    Ok(m) => Ok(DiffReferencesView { base: trim(m), head, label: spec_pull_request_label(base_branch, cached) }),
                },
            },
        },
    }
}

/// A step of finding the references of a pull request's patch.
#[derive(Clone, Copy, Debug, PartialEq, Eq)]
pub enum ReferenceStep {
    /// Nothing has run yet.
    Start,
    /// Look whether the base reference is cached (`base_cached`).
    CheckBaseCache,
    /// Fetch the base branch into the base reference (`base_fetch`).
    FetchBase,
    /// Read the commit cached under the head reference (`head_cached`).
    CheckHeadCache,
    /// Fetch the pull request's head (`head_fetch`).
    FetchHead,
    /// Ask `git merge-base` of the base reference and the merge head
    /// (`merge_base`, see `pull_request_merge_head`).
    MergeBase,
    /// Nothing more runs; the outcome is `pull_request_references`'s.
    Done,
}

/// The step that runs after `last`, given the answers so far: each answer
/// is asked for only when those before it did not decide the outcome.
pub open spec fn spec_next_reference_step(
    request: WorkItemDiffRequest,
    has_checkout: bool,
    number: u64,
    facts: PullRequestReferenceFacts,
    last: ReferenceStep,
) -> ReferenceStep {
    match last {
        ReferenceStep::Start => if spec_pull_request_base_branch(
            number,
            opt_view(request.pull_request_base_branch),
            opt_view(request.default_branch),
        ) is Err {
            ReferenceStep::Done
        } else {
            ReferenceStep::CheckBaseCache
        },
        ReferenceStep::CheckBaseCache => ReferenceStep::FetchBase,
        ReferenceStep::FetchBase => if spec_pull_request_base_source(unit_view(facts.base_fetch), facts.base_cached) is Err {
            ReferenceStep::Done
        } else {
            ReferenceStep::CheckHeadCache
        },
        ReferenceStep::CheckHeadCache => ReferenceStep::FetchHead,
        ReferenceStep::FetchHead => if spec_pull_request_diff_head(
            uses_remote_head(request, has_checkout),
            expected_head(request),
            text_view(facts.head_fetch),
            opt_view(facts.head_cached),
            spec_pull_request_head_reference(number),
        ) is Err {
            ReferenceStep::Done
        } else {
            ReferenceStep::MergeBase
        },
        ReferenceStep::MergeBase => ReferenceStep::Done,
        ReferenceStep::Done => ReferenceStep::Done,
    }
}

fn diff_head_of(request: &WorkItemDiffRequest, has_checkout: bool, number: u64, facts: &PullRequestReferenceFacts) -> (r: Result<Option<String>, String>)
    ensures
        opt_text_view(r) == spec_pull_request_diff_head(
            uses_remote_head(*request, has_checkout),
            expected_head(*request),
            text_view(facts.head_fetch),
            opt_view(facts.head_cached),
            spec_pull_request_head_reference(number),
        ),
{
    let expected = match &request.pull_request_head_sha {
        Some(s) => s.clone(),
        None => request.head_sha.clone(),
    };
    let head_reference = crate::git::remote::pull_request_head_reference(number);
    let use_remote_head = !has_checkout && request.branch.is_none();
    pull_request_diff_head(use_remote_head, expected.as_str(), &facts.head_fetch, &facts.head_cached, head_reference.as_str())
}

/// The step that runs after `last`. The caller runs it, records its answer
/// in `facts`, and asks again until the answer is `Done`.
pub fn next_reference_step(
    request: &WorkItemDiffRequest,
    has_checkout: bool,
    number: u64,
    facts: &PullRequestReferenceFacts,
    last: ReferenceStep,
) -> (r: ReferenceStep)
    ensures
        r == spec_next_reference_step(*request, has_checkout, number, *facts, last),
{
    match last {
        ReferenceStep::Start => if pull_request_base_branch(request, number).is_err() {
            ReferenceStep::Done
        } else {
            ReferenceStep::CheckBaseCache
        },
        ReferenceStep::CheckBaseCache => ReferenceStep::FetchBase,
        ReferenceStep::FetchBase => {
            let fetch = match &facts.base_fetch {
                Ok(()) => Ok(()),
                Err(e) => Err(e.clone()),
            };
            if pull_request_base_source(fetch, facts.base_cached).is_err() {
                ReferenceStep::Done
            } else {
                ReferenceStep::CheckHeadCache
            }
        },
        ReferenceStep::CheckHeadCache => ReferenceStep::FetchHead,
        ReferenceStep::FetchHead => if diff_head_of(request, has_checkout, number, facts).is_err() {
            ReferenceStep::Done
        } else {
            ReferenceStep::MergeBase
        },
        ReferenceStep::MergeBase => ReferenceStep::Done,
        ReferenceStep::Done => ReferenceStep::Done,
    }
}

/// The commit the merge base is asked for: the pull request's head
/// reference when the patch uses it, otherwise the work item's head.
pub fn pull_request_merge_head(request: &WorkItemDiffRequest, has_checkout: bool, number: u64, facts: &PullRequestReferenceFacts) -> (r: String)
    ensures
        r@ == match spec_pull_request_diff_head(
            uses_remote_head(*request, has_checkout),
            expected_head(*request),
            text_view(facts.head_fetch),
            opt_view(facts.head_cached),
            spec_pull_request_head_reference(number),
        ) {
            Ok(Some(h)) => h,
            _ => request.head_sha@,
        },
{
    match diff_head_of(request, has_checkout, number, facts) {
        Ok(Some(h)) => h,
        _ => request.head_sha.clone(),
    }
}

pub open spec fn references_view(r: Result<DiffReferences, String>) -> Result<DiffReferencesView, Seq<char>> {
    match r {
        Ok(d) => Ok(d@),
        Err(e) => Err(e@),
    }
}

/// The references of a pull request's patch, from what Git answered.
pub fn pull_request_references(
    request: &WorkItemDiffRequest,
    has_checkout: bool,
    number: u64,
    facts: &PullRequestReferenceFacts,
) -> (r: Result<DiffReferences, String>)
    ensures
        references_view(r) == spec_pull_request_references(*request, has_checkout, number, *facts),
{
    let base_branch = pull_request_base_branch(request, number)?;
    let base_fetch = match &facts.base_fetch {
        Ok(()) => Ok(()),
        Err(e) => Err(e.clone()),
    };
    let cached = pull_request_base_source(base_fetch, facts.base_cached)?;
    let expected = match &request.pull_request_head_sha {
        Some(s) => s.clone(),
        None => request.head_sha.clone(),
    };
    let head_reference = crate::git::remote::pull_request_head_reference(number);
    let use_remote_head = !has_checkout && request.branch.is_none();
    let head = pull_request_diff_head(use_remote_head, expected.as_str(), &facts.head_fetch, &facts.head_cached, head_reference.as_str())?;
    let merge_output = match &facts.merge_base {
        Ok(m) => Ok(m.clone()),
        Err(e) => Err(e.clone()),
    };
    let base = merge_base(merge_output)?;
    let label = pull_request_label(base_branch.as_str(), cached);
    Ok(DiffReferences { base, head, label })
}

/// Where the default branch comes from: the fetch when it succeeded, else
/// the cached remote branch, else the local branch; the fetch's error when
/// there is neither.
pub open spec fn spec_local_base_source(fetch: Result<(), Seq<char>>, cached: bool, local: bool) -> Result<BaseSource, Seq<char>> {
    match fetch {
        Ok(()) => Ok(BaseSource::Remote),
        Err(e) => if cached {
            Ok(BaseSource::Cached)
        } else if local {
            Ok(BaseSource::Local)
        } else {
            Err(e)
        },
    }
}

pub open spec fn source_view(r: Result<BaseSource, String>) -> Result<BaseSource, Seq<char>> {
    match r {
        Ok(s) => Ok(s),
        Err(e) => Err(e@),
    }
}

/// Where the default branch comes from.
pub fn local_base_source(fetch: Result<(), String>, cached: bool, local: bool) -> (r: Result<BaseSource, String>)
    ensures
        source_view(r) == spec_local_base_source(unit_view(fetch), cached, local),
{
    match fetch {
        Ok(()) => Ok(BaseSource::Remote),
        Err(e) => if cached {
            Ok(BaseSource::Cached)
        } else if local {
            Ok(BaseSource::Local)
        } else {
            Err(e)
        },
    }
}

/// The reference of the default branch to compare with: the remote one
/// when it was fetched or cached, else the local one.
pub open spec fn spec_local_base(source: BaseSource, default_branch: Seq<char>) -> Seq<char> {
    match source {
        BaseSource::Remote | BaseSource::Cached => spec_base_reference(default_branch),
        BaseSource::Local => "refs/heads/"@ + default_branch,
    }
}

/// The reference of the default branch to compare with.
pub fn local_base(source: BaseSource, default_branch: &str) -> (r: String)
    ensures
        r@ == spec_local_base(source, default_branch@),
{
    match source {
        BaseSource::Remote | BaseSource::Cached => crate::git::remote::base_reference(default_branch),
        BaseSource::Local => {
            let mut v = chars_of("refs/heads/");
            push_str(&mut v, default_branch);
            string_of(&v)
        },
    }
}

/// The label of a patch against the default branch: the branch, marked
/// cached or local by where it came from (local only when the project has a
/// remote to prefer).
pub open spec fn spec_local_label(source: BaseSource, default_branch: Seq<char>, has_remote: bool) -> Seq<char> {
    match source {
        BaseSource::Remote => default_branch,
        BaseSource::Cached => default_branch + " (cached)"@,
        BaseSource::Local => if has_remote {
            default_branch + " (local)"@
        } else {
            default_branch
        },
    }
}

/// The label of a patch against the default branch.
pub fn local_label(source: BaseSource, default_branch: &str, has_remote: bool) -> (r: String)
    ensures
        r@ == spec_local_label(source, default_branch@, has_remote),
{
    let mut v = chars_of(default_branch);
    match source {
        BaseSource::Remote => {},
        BaseSource::Cached => push_str(&mut v, " (cached)"),
        BaseSource::Local => if has_remote {
            push_str(&mut v, " (local)");
        },
    }
    string_of(&v)
}

/// The merge base that `git merge-base` printed, trimmed.
pub fn merge_base(output: Result<String, String>) -> (r: Result<String, String>)
    ensures
        text_view(r) == match text_view(output) {
            Ok(t) => Ok(trim(t)),
            Err(e) => Err(e),
        },
{
    match output {
        Ok(t) => Ok(string_of(&trim_chars(&chars_of(t.as_str())))),
        Err(e) => Err(e),
    }
}

/// The arguments of `git diff` for a patch: against a checkout only the base
/// is named (the working tree is the other side); otherwise the head too,
/// the head reference when there is one, else the item's head.
pub open spec fn spec_diff_args(base: Seq<char>, head: Option<Seq<char>>, has_checkout: bool, head_sha: Seq<char>) -> Seq<Seq<char>> {
    let fixed = seq!["diff"@, "--no-ext-diff"@, "--find-renames"@, "--find-copies"@, "--binary"@, "--full-index"@, "--unified=5"@, base];
    if has_checkout {
        fixed.push("--"@)
    } else {
        fixed.push(match head {
            Some(h) => h,
            None => head_sha,
        }).push("--"@)
    }
}

pub open spec fn strings_view(v: Seq<String>) -> Seq<Seq<char>> {
    v.map_values(|s: String| s@)
}

/// The arguments of `git diff` for a patch.
pub fn diff_args(references: &DiffReferences, has_checkout: bool, head_sha: &str) -> (r: Vec<String>)
    ensures
        strings_view(r@) == spec_diff_args(references@.base, references@.head, has_checkout, head_sha@),
{
    let mut r: Vec<String> = Vec::new();
    r.push(String::from_str("diff"));
    r.push(String::from_str("--no-ext-diff"));
    r.push(String::from_str("--find-renames"));
    r.push(String::from_str("--find-copies"));
    r.push(String::from_str("--binary"));
    r.push(String::from_str("--full-index"));
    r.push(String::from_str("--unified=5"));
    r.push(references.base.clone());
    if !has_checkout {
        match &references.head {
            Some(h) => r.push(h.clone()),
            None => r.push(head_sha.to_string()),
        }
    }
    r.push(String::from_str("--"));
    assert(strings_view(r@) =~= spec_diff_args(references@.base, references@.head, has_checkout, head_sha@));
    r
}

/// The untracked files of `git ls-files --others --exclude-standard -z`:
/// the non-empty NUL-separated paths, in order; an error at the first that
/// is not valid UTF-8.
pub open spec fn spec_untracked_paths(fields: Seq<Seq<u8>>) -> Result<Seq<Seq<char>>, Seq<char>>
    decreases fields.len(),
{
    if fields.len() == 0 {
        Ok(Seq::empty())
    } else {
        match spec_untracked_paths(fields.drop_last()) {
            Err(e) => Err(e),
            Ok(before) => {
                let f = fields.last();
                if f.len() == 0 {
                    Ok(before)
                } else if !valid_utf8(f) {
                    Err("An untracked file path is not valid UTF-8"@)
                } else {
                    Ok(before.push(decode_utf8(f)))
                }
            },
        }
    }
}

pub open spec fn paths_view(r: Result<Vec<String>, String>) -> Result<Seq<Seq<char>>, Seq<char>> {
    match r {
        Ok(v) => Ok(strings_view(v@)),
        Err(e) => Err(e@),
    }
}

/// The untracked files of a checkout.
pub fn untracked_paths(stdout: &Vec<u8>) -> (r: Result<Vec<String>, String>)
    ensures
        paths_view(r) == spec_untracked_paths(split(stdout@, 0u8)),
{
    let fields = split_bytes(stdout, 0u8);
    let ghost fs = seqs(fields@);
    let mut r: Vec<String> = Vec::new();
    let mut i: usize = 0;
    assert(strings_view(r@) =~= Seq::<Seq<char>>::empty());
    assert(fs.subrange(0, 0) =~= Seq::<Seq<u8>>::empty());
    while i < fields.len()
        invariant
            i <= fields.len(),
            fs == seqs(fields@),
            fs == split(stdout@, 0u8),
            spec_untracked_paths(fs.subrange(0, i as int)) == Ok::<Seq<Seq<char>>, Seq<char>>(strings_view(r@)),
        decreases fields.len() - i,
    {
        assert(fs.subrange(0, i + 1).drop_last() =~= fs.subrange(0, i as int));
        assert(fs.subrange(0, i + 1).last() == fields@[i as int]@);
        if fields[i].len() > 0 {
            match utf8_text(fields[i].as_slice()) {
                None => {
                    proof {
                        lemma_untracked_error_stays(fs, i as int + 1);
                    }
                    assert(fs.subrange(0, fields.len() as int) =~= fs);
                    return Err(String::from_str("An untracked file path is not valid UTF-8"));
                },
                Some(text) => {
                    let ghost before = strings_view(r@);
                    let path = String::from_str(text);
                    r.push(path);
                    assert(strings_view(r@) =~= before.push(text@));
                },
            }
        }
        i = i + 1;
    }
    assert(fs.subrange(0, fields.len() as int) =~= fs);
    Ok(r)
}

proof fn lemma_untracked_error_stays(fs: Seq<Seq<u8>>, k: int)
    requires
        0 <= k <= fs.len(),
        spec_untracked_paths(fs.subrange(0, k)) is Err,
    ensures
        spec_untracked_paths(fs) == spec_untracked_paths(fs.subrange(0, k)),
    decreases fs.len() - k,
{
    if k < fs.len() {
        assert(fs.subrange(0, k + 1).drop_last() =~= fs.subrange(0, k));
        lemma_untracked_error_stays(fs, k + 1);
    } else {
        assert(fs.subrange(0, k) =~= fs);
    }
}

/// An untracked file added to a patch: the output of `git diff --no-index
/// /dev/null <path>` when there is any (on a line of its own); for an empty
/// file, a header that creates it; otherwise nothing, unless Git failed,
/// which is an error naming the file.
pub open spec fn spec_append_untracked(patch: Seq<char>, path: Seq<char>, output: GitOutput, empty_file: bool) -> Result<Seq<char>, Seq<char>> {
    if output.stdout@.len() > 0 {
        let sep = if patch.len() > 0 && patch.last() != '\n' { seq!['\n'] } else { Seq::empty() };
        Ok(patch + sep + spec_bytes_text(output.stdout@))
    } else if empty_file {
        Ok(patch + "diff --git a/"@ + path + " b/"@ + path + "\nnew file mode 100644\nindex 0000000..e69de29\n"@)
    } else if output.code != Some(0i32) {
        Err("Could not read untracked file "@ + path + ": "@ + spec_error(output))
    } else {
        Ok(patch)
    }
}

/// Adds an untracked file to a patch. `empty_file` is whether the file
/// exists with no content.
pub fn append_untracked_file(patch: &mut String, path: &str, output: &GitOutput, empty_file: bool) -> (r: Result<(), String>)
    ensures
        match spec_append_untracked(old(patch)@, path@, *output, empty_file) {
            Ok(p) => r is Ok && final(patch)@ == p,
            Err(e) => r matches Err(m) && m@ == e && final(patch)@ == old(patch)@,
        },
{
    if output.stdout.len() > 0 {
        let mut v = chars_of(patch.as_str());
        if v.len() > 0 && v[v.len() - 1] != '\n' {
            v.push('\n');
        }
        push_chars(&mut v, &bytes_text(&output.stdout));
        *patch = string_of(&v);
        Ok(())
    } else if empty_file {
        let mut v = chars_of(patch.as_str());
        push_str(&mut v, "diff --git a/");
        push_str(&mut v, path);
        push_str(&mut v, " b/");
        push_str(&mut v, path);
        push_str(&mut v, "\nnew file mode 100644\nindex 0000000..e69de29\n");
        *patch = string_of(&v);
        Ok(())
    } else if output.code != Some(0i32) {
        let mut v = chars_of("Could not read untracked file ");
        push_str(&mut v, path);
        push_str(&mut v, ": ");
        push_str(&mut v, error(output).as_str());
        Err(string_of(&v))
    } else {
        Ok(())
    }
}

/// What Git reported for a patch, each answer read only when the steps
/// before it called for it: the repository's common directory, whether the
/// checkout is one of the project's (when one is named), the heads checked
/// by `validate_target`, the references decided for the comparison, and the
/// patch with its untracked files.
pub struct DiffFacts {
    pub common_dir: String,
    pub checkout: Result<(), String>,
    pub checkout_head: Result<String, String>,
    pub branch_head: Result<String, String>,
    pub current_branch: Result<String, String>,
    pub references: Result<DiffReferences, String>,
    pub patch: Result<String, String>,
}

/// The patch of a work item from what Git reported.
pub open spec fn spec_read(request: WorkItemDiffRequest, facts: DiffFacts) -> Result<(Seq<char>, Seq<char>), Seq<char>> {
    if facts.common_dir@ != request.project_id@ {
        Err("work item does not belong to the selected project"@)
    } else if request.worktree_path is Some && facts.checkout is Err {
        Err(facts.checkout->Err_0@)
    } else {
        match spec_validate_target(opt_view(request.branch), request.head_sha@, request.worktree_path is Some, text_view(facts.checkout_head), text_view(facts.branch_head), text_view(facts.current_branch)) {
            Err(e) => Err(e),
            Ok(()) => match facts.references {
                Err(e) => Err(e@),
                Ok(refs) => match facts.patch {
                    Err(e) => Err(e@),
                    Ok(p) => Ok((p@, refs.label@)),
                },
            },
        }
    }
}

pub open spec fn diff_view(r: Result<WorkItemDiff, String>) -> Result<(Seq<char>, Seq<char>), Seq<char>> {
    match r {
        Ok(d) => Ok((d.patch@, d.comparison_label@)),
        Err(e) => Err(e@),
    }
}

/// The patch of a work item.
pub fn read(request: &WorkItemDiffRequest, facts: &DiffFacts) -> (r: Result<WorkItemDiff, String>)
    ensures
        diff_view(r) == spec_read(*request, *facts),
{
    if !chars_eq(&chars_of(facts.common_dir.as_str()), &chars_of(request.project_id.as_str())) {
        return Err(String::from_str("work item does not belong to the selected project"));
    }
    if request.worktree_path.is_some() {
        if let Err(e) = &facts.checkout {
            return Err(e.clone());
        }
    }
    if let Err(e) = validate_target(request, request.worktree_path.is_some(), &facts.checkout_head, &facts.branch_head, &facts.current_branch) {
        return Err(e);
    }
    let label = match &facts.references {
        Err(e) => return Err(e.clone()),
        Ok(refs) => refs.label.clone(),
    };
    match &facts.patch {
        Err(e) => Err(e.clone()),
        Ok(p) => Ok(WorkItemDiff { patch: p.clone(), comparison_label: label }),
    }
}


/// A pull request's patch is compared with its base branch as the remote
/// has it: freshly fetched (labelled with the branch's name), or, when the
/// fetch failed, as last cached (labelled `(cached)`); with neither, the
/// fetch's error is the answer. The merge base is the trimmed answer of
/// `git merge-base`.
pub proof fn law_pull_request_base_is_fetched_or_cached(
    request: WorkItemDiffRequest,
    has_checkout: bool,
    number: u64,
    facts: PullRequestReferenceFacts,
    branch: Seq<char>,
)
    requires
        opt_view(request.pull_request_base_branch) == Some(branch),
        facts.merge_base is Ok,
        spec_pull_request_diff_head(
            uses_remote_head(request, has_checkout),
            expected_head(request),
            text_view(facts.head_fetch),
            opt_view(facts.head_cached),
            spec_pull_request_head_reference(number),
        ) is Ok,
    ensures
        facts.base_fetch is Ok ==> (spec_pull_request_references(request, has_checkout, number, facts) matches Ok(r)
            && r.label == branch && r.base == trim(facts.merge_base->Ok_0@)),
        facts.base_fetch is Err && facts.base_cached ==> (spec_pull_request_references(request, has_checkout, number, facts)
            matches Ok(r) && r.label == branch + " (cached)"@),
        facts.base_fetch is Err && !facts.base_cached ==> spec_pull_request_references(request, has_checkout, number, facts)
            == Err::<DiffReferencesView, Seq<char>>(facts.base_fetch->Err_0@),
{
}

/// A patch against the default branch is compared with the remote's copy,
/// fetched or cached, and only with the local branch when the remote's copy
/// cannot be had; the label says which.
pub proof fn law_default_branch_base(fetch: Result<(), Seq<char>>, cached: bool, local: bool, branch: Seq<char>, has_remote: bool)
    ensures
        fetch is Ok ==> spec_local_base_source(fetch, cached, local) == Ok::<BaseSource, Seq<char>>(BaseSource::Remote)
            && spec_local_base(BaseSource::Remote, branch) == "refs/shipyard/bases/"@ + branch
            && spec_local_label(BaseSource::Remote, branch, has_remote) == branch,
        fetch is Err && cached ==> spec_local_base_source(fetch, cached, local) == Ok::<BaseSource, Seq<char>>(BaseSource::Cached)
            && spec_local_base(BaseSource::Cached, branch) == "refs/shipyard/bases/"@ + branch
            && spec_local_label(BaseSource::Cached, branch, has_remote) == branch + " (cached)"@,
        fetch is Err && !cached && local ==> spec_local_base_source(fetch, cached, local) == Ok::<BaseSource, Seq<char>>(
            BaseSource::Local,
        ) && spec_local_base(BaseSource::Local, branch) == "refs/heads/"@ + branch,
        fetch is Err && !cached && !local ==> spec_local_base_source(fetch, cached, local) is Err,
{
}

} // verus!
