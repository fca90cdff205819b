//! Turning a repository's branches and checkouts into the work items of a
//! project. Git's answers come in as plain values; each function states what
//! it makes of them.
use crate::external::{chars_of, string_of};
use crate::git::branches::{
    ahead_behind, base_view, branches_view, classify, comparison, is_base_branch, is_local_reference,
    lemma_local_reference, opt_string,
    result_view, short_branch_name, short_name, spec_ahead_behind, spec_classify, spec_comparison,
    BaseBranch, BaseBranchView, Branch, BranchView,
};
use crate::git::diff::DiffStats;
use crate::git::work_item::{
    items_view, newest_first, sort_newest_first, Project, ProjectView, WorkItem, WorkItemView,
    WorkStatus,
};
use crate::git::worktree::{opt_view, worktrees_view, Worktree, WorktreeView};
use crate::paths::{file_name, file_name_of};
use crate::text::{chars_eq, push_str};
use vstd::prelude::*;

verus! {

/// The identifier of a branch's work item: `<project>::branch::<reference>`.
pub open spec fn branch_item_id(project_id: Seq<char>, reference: Seq<char>) -> Seq<char> {
    project_id + "::branch::"@ + reference
}

/// The identifier of a detached checkout's work item:
/// `<project>::worktree::<path>`.
pub open spec fn worktree_item_id(project_id: Seq<char>, path: Seq<char>) -> Seq<char> {
    project_id + "::worktree::"@ + path
}

fn item_id(project_id: &str, kind: &str, rest: &str) -> (r: String)
    ensures
        r@ == project_id@ + kind@ + rest@,
{
    let mut v = chars_of(project_id);
    push_str(&mut v, kind);
    push_str(&mut v, rest);
    string_of(&v)
}

/// What Git answered about one local branch. Only the answers that the
/// branch's status and counts need are read: `same_commit` when the branch is
/// not the base, is clean and has a comparison reference; `ancestry` when the
/// classification needs it; `counts` (the output of `git rev-list
/// --left-right --count`) when there is a comparison reference;
/// `remote_ancestry`, whether the branch is an ancestor of the base's
/// remote-tracking reference (see `branches::remote_tracking_base`), when
/// that reference exists and the branch was not found in the local base:
/// none when the reference does not exist.
pub struct BranchFacts {
    pub upstream: Option<String>,
    pub same_commit: Result<bool, String>,
    pub ancestry: Result<bool, String>,
    pub remote_ancestry: Option<Result<bool, String>>,
    pub counts: Result<String, String>,
}

pub open spec fn opt_result_view(r: Option<Result<bool, String>>) -> Option<Result<bool, Seq<char>>> {
    match r {
        Some(x) => Some(result_view(x)),
        None => None,
    }
}

/// The status of a clean branch that is not its own comparison reference
/// and is not at the same commit: shipped when it is an ancestor of the
/// local base, or else of the base's remote-tracking reference when that
/// exists; ready otherwise.
pub open spec fn spec_compared_status(
    ancestry: Result<bool, Seq<char>>,
    remote_ancestry: Option<Result<bool, Seq<char>>>,
) -> Result<WorkStatus, Seq<char>> {
    match ancestry {
        Err(e) => Err(e),
        Ok(true) => Ok(WorkStatus::Shipped),
        Ok(false) => match remote_ancestry {
            Some(Ok(true)) => Ok(WorkStatus::Shipped),
            Some(Err(e)) => Err(e),
            _ => Ok(WorkStatus::Ready),
        },
    }
}

pub open spec fn text_result(r: Result<String, String>) -> Result<Seq<char>, Seq<char>> {
    match r {
        Ok(t) => Ok(t@),
        Err(e) => Err(e@),
    }
}

/// The status of a branch: shipped when it is the base branch, has no
/// upstream and is clean; working when it is another clean branch at the
/// same commit as its comparison reference; shipped when such a branch is
/// contained in the local base or in the base's remote-tracking reference;
/// otherwise as classified.
pub open spec fn spec_branch_status(
    is_base: bool,
    comparison: Option<Seq<char>>,
    dirty: bool,
    same_commit: Result<bool, Seq<char>>,
    ancestry: Result<bool, Seq<char>>,
    remote_ancestry: Option<Result<bool, Seq<char>>>,
) -> Result<WorkStatus, Seq<char>> {
    if is_base && comparison is None && !dirty {
        Ok(WorkStatus::Shipped)
    } else if !is_base && !dirty && comparison is Some {
        match same_commit {
            Err(e) => Err(e),
            Ok(true) => Ok(WorkStatus::Working),
            Ok(false) => spec_compared_status(ancestry, remote_ancestry),
        }
    } else {
        spec_classify(dirty, comparison is Some, ancestry)
    }
}

/// The status of a branch.
pub fn branch_status(
    is_base: bool,
    comparison: &Option<String>,
    dirty: bool,
    same_commit: Result<bool, String>,
    ancestry: Result<bool, String>,
    remote_ancestry: Option<Result<bool, String>>,
) -> (r: Result<WorkStatus, String>)
    ensures
        result_view(r) == spec_branch_status(
            is_base,
            opt_string(*comparison),
            dirty,
            result_view(same_commit),
            result_view(ancestry),
            opt_result_view(remote_ancestry),
        ),
{
    if is_base && comparison.is_none() && !dirty {
        Ok(WorkStatus::Shipped)
    } else if !is_base && !dirty && comparison.is_some() {
        match same_commit {
            Err(e) => Err(e),
            Ok(true) => Ok(WorkStatus::Working),
            Ok(false) => match ancestry {
                Err(e) => Err(e),
                Ok(true) => Ok(WorkStatus::Shipped),
                Ok(false) => match remote_ancestry {
                    Some(Ok(true)) => Ok(WorkStatus::Shipped),
                    Some(Err(e)) => Err(e),
                    _ => Ok(WorkStatus::Ready),
                },
            },
        }
    } else {
        classify(dirty, comparison.is_some(), ancestry)
    }
}

/// The work item of a local branch, none for a clean base branch that is
/// shipped; the first error among the Git answers that were needed, if any.
pub open spec fn spec_branch_item(
    project_id: Seq<char>,
    branch: BranchView,
    worktree_path: Option<Seq<char>>,
    stats: DiffStats,
    base: Option<BaseBranchView>,
    upstream: Option<Seq<char>>,
    same_commit: Result<bool, Seq<char>>,
    ancestry: Result<bool, Seq<char>>,
    remote_ancestry: Option<Result<bool, Seq<char>>>,
    counts: Result<Seq<char>, Seq<char>>,
) -> Result<Option<WorkItemView>, Seq<char>> {
    let comparison = spec_comparison(branch, base, upstream);
    let is_base = base matches Some(b) && b.reference == branch.reference;
    match spec_branch_status(is_base, comparison, stats.dirty, same_commit, ancestry, remote_ancestry) {
        Err(e) => Err(e),
        Ok(status) => if is_base && !stats.dirty && status == WorkStatus::Shipped {
            Ok(None)
        } else {
            let ab: Result<(u32, u32), Seq<char>> = if comparison is Some {
                match counts {
                    Ok(t) => Ok(spec_ahead_behind(t)),
                    Err(e) => Err(e),
                }
            } else {
                Ok((0u32, 0u32))
            };
            match ab {
                Err(e) => Err(e),
                Ok((ahead, behind)) => Ok(Some(WorkItemView {
                    id: branch_item_id(project_id, branch.reference),
                    project_id: project_id,
                    branch: Some(branch.name),
                    worktree_path: worktree_path,
                    head_sha: branch.sha,
                    last_commit_subject: branch.subject,
                    status: status,
                    pull_request: None,
                    completed: false,
                    additions: stats.additions,
                    deletions: stats.deletions,
                    changed_files: stats.changed_files,
                    ahead: ahead,
                    behind: behind,
                    updated_at: branch.updated_at,
                })),
            }
        },
    }
}

pub open spec fn opt_item_result(r: Result<Option<WorkItem>, String>) -> Result<Option<WorkItemView>, Seq<char>> {
    match r {
        Ok(Some(w)) => Ok(Some(w@)),
        Ok(None) => Ok(None),
        Err(e) => Err(e@),
    }
}

/// The work item of a local branch.
pub fn branch_item(
    project_id: &str,
    branch: Branch,
    worktree_path: Option<String>,
    stats: DiffStats,
    base: &Option<BaseBranch>,
    facts: BranchFacts,
) -> (r: Result<Option<WorkItem>, String>)
    ensures
        opt_item_result(r) == spec_branch_item(
            project_id@,
            branch@,
            opt_view(worktree_path),
            stats,
            base_view(*base),
            opt_string(facts.upstream),
            result_view(facts.same_commit),
            result_view(facts.ancestry),
            opt_result_view(facts.remote_ancestry),
            text_result(facts.counts),
        ),
{
    let is_base = is_base_branch(&branch, base);
    let cmp = comparison(&branch, base, facts.upstream);
    let status = match branch_status(is_base, &cmp, stats.dirty, facts.same_commit, facts.ancestry, facts.remote_ancestry) {
        Ok(s) => s,
        Err(e) => return Err(e),
    };
    if is_base && !stats.dirty && status == WorkStatus::Shipped {
        return Ok(None);
    }
    let (ahead, behind) = if cmp.is_some() {
        match facts.counts {
            Ok(t) => ahead_behind(t.as_str()),
            Err(e) => return Err(e),
        }
    } else {
        (0u32, 0u32)
    };
    let id = item_id(project_id, "::branch::", branch.reference.as_str());
    Ok(Some(WorkItem {
        id,
        project_id: project_id.to_string(),
        branch: Some(branch.name),
        worktree_path,
        head_sha: branch.sha,
        last_commit_subject: branch.subject,
        status,
        pull_request: None,
        completed: false,
        additions: stats.additions,
        deletions: stats.deletions,
        changed_files: stats.changed_files,
        ahead,
        behind,
        updated_at: branch.updated_at,
    }))
}

/// A question the scan asks Git about a local branch, once the branch's
/// uncommitted changes are known.
#[derive(Clone, Copy, Debug, PartialEq, Eq)]
pub enum BranchQuestion {
    /// Nothing has been asked yet.
    Start,
    /// The upstream of the base branch (`upstream`).
    Upstream,
    /// Whether the branch is at its comparison reference's commit (`same_commit`).
    SameCommit,
    /// Whether the branch is contained in its comparison reference (`ancestry`).
    Ancestry,
    /// Whether the branch is contained in the base's remote-tracking
    /// reference, when that exists (`remote_ancestry`).
    RemoteAncestry,
    /// The commits ahead and behind (`counts`).
    Counts,
    /// Nothing more is asked; the item is `branch_item`'s.
    Done,
}

/// What follows once the branch's status is known: nothing for a clean base
/// branch that is shipped (it has no item), else the counts when there is a
/// comparison reference.
pub open spec fn after_status(is_base: bool, dirty: bool, shipped: bool, has_comparison: bool) -> BranchQuestion {
    if is_base && !dirty && shipped {
        BranchQuestion::Done
    } else if has_comparison {
        BranchQuestion::Counts
    } else {
        BranchQuestion::Done
    }
}

/// What follows once the comparison reference is known.
pub open spec fn after_comparison(is_base: bool, dirty: bool, comparison: Option<Seq<char>>) -> BranchQuestion {
    if !is_base && !dirty && comparison is Some {
        BranchQuestion::SameCommit
    } else if is_base && comparison is None && !dirty {
        BranchQuestion::Done
    } else if !dirty && comparison is Some {
        BranchQuestion::Ancestry
    } else {
        after_status(is_base, dirty, false, comparison is Some)
    }
}

/// The question asked after `last`, given the answers so far: the scan asks
/// exactly what `spec_branch_item` reads, in that order, and stops at the
/// first error.
pub open spec fn spec_next_branch_question(
    branch: BranchView,
    base: Option<BaseBranchView>,
    dirty: bool,
    upstream: Option<Seq<char>>,
    same_commit: Result<bool, Seq<char>>,
    ancestry: Result<bool, Seq<char>>,
    remote_ancestry: Option<Result<bool, Seq<char>>>,
    last: BranchQuestion,
) -> BranchQuestion {
    let is_base = base matches Some(b) && b.reference == branch.reference;
    let comparison = spec_comparison(branch, base, upstream);
    let compared = !is_base && !dirty && comparison is Some;
    match last {
        BranchQuestion::Start => if is_base {
            BranchQuestion::Upstream
        } else {
            after_comparison(is_base, dirty, comparison)
        },
        BranchQuestion::Upstream => after_comparison(is_base, dirty, comparison),
        BranchQuestion::SameCommit => match same_commit {
            Err(_) => BranchQuestion::Done,
            Ok(true) => BranchQuestion::Counts,
            Ok(false) => BranchQuestion::Ancestry,
        },
        BranchQuestion::Ancestry => match ancestry {
            Err(_) => BranchQuestion::Done,
            Ok(true) => after_status(is_base, dirty, true, comparison is Some),
            Ok(false) => if compared {
                BranchQuestion::RemoteAncestry
            } else {
                after_status(is_base, dirty, false, comparison is Some)
            },
        },
        BranchQuestion::RemoteAncestry => match remote_ancestry {
            Some(Err(_)) => BranchQuestion::Done,
            _ => BranchQuestion::Counts,
        },
        BranchQuestion::Counts => BranchQuestion::Done,
        BranchQuestion::Done => BranchQuestion::Done,
    }
}

fn next_after_status(is_base: bool, dirty: bool, shipped: bool, has_comparison: bool) -> (r: BranchQuestion)
    ensures
        r == after_status(is_base, dirty, shipped, has_comparison),
{
    if is_base && !dirty && shipped {
        BranchQuestion::Done
    } else if has_comparison {
        BranchQuestion::Counts
    } else {
        BranchQuestion::Done
    }
}

fn next_after_comparison(is_base: bool, dirty: bool, comparison: &Option<String>) -> (r: BranchQuestion)
    ensures
        r == after_comparison(is_base, dirty, opt_string(*comparison)),
{
    if !is_base && !dirty && comparison.is_some() {
        BranchQuestion::SameCommit
    } else if is_base && comparison.is_none() && !dirty {
        BranchQuestion::Done
    } else if !dirty && comparison.is_some() {
        BranchQuestion::Ancestry
    } else {
        next_after_status(is_base, dirty, false, comparison.is_some())
    }
}

/// The question the scan asks about a branch after `last`. The caller asks
/// it, records the answer in `facts`, and asks again until the answer is
/// `Done`; then `branch_item` makes the item.
pub fn next_branch_question(
    branch: &Branch,
    base: &Option<BaseBranch>,
    stats: &DiffStats,
    facts: &BranchFacts,
    last: BranchQuestion,
) -> (r: BranchQuestion)
    ensures
        r == spec_next_branch_question(
            branch@,
            base_view(*base),
            stats.dirty,
            opt_string(facts.upstream),
            result_view(facts.same_commit),
            result_view(facts.ancestry),
            opt_result_view(facts.remote_ancestry),
            last,
        ),
{
    let is_base = is_base_branch(branch, base);
    let upstream = match &facts.upstream {
        Some(u) => Some(u.clone()),
        None => None,
    };
    let cmp = comparison(branch, base, upstream);
    let dirty = stats.dirty;
    let compared = !is_base && !dirty && cmp.is_some();
    match last {
        BranchQuestion::Start => if is_base {
            BranchQuestion::Upstream
        } else {
            next_after_comparison(is_base, dirty, &cmp)
        },
        BranchQuestion::Upstream => next_after_comparison(is_base, dirty, &cmp),
        BranchQuestion::SameCommit => match &facts.same_commit {
            Err(_) => BranchQuestion::Done,
            Ok(true) => BranchQuestion::Counts,
            Ok(false) => BranchQuestion::Ancestry,
        },
        BranchQuestion::Ancestry => match &facts.ancestry {
            Err(_) => BranchQuestion::Done,
            Ok(true) => next_after_status(is_base, dirty, true, cmp.is_some()),
            Ok(false) => if compared {
                BranchQuestion::RemoteAncestry
            } else {
                next_after_status(is_base, dirty, false, cmp.is_some())
            },
        },
        BranchQuestion::RemoteAncestry => match &facts.remote_ancestry {
            Some(Err(_)) => BranchQuestion::Done,
            _ => BranchQuestion::Counts,
        },
        BranchQuestion::Counts => BranchQuestion::Done,
        BranchQuestion::Done => BranchQuestion::Done,
    }
}

/// A question the scan asks Git about a detached checkout, once its
/// uncommitted changes are known.
#[derive(Clone, Copy, Debug, PartialEq, Eq)]
pub enum DetachedQuestion {
    /// Nothing has been asked yet.
    Start,
    /// Whether its commit is contained in the base (`ancestry`).
    Ancestry,
    /// The commits ahead and behind the base (`counts`).
    Counts,
    /// The subject and time of its commit (`details`).
    Details,
    /// Nothing more is asked; the item is `detached_item`'s.
    Done,
}

/// The question asked about a detached checkout after `last`: exactly what
/// `spec_detached_item` reads, in that order, stopping at the first error.
pub open spec fn spec_next_detached_question(
    has_base: bool,
    dirty: bool,
    ancestry: Result<bool, Seq<char>>,
    counts: Result<Seq<char>, Seq<char>>,
    last: DetachedQuestion,
) -> DetachedQuestion {
    match last {
        DetachedQuestion::Start => if has_base && !dirty {
            DetachedQuestion::Ancestry
        } else if has_base {
            DetachedQuestion::Counts
        } else {
            DetachedQuestion::Details
        },
        DetachedQuestion::Ancestry => if ancestry is Err {
            DetachedQuestion::Done
        } else {
            DetachedQuestion::Counts
        },
        DetachedQuestion::Counts => if counts is Err {
            DetachedQuestion::Done
        } else {
            DetachedQuestion::Details
        },
        DetachedQuestion::Details => DetachedQuestion::Done,
        DetachedQuestion::Done => DetachedQuestion::Done,
    }
}

/// The question the scan asks about a detached checkout after `last`.
pub fn next_detached_question(
    base: &Option<BaseBranch>,
    stats: &DiffStats,
    ancestry: &Result<bool, String>,
    counts: &Result<String, String>,
    last: DetachedQuestion,
) -> (r: DetachedQuestion)
    ensures
        r == spec_next_detached_question(base is Some, stats.dirty, result_view(*ancestry), text_result(*counts), last),
{
    let has_base = base.is_some();
    match last {
        DetachedQuestion::Start => if has_base && !stats.dirty {
            DetachedQuestion::Ancestry
        } else if has_base {
            DetachedQuestion::Counts
        } else {
            DetachedQuestion::Details
        },
        DetachedQuestion::Ancestry => if ancestry.is_err() {
            DetachedQuestion::Done
        } else {
            DetachedQuestion::Counts
        },
        DetachedQuestion::Counts => if counts.is_err() {
            DetachedQuestion::Done
        } else {
            DetachedQuestion::Details
        },
        DetachedQuestion::Details => DetachedQuestion::Done,
        DetachedQuestion::Done => DetachedQuestion::Done,
    }
}

/// A checkout the scan lists as detached work: detached and not bare.
pub fn is_detached_checkout(w: &Worktree) -> (r: bool)
    ensures
        r == (w.detached && !w.bare),
{
    w.detached && !w.bare
}

/// A checkout whose branch has no commit yet: it is not bare, not detached,
/// and its branch is none of the local branches listed.
pub open spec fn spec_is_unborn(w: WorktreeView, listed: Seq<BranchView>) -> bool {
    !w.bare && !w.detached && w.branch is Some
        && forall|i: int| 0 <= i < listed.len() ==> (#[trigger] listed[i]).reference != w.branch->0
}

/// Whether a checkout is on a branch that has no commit yet.
pub fn is_unborn(w: &Worktree, listed: &Vec<Branch>) -> (r: bool)
    ensures
        r == spec_is_unborn(w@, branches_view(listed@)),
{
    if w.bare || w.detached {
        return false;
    }
    match &w.branch {
        None => false,
        Some(b) => {
            let bc = chars_of(b.as_str());
            let mut i: usize = 0;
            while i < listed.len()
                invariant
                    i <= listed.len(),
                    bc@ == b@,
                    w.branch == Some(*b),
                    forall|j: int| 0 <= j < i ==> (#[trigger] branches_view(listed@)[j]).reference != b@,
                decreases listed.len() - i,
            {
                if chars_eq(&chars_of(listed[i].reference.as_str()), &bc) {
                    assert(branches_view(listed@)[i as int].reference == b@);
                    return false;
                }
                i = i + 1;
            }
            true
        },
    }
}

/// The work item of a checkout on a branch with no commit yet: none when it
/// is clean, else working with the checkout's changes.
pub open spec fn spec_unborn_item(project_id: Seq<char>, w: WorktreeView, stats: DiffStats) -> Option<WorkItemView> {
    if !stats.dirty {
        None
    } else {
        let reference = match w.branch {
            Some(b) => b,
            None => Seq::empty(),
        };
        Some(WorkItemView {
            id: branch_item_id(project_id, reference),
            project_id: project_id,
            branch: Some(short_name(reference)),
            worktree_path: Some(w.path),
            head_sha: w.sha,
            last_commit_subject: Seq::empty(),
            status: WorkStatus::Working,
            pull_request: None,
            completed: false,
            additions: stats.additions,
            deletions: stats.deletions,
            changed_files: stats.changed_files,
            ahead: 0,
            behind: 0,
            updated_at: 0,
        })
    }
}

pub open spec fn opt_item_view(o: Option<WorkItem>) -> Option<WorkItemView> {
    match o {
        Some(w) => Some(w@),
        None => None,
    }
}

/// The work item of a checkout on a branch with no commit yet.
pub fn unborn_item(project_id: &str, w: &Worktree, stats: DiffStats) -> (r: Option<WorkItem>)
    ensures
        opt_item_view(r) == spec_unborn_item(project_id@, w@, stats),
{
    if !stats.dirty {
        return None;
    }
    let reference = match &w.branch {
        Some(b) => b.clone(),
        None => String::new(),
    };
    let id = item_id(project_id, "::branch::", reference.as_str());
    let name = short_branch_name(reference.as_str());
    Some(WorkItem {
        id,
        project_id: project_id.to_string(),
        branch: Some(name),
        worktree_path: Some(w.path.clone()),
        head_sha: w.sha.clone(),
        last_commit_subject: String::new(),
        status: WorkStatus::Working,
        pull_request: None,
        completed: false,
        additions: stats.additions,
        deletions: stats.deletions,
        changed_files: stats.changed_files,
        ahead: 0,
        behind: 0,
        updated_at: 0,
    })
}

/// The work item of a detached checkout: classified against the base
/// branch, with the counts, subject and time that Git reported (each
/// answer read only when it is needed; the first error, if any).
pub open spec fn spec_detached_item(
    project_id: Seq<char>,
    w: WorktreeView,
    stats: DiffStats,
    base: Option<BaseBranchView>,
    ancestry: Result<bool, Seq<char>>,
    counts: Result<Seq<char>, Seq<char>>,
    details: Result<(Seq<char>, u64), Seq<char>>,
) -> Result<WorkItemView, Seq<char>> {
    match spec_classify(stats.dirty, base is Some, ancestry) {
        Err(e) => Err(e),
        Ok(status) => {
            let ab: Result<(u32, u32), Seq<char>> = if base is Some {
                match counts {
                    Ok(t) => Ok(spec_ahead_behind(t)),
                    Err(e) => Err(e),
                }
            } else {
                Ok((0u32, 0u32))
            };
            match ab {
                Err(e) => Err(e),
                Ok((ahead, behind)) => match details {
                    Err(e) => Err(e),
                    Ok((subject, updated_at)) => Ok(WorkItemView {
                        id: worktree_item_id(project_id, w.path),
                        project_id: project_id,
                        branch: None,
                        worktree_path: Some(w.path),
                        head_sha: w.sha,
                        last_commit_subject: subject,
                        status: status,
                        pull_request: None,
                        completed: false,
                        additions: stats.additions,
                        deletions: stats.deletions,
                        changed_files: stats.changed_files,
                        ahead: ahead,
                        behind: behind,
                        updated_at: updated_at,
                    }),
                },
            }
        },
    }
}

pub open spec fn details_view(r: Result<(String, u64), String>) -> Result<(Seq<char>, u64), Seq<char>> {
    match r {
        Ok((s, t)) => Ok((s@, t)),
        Err(e) => Err(e@),
    }
}

pub open spec fn item_result(r: Result<WorkItem, String>) -> Result<WorkItemView, Seq<char>> {
    match r {
        Ok(w) => Ok(w@),
        Err(e) => Err(e@),
    }
}

/// The work item of a detached checkout.
pub fn detached_item(
    project_id: &str,
    w: &Worktree,
    stats: DiffStats,
    base: &Option<BaseBranch>,
    ancestry: Result<bool, String>,
    counts: Result<String, String>,
    details: Result<(String, u64), String>,
) -> (r: Result<WorkItem, String>)
    ensures
        item_result(r) == spec_detached_item(
            project_id@,
            w@,
            stats,
            base_view(*base),
            result_view(ancestry),
            text_result(counts),
            details_view(details),
        ),
{
    let status = match classify(stats.dirty, base.is_some(), ancestry) {
        Ok(s) => s,
        Err(e) => return Err(e),
    };
    let (ahead, behind) = if base.is_some() {
        match counts {
            Ok(t) => ahead_behind(t.as_str()),
            Err(e) => return Err(e),
        }
    } else {
        (0u32, 0u32)
    };
    let (subject, updated_at) = match details {
        Ok(d) => d,
        Err(e) => return Err(e),
    };
    let id = item_id(project_id, "::worktree::", w.path.as_str());
    Ok(WorkItem {
        id,
        project_id: project_id.to_string(),
        branch: None,
        worktree_path: Some(w.path.clone()),
        head_sha: w.sha.clone(),
        last_commit_subject: subject,
        status,
        pull_request: None,
        completed: false,
        additions: stats.additions,
        deletions: stats.deletions,
        changed_files: stats.changed_files,
        ahead,
        behind,
        updated_at,
    })
}

/// The project's folder: the first checkout that is not bare, else the
/// repository root.
pub open spec fn spec_project_root(root: Seq<char>, ws: Seq<WorktreeView>) -> Seq<char> {
    match crate::text::first_match(ws, |w: WorktreeView| !w.bare) {
        Some(i) => ws[i].path,
        None => root,
    }
}

/// The project's name: the last component of its folder, `Repository` when
/// it has none.
pub open spec fn spec_project_name(path: Seq<char>) -> Seq<char> {
    match file_name(path) {
        Some(n) => n,
        None => "Repository"@,
    }
}

/// The project's folder.
pub fn project_root(root: &str, worktrees: &Vec<Worktree>) -> (r: String)
    ensures
        r@ == spec_project_root(root@, worktrees_view(worktrees@)),
{
    let ghost ws = worktrees_view(worktrees@);
    let ghost p = |w: WorktreeView| !w.bare;
    let mut i: usize = 0;
    while i < worktrees.len()
        invariant
            i <= worktrees.len(),
            ws == worktrees_view(worktrees@),
            p == (|w: WorktreeView| !w.bare),
            forall|j: int| 0 <= j < i ==> !p(#[trigger] ws[j]),
        decreases worktrees.len() - i,
    {
        assert(ws[i as int] == worktrees@[i as int]@);
        if !worktrees[i].bare {
            proof {
                crate::text::lemma_first_match_at(ws, p, i as int);
            }
            return worktrees[i].path.clone();
        }
        i = i + 1;
    }
    proof {
        crate::text::lemma_first_match_none(ws, p);
    }
    root.to_string()
}

/// The project's name.
pub fn project_name(path: &str) -> (r: String)
    ensures
        r@ == spec_project_name(path@),
{
    match file_name_of(&chars_of(path)) {
        Some(n) => string_of(&n),
        None => String::from_str("Repository"),
    }
}

/// The project as a scan finds it: its folder and name, the name of its base
/// branch, and its work items newest first. GitHub is not consulted yet.
pub open spec fn spec_scan_project(
    project_id: Seq<char>,
    root: Seq<char>,
    worktrees: Seq<WorktreeView>,
    base: Option<BaseBranchView>,
    items: Seq<WorkItemView>,
) -> ProjectView {
    let folder = spec_project_root(root, worktrees);
    ProjectView {
        id: project_id,
        name: spec_project_name(folder),
        path: folder,
        default_branch: match base {
            Some(b) => Some(b.name),
            None => None,
        },
        work_items: newest_first(items),
        github_repository: None,
        github_error: None,
    }
}

/// Assembles the project from the items of its branches, of its checkouts
/// on unborn branches and of its detached checkouts, in that order.
pub fn scan_project(
    project_id: String,
    root: &str,
    worktrees: &Vec<Worktree>,
    base: Option<BaseBranch>,
    items: Vec<WorkItem>,
) -> (r: Project)
    ensures
        r@ == spec_scan_project(project_id@, root@, worktrees_view(worktrees@), base_view(base), items_view(items@)),
{
    let folder = project_root(root, worktrees);
    let name = project_name(folder.as_str());
    let sorted = sort_newest_first(items);
    Project {
        id: project_id,
        name,
        path: folder,
        default_branch: match base {
            Some(b) => Some(b.name),
            None => None,
        },
        work_items: sorted,
        github_repository: None,
        github_error: None,
    }
}

/// The checkout that has a branch out, as the scan indexes checkouts by
/// branch: the last one listed on it.
pub open spec fn last_on_branch(ws: Seq<WorktreeView>, reference: Seq<char>) -> Option<int>
    decreases ws.len(),
{
    if ws.len() == 0 {
        None
    } else if ws.last().branch == Some(reference) {
        Some(ws.len() - 1)
    } else {
        last_on_branch(ws.drop_last(), reference)
    }
}

/// The path of the checkout that has a branch out.
pub fn worktree_for_branch(worktrees: &Vec<Worktree>, reference: &str) -> (r: Option<String>)
    ensures
        match last_on_branch(worktrees_view(worktrees@), reference@) {
            Some(i) => r matches Some(p) && p@ == worktrees_view(worktrees@)[i].path,
            None => r is None,
        },
{
    let ghost ws = worktrees_view(worktrees@);
    let mut i: usize = worktrees.len();
    assert(ws.subrange(0, i as int) =~= ws);
    while i > 0
        invariant
            i <= worktrees.len(),
            ws == worktrees_view(worktrees@),
            last_on_branch(ws, reference@) == last_on_branch(ws.subrange(0, i as int), reference@),
        decreases i,
    {
        let ghost prefix = ws.subrange(0, i as int);
        assert(prefix.drop_last() =~= ws.subrange(0, i - 1));
        assert(prefix.last() == worktrees@[i - 1]@);
        let hit = match &worktrees[i - 1].branch {
            Some(b) => chars_eq(&chars_of(b.as_str()), &chars_of(reference)),
            None => false,
        };
        if hit {
            assert(last_on_branch(prefix, reference@) == Some(i - 1));
            return Some(worktrees[i - 1].path.clone());
        }
        i = i - 1;
    }
    assert(ws.subrange(0, 0) =~= Seq::<WorktreeView>::empty());
    None
}

/// An item as the scan makes it for a project: it belongs to the project,
/// has no pull request and is not completed; a branch's item is named
/// `<project>::branch::refs/heads/<branch>`, a detached checkout's
/// `<project>::worktree::<path>`.
pub open spec fn scanned_item(project_id: Seq<char>, w: WorkItemView) -> bool {
    &&& w.project_id == project_id
    &&& w.pull_request is None
    &&& !w.completed
    &&& match w.branch {
        Some(b) => w.id == branch_item_id(project_id, "refs/heads/"@ + b),
        None => w.worktree_path matches Some(path) && w.id == worktree_item_id(project_id, path),
    }
}

/// The items of local branches (named after their reference, as
/// `git for-each-ref` gives them, see `lemma_parsed_branch_names`), of
/// checkouts on unborn local branches and of detached checkouts are all made
/// as the scan makes them. A local branch's reference starts with
/// `refs/heads/`, as Git lists the branches under `refs/heads` and a
/// checkout's branch by its full reference.
pub proof fn lemma_items_are_scanned(
    project_id: Seq<char>,
    branch: BranchView,
    worktree_path: Option<Seq<char>>,
    w: WorktreeView,
    stats: DiffStats,
    base: Option<BaseBranchView>,
    upstream: Option<Seq<char>>,
    same_commit: Result<bool, Seq<char>>,
    ancestry: Result<bool, Seq<char>>,
    remote_ancestry: Option<Result<bool, Seq<char>>>,
    counts: Result<Seq<char>, Seq<char>>,
    details: Result<(Seq<char>, u64), Seq<char>>,
)
    ensures
        is_local_reference(branch.reference) && branch.name == short_name(branch.reference) ==> (spec_branch_item(
            project_id,
            branch,
            worktree_path,
            stats,
            base,
            upstream,
            same_commit,
            ancestry,
            remote_ancestry,
            counts,
        ) matches Ok(Some(item)) ==> scanned_item(project_id, item)),
        (w.branch matches Some(r) && is_local_reference(r)) ==> (spec_unborn_item(project_id, w, stats) matches Some(item)
            ==> scanned_item(project_id, item)),
        spec_detached_item(project_id, w, stats, base, ancestry, counts, details) matches Ok(item) ==> scanned_item(project_id, item),
{
    if is_local_reference(branch.reference) {
        lemma_local_reference(branch.reference);
    }
    match w.branch {
        Some(r) => if is_local_reference(r) {
            lemma_local_reference(r);
        },
        None => {},
    }
}

/// A scanned project lists its work newest first, keeps every item it was
/// given, and has no GitHub information yet; when every item was made as
/// the scan makes them for the project, so is every listed item.
pub proof fn law_scan_lists_newest_first(
    project_id: Seq<char>,
    root: Seq<char>,
    worktrees: Seq<WorktreeView>,
    base: Option<BaseBranchView>,
    items: Seq<WorkItemView>,
)
    ensures
        crate::git::work_item::is_newest_first(spec_scan_project(project_id, root, worktrees, base, items).work_items),
        spec_scan_project(project_id, root, worktrees, base, items).work_items.len() == items.len(),
        spec_scan_project(project_id, root, worktrees, base, items).id == project_id,
        spec_scan_project(project_id, root, worktrees, base, items).github_repository is None,
        spec_scan_project(project_id, root, worktrees, base, items).github_error is None,
        (forall|i: int| 0 <= i < items.len() ==> scanned_item(project_id, #[trigger] items[i])) ==> forall|i: int|
            0 <= i < items.len() ==> scanned_item(
                project_id,
                #[trigger] spec_scan_project(project_id, root, worktrees, base, items).work_items[i],
            ),
{
    crate::git::work_item::lemma_newest_first_sorted(items);
    if forall|i: int| 0 <= i < items.len() ==> scanned_item(project_id, #[trigger] items[i]) {
        let p = |w: WorkItemView| scanned_item(project_id, w);
        assert forall|i: int| 0 <= i < items.len() implies p(#[trigger] items[i]) by {
            assert(scanned_item(project_id, items[i]));
        }
        crate::git::work_item::lemma_newest_first_keeps(items, p);
        assert forall|i: int| 0 <= i < items.len() implies scanned_item(
            project_id,
            #[trigger] spec_scan_project(project_id, root, worktrees, base, items).work_items[i],
        ) by {
            assert(p(newest_first(items)[i]));
        }
    }
}

/// A detached checkout is classified as any committed work is: working
/// while it has uncommitted changes; with a base branch and clean, shipped
/// exactly when its commit is contained in the base, ready when not; ready
/// when there is no base.
pub proof fn law_detached_checkout_status(
    project_id: Seq<char>,
    w: WorktreeView,
    stats: DiffStats,
    base: Option<BaseBranchView>,
    ancestry: Result<bool, Seq<char>>,
    counts: Result<Seq<char>, Seq<char>>,
    details: Result<(Seq<char>, u64), Seq<char>>,
)
    requires
        counts is Ok,
        details is Ok,
    ensures
        stats.dirty ==> (spec_detached_item(project_id, w, stats, base, ancestry, counts, details) matches Ok(item)
            && item.status == WorkStatus::Working),
        !stats.dirty && base is Some && ancestry == Ok::<bool, Seq<char>>(true) ==> (spec_detached_item(
            project_id, w, stats, base, ancestry, counts, details,
        ) matches Ok(item) && item.status == WorkStatus::Shipped),
        !stats.dirty && base is Some && ancestry == Ok::<bool, Seq<char>>(false) ==> (spec_detached_item(
            project_id, w, stats, base, ancestry, counts, details,
        ) matches Ok(item) && item.status == WorkStatus::Ready),
        !stats.dirty && base is None ==> (spec_detached_item(project_id, w, stats, base, ancestry, counts, details)
            matches Ok(item) && item.status == WorkStatus::Ready),
{
}


/// How a local branch is classified: working while it has uncommitted
/// changes or is a clean branch at its base's commit; a clean branch other
/// than the base is shipped when its work is contained in the base, or in
/// the base as the remote last showed it, and ready otherwise; a clean base
/// branch without an upstream is no work item at all.
pub proof fn law_branch_status(
    project_id: Seq<char>,
    branch: BranchView,
    worktree_path: Option<Seq<char>>,
    stats: DiffStats,
    b: BaseBranchView,
    upstream: Option<Seq<char>>,
    same_commit: Result<bool, Seq<char>>,
    ancestry: Result<bool, Seq<char>>,
    remote_ancestry: Option<Result<bool, Seq<char>>>,
    counts: Result<Seq<char>, Seq<char>>,
)
    requires
        counts is Ok,
    ensures
        stats.dirty ==> (spec_branch_item(project_id, branch, worktree_path, stats, Some(b), upstream, same_commit, ancestry, remote_ancestry, counts)
            matches Ok(Some(item)) && item.status == WorkStatus::Working),
        b.reference != branch.reference && !stats.dirty && same_commit == Ok::<bool, Seq<char>>(true) ==> (spec_branch_item(
            project_id, branch, worktree_path, stats, Some(b), upstream, same_commit, ancestry, remote_ancestry, counts,
        ) matches Ok(Some(item)) && item.status == WorkStatus::Working),
        b.reference != branch.reference && !stats.dirty && same_commit == Ok::<bool, Seq<char>>(false) && ancestry == Ok::<bool, Seq<char>>(true)
            ==> (spec_branch_item(project_id, branch, worktree_path, stats, Some(b), upstream, same_commit, ancestry, remote_ancestry, counts)
            matches Ok(Some(item)) && item.status == WorkStatus::Shipped),
        b.reference != branch.reference && !stats.dirty && same_commit == Ok::<bool, Seq<char>>(false) && ancestry == Ok::<bool, Seq<char>>(false)
            && remote_ancestry == Some(Ok::<bool, Seq<char>>(true)) ==> (spec_branch_item(
            project_id, branch, worktree_path, stats, Some(b), upstream, same_commit, ancestry, remote_ancestry, counts,
        ) matches Ok(Some(item)) && item.status == WorkStatus::Shipped),
        b.reference != branch.reference && !stats.dirty && same_commit == Ok::<bool, Seq<char>>(false) && ancestry == Ok::<bool, Seq<char>>(false)
            && (remote_ancestry is None || remote_ancestry == Some(Ok::<bool, Seq<char>>(false))) ==> (spec_branch_item(
            project_id, branch, worktree_path, stats, Some(b), upstream, same_commit, ancestry, remote_ancestry, counts,
        ) matches Ok(Some(item)) && item.status == WorkStatus::Ready),
        b.reference == branch.reference && !stats.dirty && upstream is None ==> spec_branch_item(
            project_id, branch, worktree_path, stats, Some(b), upstream, same_commit, ancestry, remote_ancestry, counts,
        ) == Ok::<Option<WorkItemView>, Seq<char>>(None),
{
}

} // verus!
