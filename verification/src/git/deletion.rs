//! Deleting a work item: the checks that protect the primary checkout, the
//! default branch and unsaved work, the plan shown for confirmation, and the
//! steps that carry out a confirmed plan.
use crate::external::{chars_of, string_of};
use crate::git::branches::{branches_view, opt_string, Branch, BranchView};
use crate::git::scanner::{branch_item_id, worktree_item_id};
use crate::git::worktree::{opt_view, worktrees_view, Worktree, WorktreeView};
use crate::text::{
    chars_eq, first_match, is_first_match, lemma_first_match_at, lemma_first_match_none,
    lemma_first_of_any, push_str, strip_prefix, strip_prefix_of, trim, trim_chars,
};
use vstd::prelude::*;

verus! {

/// A request to delete a work item, as the board saw it at its last scan.
#[derive(Debug)]
pub struct DeleteWorkItemRequest {
    pub project_path: String,
    pub project_id: String,
    pub work_item_id: String,
    pub branch: Option<String>,
    pub worktree_path: Option<String>,
    pub head_sha: String,
}

pub struct DeleteWorkItemRequestView {
    pub project_path: Seq<char>,
    pub project_id: Seq<char>,
    pub work_item_id: Seq<char>,
    pub branch: Option<Seq<char>>,
    pub worktree_path: Option<Seq<char>>,
    pub head_sha: Seq<char>,
}

impl View for DeleteWorkItemRequest {
    type V = DeleteWorkItemRequestView;

    open spec fn view(&self) -> DeleteWorkItemRequestView {
        DeleteWorkItemRequestView {
            project_path: self.project_path@,
            project_id: self.project_id@,
            work_item_id: self.work_item_id@,
            branch: opt_view(self.branch),
            worktree_path: opt_view(self.worktree_path),
            head_sha: self.head_sha@,
        }
    }
}

/// What a deletion will do, shown to the user before it happens.
#[derive(Debug)]
pub struct DeletionPlan {
    pub project_id: String,
    pub work_item_id: String,
    pub branch: Option<String>,
    pub worktree_path: Option<String>,
    pub default_branch: Option<String>,
    pub removes_worktree: bool,
    pub deletes_branch: bool,
    pub switches_primary_checkout: bool,
    pub has_uncommitted_changes: bool,
    pub unpushed_commits: u32,
}

pub struct DeletionPlanView {
    pub project_id: Seq<char>,
    pub work_item_id: Seq<char>,
    pub branch: Option<Seq<char>>,
    pub worktree_path: Option<Seq<char>>,
    pub default_branch: Option<Seq<char>>,
    pub removes_worktree: bool,
    pub deletes_branch: bool,
    pub switches_primary_checkout: bool,
    pub has_uncommitted_changes: bool,
    pub unpushed_commits: u32,
}

impl View for DeletionPlan {
    type V = DeletionPlanView;

    open spec fn view(&self) -> DeletionPlanView {
        DeletionPlanView {
            project_id: self.project_id@,
            work_item_id: self.work_item_id@,
            branch: opt_view(self.branch),
            worktree_path: opt_view(self.worktree_path),
            default_branch: opt_view(self.default_branch),
            removes_worktree: self.removes_worktree,
            deletes_branch: self.deletes_branch,
            switches_primary_checkout: self.switches_primary_checkout,
            has_uncommitted_changes: self.has_uncommitted_changes,
            unpushed_commits: self.unpushed_commits,
        }
    }
}

/// What a deletion did.
#[derive(Debug)]
pub struct DeletionResult {
    pub project_id: String,
    pub work_item_id: String,
    pub worktree_removed: bool,
    pub branch_deleted: bool,
    pub switched_primary_to_default: bool,
}

fn opt_eq(a: &Option<String>, b: &Option<String>) -> (r: bool)
    ensures
        r == (opt_view(*a) == opt_view(*b)),
{
    match (a, b) {
        (Some(x), Some(y)) => chars_eq(&chars_of(x.as_str()), &chars_of(y.as_str())),
        (None, None) => true,
        _ => false,
    }
}

fn same(a: &str, b: &str) -> (r: bool)
    ensures
        r == (a@ == b@),
{
    chars_eq(&chars_of(a), &chars_of(b))
}

fn copy_opt(o: &Option<String>) -> (r: Option<String>)
    ensures
        opt_view(r) == opt_view(*o),
{
    match o {
        Some(s) => Some(s.clone()),
        None => None,
    }
}

/// Whether two plans say the same.
pub fn plans_equal(a: &DeletionPlan, b: &DeletionPlan) -> (r: bool)
    ensures
        r == (a@ == b@),
{
    same(a.project_id.as_str(), b.project_id.as_str()) && same(a.work_item_id.as_str(), b.work_item_id.as_str())
        && opt_eq(&a.branch, &b.branch) && opt_eq(&a.worktree_path, &b.worktree_path)
        && opt_eq(&a.default_branch, &b.default_branch) && a.removes_worktree == b.removes_worktree
        && a.deletes_branch == b.deletes_branch
        && a.switches_primary_checkout == b.switches_primary_checkout
        && a.has_uncommitted_changes == b.has_uncommitted_changes
        && a.unpushed_commits == b.unpushed_commits
}

/// The identifier of a pull request's work item: the project's identifier,
/// `::pull-request::`, and a non-empty run of ASCII digits.
pub open spec fn spec_is_pull_request_id(id: Seq<char>, project_id: Seq<char>) -> bool {
    match strip_prefix(id, project_id + "::pull-request::"@) {
        Some(n) => n.len() > 0 && forall|i: int| 0 <= i < n.len() ==> '0' <= #[trigger] n[i] <= '9',
        None => false,
    }
}

/// Whether an identifier names a pull request's work item in the project.
pub fn is_pull_request_id(id: &str, project_id: &str) -> (r: bool)
    ensures
        r == spec_is_pull_request_id(id@, project_id@),
{
    let mut prefix = chars_of(project_id);
    push_str(&mut prefix, "::pull-request::");
    match strip_prefix_of(&chars_of(id), &prefix) {
        None => false,
        Some(n) => {
            if n.len() == 0 {
                return false;
            }
            let mut i: usize = 0;
            while i < n.len()
                invariant
                    i <= n.len(),
                    n.len() > 0,
                    strip_prefix(id@, project_id@ + "::pull-request::"@) == Some(n@),
                    forall|j: int| 0 <= j < i ==> '0' <= #[trigger] n@[j] <= '9',
                decreases n.len() - i,
            {
                if n[i] < '0' || n[i] > '9' {
                    assert(!('0' <= n@[i as int] <= '9'));
                    return false;
                }
                i = i + 1;
            }
            true
        },
    }
}

/// Picks the worktree at a path.
pub open spec fn at_path(p: Seq<char>) -> spec_fn(WorktreeView) -> bool {
    |w: WorktreeView| w.path == p
}

/// Whether some worktree has the branch out.
pub open spec fn branch_checked_out(ws: Seq<WorktreeView>, reference: Seq<char>) -> bool {
    exists|i: int| 0 <= i < ws.len() && (#[trigger] ws[i]).branch == Some(reference)
}

/// The worktree a request names, checked against the branch it names:
/// the path must still be registered, not bare, on the branch (or detached
/// when no branch is named); a request naming no path must name a branch
/// that no worktree has out.
pub open spec fn spec_worktree_identity(
    worktree_path: Option<Seq<char>>,
    ws: Seq<WorktreeView>,
    branch_ref: Option<Seq<char>>,
) -> Result<Option<WorktreeView>, Seq<char>> {
    match worktree_path {
        Some(p) => match first_match(ws, at_path(p)) {
            None => Err("The expected worktree is no longer registered with this project. Rescan before deleting."@),
            Some(i) => if ws[i].bare || (branch_ref matches Some(r) && ws[i].branch != Some(r)) {
                Err("The path now belongs to a different worktree. Nothing was deleted."@)
            } else if branch_ref is None && !ws[i].detached {
                Err("The worktree is no longer detached. Nothing was deleted."@)
            } else {
                Ok(Some(ws[i]))
            },
        },
        None => if branch_ref matches Some(r) && branch_checked_out(ws, r) {
            Err("This branch is now checked out in a worktree. Rescan before deleting it."@)
        } else {
            Ok(None)
        },
    }
}

pub open spec fn worktree_result(r: Result<Option<Worktree>, String>) -> Result<Option<WorktreeView>, Seq<char>> {
    match r {
        Ok(Some(w)) => Ok(Some(w@)),
        Ok(None) => Ok(None),
        Err(e) => Err(e@),
    }
}

fn find_path(worktrees: &Vec<Worktree>, p: &str) -> (r: Option<usize>)
    ensures
        r matches Some(i) ==> i < worktrees.len() && first_match(worktrees_view(worktrees@), at_path(p@)) == Some(i as int),
        r is None ==> first_match(worktrees_view(worktrees@), at_path(p@)) is None,
{
    let ghost ws = worktrees_view(worktrees@);
    let mut i: usize = 0;
    while i < worktrees.len()
        invariant
            i <= worktrees.len(),
            ws == worktrees_view(worktrees@),
            forall|j: int| 0 <= j < i ==> !(#[trigger] at_path(p@)(ws[j])),
        decreases worktrees.len() - i,
    {
        assert(ws[i as int] == worktrees@[i as int]@);
        if same(worktrees[i].path.as_str(), p) {
            proof {
                lemma_first_match_at(ws, at_path(p@), i as int);
            }
            return Some(i);
        }
        i = i + 1;
    }
    proof {
        lemma_first_match_none(ws, at_path(p@));
    }
    None
}

fn has_branch_out(worktrees: &Vec<Worktree>, reference: &str) -> (r: bool)
    ensures
        r == branch_checked_out(worktrees_view(worktrees@), reference@),
{
    let ghost ws = worktrees_view(worktrees@);
    let mut i: usize = 0;
    while i < worktrees.len()
        invariant
            i <= worktrees.len(),
            ws == worktrees_view(worktrees@),
            forall|j: int| 0 <= j < i ==> (#[trigger] ws[j]).branch != Some(reference@),
        decreases worktrees.len() - i,
    {
        assert(ws[i as int] == worktrees@[i as int]@);
        if let Some(b) = &worktrees[i].branch {
            if same(b.as_str(), reference) {
                return true;
            }
        }
        i = i + 1;
    }
    false
}

fn branch_is(b: &Option<String>, r: &str) -> (x: bool)
    ensures
        x == (opt_view(*b) == Some(r@)),
{
    match b {
        Some(v) => same(v.as_str(), r),
        None => false,
    }
}

/// Checks the worktree that a request names.
pub fn validate_worktree_identity(
    request: &DeleteWorkItemRequest,
    worktrees: &Vec<Worktree>,
    branch_ref: &Option<String>,
) -> (r: Result<Option<Worktree>, String>)
    ensures
        worktree_result(r) == spec_worktree_identity(request@.worktree_path, worktrees_view(worktrees@), opt_view(*branch_ref)),
{
    let ghost ws = worktrees_view(worktrees@);
    match &request.worktree_path {
        Some(p) => {
            let i = match find_path(worktrees, p.as_str()) {
                Some(i) => i,
                None => {
                    return Err(String::from_str("The expected worktree is no longer registered with this project. Rescan before deleting."));
                },
            };
            let found = &worktrees[i];
            assert(ws[i as int] == found@);
            let other_branch = match branch_ref {
                Some(r) => !branch_is(&found.branch, r.as_str()),
                None => false,
            };
            if found.bare || other_branch {
                return Err(String::from_str("The path now belongs to a different worktree. Nothing was deleted."));
            }
            if branch_ref.is_none() && !found.detached {
                return Err(String::from_str("The worktree is no longer detached. Nothing was deleted."));
            }
            Ok(Some(found.copy()))
        },
        None => {
            let taken = match branch_ref {
                Some(r) => has_branch_out(worktrees, r.as_str()),
                None => false,
            };
            if taken {
                return Err(String::from_str("This branch is now checked out in a worktree. Rescan before deleting it."));
            }
            Ok(None)
        },
    }
}

/// Picks the branch with a reference.
pub open spec fn with_reference(r: Seq<char>) -> spec_fn(BranchView) -> bool {
    |b: BranchView| b.reference == r
}

/// The branch a request names: its reference and commit. A request naming
/// no branch names none; a name that Git rejects, or that no local branch
/// has, is an error.
pub open spec fn spec_validate_branch(
    branch: Option<Seq<char>>,
    name_valid: bool,
    branches: Seq<BranchView>,
) -> Result<Option<(Seq<char>, Seq<char>)>, Seq<char>> {
    match branch {
        None => Ok(None),
        Some(b) => if !name_valid {
            Err("The branch name is not valid and will not be deleted."@)
        } else {
            match first_match(branches, with_reference("refs/heads/"@ + b)) {
                None => Err("This local branch no longer exists. Rescan the project."@),
                Some(i) => Ok(Some(("refs/heads/"@ + b, branches[i].sha))),
            }
        },
    }
}

pub open spec fn pair_result(r: Result<Option<(String, String)>, String>) -> Result<Option<(Seq<char>, Seq<char>)>, Seq<char>> {
    match r {
        Ok(Some((a, b))) => Ok(Some((a@, b@))),
        Ok(None) => Ok(None),
        Err(e) => Err(e@),
    }
}

/// Checks the branch a request names. `name_valid` is the verdict of `git
/// check-ref-format --branch`, read only when a branch is named.
pub fn validate_branch(
    request: &DeleteWorkItemRequest,
    name_valid: bool,
    branches: &Vec<Branch>,
) -> (r: Result<Option<(String, String)>, String>)
    ensures
        pair_result(r) == spec_validate_branch(request@.branch, name_valid, branches_view(branches@)),
{
    let b = match &request.branch {
        None => return Ok(None),
        Some(b) => b,
    };
    if !name_valid {
        return Err(String::from_str("The branch name is not valid and will not be deleted."));
    }
    let mut reference = chars_of("refs/heads/");
    push_str(&mut reference, b.as_str());
    let reference = string_of(&reference);
    let ghost bs = branches_view(branches@);
    let ghost p = with_reference(reference@);
    let mut i: usize = 0;
    while i < branches.len()
        invariant
            i <= branches.len(),
            bs == branches_view(branches@),
            p == with_reference(reference@),
            reference@ == "refs/heads/"@ + b@,
            request@.branch == Some(b@),
            name_valid,
            forall|j: int| 0 <= j < i ==> !(#[trigger] p(bs[j])),
        decreases branches.len() - i,
    {
        assert(bs[i as int] == branches@[i as int]@);
        if same(branches[i].reference.as_str(), reference.as_str()) {
            proof {
                lemma_first_match_at(bs, p, i as int);
            }
            return Ok(Some((reference, branches[i].sha.clone())));
        }
        i = i + 1;
    }
    proof {
        lemma_first_match_none(bs, p);
    }
    Err(String::from_str("This local branch no longer exists. Rescan the project."))
}

/// What the first checks find: the primary checkout, the branch and
/// worktree the item is made of, its commit, and whether the worktree is
/// the primary checkout.
pub struct DeletionTarget {
    pub primary_path: String,
    pub branch_ref: Option<String>,
    pub worktree: Option<Worktree>,
    pub actual_sha: String,
    pub is_primary: bool,
}

pub struct DeletionTargetView {
    pub primary_path: Seq<char>,
    pub branch_ref: Option<Seq<char>>,
    pub worktree: Option<WorktreeView>,
    pub actual_sha: Seq<char>,
    pub is_primary: bool,
}

pub open spec fn opt_worktree_view(o: Option<Worktree>) -> Option<WorktreeView> {
    match o {
        Some(w) => Some(w@),
        None => None,
    }
}

impl View for DeletionTarget {
    type V = DeletionTargetView;

    open spec fn view(&self) -> DeletionTargetView {
        DeletionTargetView {
            primary_path: self.primary_path@,
            branch_ref: opt_view(self.branch_ref),
            worktree: opt_worktree_view(self.worktree),
            actual_sha: self.actual_sha@,
            is_primary: self.is_primary,
        }
    }
}

pub open spec fn not_bare() -> spec_fn(WorktreeView) -> bool {
    |w: WorktreeView| !w.bare
}

/// The first checks of a deletion, in order: the primary checkout exists and
/// is the project's path; the branch and worktree still match the request;
/// the item's commit is the one scanned; the identifier matches; the default
/// branch and a primary checkout without a branch are never deleted.
pub open spec fn spec_locate(
    request: DeleteWorkItemRequestView,
    root: Seq<char>,
    ws: Seq<WorktreeView>,
    branches: Seq<BranchView>,
    default_branch: Option<Seq<char>>,
    name_valid: bool,
) -> Result<DeletionTargetView, Seq<char>> {
    match first_match(ws, not_bare()) {
        None => Err("This repository has no primary checkout to protect."@),
        Some(pi) => {
            let primary = ws[pi].path;
            if root != primary {
                Err("The saved project path is no longer the primary checkout. Rescan the project and try again."@)
            } else {
                match spec_validate_branch(request.branch, name_valid, branches) {
                    Err(e) => Err(e),
                    Ok(found) => {
                        let branch_ref = match found {
                            Some((r, _)) => Some(r),
                            None => None,
                        };
                        match spec_worktree_identity(request.worktree_path, ws, branch_ref) {
                            Err(e) => Err(e),
                            Ok(worktree) => {
                                let actual = match found {
                                    Some((_, sha)) => Some(sha),
                                    None => match worktree {
                                        Some(w) => Some(w.sha),
                                        None => None,
                                    },
                                };
                                match actual {
                                    None => Err("This work item no longer exists. Rescan the project."@),
                                    Some(sha) => if sha != request.head_sha {
                                        Err("This work item changed since the last scan. Rescan the project and try again."@)
                                    } else {
                                        let expected = match branch_ref {
                                            Some(r) => branch_item_id(request.project_id, r),
                                            None => worktree_item_id(request.project_id, worktree->0.path),
                                        };
                                        let is_primary = worktree matches Some(w) && w.path == primary;
                                        if request.work_item_id != expected && !spec_is_pull_request_id(request.work_item_id, request.project_id) {
                                            Err("Work item identity does not match the current branch or worktree. Rescan the project."@)
                                        } else if request.branch == default_branch {
                                            Err("The repository's default branch cannot be deleted."@)
                                        } else if is_primary && request.branch is None {
                                            Err("The primary repository checkout cannot be removed."@)
                                        } else {
                                            Ok(DeletionTargetView {
                                                primary_path: primary,
                                                branch_ref: branch_ref,
                                                worktree: worktree,
                                                actual_sha: sha,
                                                is_primary: is_primary,
                                            })
                                        }
                                    },
                                }
                            },
                        }
                    },
                }
            }
        },
    }
}

pub open spec fn target_result(r: Result<DeletionTarget, String>) -> Result<DeletionTargetView, Seq<char>> {
    match r {
        Ok(t) => Ok(t@),
        Err(e) => Err(e@),
    }
}

fn primary_of(worktrees: &Vec<Worktree>) -> (r: Option<String>)
    ensures
        match first_match(worktrees_view(worktrees@), not_bare()) {
            Some(i) => r matches Some(p) && p@ == worktrees@[i].path@,
            None => r is None,
        },
{
    let ghost ws = worktrees_view(worktrees@);
    let mut i: usize = 0;
    while i < worktrees.len()
        invariant
            i <= worktrees.len(),
            ws == worktrees_view(worktrees@),
            forall|j: int| 0 <= j < i ==> !(#[trigger] not_bare()(ws[j])),
        decreases worktrees.len() - i,
    {
        assert(ws[i as int] == worktrees@[i as int]@);
        if !worktrees[i].bare {
            proof {
                lemma_first_match_at(ws, not_bare(), i as int);
            }
            return Some(worktrees[i].path.clone());
        }
        i = i + 1;
    }
    proof {
        lemma_first_match_none(ws, not_bare());
    }
    None
}

/// The first checks of a deletion. `root` is the checked project path,
/// `worktrees` and `branches` what Git lists, `default_branch` the base
/// branch's name, and `name_valid` Git's verdict on the branch name.
pub fn locate(
    request: &DeleteWorkItemRequest,
    root: &str,
    worktrees: &Vec<Worktree>,
    branches: &Vec<Branch>,
    default_branch: &Option<String>,
    name_valid: bool,
) -> (r: Result<DeletionTarget, String>)
    ensures
        target_result(r) == spec_locate(request@, root@, worktrees_view(worktrees@), branches_view(branches@), opt_view(*default_branch), name_valid),
{
    let primary = match primary_of(worktrees) {
        Some(p) => p,
        None => return Err(String::from_str("This repository has no primary checkout to protect.")),
    };
    if !same(root, primary.as_str()) {
        return Err(String::from_str("The saved project path is no longer the primary checkout. Rescan the project and try again."));
    }
    let found = match validate_branch(request, name_valid, branches) {
        Ok(f) => f,
        Err(e) => return Err(e),
    };
    let (branch_ref, branch_sha) = match found {
        Some((r, s)) => (Some(r), Some(s)),
        None => (None, None),
    };
    let worktree = match validate_worktree_identity(request, worktrees, &branch_ref) {
        Ok(w) => w,
        Err(e) => return Err(e),
    };
    let actual = match branch_sha {
        Some(s) => s,
        None => match &worktree {
            Some(w) => w.sha.clone(),
            None => return Err(String::from_str("This work item no longer exists. Rescan the project.")),
        },
    };
    if !same(actual.as_str(), request.head_sha.as_str()) {
        return Err(String::from_str("This work item changed since the last scan. Rescan the project and try again."));
    }
    let expected = match &branch_ref {
        Some(r) => {
            let mut v = chars_of(request.project_id.as_str());
            push_str(&mut v, "::branch::");
            push_str(&mut v, r.as_str());
            string_of(&v)
        },
        None => {
            let mut v = chars_of(request.project_id.as_str());
            push_str(&mut v, "::worktree::");
            match &worktree {
                Some(w) => push_str(&mut v, w.path.as_str()),
                None => {},
            }
            string_of(&v)
        },
    };
    let is_primary = match &worktree {
        Some(w) => same(w.path.as_str(), primary.as_str()),
        None => false,
    };
    if !same(request.work_item_id.as_str(), expected.as_str())
        && !is_pull_request_id(request.work_item_id.as_str(), request.project_id.as_str()) {
        return Err(String::from_str("Work item identity does not match the current branch or worktree. Rescan the project."));
    }
    if opt_eq(&request.branch, default_branch) {
        return Err(String::from_str("The repository's default branch cannot be deleted."));
    }
    if is_primary && request.branch.is_none() {
        return Err(String::from_str("The primary repository checkout cannot be removed."));
    }
    Ok(DeletionTarget { primary_path: primary, branch_ref, worktree, actual_sha: actual, is_primary })
}

/// The last checks of a deletion and its plan: the primary checkout must be
/// clean and the default branch known before it is switched; the plan then
/// says what will be removed. `has_uncommitted_changes` is whether the
/// worktree exists on disk with changes; `unpushed_commits` the number of
/// commits that no other reference reaches.
pub open spec fn spec_plan(
    request: DeleteWorkItemRequestView,
    target: DeletionTargetView,
    default_branch: Option<Seq<char>>,
    has_uncommitted_changes: bool,
    unpushed_commits: u32,
) -> Result<DeletionPlanView, Seq<char>> {
    if target.is_primary && has_uncommitted_changes {
        Err("The primary checkout has uncommitted changes. Commit, stash, or discard them before deleting this branch."@)
    } else if target.is_primary && default_branch is None {
        Err("ShipYard could not determine the default branch, so it will not change the primary checkout."@)
    } else {
        Ok(DeletionPlanView {
            project_id: request.project_id,
            work_item_id: request.work_item_id,
            branch: request.branch,
            worktree_path: match target.worktree {
                Some(w) => Some(w.path),
                None => None,
            },
            default_branch: default_branch,
            removes_worktree: target.worktree is Some && !target.is_primary,
            deletes_branch: request.branch is Some,
            switches_primary_checkout: target.is_primary,
            has_uncommitted_changes: has_uncommitted_changes,
            unpushed_commits: unpushed_commits,
        })
    }
}

/// The last checks of a deletion, before its commits are counted.
pub open spec fn spec_may_proceed(target: DeletionTargetView, default_branch: Option<Seq<char>>, has_uncommitted_changes: bool) -> bool {
    !(target.is_primary && has_uncommitted_changes) && !(target.is_primary && default_branch is None)
}

/// Whether the deletion may go on to count its commits.
pub fn may_proceed(target: &DeletionTarget, default_branch: &Option<String>, has_uncommitted_changes: bool) -> (r: bool)
    ensures
        r == spec_may_proceed(target@, opt_view(*default_branch), has_uncommitted_changes),
{
    !(target.is_primary && has_uncommitted_changes) && !(target.is_primary && default_branch.is_none())
}

/// The reference whose unique commits are counted: the branch, else the
/// commit.
pub fn count_target(target: &DeletionTarget) -> (r: String)
    ensures
        r@ == match target@.branch_ref {
            Some(b) => b,
            None => target@.actual_sha,
        },
{
    match &target.branch_ref {
        Some(b) => b.clone(),
        None => target.actual_sha.clone(),
    }
}

pub open spec fn plan_result(r: Result<DeletionPlan, String>) -> Result<DeletionPlanView, Seq<char>> {
    match r {
        Ok(p) => Ok(p@),
        Err(e) => Err(e@),
    }
}

/// The plan of a deletion, after its last checks.
pub fn plan(
    request: &DeleteWorkItemRequest,
    target: &DeletionTarget,
    default_branch: &Option<String>,
    has_uncommitted_changes: bool,
    unpushed_commits: u32,
) -> (r: Result<DeletionPlan, String>)
    ensures
        plan_result(r) == spec_plan(request@, target@, opt_view(*default_branch), has_uncommitted_changes, unpushed_commits),
{
    if target.is_primary && has_uncommitted_changes {
        return Err(String::from_str("The primary checkout has uncommitted changes. Commit, stash, or discard them before deleting this branch."));
    }
    if target.is_primary && default_branch.is_none() {
        return Err(String::from_str("ShipYard could not determine the default branch, so it will not change the primary checkout."));
    }
    Ok(DeletionPlan {
        project_id: request.project_id.clone(),
        work_item_id: request.work_item_id.clone(),
        branch: copy_opt(&request.branch),
        worktree_path: match &target.worktree {
            Some(w) => Some(w.path.clone()),
            None => None,
        },
        default_branch: copy_opt(default_branch),
        removes_worktree: target.worktree.is_some() && !target.is_primary,
        deletes_branch: request.branch.is_some(),
        switches_primary_checkout: target.is_primary,
        has_uncommitted_changes,
        unpushed_commits,
    })
}

/// What Git reported for a deletion, each answer read only when the checks
/// before it passed.
pub struct DeletionFacts {
    pub root: String,
    pub worktrees: Vec<Worktree>,
    pub branches: Vec<Branch>,
    pub default_branch: Option<String>,
    pub name_valid: bool,
    pub has_uncommitted_changes: bool,
    pub unpushed_commits: Result<u32, String>,
}

/// The project's root, once the project is still the one the request
/// names: the checked root (its error prefixed), then the repository's
/// common directory (its error as it is), which must be the project's
/// identifier.
pub open spec fn spec_project_identity(
    project_id: Seq<char>,
    root: Result<Seq<char>, Seq<char>>,
    common_dir: Result<Seq<char>, Seq<char>>,
) -> Result<Seq<char>, Seq<char>> {
    match root {
        Err(e) => Err("Project identity no longer matches: "@ + e),
        Ok(r) => match common_dir {
            Err(e) => Err(e),
            Ok(c) => if c != project_id {
                Err("Project identity no longer matches. Rescan the project and try again."@)
            } else {
                Ok(r)
            },
        },
    }
}

pub open spec fn text_result(r: Result<String, String>) -> Result<Seq<char>, Seq<char>> {
    match r {
        Ok(t) => Ok(t@),
        Err(e) => Err(e@),
    }
}

/// The project's root, once the project is still the one the request names.
/// `root` is the outcome of validating the project's checkout, `common_dir`
/// that of resolving its repository, read only when the root was valid.
pub fn project_identity(project_id: &str, root: Result<String, String>, common_dir: Result<String, String>) -> (r: Result<String, String>)
    ensures
        text_result(r) == spec_project_identity(project_id@, text_result(root), text_result(common_dir)),
{
    match root {
        Err(e) => {
            let mut v = chars_of("Project identity no longer matches: ");
            crate::text::push_str(&mut v, e.as_str());
            Err(string_of(&v))
        },
        Ok(r) => match common_dir {
            Err(e) => Err(e),
            Ok(c) => if crate::text::same_text(c.as_str(), project_id) {
                Ok(r)
            } else {
                Err(String::from_str("Project identity no longer matches. Rescan the project and try again."))
            },
        },
    }
}

/// The plan of a deletion from what Git reported: the first checks, the
/// last checks, then the count of unpushed commits (or the error counting
/// them).
pub open spec fn spec_inspect(request: DeleteWorkItemRequestView, facts: DeletionFacts) -> Result<DeletionPlanView, Seq<char>> {
    match spec_locate(request, facts.root@, worktrees_view(facts.worktrees@), branches_view(facts.branches@), opt_view(facts.default_branch), facts.name_valid) {
        Err(e) => Err(e),
        Ok(target) => if !spec_may_proceed(target, opt_view(facts.default_branch), facts.has_uncommitted_changes) {
            spec_plan(request, target, opt_view(facts.default_branch), facts.has_uncommitted_changes, 0)
        } else {
            match facts.unpushed_commits {
                Err(e) => Err(e@),
                Ok(n) => spec_plan(request, target, opt_view(facts.default_branch), facts.has_uncommitted_changes, n),
            }
        },
    }
}

/// The plan of a deletion, for the user to confirm.
pub fn inspect(request: &DeleteWorkItemRequest, facts: &DeletionFacts) -> (r: Result<DeletionPlan, String>)
    ensures
        plan_result(r) == spec_inspect(request@, *facts),
{
    let target = match locate(request, facts.root.as_str(), &facts.worktrees, &facts.branches, &facts.default_branch, facts.name_valid) {
        Ok(t) => t,
        Err(e) => return Err(e),
    };
    if !may_proceed(&target, &facts.default_branch, facts.has_uncommitted_changes) {
        return plan(request, &target, &facts.default_branch, facts.has_uncommitted_changes, 0);
    }
    match &facts.unpushed_commits {
        Err(e) => Err(e.clone()),
        Ok(n) => plan(request, &target, &facts.default_branch, facts.has_uncommitted_changes, *n),
    }
}

/// The steps that carry out a confirmed deletion, in order: switch the
/// primary checkout to the default branch, or remove the worktree; then
/// delete the branch, once its commit is checked again.
pub struct DeletionSteps {
    pub switch_to: Option<String>,
    pub remove_worktree: Option<String>,
    pub delete_branch: Option<(String, String)>,
}

/// The steps of a confirmed deletion: none when the current plan is not the
/// confirmed one.
pub open spec fn spec_delete(
    request: DeleteWorkItemRequestView,
    facts: DeletionFacts,
    confirmed: DeletionPlanView,
) -> Result<(Option<Seq<char>>, Option<Seq<char>>, Option<(Seq<char>, Seq<char>)>), Seq<char>> {
    match spec_inspect(request, facts) {
        Err(e) => Err(e),
        Ok(current) => if current != confirmed {
            Err("This work item changed after the confirmation opened. Review its current state and try again."@)
        } else {
            let target = spec_locate(request, facts.root@, worktrees_view(facts.worktrees@), branches_view(facts.branches@), opt_view(facts.default_branch), facts.name_valid)->Ok_0;
            let switch_to = if target.is_primary { current.default_branch } else { None };
            let remove = if target.worktree is Some && !target.is_primary {
                Some(target.worktree->0.path)
            } else {
                None
            };
            let delete = match (current.branch, target.branch_ref) {
                (Some(b), Some(r)) => Some((b, r)),
                _ => None,
            };
            Ok((switch_to, remove, delete))
        },
    }
}

pub open spec fn steps_view(s: DeletionSteps) -> (Option<Seq<char>>, Option<Seq<char>>, Option<(Seq<char>, Seq<char>)>) {
    (
        opt_view(s.switch_to),
        opt_view(s.remove_worktree),
        match s.delete_branch {
            Some((b, r)) => Some((b@, r@)),
            None => None,
        },
    )
}

pub open spec fn steps_result(r: Result<DeletionSteps, String>) -> Result<(Option<Seq<char>>, Option<Seq<char>>, Option<(Seq<char>, Seq<char>)>), Seq<char>> {
    match r {
        Ok(s) => Ok(steps_view(s)),
        Err(e) => Err(e@),
    }
}

/// Checks a deletion again and, when it is still the plan the user
/// confirmed, gives the steps that carry it out.
pub fn delete(request: &DeleteWorkItemRequest, confirmed_plan: &DeletionPlan, facts: &DeletionFacts) -> (r: Result<DeletionSteps, String>)
    ensures
        steps_result(r) == spec_delete(request@, *facts, confirmed_plan@),
{
    let current = match inspect(request, facts) {
        Ok(p) => p,
        Err(e) => return Err(e),
    };
    if !plans_equal(&current, confirmed_plan) {
        return Err(String::from_str("This work item changed after the confirmation opened. Review its current state and try again."));
    }
    let target = match locate(request, facts.root.as_str(), &facts.worktrees, &facts.branches, &facts.default_branch, facts.name_valid) {
        Ok(t) => t,
        Err(e) => return Err(e),
    };
    let switch_to = if target.is_primary {
        copy_opt(&current.default_branch)
    } else {
        None
    };
    let remove_worktree = match &target.worktree {
        Some(w) => if !target.is_primary {
            Some(w.path.clone())
        } else {
            None
        },
        None => None,
    };
    let delete_branch = match (&current.branch, &target.branch_ref) {
        (Some(b), Some(r)) => Some((b.clone(), r.clone())),
        _ => None,
    };
    Ok(DeletionSteps { switch_to, remove_worktree, delete_branch })
}

/// Before the branch is deleted its commit is read again: it must still
/// exist (the output of `git rev-parse`) and, trimmed, still be the scanned
/// commit.
pub open spec fn spec_branch_unchanged(branch: Seq<char>, current: Option<Seq<char>>, head_sha: Seq<char>) -> Result<(), Seq<char>> {
    match current {
        None => Err("The worktree was removed, but branch "@ + branch + " no longer exists. Rescan the project."@),
        Some(c) => if trim(c) != head_sha {
            Err("The worktree was removed, but branch "@ + branch + " changed before it could be deleted. The branch was left intact."@)
        } else {
            Ok(())
        },
    }
}

pub open spec fn unit_result(r: Result<(), String>) -> Result<(), Seq<char>> {
    match r {
        Ok(()) => Ok(()),
        Err(e) => Err(e@),
    }
}

fn message(a: &str, b: &str, c: &str) -> (r: String)
    ensures
        r@ == a@ + b@ + c@,
{
    let mut v = chars_of(a);
    push_str(&mut v, b);
    push_str(&mut v, c);
    string_of(&v)
}

/// Checks that the branch is still at the scanned commit.
pub fn branch_unchanged(branch: &str, current: Option<String>, head_sha: &str) -> (r: Result<(), String>)
    ensures
        unit_result(r) == spec_branch_unchanged(branch@, opt_view(current), head_sha@),
{
    match current {
        None => Err(message("The worktree was removed, but branch ", branch, " no longer exists. Rescan the project.")),
        Some(c) => {
            let t = trim_chars(&chars_of(c.as_str()));
            if !chars_eq(&t, &chars_of(head_sha)) {
                Err(message("The worktree was removed, but branch ", branch, " changed before it could be deleted. The branch was left intact."))
            } else {
                Ok(())
            }
        },
    }
}

/// The error of a failed step, naming what it worked on.
pub fn step_error(step: &str, subject: &str, error: &str) -> (r: String)
    ensures
        r@ == step@ + subject@ + ": "@ + error@,
{
    let mut v = chars_of(step);
    push_str(&mut v, subject);
    push_str(&mut v, ": ");
    push_str(&mut v, error);
    string_of(&v)
}

/// What a deletion did, once all its steps succeeded.
pub fn deletion_result(confirmed_plan: &DeletionPlan, steps: &DeletionSteps) -> (r: DeletionResult)
    ensures
        r.project_id@ == confirmed_plan.project_id@,
        r.work_item_id@ == confirmed_plan.work_item_id@,
        r.switched_primary_to_default == steps.switch_to.is_some(),
        r.worktree_removed == steps.remove_worktree.is_some(),
        r.branch_deleted == steps.delete_branch.is_some(),
{
    DeletionResult {
        project_id: confirmed_plan.project_id.clone(),
        work_item_id: confirmed_plan.work_item_id.clone(),
        worktree_removed: steps.remove_worktree.is_some(),
        branch_deleted: steps.delete_branch.is_some(),
        switched_primary_to_default: steps.switch_to.is_some(),
    }
}

/// The default branch is never deleted: a plan never names it as its
/// branch.
pub proof fn law_default_branch_is_never_deleted(request: DeleteWorkItemRequestView, facts: DeletionFacts)
    ensures
        spec_inspect(request, facts) matches Ok(plan) ==> plan.branch != plan.default_branch,
{
}

/// The primary checkout is never removed, and it is only switched to the
/// default branch when it is clean and the default branch is known.
pub proof fn law_primary_checkout_is_protected(request: DeleteWorkItemRequestView, facts: DeletionFacts)
    ensures
        spec_inspect(request, facts) matches Ok(plan) ==> !(plan.removes_worktree && plan.switches_primary_checkout),
        spec_inspect(request, facts) matches Ok(plan) ==> (plan.switches_primary_checkout ==> !plan.has_uncommitted_changes
            && plan.default_branch is Some && plan.deletes_branch),
{
}

/// A deletion is carried out only when the plan the user confirmed is the
/// one that the current state of the repository gives.
pub proof fn law_only_the_confirmed_plan_is_carried_out(request: DeleteWorkItemRequestView, facts: DeletionFacts, confirmed: DeletionPlanView)
    ensures
        spec_delete(request, facts, confirmed) is Ok ==> spec_inspect(request, facts) == Ok::<DeletionPlanView, Seq<char>>(confirmed),
{
}

/// The steps of a confirmed deletion do what its plan says: the worktree is
/// removed exactly when the plan says so, the primary checkout is switched
/// exactly when it says so, and a branch is deleted only when it names one.
pub proof fn law_steps_follow_the_plan(request: DeleteWorkItemRequestView, facts: DeletionFacts, confirmed: DeletionPlanView)
    ensures
        spec_delete(request, facts, confirmed) matches Ok((switch_to, remove, delete)) ==> {
            &&& (remove is Some <==> confirmed.removes_worktree)
            &&& (switch_to is Some <==> confirmed.switches_primary_checkout)
            &&& (delete is Some ==> confirmed.deletes_branch)
            &&& (remove matches Some(p) ==> confirmed.worktree_path == Some(p))
        },
{
}

/// The arguments that count the commits of a work item that no other
/// reference reaches: `git rev-list --count <target> --not` and every
/// reference listed by `git for-each-ref` but the item's own branch.
pub open spec fn spec_count_args(refs: Seq<Seq<char>>, target: Seq<char>, excluded: Option<Seq<char>>) -> Seq<Seq<char>>
    decreases refs.len(),
{
    if refs.len() == 0 {
        seq!["rev-list"@, "--count"@, target, "--not"@]
    } else if Some(refs.last()) == excluded {
        spec_count_args(refs.drop_last(), target, excluded)
    } else {
        spec_count_args(refs.drop_last(), target, excluded).push(refs.last())
    }
}

pub open spec fn strings_view(v: Seq<String>) -> Seq<Seq<char>> {
    v.map_values(|s: String| s@)
}

/// The arguments that count the commits unique to a work item.
pub fn count_args(refs: &str, target: &str, excluded: &Option<String>) -> (r: Vec<String>)
    ensures
        strings_view(r@) == spec_count_args(crate::text::lines(refs@), target@, opt_view(*excluded)),
{
    let ls = crate::text::lines_of(&chars_of(refs));
    let ghost l = crate::text::seqs(ls@);
    let mut r: Vec<String> = Vec::new();
    r.push(String::from_str("rev-list"));
    r.push(String::from_str("--count"));
    r.push(target.to_string());
    r.push(String::from_str("--not"));
    assert(strings_view(r@) =~= spec_count_args(l.subrange(0, 0), target@, opt_view(*excluded)));
    let mut i: usize = 0;
    while i < ls.len()
        invariant
            i <= ls.len(),
            l == crate::text::seqs(ls@),
            l == crate::text::lines(refs@),
            strings_view(r@) == spec_count_args(l.subrange(0, i as int), target@, opt_view(*excluded)),
        decreases ls.len() - i,
    {
        assert(l.subrange(0, i + 1).drop_last() =~= l.subrange(0, i as int));
        assert(l.subrange(0, i + 1).last() == ls@[i as int]@);
        let skip = match excluded {
            Some(x) => chars_eq(&ls[i], &chars_of(x.as_str())),
            None => false,
        };
        if !skip {
            let ghost before = strings_view(r@);
            r.push(string_of(&ls[i]));
            assert(strings_view(r@) =~= before.push(ls@[i as int]@));
        }
        i = i + 1;
    }
    assert(l.subrange(0, ls.len() as int) =~= l);
    r
}

/// The number of unpushed commits from the output of `git rev-list
/// --count`: the trimmed text read as a number, or an error that says why
/// it is not one.
pub open spec fn spec_unpushed_count(text: Seq<char>) -> Result<u32, Seq<char>> {
    let t = trim(text);
    match crate::text::parse_unsigned(t, u32::MAX as nat) {
        Some(n) => Ok(n as u32),
        None => Err("Could not count commits unique to this work item: "@ + if t.len() == 0 {
            "cannot parse integer from empty string"@
        } else if crate::text::unsigned_body(t).len() > 0 && crate::text::all_digits(crate::text::unsigned_body(t)) {
            "number too large to fit in target type"@
        } else {
            "invalid digit found in string"@
        }),
    }
}

pub open spec fn count_view(r: Result<u32, String>) -> Result<u32, Seq<char>> {
    match r {
        Ok(n) => Ok(n),
        Err(e) => Err(e@),
    }
}

/// The number of unpushed commits that Git counted.
pub fn unpushed_count(text: &str) -> (r: Result<u32, String>)
    ensures
        count_view(r) == spec_unpushed_count(text@),
{
    let t = trim_chars(&chars_of(text));
    match crate::text::parse_u32(&t) {
        Some(n) => Ok(n),
        None => {
            let reason = if t.len() == 0 {
                "cannot parse integer from empty string"
            } else {
                let start: usize = if t[0] == '+' { 1 } else { 0 };
                let mut digits = start < t.len();
                let mut i = start;
                while i < t.len()
                    invariant
                        start <= i <= t.len(),
                        start == (if t@[0] == '+' { 1usize } else { 0usize }),
                        t@.len() > 0,
                        crate::text::unsigned_body(t@) =~= t@.subrange(start as int, t@.len() as int),
                        digits == (start < t.len() && forall|k: int| start <= k < i ==> crate::text::is_digit(#[trigger] t@[k])),
                    decreases t.len() - i,
                {
                    if t[i] < '0' || t[i] > '9' {
                        digits = false;
                    }
                    i = i + 1;
                }
                if digits {
                    assert(crate::text::all_digits(crate::text::unsigned_body(t@)));
                    "number too large to fit in target type"
                } else {
                    assert(!(crate::text::unsigned_body(t@).len() > 0 && crate::text::all_digits(crate::text::unsigned_body(t@)))) by {
                        if crate::text::unsigned_body(t@).len() > 0 && crate::text::all_digits(crate::text::unsigned_body(t@)) {
                            assert forall|k: int| start <= k < t.len() implies crate::text::is_digit(#[trigger] t@[k]) by {
                                assert(t@[k] == crate::text::unsigned_body(t@)[k - start]);
                            }
                        }
                    }
                    "invalid digit found in string"
                }
            };
            let mut v = chars_of("Could not count commits unique to this work item: ");
            push_str(&mut v, reason);
            Err(string_of(&v))
        },
    }
}

/// The count of a work item's unpushed commits is `git rev-list --count
/// <target> --not` followed by the listed references: every one of them but
/// the excluded one (the item's own branch), which never appears, and
/// nothing that was not listed.
pub proof fn law_count_args_exclude_own_branch(refs: Seq<Seq<char>>, target: Seq<char>, excluded: Option<Seq<char>>)
    ensures
        spec_count_args(refs, target, excluded).len() >= 4,
        spec_count_args(refs, target, excluded)[0] == "rev-list"@,
        spec_count_args(refs, target, excluded)[1] == "--count"@,
        spec_count_args(refs, target, excluded)[2] == target,
        spec_count_args(refs, target, excluded)[3] == "--not"@,
        forall|i: int| 4 <= i < spec_count_args(refs, target, excluded).len() ==> Some(#[trigger] spec_count_args(refs, target, excluded)[i])
            != excluded && refs.contains(spec_count_args(refs, target, excluded)[i]),
        forall|j: int| 0 <= j < refs.len() && Some(#[trigger] refs[j]) != excluded ==> exists|i: int|
            4 <= i < spec_count_args(refs, target, excluded).len() && spec_count_args(refs, target, excluded)[i] == refs[j],
    decreases refs.len(),
{
    let a = spec_count_args(refs, target, excluded);
    if refs.len() > 0 {
        let prev = refs.drop_last();
        law_count_args_exclude_own_branch(prev, target, excluded);
        let b = spec_count_args(prev, target, excluded);
        assert forall|i: int| 4 <= i < a.len() implies Some(#[trigger] a[i]) != excluded && refs.contains(a[i]) by {
            if i < b.len() {
                assert(a[i] == b[i]);
                let k = choose|k: int| 0 <= k < prev.len() && prev[k] == b[i];
                assert(refs[k] == prev[k]);
            } else {
                assert(a[i] == refs.last());
                assert(refs[refs.len() - 1] == refs.last());
            }
        }
        assert forall|j: int| 0 <= j < refs.len() && Some(#[trigger] refs[j]) != excluded implies exists|i: int|
            4 <= i < a.len() && a[i] == refs[j] by {
            if j < prev.len() {
                assert(prev[j] == refs[j]);
                let i = choose|i: int| 4 <= i < b.len() && b[i] == prev[j];
                assert(a[i] == b[i]);
            } else {
                assert(a[a.len() - 1] == refs[j]);
            }
        }
    }
}

} // verus!
