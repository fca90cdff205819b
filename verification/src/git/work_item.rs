//! Work items: the branches, checkouts and pull requests of a project, as
//! the board lists them.
use crate::git::worktree::opt_view;
use crate::text::{first_match, is_first_match, lemma_first_match_at, lemma_first_match_none};
use vstd::prelude::*;

verus! {

/// Where a piece of work stands.
#[derive(Clone, Copy, Debug, PartialEq, Eq, Structural)]
pub enum WorkStatus {
    Working,
    Ready,
    Shipped,
    MergeConflict,
}

/// A pull request as the board shows it.
#[derive(Debug)]
pub struct PullRequest {
    pub number: u64,
    pub title: String,
    pub url: String,
    pub draft: bool,
    pub mergeable: Option<bool>,
    pub merge_state: String,
    pub attention_state: String,
    pub head_branch: String,
    pub base_branch: String,
    pub head_sha: String,
    pub local_commits: u32,
    pub remote_commits: u32,
}

pub struct PullRequestView {
    pub number: u64,
    pub title: Seq<char>,
    pub url: Seq<char>,
    pub draft: bool,
    pub mergeable: Option<bool>,
    pub merge_state: Seq<char>,
    pub attention_state: Seq<char>,
    pub head_branch: Seq<char>,
    pub base_branch: Seq<char>,
    pub head_sha: Seq<char>,
    pub local_commits: u32,
    pub remote_commits: u32,
}

impl View for PullRequest {
    type V = PullRequestView;

    open spec fn view(&self) -> PullRequestView {
        PullRequestView {
            number: self.number,
            title: self.title@,
            url: self.url@,
            draft: self.draft,
            mergeable: self.mergeable,
            merge_state: self.merge_state@,
            attention_state: self.attention_state@,
            head_branch: self.head_branch@,
            base_branch: self.base_branch@,
            head_sha: self.head_sha@,
            local_commits: self.local_commits,
            remote_commits: self.remote_commits,
        }
    }
}

/// One piece of work: a branch, a detached checkout or a pull request.
#[derive(Debug)]
pub struct WorkItem {
    pub id: String,
    pub project_id: String,
    pub branch: Option<String>,
    pub worktree_path: Option<String>,
    pub head_sha: String,
    pub last_commit_subject: String,
    pub status: WorkStatus,
    pub pull_request: Option<PullRequest>,
    pub completed: bool,
    pub additions: u64,
    pub deletions: u64,
    pub changed_files: usize,
    pub ahead: u32,
    pub behind: u32,
    pub updated_at: u64,
}

pub struct WorkItemView {
    pub id: Seq<char>,
    pub project_id: Seq<char>,
    pub branch: Option<Seq<char>>,
    pub worktree_path: Option<Seq<char>>,
    pub head_sha: Seq<char>,
    pub last_commit_subject: Seq<char>,
    pub status: WorkStatus,
    pub pull_request: Option<PullRequestView>,
    pub completed: bool,
    pub additions: u64,
    pub deletions: u64,
    pub changed_files: usize,
    pub ahead: u32,
    pub behind: u32,
    pub updated_at: u64,
}

pub open spec fn pull_request_view(p: Option<PullRequest>) -> Option<PullRequestView> {
    match p {
        Some(p) => Some(p@),
        None => None,
    }
}

impl View for WorkItem {
    type V = WorkItemView;

    open spec fn view(&self) -> WorkItemView {
        WorkItemView {
            id: self.id@,
            project_id: self.project_id@,
            branch: opt_view(self.branch),
            worktree_path: opt_view(self.worktree_path),
            head_sha: self.head_sha@,
            last_commit_subject: self.last_commit_subject@,
            status: self.status,
            pull_request: pull_request_view(self.pull_request),
            completed: self.completed,
            additions: self.additions,
            deletions: self.deletions,
            changed_files: self.changed_files,
            ahead: self.ahead,
            behind: self.behind,
            updated_at: self.updated_at,
        }
    }
}

pub open spec fn items_view(v: Seq<WorkItem>) -> Seq<WorkItemView> {
    v.map_values(|w: WorkItem| w@)
}

/// A repository and its work, as one scan found it.
#[derive(Debug)]
pub struct Project {
    pub id: String,
    pub name: String,
    pub path: String,
    pub default_branch: Option<String>,
    pub work_items: Vec<WorkItem>,
    pub github_repository: Option<String>,
    pub github_error: Option<String>,
}

pub struct ProjectView {
    pub id: Seq<char>,
    pub name: Seq<char>,
    pub path: Seq<char>,
    pub default_branch: Option<Seq<char>>,
    pub work_items: Seq<WorkItemView>,
    pub github_repository: Option<Seq<char>>,
    pub github_error: Option<Seq<char>>,
}

impl View for Project {
    type V = ProjectView;

    open spec fn view(&self) -> ProjectView {
        ProjectView {
            id: self.id@,
            name: self.name@,
            path: self.path@,
            default_branch: opt_view(self.default_branch),
            work_items: items_view(self.work_items@),
            github_repository: opt_view(self.github_repository),
            github_error: opt_view(self.github_error),
        }
    }
}

/// Picks the items updated before `key`.
pub open spec fn older_than(key: u64) -> spec_fn(WorkItemView) -> bool {
    |w: WorkItemView| w.updated_at < key
}

/// Where an item updated at `key` goes in a list that is newest first: in
/// front of the first item that is older, or at the end.
pub open spec fn insert_position(s: Seq<WorkItemView>, key: u64) -> int {
    match first_match(s, older_than(key)) {
        Some(i) => i,
        None => s.len() as int,
    }
}

/// The items newest first; items updated at the same time keep their
/// order (a stable sort on the update time, descending).
pub open spec fn newest_first(s: Seq<WorkItemView>) -> Seq<WorkItemView>
    decreases s.len(),
{
    if s.len() == 0 {
        s
    } else {
        let sorted = newest_first(s.drop_last());
        sorted.insert(insert_position(sorted, s.last().updated_at), s.last())
    }
}

pub open spec fn is_newest_first(s: Seq<WorkItemView>) -> bool {
    forall|i: int, j: int| 0 <= i < j < s.len() ==> s[i].updated_at >= s[j].updated_at
}

/// Sorting newest first gives a list whose update times never increase, of
/// the same length.
pub proof fn lemma_newest_first_sorted(s: Seq<WorkItemView>)
    ensures
        is_newest_first(newest_first(s)),
        newest_first(s).len() == s.len(),
    decreases s.len(),
{
    if s.len() > 0 {
        let sorted = newest_first(s.drop_last());
        lemma_newest_first_sorted(s.drop_last());
        let key = s.last().updated_at;
        let p = insert_position(sorted, key);
        let r = sorted.insert(p, s.last());
        match first_match(sorted, older_than(key)) {
            Some(i) => {
                assert(is_first_match(sorted, older_than(key), i));
            },
            None => {
                assert forall|j: int| 0 <= j < sorted.len() implies !(#[trigger] older_than(key)(sorted[j])) by {
                    if older_than(key)(sorted[j]) {
                        crate::text::lemma_first_of_any(sorted, older_than(key), j);
                    }
                }
            },
        }
        assert(0 <= p <= sorted.len());
        assert forall|j: int| 0 <= j < p implies sorted[j].updated_at >= key by {
            assert(!older_than(key)(sorted[j]));
        }
        assert forall|i: int, j: int| 0 <= i < j < r.len() implies r[i].updated_at >= r[j].updated_at by {
            if j < p {
            } else if j == p {
                assert(r[i] == sorted[i]);
            } else if i < p {
                assert(r[j] == sorted[j - 1]);
                assert(sorted[i].updated_at >= sorted[j - 1].updated_at);
            } else if i == p {
                assert(r[j] == sorted[j - 1]);
                assert(older_than(key)(sorted[p]));
                assert(sorted[p].updated_at >= sorted[j - 1].updated_at);
            } else {
                assert(r[i] == sorted[i - 1]);
                assert(r[j] == sorted[j - 1]);
            }
        }
    }
}

/// Sorting newest first keeps a property that every item has.
pub proof fn lemma_newest_first_keeps(s: Seq<WorkItemView>, p: spec_fn(WorkItemView) -> bool)
    requires
        forall|i: int| 0 <= i < s.len() ==> p(#[trigger] s[i]),
    ensures
        forall|i: int| 0 <= i < newest_first(s).len() ==> p(#[trigger] newest_first(s)[i]),
    decreases s.len(),
{
    if s.len() > 0 {
        let prev = s.drop_last();
        assert forall|i: int| 0 <= i < prev.len() implies p(#[trigger] prev[i]) by {
            assert(prev[i] == s[i]);
        }
        lemma_newest_first_keeps(prev, p);
        let sorted = newest_first(prev);
        let key = s.last().updated_at;
        match first_match(sorted, older_than(key)) {
            Some(i) => {
                assert(is_first_match(sorted, older_than(key), i));
            },
            None => {},
        }
        let pos = insert_position(sorted, key);
        assert(0 <= pos <= sorted.len());
        let r = sorted.insert(pos, s.last());
        assert(p(s[s.len() - 1]));
        assert forall|i: int| 0 <= i < r.len() implies p(#[trigger] r[i]) by {
            if i < pos {
                assert(r[i] == sorted[i]);
            } else if i == pos {
                assert(r[i] == s.last());
            } else {
                assert(r[i] == sorted[i - 1]);
            }
        }
    }
}

/// The items newest first, items with the same update time in their
/// order of the input.
pub fn sort_newest_first(items: Vec<WorkItem>) -> (r: Vec<WorkItem>)
    ensures
        items_view(r@) == newest_first(items_view(items@)),
{
    let ghost all = items_view(items@);
    let n = items.len();
    let mut rest = items;
    let mut r: Vec<WorkItem> = Vec::new();
    let mut k: usize = 0;
    while rest.len() > 0
        invariant
            k <= n,
            rest.len() + k == n,
            all.len() == n,
            items_view(rest@) == all.subrange(k as int, n as int),
            items_view(r@) == newest_first(all.subrange(0, k as int)),
        decreases rest.len(),
    {
        let ghost before = items_view(r@);
        let ghost old_rest = items_view(rest@);
        let x = rest.remove(0);
        assert(old_rest[0] == x@);
        assert(items_view(rest@) =~= old_rest.subrange(1, old_rest.len() as int));
        assert(items_view(rest@) =~= all.subrange(k + 1, n as int));
        assert(x@ == all[k as int]);
        let key = x.updated_at;
        let mut j: usize = 0;
        while j < r.len() && r[j].updated_at >= key
            invariant
                j <= r.len(),
                items_view(r@) == before,
                forall|i: int| 0 <= i < j ==> !(#[trigger] older_than(key)(before[i])),
            decreases r.len() - j,
        {
            assert(before[j as int] == r@[j as int]@);
            j = j + 1;
        }
        proof {
            if j < r.len() {
                assert(before[j as int] == r@[j as int]@);
                lemma_first_match_at(before, older_than(key), j as int);
            } else {
                lemma_first_match_none(before, older_than(key));
            }
            assert(all.subrange(0, k + 1).drop_last() =~= all.subrange(0, k as int));
            assert(all.subrange(0, k + 1).last() == x@);
        }
        r.insert(j, x);
        assert(items_view(r@) =~= before.insert(j as int, x@));
        k = k + 1;
    }
    assert(all.subrange(0, n as int) =~= all);
    r
}

} // verus!
