//! The checks before work is shipped into the default branch: the source is
//! the project's, clean and where it was scanned; the default branch is
//! checked out elsewhere, clean and on that branch.
use crate::external::{chars_of, string_of};
use crate::git::worktree::{opt_view, worktrees_view, Worktree, WorktreeView};
use crate::text::{chars_eq, first_match, lemma_first_match_at, lemma_first_match_none, push_str, trim, trim_chars};
use vstd::prelude::*;

verus! {

pub open spec fn text_view(r: Result<String, String>) -> Result<Seq<char>, Seq<char>> {
    match r {
        Ok(t) => Ok(t@),
        Err(e) => Err(e@),
    }
}

pub open spec fn unit_view(r: Result<(), String>) -> Result<(), Seq<char>> {
    match r {
        Ok(()) => Ok(()),
        Err(e) => Err(e@),
    }
}

/// A worktree is clean when `git status --porcelain` printed nothing.
pub open spec fn spec_ensure_clean(status: Result<Seq<char>, Seq<char>>, label: Seq<char>) -> Result<(), Seq<char>> {
    match status {
        Err(e) => Err(e),
        Ok(s) => if s.len() > 0 {
            Err("Ship blocked: "@ + label + " worktree has uncommitted changes"@)
        } else {
            Ok(())
        },
    }
}

/// Checks that a worktree is clean.
pub fn ensure_clean(status: &Result<String, String>, label: &str) -> (r: Result<(), String>)
    ensures
        unit_view(r) == spec_ensure_clean(text_view(*status), label@),
{
    match status {
        Err(e) => Err(e.clone()),
        Ok(s) => {
            if chars_of(s.as_str()).len() > 0 {
                let mut v = chars_of("Ship blocked: ");
                push_str(&mut v, label);
                push_str(&mut v, " worktree has uncommitted changes");
                Err(string_of(&v))
            } else {
                Ok(())
            }
        },
    }
}

/// The source is where it was scanned: at the commit (`git rev-parse HEAD`,
/// trimmed) and on the branch, or detached, as requested (`git symbolic-ref
/// --short HEAD`, trimmed; none when detached).
pub open spec fn spec_validate_source(
    head: Result<Seq<char>, Seq<char>>,
    sha: Seq<char>,
    actual_branch: Option<Seq<char>>,
    branch: Option<Seq<char>>,
) -> Result<(), Seq<char>> {
    match head {
        Err(e) => Err(e),
        Ok(h) => if trim(h) != sha {
            Err("Ship source changed; rescan before retrying"@)
        } else if (match actual_branch {
            Some(a) => Some(trim(a)),
            None => None,
        }) != branch {
            Err("Ship source branch or detached state changed; rescan first"@)
        } else {
            Ok(())
        },
    }
}

/// Checks that the source is where it was scanned.
pub fn validate_source(head: &Result<String, String>, sha: &str, actual_branch: &Option<String>, branch: &Option<String>) -> (r: Result<(), String>)
    ensures
        unit_view(r) == spec_validate_source(text_view(*head), sha@, opt_view(*actual_branch), opt_view(*branch)),
{
    match head {
        Err(e) => Err(e.clone()),
        Ok(h) => {
            if !chars_eq(&trim_chars(&chars_of(h.as_str())), &chars_of(sha)) {
                return Err(String::from_str("Ship source changed; rescan before retrying"));
            }
            let same = match (actual_branch, branch) {
                (Some(a), Some(b)) => chars_eq(&trim_chars(&chars_of(a.as_str())), &chars_of(b.as_str())),
                (None, None) => true,
                _ => false,
            };
            if !same {
                Err(String::from_str("Ship source branch or detached state changed; rescan first"))
            } else {
                Ok(())
            }
        },
    }
}

/// Picks the worktree on a branch.
pub open spec fn on_branch(reference: Seq<char>) -> spec_fn(WorktreeView) -> bool {
    |w: WorktreeView| w.branch == Some(reference)
}

/// The worktree that has the default branch out: the first one on it, an
/// error when there is none.
pub open spec fn spec_default_worktree(ws: Seq<WorktreeView>, default_branch: Seq<char>) -> Result<Seq<char>, Seq<char>> {
    match first_match(ws, on_branch("refs/heads/"@ + default_branch)) {
        Some(i) => Ok(ws[i].path),
        None => Err("default branch “"@ + default_branch + "” must be checked out in a worktree"@),
    }
}

/// The worktree that has the default branch out.
pub fn default_worktree(worktrees: &Vec<Worktree>, default_branch: &str) -> (r: Result<String, String>)
    ensures
        text_view(r) == spec_default_worktree(worktrees_view(worktrees@), default_branch@),
{
    let mut reference = chars_of("refs/heads/");
    push_str(&mut reference, default_branch);
    let ghost ws = worktrees_view(worktrees@);
    let ghost p = on_branch(reference@);
    let mut i: usize = 0;
    while i < worktrees.len()
        invariant
            i <= worktrees.len(),
            ws == worktrees_view(worktrees@),
            p == on_branch(reference@),
            reference@ == "refs/heads/"@ + default_branch@,
            forall|j: int| 0 <= j < i ==> !(#[trigger] p(ws[j])),
        decreases worktrees.len() - i,
    {
        assert(ws[i as int] == worktrees@[i as int]@);
        let hit = match &worktrees[i].branch {
            Some(b) => chars_eq(&chars_of(b.as_str()), &reference),
            None => false,
        };
        if hit {
            proof {
                lemma_first_match_at(ws, p, i as int);
            }
            return Ok(worktrees[i].path.clone());
        }
        i = i + 1;
    }
    proof {
        lemma_first_match_none(ws, p);
    }
    let mut v = chars_of("default branch “");
    push_str(&mut v, default_branch);
    push_str(&mut v, "” must be checked out in a worktree");
    Err(string_of(&v))
}

/// The default branch's worktree is still on it (`git symbolic-ref --short
/// HEAD`, trimmed).
pub open spec fn spec_validate_target(actual: Result<Seq<char>, Seq<char>>, default_branch: Seq<char>) -> Result<(), Seq<char>> {
    match actual {
        Err(e) => Err(e),
        Ok(a) => if trim(a) != default_branch {
            Err("default-branch worktree changed; rescan first"@)
        } else {
            Ok(())
        },
    }
}

/// Checks that the default branch's worktree is still on it.
pub fn validate_target(actual: &Result<String, String>, default_branch: &str) -> (r: Result<(), String>)
    ensures
        unit_view(r) == spec_validate_target(text_view(*actual), default_branch@),
{
    match actual {
        Err(e) => Err(e.clone()),
        Ok(a) => {
            if !chars_eq(&trim_chars(&chars_of(a.as_str())), &chars_of(default_branch)) {
                Err(String::from_str("default-branch worktree changed; rescan first"))
            } else {
                Ok(())
            }
        },
    }
}

/// What Git and the file system reported before shipping, each read only
/// when the checks before it passed: whether the source belongs to the
/// project, the source's resolved path, its status, head and branch, the
/// worktrees seen from it, and the status and branch of the default
/// branch's worktree.
pub struct ShipFacts {
    pub belongs: Result<bool, String>,
    pub source: Result<String, String>,
    pub source_status: Result<String, String>,
    pub source_head: Result<String, String>,
    pub source_branch: Option<String>,
    pub worktrees: Result<Vec<Worktree>, String>,
    pub target_status: Result<String, String>,
    pub target_branch: Result<String, String>,
}

pub open spec fn worktrees_result(r: Result<Vec<Worktree>, String>) -> Result<Seq<WorktreeView>, Seq<char>> {
    match r {
        Ok(v) => Ok(worktrees_view(v@)),
        Err(e) => Err(e@),
    }
}

/// The checks before shipping, in order; the default branch's worktree when
/// they all pass.
pub open spec fn spec_validate_ship(branch: Option<Seq<char>>, sha: Seq<char>, default_branch: Seq<char>, facts: ShipFacts) -> Result<Seq<char>, Seq<char>> {
    match facts.belongs {
        Err(e) => Err(e@),
        Ok(false) => Err("Ship source no longer belongs to this project"@),
        Ok(true) => match text_view(facts.source) {
            Err(e) => Err(e),
            Ok(source) => match spec_ensure_clean(text_view(facts.source_status), "source"@) {
                Err(e) => Err(e),
                Ok(()) => match spec_validate_source(text_view(facts.source_head), sha, opt_view(facts.source_branch), branch) {
                    Err(e) => Err(e),
                    Ok(()) => match worktrees_result(facts.worktrees) {
                        Err(e) => Err(e),
                        Ok(ws) => match spec_default_worktree(ws, default_branch) {
                            Err(e) => Err(e),
                            Ok(target) => if target == source {
                                Err("the default branch cannot be shipped into itself"@)
                            } else {
                                match spec_ensure_clean(text_view(facts.target_status), "default branch"@) {
                                    Err(e) => Err(e),
                                    Ok(()) => match spec_validate_target(text_view(facts.target_branch), default_branch) {
                                        Err(e) => Err(e),
                                        Ok(()) => Ok(target),
                                    },
                                }
                            },
                        },
                    },
                },
            },
        },
    }
}

/// Checks that work can be shipped into the default branch, and finds the
/// default branch's worktree.
pub fn validate_ship(source_branch: &Option<String>, source_sha: &str, default_branch: &str, facts: &ShipFacts) -> (r: Result<String, String>)
    ensures
        text_view(r) == spec_validate_ship(opt_view(*source_branch), source_sha@, default_branch@, *facts),
{
    match &facts.belongs {
        Err(e) => return Err(e.clone()),
        Ok(false) => return Err(String::from_str("Ship source no longer belongs to this project")),
        Ok(true) => {},
    }
    let source = match &facts.source {
        Err(e) => return Err(e.clone()),
        Ok(s) => s,
    };
    if let Err(e) = ensure_clean(&facts.source_status, "source") {
        return Err(e);
    }
    if let Err(e) = validate_source(&facts.source_head, source_sha, &facts.source_branch, source_branch) {
        return Err(e);
    }
    let worktrees = match &facts.worktrees {
        Err(e) => return Err(e.clone()),
        Ok(w) => w,
    };
    let target = match default_worktree(worktrees, default_branch) {
        Err(e) => return Err(e),
        Ok(t) => t,
    };
    if chars_eq(&chars_of(target.as_str()), &chars_of(source.as_str())) {
        return Err(String::from_str("the default branch cannot be shipped into itself"));
    }
    if let Err(e) = ensure_clean(&facts.target_status, "default branch") {
        return Err(e);
    }
    if let Err(e) = validate_target(&facts.target_branch, default_branch) {
        return Err(e);
    }
    Ok(target)
}

} // verus!
