//! Which repository a path belongs to, and whether a checkout is one of a
//! project's.
use crate::external::{chars_of, string_of};
use crate::git::checkout::join_path;
use crate::text::{chars_eq, push_str, trim, trim_chars};
use vstd::prelude::*;

verus! {

pub open spec fn text_view(r: Result<String, String>) -> Result<Seq<char>, Seq<char>> {
    match r {
        Ok(t) => Ok(t@),
        Err(e) => Err(e@),
    }
}

/// The common directory that `git rev-parse --git-common-dir` printed
/// (trimmed), taken relative to the checkout's root unless it is absolute.
pub open spec fn spec_common_dir(root: Seq<char>, printed: Seq<char>) -> Seq<char> {
    let dir = trim(printed);
    if dir.len() > 0 && dir[0] == '/' {
        dir
    } else {
        join_path(root, dir)
    }
}

/// The common directory of a checkout, before it is resolved on disk.
pub fn common_dir(root: &str, printed: &str) -> (r: String)
    ensures
        r@ == spec_common_dir(root@, printed@),
{
    let dir = trim_chars(&chars_of(printed));
    if dir.len() > 0 && dir[0] == '/' {
        string_of(&dir)
    } else {
        let mut v = chars_of(root);
        if v.len() > 0 && v[v.len() - 1] != '/' {
            v.push('/');
        }
        crate::text::push_chars(&mut v, &dir);
        assert(v@ =~= join_path(root@, dir@));
        string_of(&v)
    }
}

/// Whether a checkout belongs to a project: its resolved common directory is
/// the project's identifier.
pub fn belongs_to_project(project_id: &str, resolved: &Result<(String, String), String>) -> (r: Result<bool, String>)
    ensures
        match resolved {
            Ok((_, common)) => r == Ok::<bool, String>(common@ == project_id@),
            Err(e) => r matches Err(m) && m@ == e@,
        },
{
    match resolved {
        Ok((_, common)) => Ok(chars_eq(&chars_of(common.as_str()), &chars_of(project_id))),
        Err(e) => Err(e.clone()),
    }
}

/// A checkout is one of the project's when the path resolves, is the root of
/// its checkout, and the checkout's common directory is the project's
/// identifier. `requested` is the path resolved on disk; `resolved` the
/// checkout's root and common directory.
pub open spec fn spec_validate_worktree(
    project_id: Seq<char>,
    requested: Result<Seq<char>, Seq<char>>,
    resolved: Result<(Seq<char>, Seq<char>), Seq<char>>,
) -> Result<Seq<char>, Seq<char>> {
    match requested {
        Err(e) => Err(e),
        Ok(path) => match resolved {
            Err(e) => Err("selected checkout is not an available Git worktree: "@ + e),
            Ok((root, common)) => if root != path || common != project_id {
                Err("selected path is not a checkout for this project"@)
            } else {
                Ok(root)
            },
        },
    }
}

pub open spec fn pair_view(r: Result<(String, String), String>) -> Result<(Seq<char>, Seq<char>), Seq<char>> {
    match r {
        Ok((a, b)) => Ok((a@, b@)),
        Err(e) => Err(e@),
    }
}

/// Checks that a checkout is one of the project's, and gives its root.
pub fn validate_worktree(project_id: &str, requested: &Result<String, String>, resolved: &Result<(String, String), String>) -> (r: Result<String, String>)
    ensures
        text_view(r) == spec_validate_worktree(project_id@, text_view(*requested), pair_view(*resolved)),
{
    let path = match requested {
        Err(e) => return Err(e.clone()),
        Ok(p) => p,
    };
    match resolved {
        Err(e) => {
            let mut v = chars_of("selected checkout is not an available Git worktree: ");
            push_str(&mut v, e.as_str());
            Err(string_of(&v))
        },
        Ok((root, common)) => {
            if !chars_eq(&chars_of(root.as_str()), &chars_of(path.as_str()))
                || !chars_eq(&chars_of(common.as_str()), &chars_of(project_id)) {
                Err(String::from_str("selected path is not a checkout for this project"))
            } else {
                Ok(root.clone())
            }
        },
    }
}

} // verus!
