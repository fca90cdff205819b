//! The worktrees of a repository, read from `git worktree list --porcelain -z`.
use crate::external::{chars_of, string_of};
use crate::git::command::{bytes_text, spec_bytes_text};
use crate::paths::{components, components_of};
use crate::text::{
    chars_eq, has_prefix, parse_u64, parse_unsigned, seqs, split, split_bytes, starts_with,
    strip_prefix, strip_prefix_of, trim, trim_chars,
};
use vstd::prelude::*;

verus! {

/// A worktree of a repository.
#[derive(Clone, Debug, Default)]
pub struct Worktree {
    pub path: String,
    pub sha: String,
    pub branch: Option<String>,
    pub pull_request_number: Option<u64>,
    pub detached: bool,
    pub bare: bool,
}

pub struct WorktreeView {
    pub path: Seq<char>,
    pub sha: Seq<char>,
    pub branch: Option<Seq<char>>,
    pub pull_request_number: Option<u64>,
    pub detached: bool,
    pub bare: bool,
}

pub open spec fn opt_view(o: Option<String>) -> Option<Seq<char>> {
    match o {
        Some(s) => Some(s@),
        None => None,
    }
}

impl View for Worktree {
    type V = WorktreeView;

    open spec fn view(&self) -> WorktreeView {
        WorktreeView {
            path: self.path@,
            sha: self.sha@,
            branch: opt_view(self.branch),
            pull_request_number: self.pull_request_number,
            detached: self.detached,
            bare: self.bare,
        }
    }
}

pub open spec fn worktrees_view(v: Seq<Worktree>) -> Seq<WorktreeView> {
    v.map_values(|w: Worktree| w@)
}

impl Worktree {
    pub fn copy(&self) -> (r: Self)
        ensures
            r@ == self@,
    {
        Worktree {
            path: self.path.clone(),
            sha: self.sha.clone(),
            branch: match &self.branch {
                Some(b) => Some(b.clone()),
                None => None,
            },
            pull_request_number: self.pull_request_number,
            detached: self.detached,
            bare: self.bare,
        }
    }
}

pub open spec fn fresh(path: Seq<char>) -> WorktreeView {
    WorktreeView { path: path, sha: Seq::empty(), branch: None, pull_request_number: None, detached: false, bare: false }
}

/// What reading the fields has gathered: the finished worktrees and the one
/// being read.
pub struct ParseState {
    pub done: Seq<WorktreeView>,
    pub current: Option<WorktreeView>,
}

pub open spec fn push_current(st: ParseState) -> ParseState {
    match st.current {
        Some(w) => ParseState { done: st.done.push(w), current: None },
        None => st,
    }
}

/// One field of a worktree record taken into account.
pub open spec fn parse_field(st: ParseState, field: Seq<char>) -> ParseState {
    match strip_prefix(field, "worktree "@) {
        Some(path) => ParseState { done: push_current(st).done, current: Some(fresh(path)) },
        None => match st.current {
            None => st,
            Some(w) => {
                let w2 = match strip_prefix(field, "HEAD "@) {
                    Some(sha) => WorktreeView { sha: sha, ..w },
                    None => match strip_prefix(field, "branch "@) {
                        Some(b) => WorktreeView { branch: Some(b), ..w },
                        None => if field == "detached"@ {
                            WorktreeView { detached: true, ..w }
                        } else if field == "bare"@ {
                            WorktreeView { bare: true, ..w }
                        } else {
                            w
                        },
                    },
                };
                ParseState { done: st.done, current: Some(w2) }
            },
        },
    }
}

pub open spec fn parse_fields(fields: Seq<Seq<u8>>) -> ParseState
    decreases fields.len(),
{
    if fields.len() == 0 {
        ParseState { done: Seq::empty(), current: None }
    } else {
        let st = parse_fields(fields.drop_last());
        let f = fields.last();
        if f.len() == 0 {
            push_current(st)
        } else {
            parse_field(st, spec_bytes_text(f))
        }
    }
}

/// The worktrees that `git worktree list --porcelain -z` printed, before
/// their pull-request numbers are looked up: an empty field ends a record.
pub open spec fn spec_parse_worktrees(stdout: Seq<u8>) -> Seq<WorktreeView> {
    push_current(parse_fields(split(stdout, 0u8))).done
}

fn take_current(done: &mut Vec<Worktree>, current: &mut Option<Worktree>)
    ensures
        (ParseState { done: worktrees_view(final(done)@), current: match *final(current) { Some(w) => Some(w@), None => None } })
            == push_current(ParseState { done: worktrees_view(old(done)@), current: match *old(current) { Some(w) => Some(w@), None => None } }),
{
    let taken = current.take();
    match taken {
        Some(w) => {
            let ghost before = worktrees_view(done@);
            done.push(w);
            assert(worktrees_view(done@) =~= before.push(w@));
        },
        None => {},
    }
}

pub open spec fn state_of(done: Seq<Worktree>, current: Option<Worktree>) -> ParseState {
    ParseState {
        done: worktrees_view(done),
        current: match current {
            Some(w) => Some(w@),
            None => None,
        },
    }
}

fn read_field(field: &Vec<char>, done: &mut Vec<Worktree>, current: &mut Option<Worktree>)
    ensures
        state_of(final(done)@, *final(current)) == parse_field(state_of(old(done)@, *old(current)), field@),
{
    match strip_prefix_of(field, &chars_of("worktree ")) {
        Some(path) => {
            take_current(done, current);
            *current = Some(
                Worktree {
                    path: string_of(&path),
                    sha: String::new(),
                    branch: None,
                    pull_request_number: None,
                    detached: false,
                    bare: false,
                },
            );
            return;
        },
        None => {},
    }
    let taken = current.take();
    match taken {
        None => {},
        Some(w) => {
            let mut w = w;
            match strip_prefix_of(field, &chars_of("HEAD ")) {
                Some(sha) => {
                    w.sha = string_of(&sha);
                },
                None => match strip_prefix_of(field, &chars_of("branch ")) {
                    Some(b) => {
                        w.branch = Some(string_of(&b));
                    },
                    None => {
                        if chars_eq(field, &chars_of("detached")) {
                            w.detached = true;
                        } else if chars_eq(field, &chars_of("bare")) {
                            w.bare = true;
                        }
                    },
                },
            }
            *current = Some(w);
        },
    }
}

/// The worktrees that `git worktree list --porcelain -z` printed.
pub fn parse_worktrees(stdout: &Vec<u8>) -> (r: Vec<Worktree>)
    ensures
        worktrees_view(r@) == spec_parse_worktrees(stdout@),
{
    let fields = split_bytes(stdout, 0u8);
    let mut done: Vec<Worktree> = Vec::new();
    let mut current: Option<Worktree> = None;
    let mut i: usize = 0;
    assert(worktrees_view(done@) =~= Seq::<WorktreeView>::empty());
    while i < fields.len()
        invariant
            i <= fields.len(),
            seqs(fields@) == split(stdout@, 0u8),
            state_of(done@, current) == parse_fields(seqs(fields@).subrange(0, i as int)),
        decreases fields.len() - i,
    {
        let ghost all = seqs(fields@);
        assert(all.subrange(0, i + 1).drop_last() =~= all.subrange(0, i as int));
        assert(all.subrange(0, i + 1).last() == fields@[i as int]@);
        if fields[i].len() == 0 {
            take_current(&mut done, &mut current);
        } else {
            let text = bytes_text(&fields[i]);
            read_field(&text, &mut done, &mut current);
        }
        i = i + 1;
    }
    assert(seqs(fields@).subrange(0, fields.len() as int) =~= seqs(fields@));
    take_current(&mut done, &mut current);
    done
}

/// The pull-request number recorded in a worktree's configuration: the
/// worktree's own setting, else the repository's, trimmed and read as a number.
pub open spec fn spec_recorded_number(own: Option<Seq<char>>, shared: Option<Seq<char>>) -> Option<u64> {
    let value = match own {
        Some(v) => Some(v),
        None => shared,
    };
    match value {
        Some(v) => match parse_unsigned(trim(v), u64::MAX as nat) {
            Some(n) => Some(n as u64),
            None => None,
        },
        None => None,
    }
}

/// The pull-request number recorded in a worktree's configuration.
pub fn recorded_number(own: &Option<String>, shared: &Option<String>) -> (r: Option<u64>)
    ensures
        r == spec_recorded_number(opt_view(*own), opt_view(*shared)),
{
    let value = match own {
        Some(v) => Some(v),
        None => match shared {
            Some(v) => Some(v),
            None => None,
        },
    };
    match value {
        Some(v) => {
            let t = trim_chars(&chars_of(v.as_str()));
            parse_u64(&t)
        },
        None => None,
    }
}

/// Whether a path is one of the tool's own checkouts: a pull-request
/// checkout (`pull-request-checkouts/<project>/pr-*`) or a conflict
/// resolution (`resolutions/shipping-*`).
pub open spec fn spec_is_managed(path: Seq<char>) -> bool {
    let c = components(path);
    (exists|i: int| 0 <= i && i + 2 < c.len() && #[trigger] c[i] == "pull-request-checkouts"@ && starts_with(c[i + 2], "pr-"@))
        || (exists|i: int| 0 <= i && i + 1 < c.len() && #[trigger] c[i] == "resolutions"@ && starts_with(c[i + 1], "shipping-"@))
}

/// Whether a path is one of the tool's own checkouts.
pub fn is_shipyard_managed(path: &str) -> (r: bool)
    ensures
        r == spec_is_managed(path@),
{
    let c = components_of(&chars_of(path));
    let checkouts = chars_of("pull-request-checkouts");
    let pr = chars_of("pr-");
    let resolutions = chars_of("resolutions");
    let shipping = chars_of("shipping-");
    let ghost cs = seqs(c@);
    let mut i: usize = 0;
    while i < c.len() && c.len() - i > 2
        invariant
            cs == seqs(c@),
            cs == components(path@),
            checkouts@ == "pull-request-checkouts"@,
            pr@ == "pr-"@,
            forall|k: int| 0 <= k < i && k + 2 < cs.len() ==> !(#[trigger] cs[k] == "pull-request-checkouts"@ && starts_with(cs[k + 2], "pr-"@)),
        decreases c.len() - i,
    {
        assert(cs[i as int] == c@[i as int]@);
        assert(cs[i + 2] == c@[i + 2]@);
        if chars_eq(&c[i], &checkouts) && has_prefix(&c[i + 2], &pr) {
            return true;
        }
        i = i + 1;
    }
    let mut j: usize = 0;
    while j < c.len() && c.len() - j > 1
        invariant
            cs == seqs(c@),
            cs == components(path@),
            resolutions@ == "resolutions"@,
            shipping@ == "shipping-"@,
            forall|k: int| 0 <= k && k + 2 < cs.len() ==> !(#[trigger] cs[k] == "pull-request-checkouts"@ && starts_with(cs[k + 2], "pr-"@)),
            forall|k: int| 0 <= k < j && k + 1 < cs.len() ==> !(#[trigger] cs[k] == "resolutions"@ && starts_with(cs[k + 1], "shipping-"@)),
        decreases c.len() - j,
    {
        assert(cs[j as int] == c@[j as int]@);
        assert(cs[j + 1] == c@[j + 1]@);
        if chars_eq(&c[j], &resolutions) && has_prefix(&c[j + 1], &shipping) {
            return true;
        }
        j = j + 1;
    }
    false
}

/// The paths of the checkouts that belong to the project's work: not bare,
/// and either not the tool's own or recorded as a pull-request checkout.
pub open spec fn listed(w: WorktreeView) -> bool {
    !w.bare && (!spec_is_managed(w.path) || w.pull_request_number is Some)
}

pub open spec fn spec_paths(ws: Seq<WorktreeView>) -> Seq<Seq<char>>
    decreases ws.len(),
{
    if ws.len() == 0 {
        Seq::empty()
    } else if listed(ws.last()) {
        spec_paths(ws.drop_last()).push(ws.last().path)
    } else {
        spec_paths(ws.drop_last())
    }
}

pub open spec fn strings_view(v: Seq<String>) -> Seq<Seq<char>> {
    v.map_values(|s: String| s@)
}

/// The paths of the checkouts that belong to the project's work, in order.
pub fn paths(worktrees: &Vec<Worktree>) -> (r: Vec<String>)
    ensures
        strings_view(r@) == spec_paths(worktrees_view(worktrees@)),
{
    let ghost all = worktrees_view(worktrees@);
    let mut r: Vec<String> = Vec::new();
    let mut i: usize = 0;
    while i < worktrees.len()
        invariant
            i <= worktrees.len(),
            all == worktrees_view(worktrees@),
            strings_view(r@) == spec_paths(all.subrange(0, i as int)),
        decreases worktrees.len() - i,
    {
        assert(all.subrange(0, i + 1).drop_last() =~= all.subrange(0, i as int));
        assert(all.subrange(0, i + 1).last() == worktrees@[i as int]@);
        let w = &worktrees[i];
        if !w.bare && (!is_shipyard_managed(w.path.as_str()) || w.pull_request_number.is_some()) {
            let ghost before = strings_view(r@);
            r.push(w.path.clone());
            assert(strings_view(r@) =~= before.push(w.path@));
        }
        i = i + 1;
    }
    assert(all.subrange(0, worktrees.len() as int) =~= all);
    r
}

/// The position of the first worktree that is not bare.
pub open spec fn first_checkout(ws: Seq<WorktreeView>, i: int) -> bool {
    0 <= i < ws.len() && !ws[i].bare && forall|j: int| 0 <= j < i ==> (#[trigger] ws[j]).bare
}

/// The primary checkout: the first worktree that is not bare.
pub fn primary_path(worktrees: &Vec<Worktree>) -> (r: Result<String, String>)
    ensures
        r matches Ok(p) ==> exists|i: int| first_checkout(worktrees_view(worktrees@), i) && p@ == worktrees@[i].path@,
        r is Err <==> forall|i: int| 0 <= i < worktrees.len() ==> (#[trigger] worktrees@[i]).bare,
        r matches Err(e) ==> e@ == "project has no primary checkout"@,
{
    let mut i: usize = 0;
    while i < worktrees.len()
        invariant
            i <= worktrees.len(),
            forall|j: int| 0 <= j < i ==> (#[trigger] worktrees@[j]).bare,
        decreases worktrees.len() - i,
    {
        if !worktrees[i].bare {
            assert(first_checkout(worktrees_view(worktrees@), i as int));
            return Ok(worktrees[i].path.clone());
        }
        i = i + 1;
    }
    Err(String::from_str("project has no primary checkout"))
}

} // verus!
