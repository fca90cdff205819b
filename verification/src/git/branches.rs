//! Local branches, the base branch that work is compared with, and the
//! answers of the Git commands that place a branch relative to it.
use crate::external::{chars_of, string_of};
use crate::git::command::{bytes_text, spec_bytes_text};
use crate::git::work_item::WorkStatus;
use crate::text::{
    chars_eq, parse_u32, parse_u64, parse_unsigned, seqs, split, split_bytes, split_chars,
    strip_prefix, strip_prefix_of, trim, trim_chars, trim_start_char, trim_start_char_of, words,
    words_of, decimal, is_digit,
};
use vstd::prelude::*;

verus! {

/// A local branch.
#[derive(Debug)]
pub struct Branch {
    pub name: String,
    pub reference: String,
    pub sha: String,
    pub subject: String,
    pub updated_at: u64,
}

pub struct BranchView {
    pub name: Seq<char>,
    pub reference: Seq<char>,
    pub sha: Seq<char>,
    pub subject: Seq<char>,
    pub updated_at: u64,
}

impl View for Branch {
    type V = BranchView;

    open spec fn view(&self) -> BranchView {
        BranchView {
            name: self.name@,
            reference: self.reference@,
            sha: self.sha@,
            subject: self.subject@,
            updated_at: self.updated_at,
        }
    }
}

pub open spec fn branches_view(v: Seq<Branch>) -> Seq<BranchView> {
    v.map_values(|b: Branch| b@)
}

/// The branch that work is compared with.
#[derive(Debug)]
pub struct BaseBranch {
    pub reference: String,
    pub name: String,
    pub remote: String,
}

pub struct BaseBranchView {
    pub reference: Seq<char>,
    pub name: Seq<char>,
    pub remote: Seq<char>,
}

impl View for BaseBranch {
    type V = BaseBranchView;

    open spec fn view(&self) -> BaseBranchView {
        BaseBranchView { reference: self.reference@, name: self.name@, remote: self.remote@ }
    }
}

pub open spec fn base_view(b: Option<BaseBranch>) -> Option<BaseBranchView> {
    match b {
        Some(b) => Some(b@),
        None => None,
    }
}

/// A branch name without the `refs/heads/` that a full reference starts with.
pub open spec fn short_name(reference: Seq<char>) -> Seq<char> {
    match strip_prefix(reference, "refs/heads/"@) {
        Some(n) => n,
        None => reference,
    }
}

/// A reference to a local branch: it starts with `refs/heads/`.
pub open spec fn is_local_reference(reference: Seq<char>) -> bool {
    crate::text::starts_with(reference, "refs/heads/"@)
}

/// A local branch's reference is `refs/heads/` followed by its short name.
pub proof fn lemma_local_reference(reference: Seq<char>)
    requires
        is_local_reference(reference),
    ensures
        reference == "refs/heads/"@ + short_name(reference),
{
    let p = "refs/heads/"@;
    assert(reference =~= p + reference.subrange(p.len() as int, reference.len() as int));
}

/// The reference of the first field of a record (`%(refname)`), without the
/// line break that ends the record before it.
pub open spec fn record_reference(field: Seq<u8>) -> Seq<char> {
    trim_start_char(spec_bytes_text(field), '\n')
}

/// A branch made of the four fields of one `git for-each-ref` record:
/// reference, commit, subject and commit time in seconds (zero when it is not
/// a number).
pub open spec fn spec_branch(fields: Seq<Seq<u8>>) -> BranchView {
    let reference = record_reference(fields[0]);
    BranchView {
        name: short_name(reference),
        reference: reference,
        sha: spec_bytes_text(fields[1]),
        subject: spec_bytes_text(fields[2]),
        updated_at: match parse_unsigned(spec_bytes_text(fields[3]), u64::MAX as nat) {
            Some(n) => n as u64,
            None => 0,
        },
    }
}

/// The branches of NUL-separated `git for-each-ref` output, four fields a
/// branch, up to the first record with no reference or the last whole record.
pub open spec fn spec_parse_branches(fields: Seq<Seq<u8>>) -> Seq<BranchView>
    decreases fields.len(),
{
    if fields.len() < 4 || record_reference(fields[0]).len() == 0 {
        Seq::empty()
    } else {
        seq![spec_branch(fields.take(4))] + spec_parse_branches(fields.skip(4))
    }
}

/// Every branch read from `git for-each-ref` is named after its reference.
pub proof fn lemma_parsed_branch_names(fields: Seq<Seq<u8>>)
    ensures
        forall|i: int| 0 <= i < spec_parse_branches(fields).len() ==> (#[trigger] spec_parse_branches(fields)[i]).name
            == short_name(spec_parse_branches(fields)[i].reference),
    decreases fields.len(),
{
    if !(fields.len() < 4 || record_reference(fields[0]).len() == 0) {
        lemma_parsed_branch_names(fields.skip(4));
        let rest = spec_parse_branches(fields.skip(4));
        let all = spec_parse_branches(fields);
        assert forall|i: int| 0 <= i < all.len() implies (#[trigger] all[i]).name == short_name(all[i].reference) by {
            if i > 0 {
                assert(all[i] == rest[i - 1]);
            }
        }
    }
}

/// The name of a branch from its full reference.
pub fn short_branch_name(reference: &str) -> (r: String)
    ensures
        r@ == short_name(reference@),
{
    let c = chars_of(reference);
    match strip_prefix_of(&c, &chars_of("refs/heads/")) {
        Some(n) => string_of(&n),
        None => reference.to_string(),
    }
}

/// The local branches listed by `git for-each-ref --format=%(refname)%00%(objectname)%00%(subject)%00%(committerdate:unix)%00 refs/heads`.
pub fn parse_branches(stdout: &Vec<u8>) -> (r: Vec<Branch>)
    ensures
        branches_view(r@) == spec_parse_branches(split(stdout@, 0u8)),
{
    let fields = split_bytes(stdout, 0u8);
    let ghost fs = seqs(fields@);
    let mut r: Vec<Branch> = Vec::new();
    let mut i: usize = 0;
    assert(fs.skip(0) =~= fs);
    assert(branches_view(r@) + spec_parse_branches(fs) =~= spec_parse_branches(fs));
    while i < fields.len() && fields.len() - i >= 4
        invariant
            i <= fields.len(),
            fs == seqs(fields@),
            fs == split(stdout@, 0u8),
            branches_view(r@) + spec_parse_branches(fs.skip(i as int)) == spec_parse_branches(fs),
        ensures
            branches_view(r@) == spec_parse_branches(fs),
        decreases fields.len() - i,
    {
        let ghost rest = fs.skip(i as int);
        assert(rest[0] == fields@[i as int]@);
        let reference = trim_start_char_of(&bytes_text(&fields[i]), '\n');
        if reference.len() == 0 {
            assert(spec_parse_branches(rest) =~= Seq::empty());
            assert(branches_view(r@) + spec_parse_branches(rest) =~= branches_view(r@));
            break;
        }
        assert(rest.len() >= 4);
        let name = short_branch_name(string_of(&reference).as_str());
        let sha = string_of(&bytes_text(&fields[i + 1]));
        let subject = string_of(&bytes_text(&fields[i + 2]));
        let updated_at = match parse_u64(&bytes_text(&fields[i + 3])) {
            Some(v) => v,
            None => 0,
        };
        let b = Branch { name, reference: string_of(&reference), sha, subject, updated_at };
        assert(rest.take(4)[1] == fields@[i + 1]@);
        assert(rest.take(4)[2] == fields@[i + 2]@);
        assert(rest.take(4)[3] == fields@[i + 3]@);
        assert(b@ == spec_branch(rest.take(4)));
        let ghost before = branches_view(r@);
        r.push(b);
        assert(branches_view(r@) =~= before.push(b@));
        assert(rest.skip(4) =~= fs.skip(i + 4));
        assert(before.push(b@) + spec_parse_branches(fs.skip(i + 4)) =~= before + spec_parse_branches(rest));
        i = i + 4;
    }
    r
}

/// Whether a branch of that name exists.
pub open spec fn spec_has_branch(branches: Seq<BranchView>, name: Seq<char>) -> bool {
    exists|i: int| 0 <= i < branches.len() && (#[trigger] branches[i]).name == name
}

pub fn has_branch(branches: &Vec<Branch>, name: &str) -> (r: bool)
    ensures
        r == spec_has_branch(branches_view(branches@), name@),
{
    let n = chars_of(name);
    let mut i: usize = 0;
    while i < branches.len()
        invariant
            i <= branches.len(),
            n@ == name@,
            forall|j: int| 0 <= j < i ==> (#[trigger] branches@[j]).name@ != name@,
        decreases branches.len() - i,
    {
        if chars_eq(&chars_of(branches[i].name.as_str()), &n) {
            assert(branches_view(branches@)[i as int].name == name@);
            return true;
        }
        i = i + 1;
    }
    assert forall|j: int| 0 <= j < branches.len() implies (#[trigger] branches_view(branches@)[j]).name != name@ by {
        assert(branches_view(branches@)[j] == branches@[j]@);
    }
    false
}

/// A base branch of the given name on the given remote.
pub open spec fn base_named(name: Seq<char>, remote: Seq<char>) -> BaseBranchView {
    BaseBranchView { reference: "refs/heads/"@ + name, name: name, remote: remote }
}

/// The base branch: the remote's default branch where it exists locally;
/// else the first of `main`, `master`, `trunk` and `develop` that exists;
/// else the branch checked out in the primary checkout, where it exists.
/// The remote is the configured one, else `origin`.
pub open spec fn spec_find_base(
    branches: Seq<BranchView>,
    configured_remote: Option<Seq<char>>,
    remote_default: Option<Seq<char>>,
    current: Option<Seq<char>>,
) -> Option<BaseBranchView> {
    let remote = match configured_remote {
        Some(r) => r,
        None => "origin"@,
    };
    if remote_default matches Some(name) && spec_has_branch(branches, name) {
        Some(base_named(remote_default->0, remote))
    } else if spec_has_branch(branches, "main"@) {
        Some(base_named("main"@, remote))
    } else if spec_has_branch(branches, "master"@) {
        Some(base_named("master"@, remote))
    } else if spec_has_branch(branches, "trunk"@) {
        Some(base_named("trunk"@, remote))
    } else if spec_has_branch(branches, "develop"@) {
        Some(base_named("develop"@, remote))
    } else if current matches Some(c) && spec_has_branch(branches, trim(c)) {
        Some(base_named(trim(current->0), remote))
    } else {
        None
    }
}

fn base_of(name: &str, remote: &str) -> (r: BaseBranch)
    ensures
        r@ == base_named(name@, remote@),
{
    let mut reference = chars_of("refs/heads/");
    crate::text::push_str(&mut reference, name);
    BaseBranch { reference: string_of(&reference), name: name.to_string(), remote: remote.to_string() }
}

/// Finds the base branch among the local branches, given the configured
/// remote, the default branch that the remote names, and the branch checked
/// out in the primary checkout (the output of `git symbolic-ref --short HEAD`).
pub fn find_base(
    branches: &Vec<Branch>,
    configured_remote: Option<String>,
    remote_default: Option<String>,
    current: Option<String>,
) -> (r: Option<BaseBranch>)
    ensures
        base_view(r) == spec_find_base(
            branches_view(branches@),
            opt_string(configured_remote),
            opt_string(remote_default),
            opt_string(current),
        ),
{
    let remote = match configured_remote {
        Some(r) => r,
        None => String::from_str("origin"),
    };
    if let Some(name) = &remote_default {
        if has_branch(branches, name.as_str()) {
            return Some(base_of(name.as_str(), remote.as_str()));
        }
    }
    if has_branch(branches, "main") {
        return Some(base_of("main", remote.as_str()));
    }
    if has_branch(branches, "master") {
        return Some(base_of("master", remote.as_str()));
    }
    if has_branch(branches, "trunk") {
        return Some(base_of("trunk", remote.as_str()));
    }
    if has_branch(branches, "develop") {
        return Some(base_of("develop", remote.as_str()));
    }
    if let Some(c) = &current {
        let name = string_of(&trim_chars(&chars_of(c.as_str())));
        if has_branch(branches, name.as_str()) {
            return Some(base_of(name.as_str(), remote.as_str()));
        }
    }
    None
}

pub open spec fn opt_string(o: Option<String>) -> Option<Seq<char>> {
    match o {
        Some(s) => Some(s@),
        None => None,
    }
}

/// The reference a branch is compared with: for the base branch itself its
/// upstream (from `git for-each-ref --format=%(upstream)`, trimmed; none
/// when empty or when Git gave no answer), for any other branch the base.
pub open spec fn spec_comparison(
    branch: BranchView,
    base: Option<BaseBranchView>,
    upstream: Option<Seq<char>>,
) -> Option<Seq<char>> {
    if base matches Some(b) && b.reference == branch.reference {
        match upstream {
            Some(u) => if trim(u).len() == 0 {
                None
            } else {
                Some(trim(u))
            },
            None => None,
        }
    } else {
        match base {
            Some(b) => Some(b.reference),
            None => None,
        }
    }
}

/// Whether a branch is the base branch, whose upstream is then asked for.
pub fn is_base_branch(branch: &Branch, base: &Option<BaseBranch>) -> (r: bool)
    ensures
        r == (base_view(*base) matches Some(b) && b.reference == branch@.reference),
{
    match base {
        Some(b) => chars_eq(&chars_of(b.reference.as_str()), &chars_of(branch.reference.as_str())),
        None => false,
    }
}

/// The reference a branch is compared with.
pub fn comparison(branch: &Branch, base: &Option<BaseBranch>, upstream: Option<String>) -> (r: Option<String>)
    ensures
        opt_string(r) == spec_comparison(branch@, base_view(*base), opt_string(upstream)),
{
    if is_base_branch(branch, base) {
        match upstream {
            Some(u) => {
                let t = trim_chars(&chars_of(u.as_str()));
                if t.len() == 0 {
                    None
                } else {
                    Some(string_of(&t))
                }
            },
            None => None,
        }
    } else {
        match base {
            Some(b) => Some(b.reference.clone()),
            None => None,
        }
    }
}

/// The base branch as the remote last showed it:
/// `refs/remotes/<remote>/<name>`.
pub open spec fn spec_remote_tracking_base(base: BaseBranchView) -> Seq<char> {
    "refs/remotes/"@ + base.remote + "/"@ + base.name
}

/// The remote-tracking reference of the base branch, none without a base.
/// Whether it exists is Git's to say.
pub fn remote_tracking_base(base: &Option<BaseBranch>) -> (r: Option<String>)
    ensures
        opt_string(r) == match base_view(*base) {
            Some(b) => Some(spec_remote_tracking_base(b)),
            None => None,
        },
{
    match base {
        Some(b) => {
            let mut v = chars_of("refs/remotes/");
            crate::text::push_str(&mut v, b.remote.as_str());
            crate::text::push_str(&mut v, "/");
            crate::text::push_str(&mut v, b.name.as_str());
            Some(string_of(&v))
        },
        None => None,
    }
}

/// The status of committed work: working while there are uncommitted
/// changes; else ready when there is nothing to compare with; else shipped
/// when the work is an ancestor of the comparison reference, ready when not.
/// `ancestry` is the answer of `git merge-base --is-ancestor`, asked only
/// when it is needed.
pub open spec fn spec_classify(dirty: bool, has_comparison: bool, ancestry: Result<bool, Seq<char>>) -> Result<WorkStatus, Seq<char>> {
    if dirty {
        Ok(WorkStatus::Working)
    } else if !has_comparison {
        Ok(WorkStatus::Ready)
    } else {
        match ancestry {
            Ok(true) => Ok(WorkStatus::Shipped),
            Ok(false) => Ok(WorkStatus::Ready),
            Err(e) => Err(e),
        }
    }
}

pub open spec fn result_view<T>(r: Result<T, String>) -> Result<T, Seq<char>> {
    match r {
        Ok(t) => Ok(t),
        Err(e) => Err(e@),
    }
}

/// The status of committed work.
pub fn classify(dirty: bool, has_comparison: bool, ancestry: Result<bool, String>) -> (r: Result<WorkStatus, String>)
    ensures
        result_view(r) == spec_classify(dirty, has_comparison, result_view(ancestry)),
{
    if dirty {
        Ok(WorkStatus::Working)
    } else if !has_comparison {
        Ok(WorkStatus::Ready)
    } else {
        match ancestry {
            Ok(true) => Ok(WorkStatus::Shipped),
            Ok(false) => Ok(WorkStatus::Ready),
            Err(e) => Err(e),
        }
    }
}

/// A count of `git rev-list --count`: zero when missing or not a number.
pub open spec fn count_of(ws: Seq<Seq<char>>, k: int) -> u32 {
    if 0 <= k < ws.len() {
        match parse_unsigned(ws[k], u32::MAX as nat) {
            Some(n) => n as u32,
            None => 0,
        }
    } else {
        0
    }
}

/// The commits the work is ahead and behind, from the output of `git
/// rev-list --left-right --count base...item`: behind first, then ahead.
pub open spec fn spec_ahead_behind(text: Seq<char>) -> (u32, u32) {
    (count_of(words(text), 1), count_of(words(text), 0))
}

/// Git's count of commits only in the base (`l`) and only in the work
/// (`r`), printed as `l<TAB>r`, reads as `r` commits ahead and `l` behind.
pub proof fn law_ahead_behind_counts(l: u32, r: u32)
    ensures
        spec_ahead_behind(decimal(l as nat) + seq!['\t'] + decimal(r as nat)) == (r, l),
        spec_ahead_behind(decimal(l as nat) + seq!['\t'] + decimal(r as nat) + seq!['\n']) == (r, l),
{
    crate::text::lemma_words_of_pair(l as nat, r as nat);
    crate::text::lemma_decimal_digits(l as nat);
    crate::text::lemma_decimal_digits(r as nat);
    let a = decimal(l as nat);
    let b = decimal(r as nat);
    assert(is_digit(a[0]) && is_digit(b[0]));
    assert(crate::text::unsigned_body(a) == a);
    assert(crate::text::unsigned_body(b) == b);
    assert(seq![a, b][0] == a && seq![a, b][1] == b);
}

fn word_count(ws: &Vec<Vec<char>>, k: usize) -> (r: u32)
    ensures
        r == count_of(seqs(ws@), k as int),
{
    if k < ws.len() {
        assert(seqs(ws@)[k as int] == ws@[k as int]@);
        match parse_u32(&ws[k]) {
            Some(v) => v,
            None => 0,
        }
    } else {
        0
    }
}

/// The commits the work is ahead and behind of its comparison reference.
pub fn ahead_behind(text: &str) -> (r: (u32, u32))
    ensures
        r == spec_ahead_behind(text@),
{
    let ws = words_of(&chars_of(text));
    (word_count(&ws, 1), word_count(&ws, 0))
}

/// Whether two commits are the same, from the two outputs of `git
/// rev-parse`.
pub fn same_commit(left: &str, right: &str) -> (r: bool)
    ensures
        r == (trim(left@) == trim(right@)),
{
    let a = trim_chars(&chars_of(left));
    let b = trim_chars(&chars_of(right));
    let r = chars_eq(&a, &b);
    r
}

/// The subject and commit time of a checkout's head, from `git show -s
/// --format=%s%x00%ct HEAD`: the text before the first NUL, and the number
/// after it (trimmed; zero when missing or not a number).
pub open spec fn spec_commit_details(text: Seq<char>) -> (Seq<char>, u64) {
    let fields = split(text, '\0');
    (
        fields[0],
        if fields.len() > 1 {
            match parse_unsigned(trim(fields[1]), u64::MAX as nat) {
                Some(n) => n as u64,
                None => 0,
            }
        } else {
            0
        },
    )
}

/// The subject and commit time of a checkout's head.
pub fn commit_details(text: &str) -> (r: (String, u64))
    ensures
        r.0@ == spec_commit_details(text@).0,
        r.1 == spec_commit_details(text@).1,
{
    let fields = split_chars(&chars_of(text), '\0');
    proof {
        crate::text::lemma_split_len(text@, '\0');
    }
    assert(seqs(fields@)[0] == fields@[0]@);
    let subject = string_of(&fields[0]);
    let time: u64 = if fields.len() > 1 {
        assert(seqs(fields@)[1] == fields@[1]@);
        match parse_u64(&trim_chars(&fields[1])) {
            Some(v) => v,
            None => 0,
        }
    } else {
        0
    };
    (subject, time)
}


/// The base branch is always one of the local branches, named by its
/// reference `refs/heads/<name>`, on the configured remote or `origin`; it
/// is the remote's default branch whenever that exists locally, and `main`
/// whenever that exists and the remote names no local default.
pub proof fn law_base_is_a_local_branch(
    branches: Seq<BranchView>,
    configured_remote: Option<Seq<char>>,
    remote_default: Option<Seq<char>>,
    current: Option<Seq<char>>,
)
    ensures
        spec_find_base(branches, configured_remote, remote_default, current) matches Some(b) ==> {
            &&& b.reference == "refs/heads/"@ + b.name
            &&& exists|i: int| 0 <= i < branches.len() && (#[trigger] branches[i]).name == b.name
            &&& b.remote == match configured_remote {
                Some(r) => r,
                None => "origin"@,
            }
        },
        (remote_default matches Some(d) && exists|i: int| 0 <= i < branches.len() && (#[trigger] branches[i]).name == d)
            ==> (spec_find_base(branches, configured_remote, remote_default, current) matches Some(b) && b.name
            == remote_default->0),
        !(remote_default matches Some(d) && exists|i: int| 0 <= i < branches.len() && (#[trigger] branches[i]).name == d)
            && (exists|i: int| 0 <= i < branches.len() && (#[trigger] branches[i]).name == "main"@)
            ==> (spec_find_base(branches, configured_remote, remote_default, current) matches Some(b) && b.name == "main"@),
        branches.len() == 0 ==> spec_find_base(branches, configured_remote, remote_default, current) is None,
{
}

} // verus!
