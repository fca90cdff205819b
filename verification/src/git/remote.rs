//! Names of the references that the tool keeps apart from the user's own
//! branches, and of the refspecs it fetches with.
use crate::external::{chars_of, string_of};
use crate::text::{decimal, decimal_of, push_chars, push_str, trim, trim_chars};
use vstd::prelude::*;

verus! {

pub open spec fn spec_base_reference(branch: Seq<char>) -> Seq<char> {
    "refs/shipyard/bases/"@ + branch
}

pub open spec fn spec_pull_request_base_reference(number: u64) -> Seq<char> {
    "refs/shipyard/pull-requests/"@ + decimal(number as nat) + "/base"@
}

pub open spec fn spec_pull_request_head_reference(number: u64) -> Seq<char> {
    "refs/shipyard/pull-requests/"@ + decimal(number as nat) + "/head"@
}

pub open spec fn spec_branch_reference(branch: Seq<char>) -> Seq<char> {
    "refs/heads/"@ + branch
}

pub open spec fn spec_pull_request_source(number: u64) -> Seq<char> {
    "refs/pull/"@ + decimal(number as nat) + "/head"@
}

pub open spec fn spec_refspec(source: Seq<char>, destination: Seq<char>) -> Seq<char> {
    "+"@ + source + ":"@ + destination
}

pub open spec fn spec_commit_spec(reference: Seq<char>) -> Seq<char> {
    reference + "^{commit}"@
}

/// Where the tool keeps its copy of a remote base branch.
pub fn base_reference(branch: &str) -> (r: String)
    ensures
        r@ == spec_base_reference(branch@),
{
    let mut v = chars_of("refs/shipyard/bases/");
    push_str(&mut v, branch);
    string_of(&v)
}

/// Where the tool keeps the base of a pull request.
pub fn pull_request_base_reference(number: u64) -> (r: String)
    ensures
        r@ == spec_pull_request_base_reference(number),
{
    let mut v = chars_of("refs/shipyard/pull-requests/");
    let d = decimal_of(number as u128);
    push_chars(&mut v, &d);
    push_str(&mut v, "/base");
    string_of(&v)
}

/// Where the tool keeps the head of a pull request.
pub fn pull_request_head_reference(number: u64) -> (r: String)
    ensures
        r@ == spec_pull_request_head_reference(number),
{
    let mut v = chars_of("refs/shipyard/pull-requests/");
    let d = decimal_of(number as u128);
    push_chars(&mut v, &d);
    push_str(&mut v, "/head");
    string_of(&v)
}

/// The reference of a local branch.
pub fn branch_reference(branch: &str) -> (r: String)
    ensures
        r@ == spec_branch_reference(branch@),
{
    let mut v = chars_of("refs/heads/");
    push_str(&mut v, branch);
    string_of(&v)
}

/// The reference under which the hosting service publishes a pull request's head.
pub fn pull_request_source(number: u64) -> (r: String)
    ensures
        r@ == spec_pull_request_source(number),
{
    let mut v = chars_of("refs/pull/");
    let d = decimal_of(number as u128);
    push_chars(&mut v, &d);
    push_str(&mut v, "/head");
    string_of(&v)
}

/// The forced refspec that fetches `source` into `destination`.
pub fn refspec(source: &str, destination: &str) -> (r: String)
    ensures
        r@ == spec_refspec(source@, destination@),
{
    let mut v = chars_of("+");
    push_str(&mut v, source);
    push_str(&mut v, ":");
    push_str(&mut v, destination);
    string_of(&v)
}

/// The revision that names the commit a reference points to.
pub fn commit_spec(reference: &str) -> (r: String)
    ensures
        r@ == spec_commit_spec(reference@),
{
    let mut v = chars_of(reference);
    push_str(&mut v, "^{commit}");
    string_of(&v)
}

/// The label of a pull request in messages.
pub fn pull_request_label(number: u64) -> (r: String)
    ensures
        r@ == "pull request #"@ + decimal(number as nat),
{
    let mut v = chars_of("pull request #");
    let d = decimal_of(number as u128);
    push_chars(&mut v, &d);
    string_of(&v)
}

/// The commit that `git rev-parse --verify <ref>^{commit}` printed, if it succeeded.
pub fn cached_commit(output: Option<String>) -> (r: Option<String>)
    ensures
        match output {
            Some(text) => r matches Some(c) && c@ == trim(text@),
            None => r is None,
        },
{
    match output {
        Some(text) => {
            let chars = crate::text::chars_of_string(&text);
            let t = trim_chars(&chars);
            Some(string_of(&t))
        },
        None => None,
    }
}

/// What fetching a reference comes to: the error of the fetch itself, or the
/// commit now under the destination, or an error when there is none.
pub fn fetch_outcome(label: &str, fetch_error: Option<String>, fetched: Option<String>) -> (r: Result<String, String>)
    ensures
        match fetch_error {
            Some(e) => r matches Err(m) && m@ == "Could not fetch "@ + label@ + ": "@ + e@,
            None => match fetched {
                Some(c) => r == Ok::<String, String>(c),
                None => r matches Err(m) && m@ == "Could not read the fetched "@ + label@ + " commit"@,
            },
        },
{
    match fetch_error {
        Some(e) => {
            let mut v = chars_of("Could not fetch ");
            push_str(&mut v, label);
            push_str(&mut v, ": ");
            push_str(&mut v, e.as_str());
            Err(string_of(&v))
        },
        None => match fetched {
            Some(c) => Ok(c),
            None => {
                let mut v = chars_of("Could not read the fetched ");
                push_str(&mut v, label);
                push_str(&mut v, " commit");
                Err(string_of(&v))
            },
        },
    }
}

} // verus!
