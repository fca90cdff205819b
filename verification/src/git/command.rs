//! What a finished Git command comes to, and the decisions taken while one runs.
use crate::external::{chars_of, string_of, utf8_text};
use crate::text::{decimal, decimal_of, push_chars, push_str, trim, trim_chars};
use vstd::prelude::*;
use vstd::string::StringSliceAdditionalSpecFns;
use vstd::utf8::{decode_utf8, valid_utf8};

verus! {

/// How a Git command ended.
#[derive(Clone, Debug)]
pub struct GitOutput {
    /// The exit code; none when the process ended without one.
    pub code: Option<i32>,
    pub stdout: Vec<u8>,
    pub stderr: Vec<u8>,
}

/// Bytes read as UTF-8 text; nothing when they are not valid UTF-8.
pub open spec fn spec_bytes_text(bytes: Seq<u8>) -> Seq<char> {
    if valid_utf8(bytes) {
        decode_utf8(bytes)
    } else {
        Seq::empty()
    }
}

/// Bytes read as UTF-8 text; nothing when they are not valid UTF-8.
pub fn bytes_text(bytes: &Vec<u8>) -> (r: Vec<char>)
    ensures
        r@ == spec_bytes_text(bytes@),
{
    match utf8_text(bytes.as_slice()) {
        Some(s) => chars_of(s),
        None => Vec::new(),
    }
}

/// A command succeeded when it exited with code 0.
pub open spec fn succeeded(output: GitOutput) -> bool {
    output.code == Some(0i32)
}

/// The decimal notation of a signed integer.
pub open spec fn signed_decimal(n: int) -> Seq<char> {
    if n < 0 {
        seq!['-'] + decimal((-n) as nat)
    } else {
        decimal(n as nat)
    }
}

pub fn signed_decimal_of(n: i32) -> (r: Vec<char>)
    ensures
        r@ == signed_decimal(n as int),
{
    if n < 0 {
        let mut v = vec!['-'];
        let magnitude: u128 = (0 - (n as i64)) as u128;
        let d = decimal_of(magnitude);
        push_chars(&mut v, &d);
        assert(v@ =~= seq!['-'] + decimal((-n) as nat));
        v
    } else {
        decimal_of(n as u128)
    }
}

/// The message that explains a failed command: its error output, else its
/// standard output, else its exit status.
pub open spec fn spec_error(output: GitOutput) -> Seq<char> {
    let message = trim(spec_bytes_text(output.stderr@));
    if message.len() > 0 {
        message
    } else {
        let stdout = trim(spec_bytes_text(output.stdout@));
        if stdout.len() > 0 {
            stdout
        } else {
            match output.code {
                Some(code) => "Git exited with status "@ + signed_decimal(code as int),
                None => "Git terminated unexpectedly"@,
            }
        }
    }
}

/// The message that explains a failed command.
pub fn error(output: &GitOutput) -> (r: String)
    ensures
        r@ == spec_error(*output),
{
    let message = trim_chars(&bytes_text(&output.stderr));
    if message.len() > 0 {
        return string_of(&message);
    }
    let stdout = trim_chars(&bytes_text(&output.stdout));
    if stdout.len() > 0 {
        return string_of(&stdout);
    }
    match output.code {
        Some(code) => {
            let mut v = chars_of("Git exited with status ");
            let d = signed_decimal_of(code);
            push_chars(&mut v, &d);
            string_of(&v)
        },
        None => String::from_str("Git terminated unexpectedly"),
    }
}

/// The standard output of a command that must succeed, or the error that
/// names the directory it ran in.
pub fn text(root: &str, output: &GitOutput) -> (r: Result<String, String>)
    ensures
        succeeded(*output) ==> (r matches Ok(t) && t@ == spec_bytes_text(output.stdout@)),
        !succeeded(*output) ==> (r matches Err(e) && e@ == "Git command failed in "@ + root@ + ": "@ + spec_error(*output)),
{
    if output.code == Some(0i32) {
        Ok(string_of(&bytes_text(&output.stdout)))
    } else {
        let mut v = chars_of("Git command failed in ");
        push_str(&mut v, root);
        push_str(&mut v, ": ");
        let e = error(output);
        push_str(&mut v, e.as_str());
        Err(string_of(&v))
    }
}

/// The standard output of a command whose failure only means "no answer".
pub fn optional_text(output: &GitOutput) -> (r: Option<String>)
    ensures
        succeeded(*output) ==> (r matches Some(t) && t@ == spec_bytes_text(output.stdout@)),
        !succeeded(*output) ==> r is None,
{
    if output.code == Some(0i32) {
        Some(string_of(&bytes_text(&output.stdout)))
    } else {
        None
    }
}

/// The answer of `git merge-base --is-ancestor`: exit code 0 means yes, 1
/// means no, anything else is an error.
pub fn ancestry(output: &GitOutput) -> (r: Result<bool, String>)
    ensures
        output.code == Some(0i32) ==> r == Ok::<bool, String>(true),
        output.code == Some(1i32) ==> r == Ok::<bool, String>(false),
        output.code != Some(0i32) && output.code != Some(1i32) ==> (r matches Err(e) && e@ == spec_error(*output)),
{
    match output.code {
        Some(0i32) => Ok(true),
        Some(1i32) => Ok(false),
        _ => Err(error(output)),
    }
}

/// The error output of a command that was stopped, with the reason added
/// on a line of its own.
pub fn with_termination_message(stderr: Vec<u8>, message: &str) -> (r: Vec<u8>)
    ensures
        r@ == if stderr@.len() > 0 && stderr@.last() != 10u8 {
            stderr@.push(10u8)
        } else {
            stderr@
        } + message.spec_bytes() + seq![10u8],
{
    let mut r = stderr;
    if r.len() > 0 && r[r.len() - 1] != 10u8 {
        r.push(10u8);
    }
    let ghost start = r@;
    let bytes = message.as_bytes();
    let mut i: usize = 0;
    while i < bytes.len()
        invariant
            i <= bytes@.len(),
            bytes@ == message.spec_bytes(),
            r@ == start + bytes@.subrange(0, i as int),
        decreases bytes.len() - i,
    {
        r.push(bytes[i]);
        i = i + 1;
        assert(r@ =~= start + bytes@.subrange(0, i as int));
    }
    assert(bytes@.subrange(0, bytes@.len() as int) =~= bytes@);
    r.push(10u8);
    r
}

/// What to do before asking whether a running command has ended.
#[derive(Clone, Debug, PartialEq, Eq)]
pub enum PollCheck {
    /// Stop the command's process group, for this reason.
    Terminate(String),
    /// Ask whether it has ended.
    Wait,
}

/// A cancellation stops a running command first; then the time limit does.
pub fn poll_check(cancelled: bool, elapsed_millis: u128, timeout_secs: u64) -> (r: PollCheck)
    ensures
        cancelled ==> (r matches PollCheck::Terminate(m) && m@ == "Git command cancelled"@),
        !cancelled && elapsed_millis >= timeout_secs as int * 1000 ==> (r matches PollCheck::Terminate(m)
            && m@ == "Git command timed out after "@ + decimal(timeout_secs as nat) + " seconds"@),
        !cancelled && elapsed_millis < timeout_secs as int * 1000 ==> r == PollCheck::Wait,
{
    if cancelled {
        return PollCheck::Terminate(String::from_str("Git command cancelled"));
    }
    if elapsed_millis >= (timeout_secs as u128) * 1000 {
        let mut v = chars_of("Git command timed out after ");
        let d = decimal_of(timeout_secs as u128);
        push_chars(&mut v, &d);
        push_str(&mut v, " seconds");
        return PollCheck::Terminate(string_of(&v));
    }
    PollCheck::Wait
}

/// What asking whether the command has ended gave.
#[derive(Clone, Debug)]
pub enum WaitOutcome {
    Exited(Option<i32>),
    Running,
    Failed(String),
}

/// What follows a look at the command.
#[derive(Clone, Debug, PartialEq, Eq)]
pub enum PollNext {
    /// It ended with this code.
    Finished(Option<i32>),
    /// Look again after a pause.
    Sleep,
    /// Stop it, for this reason.
    Terminate(String),
}

pub fn after_wait(outcome: &WaitOutcome) -> (r: PollNext)
    ensures
        match outcome {
            WaitOutcome::Exited(code) => r == PollNext::Finished(*code),
            WaitOutcome::Running => r == PollNext::Sleep,
            WaitOutcome::Failed(e) => r matches PollNext::Terminate(m) && m@ == "could not wait for Git: "@ + e@,
        },
{
    match outcome {
        WaitOutcome::Exited(code) => PollNext::Finished(*code),
        WaitOutcome::Running => PollNext::Sleep,
        WaitOutcome::Failed(e) => {
            let mut v = chars_of("could not wait for Git: ");
            push_str(&mut v, e.as_str());
            PollNext::Terminate(string_of(&v))
        },
    }
}


/// A failed command is explained by what Git wrote to its error output,
/// trimmed; when that is blank, by its standard output, trimmed; when both
/// are blank, by its exit status.
pub proof fn law_error_prefers_diagnostics(output: GitOutput)
    ensures
        trim(spec_bytes_text(output.stderr@)).len() > 0 ==> spec_error(output) == trim(spec_bytes_text(output.stderr@)),
        trim(spec_bytes_text(output.stderr@)).len() == 0 && trim(spec_bytes_text(output.stdout@)).len() > 0 ==> spec_error(output)
            == trim(spec_bytes_text(output.stdout@)),
        trim(spec_bytes_text(output.stderr@)).len() == 0 && trim(spec_bytes_text(output.stdout@)).len() == 0 ==> spec_error(
            output,
        ) == match output.code {
            Some(c) => "Git exited with status "@ + signed_decimal(c as int),
            None => "Git terminated unexpectedly"@,
        },
{
}

} // verus!
