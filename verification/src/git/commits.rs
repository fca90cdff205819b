//! Reading the commit history of a work item out of `git log` output.
use crate::external::{chars_of, string_of};
use crate::git::worktree::opt_view;
use crate::text::{
    chars_eq, contains, contains_text, parse_u64, parse_unsigned, seqs, split, split_chars, subvec,
    take_chars, take_chars_of, trim, trim_chars, words, words_of,
};
use vstd::prelude::*;

verus! {

/// The counts of a `--shortstat` line.
#[derive(Clone, Copy, Debug, Default, PartialEq, Eq, Structural)]
pub struct ShortStat {
    pub changed_files: usize,
    pub additions: u64,
    pub deletions: u64,
}

/// The count that opens a piece of a `--shortstat` line, 0 when there is none.
pub open spec fn leading_count(part: Seq<char>) -> u64 {
    let ws = words(part);
    if ws.len() == 0 {
        0
    } else {
        match parse_unsigned(ws[0], u64::MAX as nat) {
            Some(v) => v as u64,
            None => 0,
        }
    }
}

/// One comma-separated piece of a `--shortstat` line taken into account.
pub open spec fn shortstat_step(stat: ShortStat, raw: Seq<char>) -> ShortStat {
    let part = trim(raw);
    let count = leading_count(part);
    if contains(part, "file changed"@) || contains(part, "files changed"@) {
        ShortStat { changed_files: count as usize, ..stat }
    } else if contains(part, "insertion"@) {
        ShortStat { additions: count, ..stat }
    } else if contains(part, "deletion"@) {
        ShortStat { deletions: count, ..stat }
    } else {
        stat
    }
}

pub open spec fn shortstat_fold(parts: Seq<Seq<char>>) -> ShortStat
    decreases parts.len(),
{
    if parts.len() == 0 {
        ShortStat { changed_files: 0, additions: 0, deletions: 0 }
    } else {
        shortstat_step(shortstat_fold(parts.drop_last()), parts.last())
    }
}

/// The counts of a `--shortstat` line: each comma-separated piece that
/// names files, insertions or deletions sets that count from its first word;
/// a later piece of the same kind wins.
pub open spec fn spec_parse_shortstat(value: Seq<char>) -> ShortStat {
    shortstat_fold(split(value, ','))
}

fn leading_count_of(part: &Vec<char>) -> (r: u64)
    ensures
        r == leading_count(part@),
{
    let ws = words_of(part);
    if ws.len() == 0 {
        0
    } else {
        assert(seqs(ws@)[0] == ws@[0]@);
        match parse_u64(&ws[0]) {
            Some(v) => v,
            None => 0,
        }
    }
}

/// The counts of a `--shortstat` line.
pub fn parse_shortstat(value: &str) -> (r: ShortStat)
    ensures
        r == spec_parse_shortstat(value@),
{
    let text = chars_of(value);
    let parts = split_chars(&text, ',');
    let file_changed = chars_of("file changed");
    let files_changed = chars_of("files changed");
    let insertion = chars_of("insertion");
    let deletion = chars_of("deletion");
    let mut stat = ShortStat { changed_files: 0, additions: 0, deletions: 0 };
    let mut i: usize = 0;
    while i < parts.len()
        invariant
            i <= parts.len(),
            seqs(parts@) == split(value@, ','),
            file_changed@ == "file changed"@,
            files_changed@ == "files changed"@,
            insertion@ == "insertion"@,
            deletion@ == "deletion"@,
            stat == shortstat_fold(seqs(parts@).subrange(0, i as int)),
        decreases parts.len() - i,
    {
        let ghost done = seqs(parts@).subrange(0, i as int);
        assert(seqs(parts@).subrange(0, i + 1).drop_last() =~= done);
        assert(seqs(parts@)[i as int] == parts@[i as int]@);
        let part = trim_chars(&parts[i]);
        let count = leading_count_of(&part);
        if contains_text(&part, &file_changed) || contains_text(&part, &files_changed) {
            stat = ShortStat { changed_files: count as usize, ..stat };
        } else if contains_text(&part, &insertion) {
            stat = ShortStat { additions: count, ..stat };
        } else if contains_text(&part, &deletion) {
            stat = ShortStat { deletions: count, ..stat };
        }
        i = i + 1;
    }
    assert(seqs(parts@).subrange(0, parts.len() as int) =~= seqs(parts@));
    stat
}

/// The word for a `%G?` signature state.
pub open spec fn spec_verification_status(value: Seq<char>) -> Seq<char> {
    let v = trim(value);
    if v == "G"@ {
        "verified"@
    } else if v == "B"@ || v == "R"@ || v == "E"@ {
        "unverified"@
    } else if v == "N"@ {
        "unsigned"@
    } else {
        "unknown"@
    }
}

/// The word for a `%G?` signature state.
pub fn verification_status(value: &str) -> (r: String)
    ensures
        r@ == spec_verification_status(value@),
{
    let text = chars_of(value);
    let v = trim_chars(&text);
    if chars_eq(&v, &chars_of("G")) {
        String::from_str("verified")
    } else if chars_eq(&v, &chars_of("B")) || chars_eq(&v, &chars_of("R")) || chars_eq(
        &v,
        &chars_of("E"),
    ) {
        String::from_str("unverified")
    } else if chars_eq(&v, &chars_of("N")) {
        String::from_str("unsigned")
    } else {
        String::from_str("unknown")
    }
}

/// The most commits a history shows.
pub const MAX_COMMITS: usize = 200;

/// A commit of a work item's history.
#[derive(Debug)]
pub struct WorkItemCommit {
    pub sha: String,
    pub short_sha: String,
    pub subject: String,
    pub body: String,
    pub author_name: String,
    pub author_email: String,
    pub authored_at: u64,
    pub committed_at: u64,
    pub verification: String,
    pub verification_signer: Option<String>,
    pub parent_count: usize,
    pub additions: u64,
    pub deletions: u64,
    pub changed_files: usize,
}

pub struct CommitView {
    pub sha: Seq<char>,
    pub short_sha: Seq<char>,
    pub subject: Seq<char>,
    pub body: Seq<char>,
    pub author_name: Seq<char>,
    pub author_email: Seq<char>,
    pub authored_at: u64,
    pub committed_at: u64,
    pub verification: Seq<char>,
    pub verification_signer: Option<Seq<char>>,
    pub parent_count: usize,
    pub additions: u64,
    pub deletions: u64,
    pub changed_files: usize,
}

impl View for WorkItemCommit {
    type V = CommitView;

    open spec fn view(&self) -> CommitView {
        CommitView {
            sha: self.sha@,
            short_sha: self.short_sha@,
            subject: self.subject@,
            body: self.body@,
            author_name: self.author_name@,
            author_email: self.author_email@,
            authored_at: self.authored_at,
            committed_at: self.committed_at,
            verification: self.verification@,
            verification_signer: opt_view(self.verification_signer),
            parent_count: self.parent_count,
            additions: self.additions,
            deletions: self.deletions,
            changed_files: self.changed_files,
        }
    }
}

pub open spec fn commits_view(v: Seq<WorkItemCommit>) -> Seq<CommitView> {
    v.map_values(|c: WorkItemCommit| c@)
}

/// A number field of the log: trimmed and read as a number, zero when it is
/// not one.
pub open spec fn time_field(f: Seq<char>) -> u64 {
    match parse_unsigned(trim(f), u64::MAX as nat) {
        Some(n) => n as u64,
        None => 0,
    }
}

/// The signer field of the log: trimmed, none when empty.
pub open spec fn signer_field(f: Seq<char>) -> Option<Seq<char>> {
    if trim(f).len() == 0 {
        None
    } else {
        Some(trim(f))
    }
}

/// One record of the log: the fields before the first unit separator
/// (hash, author name and email, author and commit times, signature state,
/// signer, parents, subject, body, separated by NUL), then the shortstat.
/// Records with fewer than ten fields or no hash are skipped.
pub open spec fn spec_parse_commit(record: Seq<char>) -> Option<CommitView> {
    let pieces = split(record, '\x1f');
    if pieces.len() < 2 {
        None
    } else {
        let metadata = pieces[0];
        let stats = spec_parse_shortstat(record.subrange(metadata.len() + 1int, record.len() as int));
        let f = split(metadata, '\0');
        if f.len() < 10 || trim(f[0]).len() == 0 {
            None
        } else {
            Some(CommitView {
                sha: trim(f[0]),
                short_sha: take_chars(trim(f[0]), 7),
                subject: trim(f[8]),
                body: trim(f[9]),
                author_name: trim(f[1]),
                author_email: trim(f[2]),
                authored_at: time_field(f[3]),
                committed_at: time_field(f[4]),
                verification: spec_verification_status(f[5]),
                verification_signer: signer_field(f[6]),
                parent_count: words(f[7]).len() as usize,
                additions: stats.additions,
                deletions: stats.deletions,
                changed_files: stats.changed_files,
            })
        }
    }
}

/// The commits of the log's records, in order, the records that do not
/// parse left out.
pub open spec fn spec_parse_commits_of(records: Seq<Seq<char>>) -> Seq<CommitView>
    decreases records.len(),
{
    if records.len() == 0 {
        Seq::empty()
    } else {
        let before = spec_parse_commits_of(records.drop_last());
        match spec_parse_commit(records.last()) {
            Some(c) => before.push(c),
            None => before,
        }
    }
}

/// The commits of `git log` output whose records start with a record
/// separator.
pub open spec fn spec_parse_commits(output: Seq<char>) -> Seq<CommitView> {
    spec_parse_commits_of(split(output, '\x1e'))
}

fn time_of(f: &Vec<char>) -> (r: u64)
    ensures
        r == time_field(f@),
{
    match parse_u64(&trim_chars(f)) {
        Some(v) => v,
        None => 0,
    }
}

/// One record of the log.
pub fn parse_commit(record: &Vec<char>) -> (r: Option<WorkItemCommit>)
    ensures
        match spec_parse_commit(record@) {
            Some(c) => r matches Some(x) && x@ == c,
            None => r is None,
        },
{
    let pieces = split_chars(record, '\x1f');
    if pieces.len() < 2 {
        return None;
    }
    let metadata = &pieces[0];
    assert(seqs(pieces@)[0] == metadata@);
    proof {
        lemma_split_first_len(record@, '\x1f');
    }
    assert(seqs(pieces@) == split(record@, '\x1f'));
    assert(metadata@.len() < record@.len());
    let mlen = metadata.len();
    assert(mlen < record.len());
    let rest = subvec(record, mlen + 1, record.len());
    let stats = parse_shortstat(string_of(&rest).as_str());
    let f = split_chars(metadata, '\0');
    if f.len() < 10 {
        return None;
    }
    let ghost fs = seqs(f@);
    assert(fs[0] == f@[0]@ && fs[1] == f@[1]@ && fs[2] == f@[2]@ && fs[3] == f@[3]@ && fs[4] == f@[4]@);
    assert(fs[5] == f@[5]@ && fs[6] == f@[6]@ && fs[7] == f@[7]@ && fs[8] == f@[8]@ && fs[9] == f@[9]@);
    let sha = trim_chars(&f[0]);
    if sha.len() == 0 {
        return None;
    }
    let signer = trim_chars(&f[6]);
    let parents = words_of(&f[7]);
    proof {
        crate::text::lemma_words_len(f@[7]@);
    }
    Some(WorkItemCommit {
        short_sha: string_of(&take_chars_of(&sha, 7)),
        sha: string_of(&sha),
        subject: string_of(&trim_chars(&f[8])),
        body: string_of(&trim_chars(&f[9])),
        author_name: string_of(&trim_chars(&f[1])),
        author_email: string_of(&trim_chars(&f[2])),
        authored_at: time_of(&f[3]),
        committed_at: time_of(&f[4]),
        verification: verification_status(string_of(&f[5]).as_str()),
        verification_signer: if signer.len() == 0 {
            None
        } else {
            Some(string_of(&signer))
        },
        parent_count: parents.len(),
        additions: stats.additions,
        deletions: stats.deletions,
        changed_files: stats.changed_files,
    })
}

/// The first piece of a split is no longer than what was split, and when
/// there is a second piece, a separator follows the first.
pub proof fn lemma_split_first_len<T>(s: Seq<T>, sep: T)
    ensures
        split(s, sep).len() >= 1,
        split(s, sep)[0].len() <= s.len(),
        split(s, sep).len() >= 2 ==> split(s, sep)[0].len() < s.len(),
    decreases s.len(),
{
    crate::text::lemma_split_len(s, sep);
    if s.len() > 0 {
        lemma_split_first_len(s.drop_last(), sep);
        crate::text::lemma_split_len(s.drop_last(), sep);
    }
}

/// The commits of `git log` output.
pub fn parse_commits(output: &str) -> (r: Vec<WorkItemCommit>)
    ensures
        commits_view(r@) == spec_parse_commits(output@),
{
    let records = split_chars(&chars_of(output), '\x1e');
    let ghost rs = seqs(records@);
    let mut r: Vec<WorkItemCommit> = Vec::new();
    let mut i: usize = 0;
    while i < records.len()
        invariant
            i <= records.len(),
            rs == seqs(records@),
            rs == split(output@, '\x1e'),
            commits_view(r@) == spec_parse_commits_of(rs.subrange(0, i as int)),
        decreases records.len() - i,
    {
        assert(rs.subrange(0, i + 1).drop_last() =~= rs.subrange(0, i as int));
        assert(rs.subrange(0, i + 1).last() == records@[i as int]@);
        match parse_commit(&records[i]) {
            Some(c) => {
                let ghost before = commits_view(r@);
                r.push(c);
                assert(commits_view(r@) =~= before.push(c@));
            },
            None => {},
        }
        i = i + 1;
    }
    assert(rs.subrange(0, records.len() as int) =~= rs);
    r
}

/// A request for the commits of a work item.
#[derive(Debug)]
pub struct WorkItemCommitsRequest {
    pub project_path: String,
    pub project_id: String,
    pub branch: Option<String>,
    pub worktree_path: Option<String>,
    pub head_sha: String,
    pub default_branch: Option<String>,
    pub pull_request_number: Option<u64>,
    pub pull_request_base_branch: Option<String>,
    pub pull_request_head_sha: Option<String>,
}

/// The commits of a work item: at most `MAX_COMMITS` of them, how many
/// there are in all, where they come from, what they were compared with,
/// and the head they were read from.
#[derive(Debug)]
pub struct WorkItemCommitHistory {
    pub commits: Vec<WorkItemCommit>,
    pub total: usize,
    pub has_more: bool,
    pub source: String,
    pub comparison_label: Option<String>,
    pub head_sha: Option<String>,
}

/// Where a history comes from: a pull request that has no local branch or
/// checkout, a local branch, or a detached checkout.
pub open spec fn spec_history_source(branch: Option<Seq<char>>, pull_request_number: Option<u64>, has_checkout: bool) -> Seq<char> {
    if pull_request_number is Some && branch is None && !has_checkout {
        "pullRequest"@
    } else if branch is Some {
        "local"@
    } else {
        "detached"@
    }
}

/// Where a history comes from.
pub fn history_source(request: &WorkItemCommitsRequest, has_checkout: bool) -> (r: String)
    ensures
        r@ == spec_history_source(opt_view(request.branch), request.pull_request_number, has_checkout),
{
    if request.pull_request_number.is_some() && request.branch.is_none() && !has_checkout {
        String::from_str("pullRequest")
    } else if request.branch.is_some() {
        String::from_str("local")
    } else {
        String::from_str("detached")
    }
}

/// A head that names no commit: empty or all zeros.
pub open spec fn spec_missing_head(head: Seq<char>) -> bool {
    head.len() == 0 || forall|i: int| 0 <= i < head.len() ==> #[trigger] head[i] == '0'
}

/// Whether a head names no commit.
pub fn missing_head(head: &str) -> (r: bool)
    ensures
        r == spec_missing_head(head@),
{
    let c = chars_of(head);
    let mut i: usize = 0;
    while i < c.len()
        invariant
            i <= c.len(),
            c@ == head@,
            forall|j: int| 0 <= j < i ==> #[trigger] c@[j] == '0',
        decreases c.len() - i,
    {
        if c[i] != '0' {
            return false;
        }
        i = i + 1;
    }
    true
}

pub struct HistoryView {
    pub commits: Seq<CommitView>,
    pub total: usize,
    pub has_more: bool,
    pub source: Seq<char>,
    pub comparison_label: Option<Seq<char>>,
    pub head_sha: Option<Seq<char>>,
}

impl View for WorkItemCommitHistory {
    type V = HistoryView;

    open spec fn view(&self) -> HistoryView {
        HistoryView {
            commits: commits_view(self.commits@),
            total: self.total,
            has_more: self.has_more,
            source: self.source@,
            comparison_label: opt_view(self.comparison_label),
            head_sha: opt_view(self.head_sha),
        }
    }
}

/// A history with no commits and no head.
pub open spec fn spec_empty_history(source: Seq<char>) -> HistoryView {
    HistoryView { commits: Seq::empty(), total: 0, has_more: false, source: source, comparison_label: None, head_sha: None }
}

/// A history with no commits and no head.
pub fn empty_history(source: String) -> (r: WorkItemCommitHistory)
    ensures
        r@ == spec_empty_history(source@),
{
    let commits: Vec<WorkItemCommit> = Vec::new();
    assert(commits_view(commits@) =~= Seq::<CommitView>::empty());
    WorkItemCommitHistory { commits, total: 0, has_more: false, source, comparison_label: None, head_sha: None }
}

pub open spec fn text_view(r: Result<String, String>) -> Result<Seq<char>, Seq<char>> {
    match r {
        Ok(t) => Ok(t@),
        Err(e) => Err(e@),
    }
}

pub open spec fn changed_error() -> Seq<char> {
    "This work item changed since the last scan. Refresh and try again."@
}

/// The work item must still be what the board showed: its branch and its
/// checkout at the scanned head, and the checkout still on the branch.
/// `branch_head` is `git rev-parse --verify refs/heads/<branch>`,
/// `checkout_head` is `git rev-parse HEAD` in the checkout, and
/// `current_branch` is `git symbolic-ref --short HEAD` there; each is read
/// only when it is needed.
pub open spec fn spec_validate_target(
    branch: Option<Seq<char>>,
    head_sha: Seq<char>,
    has_checkout: bool,
    branch_head: Result<Seq<char>, Seq<char>>,
    checkout_head: Result<Seq<char>, Seq<char>>,
    current_branch: Result<Seq<char>, Seq<char>>,
) -> Result<(), Seq<char>> {
    if spec_missing_head(head_sha) {
        Ok(())
    } else if branch is Some && branch_head is Err {
        Err(branch_head->Err_0)
    } else if branch is Some && trim(branch_head->Ok_0) != head_sha {
        Err(changed_error())
    } else if !has_checkout {
        Ok(())
    } else {
        match checkout_head {
            Err(e) => Err(e),
            Ok(h) => if trim(h) != head_sha {
                Err(changed_error())
            } else {
                match branch {
                    None => Ok(()),
                    Some(b) => match current_branch {
                        Err(e) => Err(e),
                        Ok(c) => if trim(c) != b {
                            Err("The selected worktree now contains a different branch."@)
                        } else {
                            Ok(())
                        },
                    },
                }
            },
        }
    }
}

pub open spec fn unit_view(r: Result<(), String>) -> Result<(), Seq<char>> {
    match r {
        Ok(()) => Ok(()),
        Err(e) => Err(e@),
    }
}

fn trimmed_is(text: &str, expected: &str) -> (r: bool)
    ensures
        r == (trim(text@) == expected@),
{
    chars_eq(&trim_chars(&chars_of(text)), &chars_of(expected))
}

/// Checks that the work item is still what the board showed.
pub fn validate_target(
    request: &WorkItemCommitsRequest,
    has_checkout: bool,
    branch_head: &Result<String, String>,
    checkout_head: &Result<String, String>,
    current_branch: &Result<String, String>,
) -> (r: Result<(), String>)
    ensures
        unit_view(r) == spec_validate_target(
            opt_view(request.branch),
            request.head_sha@,
            has_checkout,
            text_view(*branch_head),
            text_view(*checkout_head),
            text_view(*current_branch),
        ),
{
    if missing_head(request.head_sha.as_str()) {
        return Ok(());
    }
    if request.branch.is_some() {
        match branch_head {
            Err(e) => return Err(e.clone()),
            Ok(h) => {
                if !trimmed_is(h.as_str(), request.head_sha.as_str()) {
                    return Err(String::from_str("This work item changed since the last scan. Refresh and try again."));
                }
            },
        }
    }
    if !has_checkout {
        return Ok(());
    }
    match checkout_head {
        Err(e) => Err(e.clone()),
        Ok(h) => {
            if !trimmed_is(h.as_str(), request.head_sha.as_str()) {
                return Err(String::from_str("This work item changed since the last scan. Refresh and try again."));
            }
            match &request.branch {
                None => Ok(()),
                Some(b) => match current_branch {
                    Err(e) => Err(e.clone()),
                    Ok(c) => {
                        if !trimmed_is(c.as_str(), b.as_str()) {
                            Err(String::from_str("The selected worktree now contains a different branch."))
                        } else {
                            Ok(())
                        }
                    },
                },
            }
        },
    }
}

/// The head of a pull request's history: the fetched head when it is the
/// expected one (the pull request's head, else the item's); an error when
/// GitHub has moved on; when the fetch failed, the expected head if it was
/// cached under the pull request's reference or is known to Git, else the
/// fetch's error.
pub open spec fn spec_pull_request_head(
    number: Option<u64>,
    expected: Seq<char>,
    cached: Option<Seq<char>>,
    fetched: Result<Seq<char>, Seq<char>>,
    known_locally: bool,
) -> Result<Seq<char>, Seq<char>> {
    if number is None {
        Err("pull request history is missing its number"@)
    } else {
        match fetched {
            Ok(f) => if f == expected {
                Ok(f)
            } else {
                Err("The pull request changed on GitHub. Refresh the project and try again."@)
            },
            Err(e) => if cached == Some(expected) || known_locally {
                Ok(expected)
            } else {
                Err(e)
            },
        }
    }
}

/// The head a pull request's history is expected at.
pub open spec fn expected_head(request: WorkItemCommitsRequest) -> Seq<char> {
    match request.pull_request_head_sha {
        Some(h) => h@,
        None => request.head_sha@,
    }
}

/// The head of a pull request's history.
pub fn pull_request_head(
    request: &WorkItemCommitsRequest,
    cached: &Option<String>,
    fetched: &Result<String, String>,
    known_locally: bool,
) -> (r: Result<String, String>)
    ensures
        text_view(r) == spec_pull_request_head(request.pull_request_number, expected_head(*request), opt_view(*cached), text_view(*fetched), known_locally),
{
    if request.pull_request_number.is_none() {
        return Err(String::from_str("pull request history is missing its number"));
    }
    let expected = match &request.pull_request_head_sha {
        Some(h) => h.clone(),
        None => request.head_sha.clone(),
    };
    match fetched {
        Ok(f) => {
            if chars_eq(&chars_of(f.as_str()), &chars_of(expected.as_str())) {
                Ok(f.clone())
            } else {
                Err(String::from_str("The pull request changed on GitHub. Refresh the project and try again."))
            }
        },
        Err(e) => {
            let cached_hit = match cached {
                Some(c) => chars_eq(&chars_of(c.as_str()), &chars_of(expected.as_str())),
                None => false,
            };
            if cached_hit || known_locally {
                Ok(expected)
            } else {
                Err(e.clone())
            }
        },
    }
}

/// What a history is compared with: the remote base branch when it could be
/// fetched or was cached, else the local branch when it exists; with the
/// branch's name as its label.
pub open spec fn spec_base_reference(branch: Seq<char>, fetched: bool, cached_remote: bool, cached_local: bool) -> Option<(Seq<char>, Seq<char>)> {
    if fetched || cached_remote {
        Some((crate::git::remote::spec_base_reference(branch), branch))
    } else if cached_local {
        Some(("refs/heads/"@ + branch, branch))
    } else {
        None
    }
}

pub open spec fn pair_view(o: Option<(String, String)>) -> Option<(Seq<char>, Seq<char>)> {
    match o {
        Some((a, b)) => Some((a@, b@)),
        None => None,
    }
}

/// What a history is compared with.
pub fn base_reference(branch: &str, fetched: bool, cached_remote: bool, cached_local: bool) -> (r: Option<(String, String)>)
    ensures
        pair_view(r) == spec_base_reference(branch@, fetched, cached_remote, cached_local),
{
    if fetched || cached_remote {
        Some((crate::git::remote::base_reference(branch), branch.to_string()))
    } else if cached_local {
        let mut v = chars_of("refs/heads/");
        crate::text::push_str(&mut v, branch);
        Some((string_of(&v), branch.to_string()))
    } else {
        None
    }
}

/// The branch a history is compared with: the pull request's base, else
/// the default branch.
pub fn comparison_branch(request: &WorkItemCommitsRequest) -> (r: Option<String>)
    ensures
        opt_view(r) == match opt_view(request.pull_request_base_branch) {
            Some(b) => Some(b),
            None => opt_view(request.default_branch),
        },
{
    match &request.pull_request_base_branch {
        Some(b) => Some(b.clone()),
        None => match &request.default_branch {
            Some(d) => Some(d.clone()),
            None => None,
        },
    }
}

/// The commits counted by `git rev-list --count`: trimmed and read as a
/// number, zero when it is not one.
pub open spec fn spec_commit_count(text: Seq<char>) -> usize {
    match parse_unsigned(trim(text), usize::MAX as nat) {
        Some(n) => n as usize,
        None => 0,
    }
}

/// The commits counted by `git rev-list --count`.
pub fn commit_count(text: &str) -> (r: usize)
    ensures
        r == spec_commit_count(text@),
{
    match parse_u64(&trim_chars(&chars_of(text))) {
        Some(v) => {
            if v as u128 <= usize::MAX as u128 {
                v as usize
            } else {
                0
            }
        },
        None => 0,
    }
}

/// What Git reported for a history, each answer read only when the steps
/// before it called for it: the repository's common directory, whether the
/// checkout is one of the project's (when one is named), the heads checked
/// by `validate_target`, the pull request's head, the comparison reference
/// (see `base_reference`) and its merge base with the head, the count of
/// commits and the log.
pub struct CommitFacts {
    pub common_dir: String,
    pub checkout: Result<(), String>,
    pub branch_head: Result<String, String>,
    pub checkout_head: Result<String, String>,
    pub current_branch: Result<String, String>,
    pub pull_request_cached: Option<String>,
    pub pull_request_fetched: Result<String, String>,
    pub pull_request_known: bool,
    pub base: Option<(String, String)>,
    pub merge_base: Option<String>,
    pub count: Result<String, String>,
    pub log: Result<String, String>,
}

/// The first `MAX_COMMITS` commits.
pub open spec fn shown(cs: Seq<CommitView>) -> Seq<CommitView> {
    if cs.len() <= MAX_COMMITS {
        cs
    } else {
        cs.subrange(0, MAX_COMMITS as int)
    }
}

/// The history of a work item from what Git reported.
pub open spec fn spec_read(request: WorkItemCommitsRequest, facts: CommitFacts) -> Result<HistoryView, Seq<char>> {
    if facts.common_dir@ != request.project_id@ {
        Err("work item does not belong to the selected project"@)
    } else if request.worktree_path is Some && facts.checkout is Err {
        Err(facts.checkout->Err_0@)
    } else {
        let has_checkout = request.worktree_path is Some;
        let source = spec_history_source(opt_view(request.branch), request.pull_request_number, has_checkout);
        match spec_validate_target(opt_view(request.branch), request.head_sha@, has_checkout, text_view(facts.branch_head), text_view(facts.checkout_head), text_view(facts.current_branch)) {
            Err(e) => Err(e),
            Ok(()) => if spec_missing_head(request.head_sha@) {
                Ok(spec_empty_history(source))
            } else {
                let head: Result<Seq<char>, Seq<char>> = if source == "pullRequest"@ {
                    spec_pull_request_head(request.pull_request_number, expected_head(request), opt_view(facts.pull_request_cached), text_view(facts.pull_request_fetched), facts.pull_request_known)
                } else {
                    Ok(request.head_sha@)
                };
                match head {
                    Err(e) => Err(e),
                    Ok(h) => {
                        let label = match (pair_view(facts.base), opt_view(facts.merge_base)) {
                            (Some((_, l)), Some(_)) => Some(l),
                            _ => None,
                        };
                        match text_view(facts.count) {
                            Err(e) => Err(e),
                            Ok(t) => {
                                let total = spec_commit_count(t);
                                if total == 0 {
                                    Ok(HistoryView { commits: Seq::empty(), total: 0, has_more: false, source: source, comparison_label: label, head_sha: Some(h) })
                                } else {
                                    match text_view(facts.log) {
                                        Err(e) => Err(e),
                                        Ok(l) => Ok(HistoryView {
                                            commits: shown(spec_parse_commits(l)),
                                            total: total,
                                            has_more: total > MAX_COMMITS,
                                            source: source,
                                            comparison_label: label,
                                            head_sha: Some(h),
                                        }),
                                    }
                                }
                            },
                        }
                    },
                }
            },
        }
    }
}

/// The range of commits a history shows: from the merge base with the
/// comparison reference to the head, or the head's whole history when there
/// is no comparison.
pub open spec fn spec_target(merge_base: Option<Seq<char>>, has_base: bool, head: Seq<char>) -> Seq<char> {
    if has_base && merge_base is Some {
        trim(merge_base->0) + ".."@ + head
    } else {
        head
    }
}

/// The range of commits a history shows.
pub fn history_target(base: &Option<(String, String)>, merge_base: &Option<String>, head: &str) -> (r: String)
    ensures
        r@ == spec_target(opt_view(*merge_base), base is Some, head@),
{
    match (base, merge_base) {
        (Some(_), Some(mb)) => {
            let mut v = trim_chars(&chars_of(mb.as_str()));
            crate::text::push_str(&mut v, "..");
            crate::text::push_str(&mut v, head);
            string_of(&v)
        },
        _ => head.to_string(),
    }
}

pub open spec fn history_result(r: Result<WorkItemCommitHistory, String>) -> Result<HistoryView, Seq<char>> {
    match r {
        Ok(h) => Ok(h@),
        Err(e) => Err(e@),
    }
}

/// The history of a work item.
pub fn read(request: &WorkItemCommitsRequest, facts: &CommitFacts) -> (r: Result<WorkItemCommitHistory, String>)
    ensures
        history_result(r) == spec_read(*request, *facts),
{
    if !chars_eq(&chars_of(facts.common_dir.as_str()), &chars_of(request.project_id.as_str())) {
        return Err(String::from_str("work item does not belong to the selected project"));
    }
    if request.worktree_path.is_some() {
        if let Err(e) = &facts.checkout {
            return Err(e.clone());
        }
    }
    let has_checkout = request.worktree_path.is_some();
    let source = history_source(request, has_checkout);
    if let Err(e) = validate_target(request, has_checkout, &facts.branch_head, &facts.checkout_head, &facts.current_branch) {
        return Err(e);
    }
    if missing_head(request.head_sha.as_str()) {
        return Ok(empty_history(source));
    }
    let head = if chars_eq(&chars_of(source.as_str()), &chars_of("pullRequest")) {
        match pull_request_head(request, &facts.pull_request_cached, &facts.pull_request_fetched, facts.pull_request_known) {
            Ok(h) => h,
            Err(e) => return Err(e),
        }
    } else {
        request.head_sha.clone()
    };
    let label = match (&facts.base, &facts.merge_base) {
        (Some((_, l)), Some(_)) => Some(l.clone()),
        _ => None,
    };
    let total = match &facts.count {
        Err(e) => return Err(e.clone()),
        Ok(t) => commit_count(t.as_str()),
    };
    if total == 0 {
        let commits: Vec<WorkItemCommit> = Vec::new();
        assert(commits_view(commits@) =~= Seq::<CommitView>::empty());
        return Ok(WorkItemCommitHistory { commits, total: 0, has_more: false, source, comparison_label: label, head_sha: Some(head) });
    }
    let mut commits = match &facts.log {
        Err(e) => return Err(e.clone()),
        Ok(l) => parse_commits(l.as_str()),
    };
    commits.truncate(MAX_COMMITS);
    assert(commits_view(commits@) =~= shown(spec_parse_commits(facts.log->Ok_0@)));
    Ok(WorkItemCommitHistory { commits, total, has_more: total > MAX_COMMITS, source, comparison_label: label, head_sha: Some(head) })
}

/// A history shows at most `MAX_COMMITS` commits, says there are more
/// exactly when the count is above that, names where it comes from, and is
/// empty and without a head when the request names no commit.
pub proof fn law_history_is_bounded(request: WorkItemCommitsRequest, facts: CommitFacts)
    ensures
        spec_read(request, facts) matches Ok(h) ==> {
            &&& h.commits.len() <= MAX_COMMITS
            &&& (h.has_more <==> h.total > MAX_COMMITS)
            &&& h.source == spec_history_source(opt_view(request.branch), request.pull_request_number, request.worktree_path is Some)
            &&& spec_missing_head(request.head_sha@) ==> h.total == 0 && h.head_sha is None && h.commits.len() == 0
        },
{
}

/// A history never shows more commits than it counts, as long as Git's log
/// lists no more commits than Git's count gave.
pub proof fn law_history_shows_no_more_than_counted(request: WorkItemCommitsRequest, facts: CommitFacts)
    requires
        facts.count matches Ok(c) && facts.log matches Ok(l) ==> spec_parse_commits(l@).len() <= spec_commit_count(c@),
    ensures
        spec_read(request, facts) matches Ok(h) ==> h.commits.len() <= h.total,
{
}

/// A history is compared with the Shipyard base reference
/// `refs/shipyard/bases/<branch>` whenever the remote base branch was just
/// fetched or was cached, whatever else holds; with the local branch only
/// when neither, and with nothing when there is no local branch either.
pub proof fn law_fetched_base_is_compared(branch: Seq<char>, fetched: bool, cached_remote: bool, cached_local: bool)
    ensures
        fetched || cached_remote ==> spec_base_reference(branch, fetched, cached_remote, cached_local)
            == Some(("refs/shipyard/bases/"@ + branch, branch)),
        !fetched && !cached_remote && cached_local ==> spec_base_reference(branch, fetched, cached_remote, cached_local)
            == Some(("refs/heads/"@ + branch, branch)),
        !fetched && !cached_remote && !cached_local ==> spec_base_reference(branch, fetched, cached_remote, cached_local) is None,
{
}

} // verus!
