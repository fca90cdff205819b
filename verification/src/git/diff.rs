//! How much a checkout has changed: the entries of `git status --porcelain=v1
//! -z` and the line counts of `git diff --numstat`.
use crate::git::command::{bytes_text, spec_bytes_text};
use crate::text::{lines, lines_of, parse_u64, parse_unsigned, seqs, split, split_bytes, split_chars};
use vstd::prelude::*;

verus! {

/// The uncommitted changes of a checkout.
#[derive(Clone, Copy, Debug, Default, PartialEq, Eq, Structural)]
pub struct DiffStats {
    pub dirty: bool,
    pub additions: u64,
    pub deletions: u64,
    pub changed_files: usize,
}

/// A status entry that names two paths: a rename or a copy, whose second
/// path follows in a field of its own.
pub open spec fn names_two_paths(field: Seq<u8>) -> bool {
    field.len() >= 2 && (field[0] == 82u8 || field[1] == 82u8 || field[0] == 67u8 || field[1] == 67u8)
}

/// The number of entries in the NUL-separated fields of a status listing,
/// from field `index` on, up to the first empty field.
pub open spec fn status_entries(fields: Seq<Seq<u8>>, index: int) -> nat
    decreases fields.len() + 1 - index,
{
    if index < 0 || index >= fields.len() || fields[index].len() == 0 {
        0
    } else {
        1 + status_entries(fields, index + if names_two_paths(fields[index]) { 2int } else { 1int })
    }
}

proof fn lemma_status_entries_bound(fields: Seq<Seq<u8>>, index: int)
    requires
        0 <= index,
    ensures
        status_entries(fields, index) <= if index < fields.len() { fields.len() - index } else { 0 },
    decreases fields.len() + 1 - index,
{
    if index < fields.len() && fields[index].len() != 0 {
        lemma_status_entries_bound(fields, index + if names_two_paths(fields[index]) { 2int } else { 1int });
    }
}

/// The number of changed paths in `git status --porcelain=v1 -z` output.
pub fn count_status_entries(output: &Vec<u8>) -> (r: usize)
    ensures
        r == status_entries(split(output@, 0u8), 0),
{
    let fields = split_bytes(output, 0u8);
    let ghost fs = seqs(fields@);
    let mut count: usize = 0;
    let mut index: usize = 0;
    proof {
        lemma_status_entries_bound(fs, 0);
    }
    while index < fields.len() && fields[index].len() != 0
        invariant
            fs == seqs(fields@),
            fs == split(output@, 0u8),
            count + status_entries(fs, index as int) == status_entries(fs, 0),
            status_entries(fs, 0) <= fs.len(),
            index <= fields.len(),
        decreases fields.len() + 1 - index,
    {
        let f = &fields[index];
        assert(fs[index as int] == f@);
        let two = f.len() >= 2 && (f[0] == 82u8 || f[1] == 82u8 || f[0] == 67u8 || f[1] == 67u8);
        assert(two == names_two_paths(fs[index as int]));
        let ghost at = index as int;
        assert(status_entries(fs, at) == 1 + status_entries(fs, at + if two { 2int } else { 1int }));
        count = count + 1;
        index = index + 1;
        if two && index < fields.len() {
            index = index + 1;
        }
        assert(status_entries(fs, index as int) == status_entries(fs, at + if two { 2int } else { 1int }));
    }
    count
}

/// A numstat count: the field read as a number, zero when it is missing or
/// is not one (binary files show `-`).
pub open spec fn numstat_count(fields: Seq<Seq<char>>, k: int) -> nat {
    if 0 <= k < fields.len() {
        match parse_unsigned(fields[k], u64::MAX as nat) {
            Some(n) => n,
            None => 0,
        }
    } else {
        0
    }
}

/// The lines added and removed over the lines of `--numstat` output, from
/// line `start` on.
pub open spec fn numstat_total(ls: Seq<Seq<char>>, start: int, k: int) -> nat
    decreases ls.len() - start,
{
    if start < 0 || start >= ls.len() {
        0
    } else {
        numstat_count(split(ls[start], '\t'), k) + numstat_total(ls, start + 1, k)
    }
}

/// The lines of `--numstat` output.
pub open spec fn numstat_lines(output: Seq<u8>) -> Seq<Seq<char>> {
    lines(spec_bytes_text(output))
}

/// Whether adding the counts of `output` to `stats` stays within `u64`.
pub open spec fn numstat_fits(stats: DiffStats, output: Seq<u8>) -> bool {
    stats.additions + numstat_total(numstat_lines(output), 0, 0) <= u64::MAX
        && stats.deletions + numstat_total(numstat_lines(output), 0, 1) <= u64::MAX
}

/// The count in field `k` of a numstat line.
fn field_count(fields: &Vec<Vec<char>>, k: usize) -> (r: u64)
    ensures
        r == numstat_count(seqs(fields@), k as int),
{
    if k < fields.len() {
        assert(seqs(fields@)[k as int] == fields@[k as int]@);
        match parse_u64(&fields[k]) {
            Some(v) => v,
            None => 0,
        }
    } else {
        0
    }
}

/// Whether the counts of `output` can be added to `stats` without overflow.
pub fn numstat_in_range(stats: &DiffStats, output: &Vec<u8>) -> (r: bool)
    ensures
        r == numstat_fits(*stats, output@),
{
    let ls = lines_of(&bytes_text(output));
    let ghost l = seqs(ls@);
    let mut a: u128 = stats.additions as u128;
    let mut d: u128 = stats.deletions as u128;
    let mut j: usize = 0;
    while j < ls.len()
        invariant
            j <= ls.len(),
            l == seqs(ls@),
            l == numstat_lines(output@),
            a + numstat_total(l, j as int, 0) == stats.additions + numstat_total(l, 0, 0),
            d + numstat_total(l, j as int, 1) == stats.deletions + numstat_total(l, 0, 1),
            a <= u64::MAX,
            d <= u64::MAX,
        decreases ls.len() - j,
    {
        let fields = split_chars(&ls[j], '\t');
        assert(seqs(fields@) == split(l[j as int], '\t'));
        let x = field_count(&fields, 0);
        let y = field_count(&fields, 1);
        a = a + x as u128;
        d = d + y as u128;
        if a > u64::MAX as u128 || d > u64::MAX as u128 {
            return false;
        }
        j = j + 1;
    }
    true
}

/// Adds the lines added and removed that `git diff --numstat` reports.
pub fn add_numstat(stats: &mut DiffStats, output: &Vec<u8>)
    requires
        numstat_fits(*old(stats), output@),
    ensures
        final(stats).additions == old(stats).additions + numstat_total(numstat_lines(output@), 0, 0),
        final(stats).deletions == old(stats).deletions + numstat_total(numstat_lines(output@), 0, 1),
        final(stats).dirty == old(stats).dirty,
        final(stats).changed_files == old(stats).changed_files,
{
    let ls = lines_of(&bytes_text(output));
    let ghost l = seqs(ls@);
    let ghost start = *stats;
    let mut j: usize = 0;
    while j < ls.len()
        invariant
            j <= ls.len(),
            l == seqs(ls@),
            l == numstat_lines(output@),
            stats.additions + numstat_total(l, j as int, 0) == start.additions + numstat_total(l, 0, 0),
            stats.deletions + numstat_total(l, j as int, 1) == start.deletions + numstat_total(l, 0, 1),
            start.additions + numstat_total(l, 0, 0) <= u64::MAX,
            start.deletions + numstat_total(l, 0, 1) <= u64::MAX,
            stats.dirty == start.dirty,
            stats.changed_files == start.changed_files,
        decreases ls.len() - j,
    {
        let fields = split_chars(&ls[j], '\t');
        assert(seqs(fields@) == split(l[j as int], '\t'));
        let x = field_count(&fields, 0);
        let y = field_count(&fields, 1);
        stats.additions = stats.additions + x;
        stats.deletions = stats.deletions + y;
        j = j + 1;
    }
}

/// The stats of a checkout from its status listing and its numstat output.
pub open spec fn spec_stats(status: Seq<u8>, numstat: Seq<u8>) -> DiffStats {
    let changed = status_entries(split(status, 0u8), 0);
    DiffStats {
        dirty: changed > 0,
        additions: numstat_total(numstat_lines(numstat), 0, 0) as u64,
        deletions: numstat_total(numstat_lines(numstat), 0, 1) as u64,
        changed_files: changed as usize,
    }
}

/// The stats of a checkout: the number of changed paths in its status
/// listing, dirty when there is any, and the line counts of its diff.
pub fn read_stats(status: &Vec<u8>, numstat: &Vec<u8>) -> (r: DiffStats)
    requires
        numstat_fits(DiffStats { dirty: false, additions: 0, deletions: 0, changed_files: 0 }, numstat@),
    ensures
        r == spec_stats(status@, numstat@),
{
    let changed_files = count_status_entries(status);
    let mut stats = DiffStats { dirty: changed_files > 0, additions: 0, deletions: 0, changed_files };
    add_numstat(&mut stats, numstat);
    stats
}

} // verus!
