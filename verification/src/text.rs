//! Character-level text operations with the meaning that Rust's `str` gives them.
//!
//! Text is carried as `Vec<char>` while it is taken apart; its view is the
//! sequence of Unicode scalar values, the same as the view of a `str`.
use vstd::prelude::*;

verus! {

/// Unicode `White_Space`, the property that `char::is_whitespace` tests.
pub open spec fn is_ws(c: char) -> bool {
    let v = c as u32;
    (0x09 <= v && v <= 0x0D) || v == 0x20 || v == 0x85 || v == 0xA0 || v == 0x1680 || (0x2000
        <= v && v <= 0x200A) || v == 0x2028 || v == 0x2029 || v == 0x202F || v == 0x205F || v
        == 0x3000
}

/// The Unicode general category `Cc`, the property that `char::is_control` tests.
pub open spec fn is_control(c: char) -> bool {
    let v = c as u32;
    v <= 0x1F || (0x7F <= v && v <= 0x9F)
}

pub fn char_is_ws(c: char) -> (r: bool)
    ensures
        r == is_ws(c),
{
    let v = c as u32;
    (0x09 <= v && v <= 0x0D) || v == 0x20 || v == 0x85 || v == 0xA0 || v == 0x1680 || (0x2000
        <= v && v <= 0x200A) || v == 0x2028 || v == 0x2029 || v == 0x202F || v == 0x205F || v
        == 0x3000
}

pub fn char_is_control(c: char) -> (r: bool)
    ensures
        r == is_control(c),
{
    let v = c as u32;
    v <= 0x1F || (0x7F <= v && v <= 0x9F)
}

/// `s` with every leading character equal to `c` removed.
pub open spec fn trim_start_char(s: Seq<char>, c: char) -> Seq<char>
    decreases s.len(),
{
    if s.len() > 0 && s[0] == c {
        trim_start_char(s.drop_first(), c)
    } else {
        s
    }
}

/// `s` with every trailing character equal to `c` removed.
pub open spec fn trim_end_char(s: Seq<char>, c: char) -> Seq<char>
    decreases s.len(),
{
    if s.len() > 0 && s.last() == c {
        trim_end_char(s.drop_last(), c)
    } else {
        s
    }
}

/// `s` with its leading whitespace removed (`str::trim_start`).
pub open spec fn trim_start(s: Seq<char>) -> Seq<char>
    decreases s.len(),
{
    if s.len() > 0 && is_ws(s[0]) {
        trim_start(s.drop_first())
    } else {
        s
    }
}

/// `s` with its trailing whitespace removed (`str::trim_end`).
pub open spec fn trim_end(s: Seq<char>) -> Seq<char>
    decreases s.len(),
{
    if s.len() > 0 && is_ws(s.last()) {
        trim_end(s.drop_last())
    } else {
        s
    }
}

/// `str::trim`: leading and trailing whitespace removed.
pub open spec fn trim(s: Seq<char>) -> Seq<char> {
    trim_end(trim_start(s))
}

pub open spec fn starts_with(s: Seq<char>, p: Seq<char>) -> bool {
    p.len() <= s.len() && s.subrange(0, p.len() as int) == p
}

pub open spec fn ends_with(s: Seq<char>, p: Seq<char>) -> bool {
    p.len() <= s.len() && s.subrange(s.len() - p.len(), s.len() as int) == p
}

/// `str::strip_prefix`.
pub open spec fn strip_prefix(s: Seq<char>, p: Seq<char>) -> Option<Seq<char>> {
    if starts_with(s, p) {
        Some(s.subrange(p.len() as int, s.len() as int))
    } else {
        None
    }
}

/// `str::strip_suffix`.
pub open spec fn strip_suffix(s: Seq<char>, p: Seq<char>) -> Option<Seq<char>> {
    if ends_with(s, p) {
        Some(s.subrange(0, s.len() - p.len()))
    } else {
        None
    }
}

/// `str::contains` with a string pattern: `p` occurs in `s` at some position.
pub open spec fn contains(s: Seq<char>, p: Seq<char>) -> bool {
    exists|i: int| 0 <= i && i + p.len() <= s.len() && #[trigger] s.subrange(i, i + p.len()) == p
}

/// `split` on one element: the pieces between the separators, in order.
pub open spec fn split<T>(s: Seq<T>, sep: T) -> Seq<Seq<T>>
    decreases s.len(),
{
    if s.len() == 0 {
        seq![Seq::empty()]
    } else {
        let prev = split(s.drop_last(), sep);
        if s.last() == sep {
            prev.push(Seq::empty())
        } else {
            prev.update(prev.len() - 1, prev.last().push(s.last()))
        }
    }
}

/// `str::split_whitespace`: the maximal runs of non-whitespace characters.
pub open spec fn words(s: Seq<char>) -> Seq<Seq<char>>
    decreases s.len(),
{
    if s.len() == 0 {
        Seq::empty()
    } else {
        let prev = words(s.drop_last());
        let c = s.last();
        if is_ws(c) {
            prev
        } else if s.len() >= 2 && !is_ws(s[s.len() - 2]) {
            prev.update(prev.len() - 1, prev.last().push(c))
        } else {
            prev.push(seq![c])
        }
    }
}

pub proof fn lemma_split_len<T>(s: Seq<T>, sep: T)
    ensures
        split(s, sep).len() >= 1,
    decreases s.len(),
{
    if s.len() > 0 {
        lemma_split_len(s.drop_last(), sep);
    }
}

pub proof fn lemma_words_len(s: Seq<char>)
    ensures
        s.len() >= 1 && !is_ws(s.last()) ==> words(s).len() >= 1,
        words(s).len() <= s.len(),
    decreases s.len(),
{
    if s.len() > 0 {
        lemma_words_len(s.drop_last());
        let p = s.drop_last();
        if s.len() >= 2 && !is_ws(s[s.len() - 2]) {
            assert(p.last() == s[s.len() - 2]);
        }
    }
}

/// The contents of a vector of vectors.
pub open spec fn seqs<T>(v: Seq<Vec<T>>) -> Seq<Seq<T>> {
    Seq::new(v.len(), |i: int| v[i]@)
}

/// A copy of `s[start..end]`.
pub fn subvec(s: &Vec<char>, start: usize, end: usize) -> (r: Vec<char>)
    requires
        start <= end <= s.len(),
    ensures
        r@ == s@.subrange(start as int, end as int),
{
    let mut r: Vec<char> = Vec::new();
    let mut i = start;
    while i < end
        invariant
            start <= i <= end <= s.len(),
            r@ == s@.subrange(start as int, i as int),
        decreases end - i,
    {
        r.push(s[i]);
        i = i + 1;
    }
    r
}

/// Character-by-character equality.
pub fn chars_eq(a: &Vec<char>, b: &Vec<char>) -> (r: bool)
    ensures
        r == (a@ == b@),
{
    if a.len() != b.len() {
        return false;
    }
    let mut i: usize = 0;
    while i < a.len()
        invariant
            a.len() == b.len(),
            i <= a.len(),
            forall|k: int| 0 <= k < i ==> a@[k] == b@[k],
        decreases a.len() - i,
    {
        if a[i] != b[i] {
            return false;
        }
        i = i + 1;
    }
    assert(a@ =~= b@);
    true
}

/// Whether `s[at..]` starts with `p`.
pub fn matches_at(s: &Vec<char>, at: usize, p: &Vec<char>) -> (r: bool)
    requires
        at <= s.len(),
    ensures
        r == (at + p.len() <= s.len() && s@.subrange(at as int, at + p.len()) == p@),
{
    if p.len() > s.len() - at {
        return false;
    }
    let mut i: usize = 0;
    while i < p.len()
        invariant
            at + p.len() <= s.len(),
            i <= p.len(),
            forall|k: int| 0 <= k < i ==> s@[at + k] == p@[k],
        decreases p.len() - i,
    {
        if s[at + i] != p[i] {
            assert(s@.subrange(at as int, at + p.len())[i as int] != p@[i as int]);
            return false;
        }
        i = i + 1;
    }
    assert(s@.subrange(at as int, at + p.len()) =~= p@);
    true
}

pub fn has_prefix(s: &Vec<char>, p: &Vec<char>) -> (r: bool)
    ensures
        r == starts_with(s@, p@),
{
    matches_at(s, 0, p)
}

pub fn has_suffix(s: &Vec<char>, p: &Vec<char>) -> (r: bool)
    ensures
        r == ends_with(s@, p@),
{
    if p.len() > s.len() {
        return false;
    }
    matches_at(s, s.len() - p.len(), p)
}

pub fn strip_prefix_of(s: &Vec<char>, p: &Vec<char>) -> (r: Option<Vec<char>>)
    ensures
        r matches Some(v) ==> strip_prefix(s@, p@) == Some(v@),
        r is None ==> strip_prefix(s@, p@) is None,
{
    if has_prefix(s, p) {
        Some(subvec(s, p.len(), s.len()))
    } else {
        None
    }
}

pub fn strip_suffix_of(s: &Vec<char>, p: &Vec<char>) -> (r: Option<Vec<char>>)
    ensures
        r matches Some(v) ==> strip_suffix(s@, p@) == Some(v@),
        r is None ==> strip_suffix(s@, p@) is None,
{
    if has_suffix(s, p) {
        Some(subvec(s, 0, s.len() - p.len()))
    } else {
        None
    }
}

pub fn contains_text(s: &Vec<char>, p: &Vec<char>) -> (r: bool)
    ensures
        r == contains(s@, p@),
{
    if p.len() > s.len() {
        return false;
    }
    let last = s.len() - p.len();
    let mut i: usize = 0;
    loop
        invariant
            p.len() <= s.len(),
            last == s.len() - p.len(),
            i <= last,
            forall|k: int| 0 <= k < i ==> #[trigger] s@.subrange(k, k + p.len()) != p@,
        decreases last - i,
    {
        if matches_at(s, i, p) {
            return true;
        }
        if i == last {
            return false;
        }
        i = i + 1;
    }
}

proof fn lemma_trim_start_step(s: Seq<char>, i: int)
    requires
        0 <= i < s.len(),
        is_ws(s[i]),
    ensures
        trim_start(s.subrange(i, s.len() as int)) == trim_start(s.subrange(i + 1, s.len() as int)),
{
    assert(s.subrange(i, s.len() as int).drop_first() =~= s.subrange(i + 1, s.len() as int));
}

proof fn lemma_trim_end_step(s: Seq<char>, i: int, j: int)
    requires
        0 <= i < j <= s.len(),
        is_ws(s[j - 1]),
    ensures
        trim_end(s.subrange(i, j)) == trim_end(s.subrange(i, j - 1)),
{
    assert(s.subrange(i, j).drop_last() =~= s.subrange(i, j - 1));
}

/// Text with a character that is not whitespace keeps a non-empty trim.
pub proof fn lemma_trim_nonempty(s: Seq<char>, i: int)
    requires
        0 <= i < s.len(),
        !is_ws(s[i]),
    ensures
        trim(s).len() > 0,
{
    lemma_trim_start_keeps(s, i);
    let t = trim_start(s);
    let j = choose|j: int| 0 <= j < t.len() && t[j] == s[i];
    lemma_trim_end_keeps(t, j);
}

proof fn lemma_trim_start_keeps(s: Seq<char>, i: int)
    requires
        0 <= i < s.len(),
        !is_ws(s[i]),
    ensures
        exists|j: int| 0 <= j < trim_start(s).len() && trim_start(s)[j] == s[i],
        trim_start(s).len() > 0,
        !is_ws(trim_start(s)[0]),
    decreases s.len(),
{
    if is_ws(s[0]) {
        assert(s.drop_first()[i - 1] == s[i]);
        lemma_trim_start_keeps(s.drop_first(), i - 1);
        assert(trim_start(s) == trim_start(s.drop_first()));
    } else {
        assert(trim_start(s) == s);
        assert(trim_start(s)[i] == s[i]);
    }
}

proof fn lemma_trim_end_keeps(s: Seq<char>, i: int)
    requires
        0 <= i < s.len(),
        !is_ws(s[i]),
    ensures
        trim_end(s).len() > i,
        trim_end(s)[i] == s[i],
    decreases s.len(),
{
    if is_ws(s.last()) {
        assert(s.drop_last()[i] == s[i]);
        lemma_trim_end_keeps(s.drop_last(), i);
    }
}

/// Text that starts and ends with characters that are not whitespace is its own trim.
pub proof fn lemma_trim_keeps(s: Seq<char>, i: int)
    requires
        s.len() > 0,
        !is_ws(s[0]),
        !is_ws(s.last()),
    ensures
        trim(s) == s,
{
}

/// `str::trim`.
pub fn trim_chars(s: &Vec<char>) -> (r: Vec<char>)
    ensures
        r@ == trim(s@),
{
    let mut i: usize = 0;
    assert(s@.subrange(0, s.len() as int) =~= s@);
    while i < s.len() && char_is_ws(s[i])
        invariant
            i <= s.len(),
            trim_start(s@) == trim_start(s@.subrange(i as int, s.len() as int)),
        decreases s.len() - i,
    {
        proof {
            lemma_trim_start_step(s@, i as int);
        }
        i = i + 1;
    }
    let ghost mid = s@.subrange(i as int, s.len() as int);
    assert(trim_start(s@) == mid);
    let mut j: usize = s.len();
    while j > i && char_is_ws(s[j - 1])
        invariant
            i <= j <= s.len(),
            trim_start(s@) == mid,
            mid == s@.subrange(i as int, s.len() as int),
            trim_end(mid) == trim_end(s@.subrange(i as int, j as int)),
        decreases j - i,
    {
        proof {
            lemma_trim_end_step(s@, i as int, j as int);
        }
        j = j - 1;
    }
    let r = subvec(s, i, j);
    proof {
        let t = s@.subrange(i as int, j as int);
        if t.len() > 0 {
            assert(t.last() == s@[j - 1]);
        }
    }
    r
}

/// `str::trim_start_matches` with one character.
pub fn trim_start_char_of(s: &Vec<char>, c: char) -> (r: Vec<char>)
    ensures
        r@ == trim_start_char(s@, c),
{
    let mut i: usize = 0;
    assert(s@.subrange(0, s.len() as int) =~= s@);
    while i < s.len() && s[i] == c
        invariant
            i <= s.len(),
            trim_start_char(s@, c) == trim_start_char(s@.subrange(i as int, s.len() as int), c),
        decreases s.len() - i,
    {
        assert(s@.subrange(i as int, s.len() as int).drop_first() =~= s@.subrange(
            i + 1,
            s.len() as int,
        ));
        i = i + 1;
    }
    subvec(s, i, s.len())
}

/// `str::trim_matches` with one character: that character removed at both ends.
pub fn trim_char_of(s: &Vec<char>, c: char) -> (r: Vec<char>)
    ensures
        r@ == trim_end_char(trim_start_char(s@, c), c),
{
    let t = trim_start_char_of(s, c);
    let mut j: usize = t.len();
    assert(t@.subrange(0, t.len() as int) =~= t@);
    while j > 0 && t[j - 1] == c
        invariant
            j <= t.len(),
            trim_end_char(t@, c) == trim_end_char(t@.subrange(0, j as int), c),
        decreases j,
    {
        assert(t@.subrange(0, j as int).drop_last() =~= t@.subrange(0, j - 1));
        j = j - 1;
    }
    let r = subvec(&t, 0, j);
    proof {
        let u = t@.subrange(0, j as int);
        if u.len() > 0 {
            assert(u.last() == t@[j - 1]);
        }
    }
    r
}

/// `str::split` on one character.
pub fn split_chars(s: &Vec<char>, sep: char) -> (r: Vec<Vec<char>>)
    ensures
        seqs(r@) == split(s@, sep),
        r.len() >= 1,
{
    let mut done: Vec<Vec<char>> = Vec::new();
    let mut cur: Vec<char> = Vec::new();
    let mut i: usize = 0;
    while i < s.len()
        invariant
            i <= s.len(),
            seqs(done@).push(cur@) == split(s@.subrange(0, i as int), sep),
        decreases s.len() - i,
    {
        let ghost before = s@.subrange(0, i as int);
        let ghost after = s@.subrange(0, i + 1);
        assert(after.drop_last() =~= before);
        assert(after.last() == s@[i as int]);
        proof {
            lemma_split_len(before, sep);
        }
        if s[i] == sep {
            let finished = cur;
            done.push(finished);
            cur = Vec::new();
            assert(seqs(done@) =~= split(before, sep));
        } else {
            cur.push(s[i]);
            assert(seqs(done@).push(cur@) =~= split(before, sep).update(
                split(before, sep).len() - 1,
                split(before, sep).last().push(s@[i as int]),
            ));
        }
        i = i + 1;
    }
    assert(s@.subrange(0, s.len() as int) =~= s@);
    done.push(cur);
    assert(seqs(done@) =~= split(s@, sep));
    done
}

/// `str::split_whitespace`.
pub fn words_of(s: &Vec<char>) -> (r: Vec<Vec<char>>)
    ensures
        seqs(r@) == words(s@),
{
    let mut r: Vec<Vec<char>> = Vec::new();
    let mut i: usize = 0;
    while i < s.len()
        invariant
            i <= s.len(),
            seqs(r@) == words(s@.subrange(0, i as int)),
        decreases s.len() - i,
    {
        let ghost before = s@.subrange(0, i as int);
        let ghost after = s@.subrange(0, i + 1);
        assert(after.drop_last() =~= before);
        assert(after.last() == s@[i as int]);
        let c = s[i];
        if char_is_ws(c) {
        } else if i >= 1 && !char_is_ws(s[i - 1]) {
            proof {
                assert(before.last() == s@[i - 1]);
                lemma_words_len(before);
                assert(after[after.len() - 2] == s@[i - 1]);
            }
            let last = r.len() - 1;
            let mut w = r[last].clone();
            w.push(c);
            r.set(last, w);
            assert(seqs(r@) =~= words(before).update(
                words(before).len() - 1,
                words(before).last().push(c),
            ));
        } else {
            proof {
                if i >= 1 {
                    assert(after[after.len() - 2] == s@[i - 1]);
                }
            }
            let w = vec![c];
            assert(w@ =~= seq![c]);
            r.push(w);
            assert(seqs(r@) =~= words(before).push(seq![c]));
        }
        i = i + 1;
    }
    assert(s@.subrange(0, s.len() as int) =~= s@);
    r
}

/// `[u8]::split` on one byte value.
pub fn split_bytes(s: &Vec<u8>, sep: u8) -> (r: Vec<Vec<u8>>)
    ensures
        seqs(r@) == split(s@, sep),
        r.len() >= 1,
{
    let mut done: Vec<Vec<u8>> = Vec::new();
    let mut cur: Vec<u8> = Vec::new();
    let mut i: usize = 0;
    while i < s.len()
        invariant
            i <= s.len(),
            seqs(done@).push(cur@) == split(s@.subrange(0, i as int), sep),
        decreases s.len() - i,
    {
        let ghost before = s@.subrange(0, i as int);
        let ghost after = s@.subrange(0, i + 1);
        assert(after.drop_last() =~= before);
        assert(after.last() == s@[i as int]);
        proof {
            lemma_split_len(before, sep);
        }
        if s[i] == sep {
            let finished = cur;
            done.push(finished);
            cur = Vec::new();
            assert(seqs(done@) =~= split(before, sep));
        } else {
            cur.push(s[i]);
            assert(seqs(done@).push(cur@) =~= split(before, sep).update(
                split(before, sep).len() - 1,
                split(before, sep).last().push(s@[i as int]),
            ));
        }
        i = i + 1;
    }
    assert(s@.subrange(0, s.len() as int) =~= s@);
    done.push(cur);
    assert(seqs(done@) =~= split(s@, sep));
    done
}

/// A line piece without the carriage return that ended it, if any.
pub open spec fn strip_cr(s: Seq<char>) -> Seq<char> {
    if s.len() > 0 && s.last() == '\r' {
        s.drop_last()
    } else {
        s
    }
}

/// `str::lines`: the pieces between line feeds, a carriage return before a
/// line feed dropped, and no final empty line after a final line feed.
pub open spec fn lines(s: Seq<char>) -> Seq<Seq<char>> {
    let p = split(s, '\n');
    let kept = if p.last().len() == 0 {
        p.drop_last()
    } else {
        p
    };
    Seq::new(kept.len(), |i: int| if i < p.len() - 1 { strip_cr(kept[i]) } else { kept[i] })
}

/// `str::lines`.
pub fn lines_of(s: &Vec<char>) -> (r: Vec<Vec<char>>)
    ensures
        seqs(r@) == lines(s@),
{
    let pieces = split_chars(s, '\n');
    let n = pieces.len();
    let kept = if pieces[n - 1].len() == 0 {
        n - 1
    } else {
        n
    };
    let mut r: Vec<Vec<char>> = Vec::new();
    let mut i: usize = 0;
    while i < kept
        invariant
            kept <= n == pieces.len(),
            seqs(pieces@) == split(s@, '\n'),
            kept == if pieces@[n - 1]@.len() == 0 { n - 1 } else { n as int },
            i <= kept,
            r.len() == i,
            forall|k: int| 0 <= k < i ==> #[trigger] r@[k]@ == lines(s@)[k],
        decreases kept - i,
    {
        assert(seqs(pieces@)[i as int] == pieces@[i as int]@);
        let piece = &pieces[i];
        let line = if i + 1 < n && piece.len() > 0 && piece[piece.len() - 1] == '\r' {
            subvec(piece, 0, piece.len() - 1)
        } else {
            piece.clone()
        };
        proof {
            if i + 1 < n && piece@.len() > 0 && piece@.last() == '\r' {
                assert(line@ =~= piece@.drop_last());
            }
        }
        r.push(line);
        i = i + 1;
    }
    assert(seqs(r@) =~= lines(s@));
    r
}

/// Whether `c` is an ASCII decimal digit.
pub open spec fn is_digit(c: char) -> bool {
    '0' <= c && c <= '9'
}

pub open spec fn digit_value(c: char) -> nat {
    (c as u32 - '0' as u32) as nat
}

/// The number that a sequence of decimal digits spells.
pub open spec fn digits_value(s: Seq<char>) -> nat
    decreases s.len(),
{
    if s.len() == 0 {
        0
    } else {
        digits_value(s.drop_last()) * 10 + digit_value(s.last())
    }
}

pub open spec fn all_digits(s: Seq<char>) -> bool {
    forall|i: int| 0 <= i < s.len() ==> is_digit(#[trigger] s[i])
}

/// The digits that `str::parse` reads for an unsigned integer: one
/// optional leading `+`, then the rest.
pub open spec fn unsigned_body(s: Seq<char>) -> Seq<char> {
    if s.len() > 0 && s[0] == '+' {
        s.drop_first()
    } else {
        s
    }
}

/// `str::parse::<T>()` for an unsigned integer type whose largest value is `max`.
pub open spec fn parse_unsigned(s: Seq<char>, max: nat) -> Option<nat> {
    let body = unsigned_body(s);
    if body.len() > 0 && all_digits(body) && digits_value(body) <= max {
        Some(digits_value(body))
    } else {
        None
    }
}

proof fn lemma_digits_value_grows(s: Seq<char>, j: int, k: int)
    requires
        0 <= j <= k <= s.len(),
    ensures
        digits_value(s.subrange(0, j)) <= digits_value(s.subrange(0, k)),
    decreases k - j,
{
    if j < k {
        lemma_digits_value_grows(s, j, k - 1);
        assert(s.subrange(0, k).drop_last() =~= s.subrange(0, k - 1));
    }
}

/// `str::parse::<u64>()`, `Ok` turned into `Some`.
pub fn parse_u64(s: &Vec<char>) -> (r: Option<u64>)
    ensures
        r matches Some(v) ==> parse_unsigned(s@, u64::MAX as nat) == Some(v as nat),
        r is None ==> parse_unsigned(s@, u64::MAX as nat) is None,
{
    let start: usize = if s.len() > 0 && s[0] == '+' {
        1
    } else {
        0
    };
    let ghost body = unsigned_body(s@);
    assert(body =~= s@.subrange(start as int, s.len() as int));
    if start == s.len() {
        return None;
    }
    let mut value: u64 = 0;
    let mut i = start;
    while i < s.len()
        invariant
            start < s.len(),
            start <= i <= s.len(),
            body == unsigned_body(s@),
            body =~= s@.subrange(start as int, s.len() as int),
            all_digits(body.subrange(0, i - start)),
            value as nat == digits_value(body.subrange(0, i - start)),
        decreases s.len() - i,
    {
        let c = s[i];
        assert(body[i - start] == c);
        if c < '0' || c > '9' {
            assert(!is_digit(body[i - start]));
            assert(!all_digits(body));
            return None;
        }
        let d: u64 = (c as u32 - '0' as u32) as u64;
        let ghost next = body.subrange(0, i - start + 1);
        assert(next.drop_last() =~= body.subrange(0, i - start));
        assert(next.last() == c);
        if value > (u64::MAX - d) / 10 {
            proof {
                assert(value * 10 + d > u64::MAX) by (nonlinear_arith)
                    requires
                        value > (u64::MAX - d) / 10,
                        d < 10,
                ;
                assert(digits_value(next) == value * 10 + d);
                lemma_digits_value_grows(body, i - start + 1, body.len() as int);
                assert(body.subrange(0, body.len() as int) =~= body);
            }
            return None;
        }
        value = value * 10 + d;
        i = i + 1;
        assert(all_digits(body.subrange(0, i - start)));
    }
    assert(body.subrange(0, s.len() - start) =~= body);
    Some(value)
}

/// `str::parse::<u32>()`, `Ok` turned into `Some`.
pub fn parse_u32(s: &Vec<char>) -> (r: Option<u32>)
    ensures
        r matches Some(v) ==> parse_unsigned(s@, u32::MAX as nat) == Some(v as nat),
        r is None ==> parse_unsigned(s@, u32::MAX as nat) is None,
{
    match parse_u64(s) {
        Some(v) => {
            if v <= u32::MAX as u64 {
                Some(v as u32)
            } else {
                None
            }
        },
        None => None,
    }
}

/// The character of a decimal digit.
pub open spec fn digit_char(d: nat) -> char {
    if d == 0 {
        '0'
    } else if d == 1 {
        '1'
    } else if d == 2 {
        '2'
    } else if d == 3 {
        '3'
    } else if d == 4 {
        '4'
    } else if d == 5 {
        '5'
    } else if d == 6 {
        '6'
    } else if d == 7 {
        '7'
    } else if d == 8 {
        '8'
    } else {
        '9'
    }
}

/// The decimal notation of `n`, as `Display` writes an unsigned integer.
pub open spec fn decimal(n: nat) -> Seq<char>
    decreases n,
{
    if n < 10 {
        seq![digit_char(n)]
    } else {
        decimal(n / 10).push(digit_char(n % 10))
    }
}

fn digit_of(d: u128) -> (c: char)
    requires
        d < 10,
    ensures
        c == digit_char(d as nat),
{
    if d == 0 {
        '0'
    } else if d == 1 {
        '1'
    } else if d == 2 {
        '2'
    } else if d == 3 {
        '3'
    } else if d == 4 {
        '4'
    } else if d == 5 {
        '5'
    } else if d == 6 {
        '6'
    } else if d == 7 {
        '7'
    } else if d == 8 {
        '8'
    } else {
        '9'
    }
}

/// The decimal notation of `n`.
pub fn decimal_of(n: u128) -> (r: Vec<char>)
    ensures
        r@ == decimal(n as nat),
    decreases n,
{
    if n < 10 {
        let r = vec![digit_of(n)];
        assert(r@ =~= seq![digit_char(n as nat)]);
        r
    } else {
        let mut r = decimal_of(n / 10);
        r.push(digit_of(n % 10));
        r
    }
}

/// The lowercase hexadecimal digit for a value below 16.
pub open spec fn hex_digit(d: nat) -> char {
    if d < 10 {
        digit_char(d)
    } else if d == 10 {
        'a'
    } else if d == 11 {
        'b'
    } else if d == 12 {
        'c'
    } else if d == 13 {
        'd'
    } else if d == 14 {
        'e'
    } else {
        'f'
    }
}

/// Each byte as two lowercase hexadecimal digits, high half first
/// (`{:02x}` per byte, and `{:x}` of a digest).
pub open spec fn hex(bytes: Seq<u8>) -> Seq<char>
    decreases bytes.len(),
{
    if bytes.len() == 0 {
        Seq::empty()
    } else {
        hex(bytes.drop_last()).push(hex_digit((bytes.last() / 16) as nat)).push(
            hex_digit((bytes.last() % 16) as nat),
        )
    }
}

fn hex_digit_of(d: u8) -> (c: char)
    requires
        d < 16,
    ensures
        c == hex_digit(d as nat),
{
    if d < 10 {
        digit_of(d as u128)
    } else if d == 10 {
        'a'
    } else if d == 11 {
        'b'
    } else if d == 12 {
        'c'
    } else if d == 13 {
        'd'
    } else if d == 14 {
        'e'
    } else {
        'f'
    }
}

/// The hexadecimal text of the first `n` bytes (all of them when fewer).
pub fn hex_of(bytes: &Vec<u8>, n: usize) -> (r: Vec<char>)
    ensures
        r@ == hex(bytes@.subrange(0, if n < bytes.len() { n as int } else { bytes.len() as int })),
{
    let end = if n < bytes.len() {
        n
    } else {
        bytes.len()
    };
    let mut r: Vec<char> = Vec::new();
    let mut i: usize = 0;
    while i < end
        invariant
            i <= end <= bytes.len(),
            r@ == hex(bytes@.subrange(0, i as int)),
        decreases end - i,
    {
        assert(bytes@.subrange(0, i + 1).drop_last() =~= bytes@.subrange(0, i as int));
        assert(bytes@.subrange(0, i + 1).last() == bytes@[i as int]);
        let b = bytes[i];
        r.push(hex_digit_of(b / 16));
        r.push(hex_digit_of(b % 16));
        i = i + 1;
    }
    r
}

/// `true` or `false`, as `Display` writes a `bool`.
pub open spec fn bool_text(b: bool) -> Seq<char> {
    if b {
        seq!['t', 'r', 'u', 'e']
    } else {
        seq!['f', 'a', 'l', 's', 'e']
    }
}

pub fn bool_text_of(b: bool) -> (r: Vec<char>)
    ensures
        r@ == bool_text(b),
{
    let r = if b {
        vec!['t', 'r', 'u', 'e']
    } else {
        vec!['f', 'a', 'l', 's', 'e']
    };
    assert(r@ =~= bool_text(b));
    r
}

/// Appends the characters of `s` to `v`.
pub fn push_str(v: &mut Vec<char>, s: &str)
    ensures
        final(v)@ == old(v)@ + s@,
{
    let w = crate::external::chars_of(s);
    push_chars(v, &w);
}

/// Appends the characters of `w` to `v`.
pub fn push_chars(v: &mut Vec<char>, w: &Vec<char>)
    ensures
        final(v)@ == old(v)@ + w@,
{
    let ghost start = v@;
    let mut i: usize = 0;
    while i < w.len()
        invariant
            i <= w.len(),
            v@ == start + w@.subrange(0, i as int),
        decreases w.len() - i,
    {
        v.push(w[i]);
        i = i + 1;
        assert(v@ =~= start + w@.subrange(0, i as int));
    }
    assert(w@.subrange(0, w.len() as int) =~= w@);
}

/// The characters of a `String`.
pub fn chars_of_string(s: &String) -> (r: Vec<char>)
    ensures
        r@ == s@,
{
    crate::external::chars_of(s.as_str())
}

/// `s` and `t` hold the same text.
pub fn same_text(s: &str, t: &str) -> (r: bool)
    ensures
        r == (s@ == t@),
{
    let a = crate::external::chars_of(s);
    let b = crate::external::chars_of(t);
    chars_eq(&a, &b)
}

/// The position of the first element of `s` that satisfies `p`.
pub open spec fn is_first_match<T>(s: Seq<T>, p: spec_fn(T) -> bool, i: int) -> bool {
    0 <= i < s.len() && p(s[i]) && forall|j: int| 0 <= j < i ==> !p(#[trigger] s[j])
}

/// The position of the first element of `s` that satisfies `p`, if any.
pub open spec fn first_match<T>(s: Seq<T>, p: spec_fn(T) -> bool) -> Option<int> {
    if exists|i: int| is_first_match(s, p, i) {
        Some(choose|i: int| is_first_match(s, p, i))
    } else {
        None
    }
}

pub proof fn lemma_first_match_at<T>(s: Seq<T>, p: spec_fn(T) -> bool, i: int)
    requires
        is_first_match(s, p, i),
    ensures
        first_match(s, p) == Some(i),
{
    let j = choose|j: int| is_first_match(s, p, j);
    assert(is_first_match(s, p, j));
    if j < i {
        assert(!p(s[j]));
    } else if i < j {
        assert(!p(s[i]));
    }
}

pub proof fn lemma_first_match_none<T>(s: Seq<T>, p: spec_fn(T) -> bool)
    requires
        forall|i: int| 0 <= i < s.len() ==> !p(#[trigger] s[i]),
    ensures
        first_match(s, p) is None,
{
    if exists|i: int| is_first_match(s, p, i) {
        let i = choose|i: int| is_first_match(s, p, i);
        assert(p(s[i]));
    }
}

/// `s` with the first element that satisfies `p` replaced by `v`, or with `v`
/// added at the end when none does.
pub open spec fn upsert<T>(s: Seq<T>, p: spec_fn(T) -> bool, v: T) -> Seq<T> {
    match first_match(s, p) {
        Some(i) => s.update(i, v),
        None => s.push(v),
    }
}

pub proof fn lemma_first_match_same<T, U>(s: Seq<T>, p: spec_fn(T) -> bool, t: Seq<U>, q: spec_fn(U) -> bool)
    requires
        s.len() == t.len(),
        forall|i: int| 0 <= i < s.len() ==> p(s[i]) == q(t[i]),
    ensures
        first_match(s, p) == first_match(t, q),
{
    if exists|i: int| is_first_match(s, p, i) {
        let i = choose|i: int| is_first_match(s, p, i);
        lemma_first_match_at(s, p, i);
        assert forall|j: int| 0 <= j < i implies !q(#[trigger] t[j]) by {
            assert(!p(s[j]));
        }
        lemma_first_match_at(t, q, i);
    } else {
        assert forall|i: int| 0 <= i < t.len() implies !q(#[trigger] t[i]) by {
            if q(t[i]) {
                assert(p(s[i]));
                lemma_first_of_any(s, p, i);
            }
        }
        lemma_first_match_none(t, q);
        lemma_first_match_none(s, p);
    }
}

/// When some element satisfies `p`, a first one does.
pub proof fn lemma_first_of_any<T>(s: Seq<T>, p: spec_fn(T) -> bool, i: int)
    requires
        0 <= i < s.len(),
        p(s[i]),
    ensures
        exists|k: int| is_first_match(s, p, k),
    decreases i,
{
    if forall|j: int| 0 <= j < i ==> !p(#[trigger] s[j]) {
        assert(is_first_match(s, p, i));
    } else {
        let j = choose|j: int| 0 <= j < i && !!p(#[trigger] s[j]);
        lemma_first_of_any(s, p, j);
    }
}

/// Replacing or adding an element that `q` picks leaves untouched what `p`
/// finds, when no element satisfies both.
pub proof fn lemma_upsert_other<T>(s: Seq<T>, p: spec_fn(T) -> bool, q: spec_fn(T) -> bool, v: T)
    requires
        forall|x: T| #[trigger] q(x) ==> !p(x),
        q(v),
    ensures
        first_match(upsert(s, q, v), p) == first_match(s, p),
        first_match(s, p) matches Some(i) ==> upsert(s, q, v)[i] == s[i],
{
    let t = upsert(s, q, v);
    match first_match(s, q) {
        Some(i) => {
            lemma_first_match_some(s, q);
            assert(q(s[i]));
            lemma_first_match_same(s, p, t, p);
        },
        None => {
            if exists|i: int| is_first_match(s, p, i) {
                let i = choose|i: int| is_first_match(s, p, i);
                lemma_first_match_at(s, p, i);
                assert forall|j: int| 0 <= j < i implies !p(#[trigger] t[j]) by {
                    assert(t[j] == s[j]);
                }
                lemma_first_match_at(t, p, i);
            } else {
                assert forall|i: int| 0 <= i < t.len() implies !p(#[trigger] t[i]) by {
                    if i < s.len() {
                        if p(s[i]) {
                            lemma_first_of_any(s, p, i);
                        }
                    }
                }
                assert forall|i: int| 0 <= i < s.len() implies !p(#[trigger] s[i]) by {
                    if p(s[i]) {
                        lemma_first_of_any(s, p, i);
                    }
                }
                lemma_first_match_none(t, p);
                lemma_first_match_none(s, p);
            }
        },
    }
}

pub proof fn lemma_first_match_some<T>(s: Seq<T>, p: spec_fn(T) -> bool)
    ensures
        first_match(s, p) matches Some(i) ==> is_first_match(s, p, i),
{
}

/// After a replacement or addition of `v`, the first element that `p`
/// picks is `v`, when `p` picks `v`.
pub proof fn lemma_upsert_same<T>(s: Seq<T>, p: spec_fn(T) -> bool, v: T)
    requires
        p(v),
    ensures
        first_match(upsert(s, p, v), p) matches Some(i) && upsert(s, p, v)[i] == v,
{
    let t = upsert(s, p, v);
    match first_match(s, p) {
        Some(i) => {
            lemma_first_match_some(s, p);
            assert forall|j: int| 0 <= j < i implies !p(#[trigger] t[j]) by {
                assert(t[j] == s[j]);
            }
            lemma_first_match_at(t, p, i);
        },
        None => {
            assert forall|j: int| 0 <= j < s.len() implies !p(#[trigger] t[j]) by {
                assert(t[j] == s[j]);
                if p(s[j]) {
                    lemma_first_of_any(s, p, j);
                }
            }
            lemma_first_match_at(t, p, s.len() as int);
        },
    }
}

/// The words of `ws` with `sep` between each two (`[&str]::join`).
pub open spec fn join(ws: Seq<Seq<char>>, sep: Seq<char>) -> Seq<char>
    decreases ws.len(),
{
    if ws.len() == 0 {
        Seq::empty()
    } else if ws.len() == 1 {
        ws[0]
    } else {
        join(ws.drop_last(), sep) + sep + ws.last()
    }
}

/// The first `n` characters of `s` (`chars().take(n)`).
pub open spec fn take_chars(s: Seq<char>, n: nat) -> Seq<char> {
    if s.len() <= n {
        s
    } else {
        s.subrange(0, n as int)
    }
}

pub fn join_chars(ws: &Vec<Vec<char>>, sep: &Vec<char>) -> (r: Vec<char>)
    ensures
        r@ == join(seqs(ws@), sep@),
{
    let mut r: Vec<char> = Vec::new();
    let mut i: usize = 0;
    while i < ws.len()
        invariant
            i <= ws.len(),
            r@ == join(seqs(ws@).subrange(0, i as int), sep@),
        decreases ws.len() - i,
    {
        let ghost before = seqs(ws@).subrange(0, i as int);
        let ghost after = seqs(ws@).subrange(0, i + 1);
        assert(after.drop_last() =~= before);
        if i > 0 {
            push_chars(&mut r, sep);
        }
        push_chars(&mut r, &ws[i]);
        i = i + 1;
        proof {
            if i == 1 {
                assert(r@ =~= after[0]);
            }
        }
    }
    assert(seqs(ws@).subrange(0, ws.len() as int) =~= seqs(ws@));
    r
}

pub fn take_chars_of(s: &Vec<char>, n: usize) -> (r: Vec<char>)
    ensures
        r@ == take_chars(s@, n as nat),
{
    if s.len() <= n {
        s.clone()
    } else {
        subvec(s, 0, n)
    }
}

proof fn lemma_digit_char(d: nat)
    requires
        d < 10,
    ensures
        is_digit(digit_char(d)),
        digit_value(digit_char(d)) == d,
{
}

/// A decimal numeral is a non-empty run of digits that spells its number.
pub proof fn lemma_decimal_digits(n: nat)
    ensures
        decimal(n).len() >= 1,
        all_digits(decimal(n)),
        digits_value(decimal(n)) == n,
    decreases n,
{
    let d = decimal(n);
    if n < 10 {
        lemma_digit_char(n);
        assert(d.drop_last() =~= Seq::<char>::empty());
        assert(digits_value(d) == digits_value(d.drop_last()) * 10 + digit_value(d.last()));
    } else {
        lemma_digit_char(n % 10);
        lemma_decimal_digits(n / 10);
        assert(d.drop_last() =~= decimal(n / 10));
        assert(n == (n / 10) * 10 + n % 10) by (nonlinear_arith);
        assert(digits_value(d) == digits_value(decimal(n / 10)) * 10 + digit_value(d.last()));
        assert forall|i: int| 0 <= i < d.len() implies is_digit(#[trigger] d[i]) by {
            if i < d.len() - 1 {
                assert(d[i] == decimal(n / 10)[i]);
            }
        }
    }
}

/// The words of a non-empty run without whitespace, after text that is
/// empty or ends in whitespace, are those of the text and then the run.
pub proof fn lemma_words_append(p: Seq<char>, x: Seq<char>)
    requires
        p.len() == 0 || is_ws(p.last()),
        x.len() >= 1,
        forall|i: int| 0 <= i < x.len() ==> !is_ws(#[trigger] x[i]),
    ensures
        words(p + x) == words(p).push(x),
    decreases x.len(),
{
    let s = p + x;
    if x.len() == 1 {
        assert(s.drop_last() =~= p);
        assert(seq![x[0]] =~= x);
        if s.len() >= 2 {
            assert(s[s.len() - 2] == p.last());
        }
    } else {
        let y = x.drop_last();
        assert forall|i: int| 0 <= i < y.len() implies !is_ws(#[trigger] y[i]) by {
            assert(y[i] == x[i]);
        }
        lemma_words_append(p, y);
        assert(s.drop_last() =~= p + y);
        assert(s[s.len() - 2] == y.last());
        assert(y.push(x.last()) =~= x);
        assert(words(p).push(y).update(words(p).len() as int, y.push(s.last())) =~= words(p).push(x));
    }
}

/// Whitespace at the end adds no word.
pub proof fn lemma_words_trailing_ws(p: Seq<char>, c: char)
    requires
        is_ws(c),
    ensures
        words(p.push(c)) == words(p),
{
    assert(p.push(c).drop_last() =~= p);
}

/// The words of two numerals separated by a tab, with or without a final
/// line break, are the two numerals.
pub proof fn lemma_words_of_pair(l: nat, r: nat)
    ensures
        words(decimal(l) + seq!['\t'] + decimal(r)) == seq![decimal(l), decimal(r)],
        words(decimal(l) + seq!['\t'] + decimal(r) + seq!['\n']) == seq![decimal(l), decimal(r)],
{
    let a = decimal(l);
    let b = decimal(r);
    lemma_decimal_digits(l);
    lemma_decimal_digits(r);
    assert forall|i: int| 0 <= i < a.len() implies !is_ws(#[trigger] a[i]) by {
        assert(is_digit(a[i]));
    }
    assert forall|i: int| 0 <= i < b.len() implies !is_ws(#[trigger] b[i]) by {
        assert(is_digit(b[i]));
    }
    lemma_words_append(Seq::empty(), a);
    assert(Seq::<char>::empty() + a =~= a);
    assert(words(Seq::<char>::empty()) =~= Seq::<Seq<char>>::empty());
    lemma_words_trailing_ws(a, '\t');
    assert(a + seq!['\t'] =~= a.push('\t'));
    lemma_words_append(a.push('\t'), b);
    assert(a + seq!['\t'] + b =~= a.push('\t') + b);
    assert(seq![a].push(b) =~= seq![a, b]);
    lemma_words_trailing_ws(a + seq!['\t'] + b, '\n');
    assert(a + seq!['\t'] + b + seq!['\n'] =~= (a + seq!['\t'] + b).push('\n'));
}

/// Text without the separator is a single piece.
pub proof fn lemma_split_no_sep<T>(a: Seq<T>, sep: T)
    requires
        forall|i: int| 0 <= i < a.len() ==> a[i] != sep,
    ensures
        split(a, sep) == seq![a],
    decreases a.len(),
{
    if a.len() > 0 {
        let p = a.drop_last();
        assert forall|i: int| 0 <= i < p.len() implies p[i] != sep by {
            assert(p[i] == a[i]);
        }
        lemma_split_no_sep(p, sep);
        assert(a.last() != sep);
        assert(p.push(a.last()) =~= a);
        assert(seq![p].update(0, p.push(a.last())) =~= seq![a]);
    } else {
        assert(a =~= Seq::<T>::empty());
    }
}

/// A separator followed by text without one adds that text as the last piece.
pub proof fn lemma_split_after_sep<T>(a: Seq<T>, sep: T, b: Seq<T>)
    requires
        forall|i: int| 0 <= i < b.len() ==> b[i] != sep,
    ensures
        split(a.push(sep) + b, sep) == split(a, sep).push(b),
    decreases b.len(),
{
    if b.len() == 0 {
        assert(a.push(sep) + b =~= a.push(sep));
        assert((a.push(sep)).drop_last() =~= a);
        assert(b =~= Seq::<T>::empty());
    } else {
        let c = b.drop_last();
        assert forall|i: int| 0 <= i < c.len() implies c[i] != sep by {
            assert(c[i] == b[i]);
        }
        lemma_split_after_sep(a, sep, c);
        let s = a.push(sep) + b;
        assert(s.drop_last() =~= a.push(sep) + c);
        assert(s.last() == b.last());
        assert(b.last() != sep);
        let prev = split(a, sep).push(c);
        assert(prev.update(prev.len() - 1, prev.last().push(b.last())) =~= split(a, sep).push(c.push(b.last())));
        assert(c.push(b.last()) =~= b);
    }
}


/// The first piece of text that starts with a run without the separator and
/// then the separator is that run.
pub proof fn lemma_split_first<T>(a: Seq<T>, sep: T, b: Seq<T>)
    requires
        forall|i: int| 0 <= i < a.len() ==> a[i] != sep,
    ensures
        split(a.push(sep) + b, sep).len() >= 2,
        split(a.push(sep) + b, sep)[0] == a,
    decreases b.len(),
{
    if b.len() == 0 {
        lemma_split_no_sep(a, sep);
        assert(a.push(sep) + b =~= a.push(sep));
        assert((a.push(sep)).drop_last() =~= a);
    } else {
        lemma_split_first(a, sep, b.drop_last());
        let s = a.push(sep) + b;
        assert(s.drop_last() =~= a.push(sep) + b.drop_last());
    }
}

} // verus!
