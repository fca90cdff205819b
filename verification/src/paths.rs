//! The parts of a Unix path string, as `std::path::Path` reads them.
use crate::text::{seqs, split, split_chars, chars_eq};
use vstd::prelude::*;

verus! {

/// The pieces of a path between separators that name something: empty
/// pieces (repeated or trailing separators) and `.` are not kept.
pub open spec fn named_parts(pieces: Seq<Seq<char>>) -> Seq<Seq<char>>
    decreases pieces.len(),
{
    if pieces.len() == 0 {
        Seq::empty()
    } else {
        let before = named_parts(pieces.drop_last());
        let last = pieces.last();
        if last.len() == 0 || last == seq!['.'] {
            before
        } else {
            before.push(last)
        }
    }
}

/// The named components of a path (`Path::components` without the root and
/// a leading `.`, which never start a named component).
pub open spec fn components(path: Seq<char>) -> Seq<Seq<char>> {
    named_parts(split(path, '/'))
}

/// `Path::file_name`: the last component, unless it is `..`.
pub open spec fn file_name(path: Seq<char>) -> Option<Seq<char>> {
    let parts = components(path);
    if parts.len() == 0 || parts.last() == seq!['.', '.'] {
        None
    } else {
        Some(parts.last())
    }
}

/// `Path::extension` of a file name: what follows its last `.`, unless the
/// name has no `.` or its only `.` is the first character.
pub open spec fn name_extension(name: Seq<char>) -> Option<Seq<char>> {
    let pieces = split(name, '.');
    if pieces.len() < 2 || (pieces.len() == 2 && pieces[0].len() == 0) {
        None
    } else {
        Some(pieces.last())
    }
}

pub open spec fn extension(path: Seq<char>) -> Option<Seq<char>> {
    match file_name(path) {
        Some(name) => name_extension(name),
        None => None,
    }
}

/// The named components of a path.
pub fn components_of(path: &Vec<char>) -> (r: Vec<Vec<char>>)
    ensures
        seqs(r@) == components(path@),
{
    let pieces = split_chars(path, '/');
    let mut r: Vec<Vec<char>> = Vec::new();
    let mut i: usize = 0;
    while i < pieces.len()
        invariant
            i <= pieces.len(),
            seqs(pieces@) == split(path@, '/'),
            seqs(r@) == named_parts(seqs(pieces@).subrange(0, i as int)),
        decreases pieces.len() - i,
    {
        let ghost all = seqs(pieces@);
        assert(all.subrange(0, i + 1).drop_last() =~= all.subrange(0, i as int));
        assert(all[i as int] == pieces@[i as int]@);
        let piece = &pieces[i];
        let dot = vec!['.'];
        assert(dot@ =~= seq!['.']);
        if piece.len() == 0 || chars_eq(piece, &dot) {
        } else {
            let ghost before = seqs(r@);
            r.push(piece.clone());
            assert(seqs(r@) =~= before.push(piece@));
        }
        i = i + 1;
    }
    assert(seqs(pieces@).subrange(0, pieces.len() as int) =~= seqs(pieces@));
    r
}

/// `Path::file_name`.
pub fn file_name_of(path: &Vec<char>) -> (r: Option<Vec<char>>)
    ensures
        match file_name(path@) {
            Some(n) => r matches Some(v) && v@ == n,
            None => r is None,
        },
{
    let parts = components_of(path);
    if parts.len() == 0 {
        return None;
    }
    let last = &parts[parts.len() - 1];
    assert(seqs(parts@).last() == last@);
    let dots = vec!['.', '.'];
    assert(dots@ =~= seq!['.', '.']);
    if chars_eq(last, &dots) {
        None
    } else {
        Some(last.clone())
    }
}

/// `Path::extension`.
pub fn extension_of(path: &Vec<char>) -> (r: Option<Vec<char>>)
    ensures
        match extension(path@) {
            Some(n) => r matches Some(v) && v@ == n,
            None => r is None,
        },
{
    match file_name_of(path) {
        Some(name) => {
            let pieces = split_chars(&name, '.');
            assert(seqs(pieces@)[0] == pieces@[0]@);
            if pieces.len() < 2 || (pieces.len() == 2 && pieces[0].len() == 0) {
                None
            } else {
                assert(seqs(pieces@).last() == pieces@[pieces.len() - 1]@);
                Some(pieces[pieces.len() - 1].clone())
            }
        },
        None => None,
    }
}

} // verus!
