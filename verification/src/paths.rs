//! Names inside a package: `/`-separated paths, their final component, its
//! stem and extension, as `std::path::Path` reads them on Unix.

use vstd::prelude::*;
use crate::text::{chars_of, owned, spec_split, split_char, str_eq, string_of, string_of_range};

verus! {

/// The position of the last `c` in `s`.
pub open spec fn last_index_v(s: Seq<char>, c: char) -> Option<int>
    decreases s.len(),
{
    if s.len() == 0 {
        None
    } else if s.last() == c {
        Some(s.len() - 1)
    } else {
        last_index_v(s.drop_last(), c)
    }
}

proof fn lemma_last_index_bound(s: Seq<char>, c: char)
    ensures
        last_index_v(s, c) matches Some(i) ==> 0 <= i < s.len() && s[i] == c,
    decreases s.len(),
{
    if s.len() > 0 && s.last() != c {
        lemma_last_index_bound(s.drop_last(), c);
    }
}

/// The position of the last `c` in `v`.
pub fn last_index(v: &[char], c: char) -> (r: Option<usize>)
    ensures
        match last_index_v(v@, c) {
            Some(i) => r == Some(i as usize),
            None => r is None,
        },
        r matches Some(i) ==> i < v@.len(),
{
    let mut k: usize = v.len();
    assert(v@.take(k as int) =~= v@);
    while k > 0
        invariant
            k <= v@.len(),
            last_index_v(v@, c) == last_index_v(v@.take(k as int), c),
        decreases k,
    {
        if v[k - 1] == c {
            return Some(k - 1);
        }
        assert(v@.take(k as int).drop_last() =~= v@.take(k - 1));
        k = k - 1;
    }
    None
}

/// What follows the last `c` in `s`, or all of `s` (`str::rsplit(c).next()`).
pub open spec fn after_last_v(s: Seq<char>, c: char) -> Seq<char> {
    match last_index_v(s, c) {
        Some(i) => s.skip(i + 1),
        None => s,
    }
}

/// What follows the last `c` in `s`, or all of `s`.
pub fn after_last(s: &str, c: char) -> (r: String)
    ensures
        r@ == after_last_v(s@, c),
{
    let v = chars_of(s);
    proof {
        lemma_last_index_bound(s@, c);
    }
    match last_index(v.as_slice(), c) {
        Some(i) => {
            let r = string_of_range(v.as_slice(), i + 1, v.len());
            assert(r@ =~= s@.skip(i + 1));
            r
        },
        None => owned(s),
    }
}

/// The last component of a split path that is neither empty nor `.`.
pub open spec fn last_normal_v(parts: Seq<Seq<char>>) -> Option<Seq<char>>
    decreases parts.len(),
{
    if parts.len() == 0 {
        None
    } else if parts.last().len() > 0 && parts.last() != "."@ {
        Some(parts.last())
    } else {
        last_normal_v(parts.drop_last())
    }
}

/// The final component of a `/`-separated path, unless it is `..` or there
/// is none (`Path::file_name`).
pub open spec fn file_name_v(p: Seq<char>) -> Option<Seq<char>> {
    match last_normal_v(spec_split(p, '/')) {
        Some(n) => if n == ".."@ { None } else { Some(n) },
        None => None,
    }
}

/// A file name without its extension: what precedes its last `.`, unless
/// that `.` opens the name or there is none (`Path::file_stem`).
pub open spec fn stem_of_v(name: Seq<char>) -> Seq<char> {
    match last_index_v(name, '.') {
        Some(i) => if i == 0 { name } else { name.take(i) },
        None => name,
    }
}

/// The stem of a path's final component (`Path::file_stem`).
pub open spec fn file_stem_v(p: Seq<char>) -> Option<Seq<char>> {
    match file_name_v(p) {
        Some(n) => Some(stem_of_v(n)),
        None => None,
    }
}

/// The extension of a path's final component: what follows its last `.`,
/// unless that `.` opens the name or there is none (`Path::extension`).
pub open spec fn extension_v(p: Seq<char>) -> Option<Seq<char>> {
    match file_name_v(p) {
        Some(n) => match last_index_v(n, '.') {
            Some(i) => if i == 0 { None } else { Some(n.skip(i + 1)) },
            None => None,
        },
        None => None,
    }
}

fn file_name(p: &str) -> (r: Option<String>)
    ensures
        r.deep_view() == file_name_v(p@),
{
    let parts = split_char(p, '/');
    let ghost pv = parts.deep_view();
    let mut k: usize = parts.len();
    assert(pv.take(k as int) =~= pv);
    proof {
        reveal_strlit(".");
        reveal_strlit("..");
    }
    while k > 0
        invariant
            k <= pv.len(),
            pv == parts.deep_view(),
            pv == spec_split(p@, '/'),
            last_normal_v(pv) == last_normal_v(pv.take(k as int)),
        decreases k,
    {
        let part = &parts[k - 1];
        assert(pv.take(k as int).last() == part@);
        if chars_of(part.as_str()).len() > 0 && !str_eq(part.as_str(), ".") {
            if str_eq(part.as_str(), "..") {
                return None;
            }
            return Some(part.clone());
        }
        assert(pv.take(k as int).drop_last() =~= pv.take(k - 1));
        k = k - 1;
    }
    None
}

/// The stem of a path's final component.
pub fn file_stem(p: &str) -> (r: Option<String>)
    ensures
        r.deep_view() == file_stem_v(p@),
{
    match file_name(p) {
        Some(n) => {
            let v = chars_of(n.as_str());
            proof {
                lemma_last_index_bound(n@, '.');
            }
            match last_index(v.as_slice(), '.') {
                Some(i) => if i == 0 {
                    Some(n)
                } else {
                    let r = string_of_range(v.as_slice(), 0, i);
                    assert(r@ =~= n@.take(i as int));
                    Some(r)
                },
                None => Some(n),
            }
        },
        None => None,
    }
}

/// The extension of a path's final component.
pub fn extension(p: &str) -> (r: Option<String>)
    ensures
        r.deep_view() == extension_v(p@),
{
    match file_name(p) {
        Some(n) => {
            let v = chars_of(n.as_str());
            proof {
                lemma_last_index_bound(n@, '.');
            }
            match last_index(v.as_slice(), '.') {
                Some(i) => if i == 0 {
                    assert(extension_v(p@) == None::<Seq<char>>);
                    None
                } else {
                    let len = v.len();
                    assert(i < len);
                    let r = string_of_range(v.as_slice(), i + 1, len);
                    assert(r@ =~= n@.skip(i + 1));
                    Some(r)
                },
                None => None,
            }
        },
        None => None,
    }
}

/// A character with ASCII upper-case letters made lower-case.
pub open spec fn ascii_lower_char_v(c: char) -> char {
    if 'A' <= c <= 'Z' { ((c as u32) + 32) as char } else { c }
}

/// A text with ASCII upper-case letters made lower-case
/// (`str::to_ascii_lowercase`).
pub open spec fn ascii_lower_v(s: Seq<char>) -> Seq<char> {
    Seq::new(s.len(), |i: int| ascii_lower_char_v(s[i]))
}

fn ascii_lower_char(c: char) -> (r: char)
    ensures
        r == ascii_lower_char_v(c),
{
    if 'A' <= c && c <= 'Z' {
        let b = c as u8;
        (b + 32) as char
    } else {
        c
    }
}

/// A text with ASCII upper-case letters made lower-case.
pub fn ascii_lower(s: &str) -> (r: String)
    ensures
        r@ == ascii_lower_v(s@),
{
    let v = chars_of(s);
    let mut out: Vec<char> = Vec::new();
    let mut i: usize = 0;
    while i < v.len()
        invariant
            i <= v@.len(),
            v@ == s@,
            out@ == ascii_lower_v(s@).take(i as int),
        decreases v@.len() - i,
    {
        out.push(ascii_lower_char(v[i]));
        assert(out@ =~= ascii_lower_v(s@).take(i + 1));
        i = i + 1;
    }
    assert(ascii_lower_v(s@).take(i as int) =~= ascii_lower_v(s@));
    string_of(out.as_slice())
}

} // verus!
