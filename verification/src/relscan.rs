//! Scanning the raw bytes of a preserved `word/_rels/document.xml.rels`
//! for relationship ids and targets, and the entries of a preserved
//! package for media and header/footer numbering.

use vstd::prelude::*;
use vstd::utf8::{decode_utf8, valid_utf8};
use crate::docread::prefix_text_v;
use crate::docread::prefix_text;
use crate::package::{utf8_text, zip_count_v, zip_entry_at, zip_entry_count, zip_entry_v};
use crate::error::{OfficeError, OfficeErrorV};
use crate::styled_writer::{trim_start_matches, trim_start_v};
use crate::text::{chars_of, dec, find_v, owned, parse_uint, parse_uint_v, push_char, starts_with, str_eq, strip_prefix, strip_prefix_v, strip_suffix, strip_suffix_v};

verus! {

/// The bytes of `Id="`.
pub open spec fn id_pat() -> Seq<u8> {
    seq![73u8, 100u8, 61u8, 34u8]
}

/// The bytes of `rId`.
pub open spec fn rid_pat() -> Seq<u8> {
    seq![114u8, 73u8, 100u8]
}

/// The bytes of `Target="`.
pub open spec fn target_pat() -> Seq<u8> {
    seq![84u8, 97u8, 114u8, 103u8, 101u8, 116u8, 61u8, 34u8]
}

/// Whether `p` occurs in `b` at `i`.
pub open spec fn at_v(b: Seq<u8>, i: int, p: Seq<u8>) -> bool {
    0 <= i && i + p.len() <= b.len() && b.subrange(i, i + p.len()) == p
}

fn at(b: &[u8], i: usize, p: &Vec<u8>) -> (r: bool)
    requires
        i + p@.len() <= b@.len(),
    ensures
        r == at_v(b@, i as int, p@),
{
    let n = b.len();
    let mut k: usize = 0;
    while k < p.len()
        invariant
            k <= p@.len(),
            n == b@.len(),
            i + p@.len() <= b@.len(),
            forall|q: int| 0 <= q < k ==> b@[i + q] == p@[q],
        decreases p@.len() - k,
    {
        if b[i + k] != p[k] {
            assert(b@.subrange(i as int, i + p@.len())[k as int] != p@[k as int]);
            return false;
        }
        k = k + 1;
    }
    assert(b@.subrange(i as int, i + p@.len()) =~= p@);
    true
}

/// The first `Id="` at or after `idx`, or the length of `b`.
pub open spec fn next_rel_id_v(b: Seq<u8>, idx: int) -> int
    decreases b.len() - idx,
{
    if idx + 4 <= b.len() {
        if at_v(b, idx, id_pat()) { idx } else { next_rel_id_v(b, idx + 1) }
    } else {
        b.len() as int
    }
}

pub proof fn lemma_next_rel_id_bound(b: Seq<u8>, idx: int)
    requires
        0 <= idx,
    ensures
        idx <= next_rel_id_v(b, idx) || next_rel_id_v(b, idx) == b.len(),
        next_rel_id_v(b, idx) <= b.len() || idx > b.len(),
        idx <= b.len() ==> idx <= next_rel_id_v(b, idx) <= b.len(),
    decreases b.len() - idx,
{
    if idx + 4 <= b.len() && !at_v(b, idx, id_pat()) {
        lemma_next_rel_id_bound(b, idx + 1);
    }
}

/// The byte offset of the next `Id="` from `from`, or the length of `s`.
pub fn find_next_relationship_id(s: &[u8], from: usize) -> (r: usize)
    ensures
        r == next_rel_id_v(s@, from as int),
        from <= s@.len() ==> from <= r <= s@.len(),
        r <= s@.len() || r == from,
{
    proof {
        lemma_next_rel_id_bound(s@, from as int);
    }
    let pat = vec![73u8, 100u8, 61u8, 34u8];
    assert(pat@ =~= id_pat());
    let mut idx = from;
    while idx < s.len() && s.len() - idx >= 4
        invariant
            from <= idx,
            next_rel_id_v(s@, from as int) == next_rel_id_v(s@, idx as int),
            pat@ == id_pat(),
        decreases s@.len() - idx,
    {
        if at(s, idx, &pat) {
            return idx;
        }
        idx = idx + 1;
    }
    s.len()
}

/// Whether a byte is an ASCII digit.
pub open spec fn is_digit_byte(c: u8) -> bool {
    48 <= c <= 57
}

/// The end of the run of ASCII digits that starts at `j`.
pub open spec fn digits_end_v(b: Seq<u8>, j: int) -> int
    decreases b.len() - j,
{
    if 0 <= j < b.len() && is_digit_byte(b[j]) { digits_end_v(b, j + 1) } else { j }
}

pub proof fn lemma_digits_end(b: Seq<u8>, j: int)
    requires
        0 <= j <= b.len(),
    ensures
        j <= digits_end_v(b, j) <= b.len(),
        forall|q: int| j <= q < digits_end_v(b, j) ==> is_digit_byte(#[trigger] b[q]),
    decreases b.len() - j,
{
    if j < b.len() && is_digit_byte(b[j]) {
        lemma_digits_end(b, j + 1);
    }
}

/// ASCII bytes as characters.
pub open spec fn ascii_chars_v(b: Seq<u8>) -> Seq<char> {
    Seq::new(b.len(), |i: int| b[i] as char)
}

fn digits_at(b: &[u8], j: usize) -> (r: (usize, String))
    requires
        j <= b@.len(),
    ensures
        r.0 == digits_end_v(b@, j as int),
        r.1@ == ascii_chars_v(b@.subrange(j as int, r.0 as int)),
{
    proof {
        lemma_digits_end(b@, j as int);
    }
    let mut k = j;
    let mut out = String::new();
    while k < b.len() && 48 <= b[k] && b[k] <= 57
        invariant
            j <= k <= b@.len(),
            digits_end_v(b@, j as int) == digits_end_v(b@, k as int),
            out@ == ascii_chars_v(b@.subrange(j as int, k as int)),
        decreases b@.len() - k,
    {
        push_char(&mut out, b[k] as char);
        assert(out@ =~= ascii_chars_v(b@.subrange(j as int, k + 1)));
        k = k + 1;
    }
    (k, out)
}

/// The value of a non-empty digit run, when it fits a `u32`.
pub open spec fn digits_u32_v(d: Seq<char>) -> Option<u32> {
    match parse_uint_v(d, u32::MAX as nat) {
        Some(n) => Some(n as u32),
        None => None,
    }
}

/// The text of `b[lo..hi]` when it is UTF-8.
pub open spec fn text_of_bytes_v(b: Seq<u8>, lo: int, hi: int) -> Option<Seq<char>> {
    let w = b.subrange(lo, hi);
    if valid_utf8(w) { Some(decode_utf8(w)) } else { None }
}

fn text_of_bytes(b: &[u8], lo: usize, hi: usize) -> (r: Option<String>)
    requires
        lo <= hi <= b@.len(),
    ensures
        r.deep_view() == text_of_bytes_v(b@, lo as int, hi as int),
{
    let mut w: Vec<u8> = Vec::new();
    let mut k = lo;
    while k < hi
        invariant
            lo <= k <= hi,
            hi <= b@.len(),
            w@ == b@.subrange(lo as int, k as int),
        decreases hi - k,
    {
        w.push(b[k]);
        assert(w@ =~= b@.subrange(lo as int, k + 1));
        k = k + 1;
    }
    utf8_text(w)
}

/// The first byte `"` at or after `j`.
pub open spec fn next_quote_v(b: Seq<u8>, j: int) -> Option<int>
    decreases b.len() - j,
{
    if j < 0 || j >= b.len() {
        None
    } else if b[j] == 34u8 {
        Some(j)
    } else {
        next_quote_v(b, j + 1)
    }
}

proof fn lemma_next_quote(b: Seq<u8>, j: int)
    requires
        0 <= j,
    ensures
        next_quote_v(b, j) matches Some(e) ==> j <= e < b.len(),
    decreases b.len() - j,
{
    if 0 <= j < b.len() && b[j] != 34u8 {
        lemma_next_quote(b, j + 1);
    }
}

fn next_quote(b: &[u8], j: usize) -> (r: Option<usize>)
    ensures
        r == match next_quote_v(b@, j as int) { Some(e) => Some(e as usize), None => None::<usize> },
        r matches Some(e) ==> j <= e < b@.len(),
{
    proof {
        lemma_next_quote(b@, j as int);
    }
    let mut k = j;
    while k < b.len()
        invariant
            j <= k,
            next_quote_v(b@, j as int) == next_quote_v(b@, k as int),
        decreases b@.len() - k,
    {
        if b[k] == 34u8 {
            return Some(k);
        }
        k = k + 1;
    }
    None
}

/// A relationship target relative to `word/`: leading slashes dropped,
/// then a `word/` prefix when there is one.
pub open spec fn normalised_target_v(t: Seq<char>) -> Seq<char> {
    match strip_prefix_v(trim_start_v(t, "/"@), "word/"@) {
        Some(x) => x,
        None => t,
    }
}

/// The first position of `Target="` in `w` that leaves a byte after it.
pub open spec fn target_pos_v(w: Seq<u8>, idx: int) -> Option<int>
    decreases w.len() - idx,
{
    if idx + 8 < w.len() {
        if at_v(w, idx, target_pat()) { Some(idx) } else { target_pos_v(w, idx + 1) }
    } else {
        None
    }
}

/// The media target of one relationship's bytes: the value of its first
/// `Target="…"`, made relative to `word/`, when it lies under `media/`.
pub open spec fn media_target_v(w: Seq<u8>) -> Option<Seq<char>> {
    match target_pos_v(w, 0) {
        Some(idx) => match next_quote_v(w, idx + 8) {
            Some(e) => match text_of_bytes_v(w, idx + 8, e) {
                Some(t) => if "media/"@.is_prefix_of(normalised_target_v(t)) { Some(normalised_target_v(t)) } else { None },
                None => None,
            },
            None => None,
        },
        None => None,
    }
}

proof fn lemma_target_pos(w: Seq<u8>, idx: int)
    requires
        0 <= idx,
    ensures
        target_pos_v(w, idx) matches Some(p) ==> idx <= p && p + 8 < w.len(),
    decreases w.len() - idx,
{
    if idx + 8 < w.len() && !at_v(w, idx, target_pat()) {
        lemma_target_pos(w, idx + 1);
    }
}

/// The media target named by one relationship's bytes, if any.
pub fn extract_media_target(window: &[u8]) -> (r: Option<String>)
    ensures
        r.deep_view() == media_target_v(window@),
{
    let pat = vec![84u8, 97u8, 114u8, 103u8, 101u8, 116u8, 61u8, 34u8];
    assert(pat@ =~= target_pat());
    let mut idx: usize = 0;
    while idx < window.len() && window.len() - idx > 8
        invariant
            target_pos_v(window@, 0) == target_pos_v(window@, idx as int),
            pat@ == target_pat(),
        decreases window@.len() - idx,
    {
        if at(window, idx, &pat) {
            let start = idx + 8;
            proof {
                lemma_next_quote(window@, start as int);
            }
            match next_quote(window, start) {
                Some(e) => {
                    match text_of_bytes(window, start, e) {
                        Some(t) => {
                            let trimmed = trim_start_matches(t.as_str(), "/");
                            let norm = match strip_prefix(trimmed.as_str(), "word/") {
                                Some(x) => x,
                                None => t,
                            };
                            if starts_with(norm.as_str(), "media/") {
                                return Some(norm);
                            }
                            return None;
                        },
                        None => {
                            return None;
                        },
                    }
                },
                None => {
                    return None;
                },
            }
        }
        idx = idx + 1;
    }
    None
}

/// A relationship of a preserved rels part whose target is a media file.
pub struct PreservedImageRef {
    /// e.g. `rId6`.
    pub rid: String,
    /// e.g. `media/image1.png`.
    pub target: String,
}

/// Model of a [`PreservedImageRef`].
pub struct PreservedImageRefV {
    pub rid: Seq<char>,
    pub target: Seq<char>,
}

impl DeepView for PreservedImageRef {
    type V = PreservedImageRefV;

    open spec fn deep_view(&self) -> PreservedImageRefV {
        PreservedImageRefV { rid: self.rid@, target: self.target@ }
    }
}

/// Whether `Id="rId` starts at `idx`.
pub open spec fn rid_at_v(b: Seq<u8>, idx: int) -> bool {
    at_v(b, idx, id_pat()) && at_v(b, idx + 4, rid_pat())
}

/// The rels scan for pictures from `idx` on: each `Id="rId<digits>`
/// raises the highest id seen and, when the bytes up to the next `Id="`
/// name a media target, records the relationship.
pub open spec fn image_scan_v(b: Seq<u8>, idx: int, max_rid: u32, acc: Seq<PreservedImageRefV>) -> (u32, Seq<PreservedImageRefV>)
    decreases b.len() - idx,
{
    if idx < 0 || idx + 8 >= b.len() {
        (max_rid, acc)
    } else if rid_at_v(b, idx) {
        let j = digits_end_v(b, idx + 7);
        let digits = ascii_chars_v(b.subrange(idx + 7, j));
        if digits.len() > 0 {
            proof {
                lemma_digits_end(b, idx + 7);
                lemma_next_rel_id_bound(b, j);
            }
            let m = match digits_u32_v(digits) {
                Some(n) => if n > max_rid { n } else { max_rid },
                None => max_rid,
            };
            let next_id = next_rel_id_v(b, j);
            let acc2 = match media_target_v(b.subrange(j, next_id)) {
                Some(t) => acc.push(PreservedImageRefV { rid: "rId"@ + digits, target: t }),
                None => acc,
            };
            image_scan_v(b, next_id, m, acc2)
        } else {
            image_scan_v(b, idx + 1, max_rid, acc)
        }
    } else {
        image_scan_v(b, idx + 1, max_rid, acc)
    }
}

fn slice_vec(b: &[u8], lo: usize, hi: usize) -> (r: Vec<u8>)
    requires
        lo <= hi <= b@.len(),
    ensures
        r@ == b@.subrange(lo as int, hi as int),
{
    let mut w: Vec<u8> = Vec::new();
    let mut k = lo;
    while k < hi
        invariant
            lo <= k <= hi,
            hi <= b@.len(),
            w@ == b@.subrange(lo as int, k as int),
        decreases hi - k,
    {
        w.push(b[k]);
        assert(w@ =~= b@.subrange(lo as int, k + 1));
        k = k + 1;
    }
    w
}

fn scan_rels_for_images(b: &[u8]) -> (r: (u32, Vec<PreservedImageRef>))
    ensures
        (r.0, r.1.deep_view()) == image_scan_v(b@, 0, 5, Seq::empty()),
{
    let idp = vec![73u8, 100u8, 61u8, 34u8];
    let ridp = vec![114u8, 73u8, 100u8];
    assert(idp@ =~= id_pat());
    assert(ridp@ =~= rid_pat());
    let mut max_rid: u32 = 5;
    let mut preserved: Vec<PreservedImageRef> = Vec::new();
    let mut idx: usize = 0;
    assert(preserved.deep_view() =~= Seq::<PreservedImageRefV>::empty());
    while idx < b.len() && b.len() - idx > 8
        invariant
            idp@ == id_pat(),
            ridp@ == rid_pat(),
            image_scan_v(b@, idx as int, max_rid, preserved.deep_view()) == image_scan_v(b@, 0, 5, Seq::empty()),
        decreases b@.len() - idx,
    {
        if at(b, idx, &idp) && at(b, idx + 4, &ridp) {
            let (j, digits) = digits_at(b, idx + 7);
            proof {
                lemma_digits_end(b@, idx + 7);
                lemma_next_rel_id_bound(b@, j as int);
            }
            if chars_of(digits.as_str()).len() > 0 {
                let mut id_str = owned("rId");
                id_str.append(digits.as_str());
                match parse_uint(digits.as_str(), u32::MAX as u64) {
                    Some(n) => {
                        if n as u32 > max_rid {
                            max_rid = n as u32;
                        }
                    },
                    None => {},
                }
                let next_id = find_next_relationship_id(b, j);
                let window = slice_vec(b, j, next_id);
                match extract_media_target(window.as_slice()) {
                    Some(t) => {
                        let ghost before = preserved.deep_view();
                        let pr = PreservedImageRef { rid: id_str, target: t };
                        preserved.push(pr);
                        assert(preserved.deep_view() =~= before.push(pr.deep_view()));
                    },
                    None => {},
                }
                idx = next_id;
            } else {
                idx = idx + 1;
            }
        } else {
            idx = idx + 1;
        }
    }
    (max_rid, preserved)
}

/// The numbers of an entry name `word/media/image<digits>…`: the digits
/// that follow the prefix, when there are some and they fit a `u32`.
pub open spec fn media_index_v(name: Seq<char>) -> Option<u32> {
    match strip_prefix_v(name, "word/media/image"@) {
        Some(rest) => {
            let d = rest.take(digit_run_len_v(rest) as int);
            if d.len() > 0 { digits_u32_v(d) } else { None }
        },
        None => None,
    }
}

/// The length of the run of ASCII digits that opens `s`.
pub open spec fn digit_run_len_v(s: Seq<char>) -> nat
    decreases s.len(),
{
    if s.len() > 0 && '0' <= s[0] <= '9' { 1 + digit_run_len_v(s.drop_first()) } else { 0 }
}

proof fn lemma_digit_run_len(s: Seq<char>)
    ensures
        digit_run_len_v(s) <= s.len(),
    decreases s.len(),
{
    if s.len() > 0 && '0' <= s[0] <= '9' {
        lemma_digit_run_len(s.drop_first());
    }
}

fn media_index(name: &str) -> (r: Option<u32>)
    ensures
        r == media_index_v(name@),
{
    match strip_prefix(name, "word/media/image") {
        Some(rest) => {
            let v = chars_of(rest.as_str());
            let mut k: usize = 0;
            proof {
                lemma_digit_run_len(rest@);
            }
            assert(rest@.skip(0) =~= rest@);
            while k < v.len() && '0' <= v[k] && v[k] <= '9'
                invariant
                    k <= v@.len(),
                    v@ == rest@,
                    digit_run_len_v(rest@) == k + digit_run_len_v(rest@.skip(k as int)),
                decreases v@.len() - k,
            {
                assert(rest@.skip(k as int).drop_first() =~= rest@.skip(k + 1));
                k = k + 1;
            }
            if k < v.len() {
                assert(digit_run_len_v(rest@.skip(k as int)) == 0);
            } else {
                assert(rest@.skip(k as int).len() == 0);
            }
            let d = crate::text::string_of_range(v.as_slice(), 0, k);
            assert(d@ =~= rest@.take(k as int));
            if k > 0 {
                match parse_uint(d.as_str(), u32::MAX as u64) {
                    Some(n) => Some(n as u32),
                    None => None,
                }
            } else {
                None
            }
        },
        None => None,
    }
}

/// What scanning a preserved package for pictures finds: the highest
/// `word/media/imageN` number, the highest `rIdN` of its rels part (at
/// least 5), and its media relationships. Without a package: `(0, 6, [])`,
/// the count a fresh document starts from.
pub open spec fn image_state_v(preserve_from: Option<Seq<u8>>) -> Result<(u32, u32, Seq<PreservedImageRefV>), OfficeErrorV> {
    match preserve_from {
        None => Ok((0, 6, Seq::empty())),
        Some(bytes) => match zip_count_v(bytes) {
            Err(m) => Err(OfficeErrorV::Zip(m)),
            Ok(n) => match entries_scan_v(bytes, n, 0, 0, None) {
                Err(e) => Err(e),
                Ok((mm, rels)) => match rels {
                    None => Ok((mm, 5, Seq::empty())),
                    Some(t) => {
                        let r = image_scan_v(vstd::utf8::encode_utf8(t), 0, 5, Seq::empty());
                        Ok((mm, r.0, r.1))
                    },
                },
            },
        },
    }
}

/// The entries from `i` on: the highest media number and the text of the
/// last rels part (1 MiB at most), or the first entry error.
pub open spec fn entries_scan_v(bytes: Seq<u8>, n: usize, i: int, mm: u32, rels: Option<Seq<char>>) -> Result<(u32, Option<Seq<char>>), OfficeErrorV>
    decreases n - i,
{
    if i < 0 || i >= n {
        Ok((mm, rels))
    } else {
        match zip_entry_v(bytes, i as usize) {
            Err(m) => Err(OfficeErrorV::Zip(m)),
            Ok(e) => if "word/media/image"@.is_prefix_of(e.name) {
                let mm2 = match media_index_v(e.name) {
                    Some(k) => if k > mm { k } else { mm },
                    None => mm,
                };
                entries_scan_v(bytes, n, i + 1, mm2, rels)
            } else if e.name == "word/_rels/document.xml.rels"@ {
                entries_scan_v(bytes, n, i + 1, mm, Some(prefix_text_v(e.data, 1024 * 1024)))
            } else {
                entries_scan_v(bytes, n, i + 1, mm, rels)
            },
        }
    }
}

/// Scans a preserved package (if any) for the highest media number, the
/// highest relationship id, and its media relationships.
pub fn scan_preserved_zip_for_image_state(preserve_from: Option<&[u8]>) -> (r: Result<(u32, u32, Vec<PreservedImageRef>), OfficeError>)
    ensures
        match image_state_v(match preserve_from { Some(b) => Some(b@), None => None }) {
            Ok(v) => r matches Ok(x) && x.0 == v.0 && x.1 == v.1 && x.2.deep_view() == v.2,
            Err(e) => r matches Err(x) && x.deep_view() == e,
        },
{
    let mut max_media: u32 = 0;
    let mut rels_xml: Option<String> = None;
    match preserve_from {
        None => {
            let v: Vec<PreservedImageRef> = Vec::new();
            assert(v.deep_view() =~= Seq::<PreservedImageRefV>::empty());
            return Ok((0, 6, v));
        },
        Some(bytes) => {
            let n = match zip_entry_count(bytes) {
                Ok(n) => n,
                Err(m) => {
                    return Err(OfficeError::Zip(m));
                },
            };
            let mut i: usize = 0;
            while i < n
                invariant
                    i <= n,
                    preserve_from == Some(bytes),
                    zip_count_v(bytes@) == Ok::<usize, Seq<char>>(n),
                    entries_scan_v(bytes@, n, i as int, max_media, rels_xml.deep_view())
                        == entries_scan_v(bytes@, n, 0, 0, None),
                decreases n - i,
            {
                let e = match zip_entry_at(bytes, i) {
                    Ok(e) => e,
                    Err(m) => {
                        return Err(OfficeError::Zip(m));
                    },
                };
                if starts_with(e.name.as_str(), "word/media/image") {
                    match media_index(e.name.as_str()) {
                        Some(k) => {
                            if k > max_media {
                                max_media = k;
                            }
                        },
                        None => {},
                    }
                } else if str_eq(e.name.as_str(), "word/_rels/document.xml.rels") {
                    rels_xml = Some(prefix_text(&e.data, 1024 * 1024));
                }
                i = i + 1;
            }
        },
    }
    match rels_xml {
        None => {
            let v: Vec<PreservedImageRef> = Vec::new();
            assert(v.deep_view() =~= Seq::<PreservedImageRefV>::empty());
            Ok((max_media, 5, v))
        },
        Some(s) => {
            let (m, v) = scan_rels_for_images(s.as_str().as_bytes());
            Ok((max_media, m, v))
        },
    }
}

/// Whether `b[lo..hi]` equals `p`.
fn range_eq(b: &[u8], lo: usize, hi: usize, p: &Vec<u8>) -> (r: bool)
    requires
        lo <= hi <= b@.len(),
    ensures
        r == (b@.subrange(lo as int, hi as int) == p@),
{
    if hi - lo != p.len() {
        assert(b@.subrange(lo as int, hi as int).len() != p@.len());
        return false;
    }
    at(b, lo, p)
}

/// The bytes up to the next `"` from `j` (or to the end), and where they stop.
fn quoted_from(b: &[u8], j: usize) -> (r: (usize, Vec<u8>))
    requires
        j <= b@.len(),
    ensures
        j <= r.0 <= b@.len(),
        r.0 == quote_end_v(b@, j as int),
        r.1@ == b@.subrange(j as int, r.0 as int),
{
    let mut k = j;
    let mut v: Vec<u8> = Vec::new();
    while k < b.len() && b[k] != 34u8
        invariant
            j <= k <= b@.len(),
            v@ == b@.subrange(j as int, k as int),
            quote_end_v(b@, j as int) == quote_end_v(b@, k as int),
        decreases b@.len() - k,
    {
        v.push(b[k]);
        assert(v@ =~= b@.subrange(j as int, k + 1));
        k = k + 1;
    }
    (k, v)
}

/// The bytes of `Type="`.
pub open spec fn type_pat() -> Seq<u8> {
    seq![84u8, 121u8, 112u8, 101u8, 61u8, 34u8]
}

/// Where the attribute value that starts at `j` ends: at the next `"`, or
/// at the end of `b`.
pub open spec fn quote_end_v(b: Seq<u8>, j: int) -> int
    decreases b.len() - j,
{
    if j < 0 || j >= b.len() || b[j] == 34u8 {
        j
    } else {
        quote_end_v(b, j + 1)
    }
}

pub proof fn lemma_quote_end(b: Seq<u8>, j: int)
    requires
        0 <= j <= b.len(),
    ensures
        j <= quote_end_v(b, j) <= b.len(),
    decreases b.len() - j,
{
    if j < b.len() && b[j] != 34u8 {
        lemma_quote_end(b, j + 1);
    }
}

/// The text of an attribute value's bytes, when they are UTF-8.
pub open spec fn value_text_v(v: Seq<u8>) -> Option<Seq<char>> {
    if valid_utf8(v) { Some(decode_utf8(v)) } else { None }
}

/// Whether a relationship type names a header or a footer part.
pub open spec fn is_hf_type_v(t: Seq<char>) -> bool {
    find_v(t, "header"@) is Some || find_v(t, "footer"@) is Some
}

/// What scanning a relationship's bytes from `i` finds, given the id,
/// target and header/footer flag found before `i`: the last `Id="…"`,
/// `Type="…"` and `Target="…"` values that are UTF-8, and `(id, target)`
/// when the type names a header or footer part and both were found.
pub open spec fn hf_scan_v(
    w: Seq<u8>,
    i: int,
    rid: Option<Seq<char>>,
    target: Option<Seq<char>>,
    is_hf: bool,
) -> Option<(Seq<char>, Seq<char>)>
    decreases w.len() - i,
{
    if i < 0 || i + 8 >= w.len() {
        if is_hf {
            match (rid, target) {
                (Some(a), Some(b)) => Some((a, b)),
                _ => None,
            }
        } else {
            None
        }
    } else if at_v(w, i, id_pat()) {
        let j = quote_end_v(w, i + 4);
        proof {
            lemma_quote_end(w, i + 4);
        }
        let rid2 = match value_text_v(w.subrange(i + 4, j)) {
            Some(s) => Some(s),
            None => rid,
        };
        hf_scan_v(w, j, rid2, target, is_hf)
    } else if at_v(w, i, type_pat()) {
        let j = quote_end_v(w, i + 6);
        proof {
            lemma_quote_end(w, i + 6);
        }
        let hf2 = match value_text_v(w.subrange(i + 6, j)) {
            Some(t) => is_hf_type_v(t),
            None => is_hf,
        };
        hf_scan_v(w, j, rid, target, hf2)
    } else if at_v(w, i, target_pat()) {
        let j = quote_end_v(w, i + 8);
        proof {
            lemma_quote_end(w, i + 8);
        }
        let t2 = match value_text_v(w.subrange(i + 8, j)) {
            Some(s) => Some(s),
            None => target,
        };
        hf_scan_v(w, j, rid, t2, is_hf)
    } else {
        hf_scan_v(w, i + 1, rid, target, is_hf)
    }
}

/// The `(rId, target)` of a header or footer relationship in its bytes.
pub open spec fn hf_target_v(w: Seq<u8>) -> Option<(Seq<char>, Seq<char>)> {
    hf_scan_v(w, 0, None, None, false)
}

/// The `(rId, target)` of one relationship's bytes, when its `Type` names a
/// header or footer part and it has both an `Id` and a `Target`.
pub fn extract_hf_target(window: &[u8]) -> (r: Option<(String, String)>)
    ensures
        match hf_target_v(window@) {
            Some((a, b)) => r matches Some((x, y)) && x@ == a && y@ == b,
            None => r is None,
        },
{
    let idp = vec![73u8, 100u8, 61u8, 34u8];
    let typ = vec![84u8, 121u8, 112u8, 101u8, 61u8, 34u8];
    let tgt = vec![84u8, 97u8, 114u8, 103u8, 101u8, 116u8, 61u8, 34u8];
    assert(idp@ =~= id_pat());
    assert(typ@ =~= type_pat());
    assert(tgt@ =~= target_pat());
    let ghost w = window@;
    let mut rid: Option<String> = None;
    let mut target: Option<String> = None;
    let mut is_hf = false;
    let mut i: usize = 0;
    while i < window.len() && window.len() - i > 8
        invariant
            i <= w.len(),
            w == window@,
            idp@ == id_pat(),
            typ@ == type_pat(),
            tgt@ == target_pat(),
            hf_target_v(w) == hf_scan_v(w, i as int, rid.deep_view(), target.deep_view(), is_hf),
        decreases w.len() - i,
    {
        if at(window, i, &idp) {
            let (j, v) = quoted_from(window, i + 4);
            if let Some(s) = utf8_text(v) {
                rid = Some(s);
            }
            i = j;
        } else if at(window, i, &typ) {
            let (j, v) = quoted_from(window, i + 6);
            if let Some(s) = utf8_text(v) {
                is_hf = crate::text::find(s.as_str(), "header").is_some() || crate::text::find(s.as_str(), "footer").is_some();
            }
            i = j;
        } else if at(window, i, &tgt) {
            let (j, v) = quoted_from(window, i + 8);
            if let Some(s) = utf8_text(v) {
                target = Some(s);
            }
            i = j;
        } else {
            i = i + 1;
        }
    }
    if is_hf {
        match (rid, target) {
            (Some(a), Some(b)) => Some((a, b)),
            _ => None,
        }
    } else {
        None
    }
}

/// The number that follows `header` (or `footer`) in a part basename.
pub open spec fn hf_basename_index_v(basename: Seq<char>, expect_header: bool) -> Option<u32> {
    match strip_prefix_v(basename, if expect_header { "header"@ } else { "footer"@ }) {
        Some(rest) => digits_u32_plus_v(rest),
        None => None,
    }
}

/// A `u32` as `str::parse` reads it.
pub open spec fn digits_u32_plus_v(s: Seq<char>) -> Option<u32> {
    match parse_uint_v(s, u32::MAX as nat) {
        Some(n) => Some(n as u32),
        None => None,
    }
}

/// The index of a `header<N>` (or `footer<N>`) basename.
pub fn parse_hf_basename_index(basename: &str, expect_header: bool) -> (r: Option<u32>)
    ensures
        r == hf_basename_index_v(basename@, expect_header),
{
    let rest = if expect_header { strip_prefix(basename, "header") } else { strip_prefix(basename, "footer") };
    match rest {
        Some(x) => match parse_uint(x.as_str(), u32::MAX as u64) {
            Some(n) => Some(n as u32),
            None => None,
        },
        None => None,
    }
}

/// `m`, or the number `o` holds when it is larger.
pub open spec fn max_opt_v(m: u32, o: Option<u32>) -> u32 {
    match o {
        Some(k) => if k > m { k } else { m },
        None => m,
    }
}

/// A part's target without its `.xml` extension.
pub open spec fn bare_target_v(t: Seq<char>) -> Seq<char> {
    match strip_suffix_v(t, ".xml"@) {
        Some(x) => x,
        None => t,
    }
}

/// The state of a header/footer rels scan after one relationship with
/// `(rid, target)`: the highest header and footer numbers its basename
/// names, and the relationship with its bare basename appended.
pub open spec fn add_hf_rel_v(st: (u32, u32, u32, Seq<(Seq<char>, Seq<char>)>), rid: Seq<char>, target: Seq<char>) -> (u32, u32, u32, Seq<(Seq<char>, Seq<char>)>) {
    let bare = bare_target_v(target);
    (st.0, max_opt_v(st.1, hf_basename_index_v(bare, true)), max_opt_v(st.2, hf_basename_index_v(bare, false)), st.3.push((rid, bare)))
}

/// What scanning a rels part's bytes from `idx` on adds to `st`: the
/// highest `rIdN`, and for each relationship (from its `Id="rId…` to the
/// next `Id="`) that is a header or footer one, its number and `(rid,
/// basename)`.
pub open spec fn hf_rels_scan_v(b: Seq<u8>, idx: int, st: (u32, u32, u32, Seq<(Seq<char>, Seq<char>)>)) -> (u32, u32, u32, Seq<(Seq<char>, Seq<char>)>)
    decreases b.len() - idx,
{
    if idx < 0 || idx + 8 >= b.len() {
        st
    } else if rid_at_v(b, idx) {
        let j = digits_end_v(b, idx + 7);
        let digits = ascii_chars_v(b.subrange(idx + 7, j));
        proof {
            lemma_digits_end(b, idx + 7);
            lemma_next_rel_id_bound(b, j);
        }
        if digits.len() > 0 {
            let m2 = match digits_u32_v(digits) {
                Some(n) => if n > st.0 { n } else { st.0 },
                None => st.0,
            };
            let next = next_rel_id_v(b, j);
            let st1 = (m2, st.1, st.2, st.3);
            let st2 = match hf_target_v(b.subrange(idx, next)) {
                Some((rid, target)) => add_hf_rel_v(st1, rid, target),
                None => st1,
            };
            hf_rels_scan_v(b, next, st2)
        } else {
            hf_rels_scan_v(b, idx + 1, st)
        }
    } else {
        hf_rels_scan_v(b, idx + 1, st)
    }
}

/// The text of the last rels part among the entries from `i` on.
pub open spec fn rels_scan_v(bytes: Seq<u8>, n: usize, i: int, rels: Option<Seq<char>>) -> Result<Option<Seq<char>>, OfficeErrorV>
    decreases n - i,
{
    if i < 0 || i >= n {
        Ok(rels)
    } else {
        match zip_entry_v(bytes, i as usize) {
            Err(m) => Err(OfficeErrorV::Zip(m)),
            Ok(e) => rels_scan_v(
                bytes,
                n,
                i + 1,
                if e.name == "word/_rels/document.xml.rels"@ { Some(prefix_text_v(e.data, 1024 * 1024)) } else { rels },
            ),
        }
    }
}

/// What scanning a preserved package for headers and footers finds: the
/// highest relationship id (at least 5), the highest header and footer
/// numbers of its header and footer relationships, and those
/// relationships as `(rid, basename)`.
pub open spec fn hf_state_v(preserve_from: Option<Seq<u8>>) -> Result<(u32, u32, u32, Seq<(Seq<char>, Seq<char>)>), OfficeErrorV> {
    match preserve_from {
        None => Ok((5, 0, 0, Seq::empty())),
        Some(bytes) => match zip_count_v(bytes) {
            Err(m) => Err(OfficeErrorV::Zip(m)),
            Ok(n) => match rels_scan_v(bytes, n, 0, None) {
                Err(e) => Err(e),
                Ok(None) => Ok((5, 0, 0, Seq::empty())),
                Ok(Some(t)) => Ok(hf_rels_scan_v(vstd::utf8::encode_utf8(t), 0, (5, 0, 0, Seq::empty()))),
            },
        },
    }
}

fn scan_rels_for_hf(b: &[u8]) -> (r: (u32, u32, u32, Vec<(String, String)>))
    ensures
        (r.0, r.1, r.2, r.3.deep_view()) == hf_rels_scan_v(b@, 0, (5, 0, 0, Seq::empty())),
{
    let idp = vec![73u8, 100u8, 61u8, 34u8];
    let ridp = vec![114u8, 73u8, 100u8];
    assert(idp@ =~= id_pat());
    assert(ridp@ =~= rid_pat());
    let mut max_rid: u32 = 5;
    let mut max_header: u32 = 0;
    let mut max_footer: u32 = 0;
    let mut preserved: Vec<(String, String)> = Vec::new();
    let mut idx: usize = 0;
    assert(preserved.deep_view() =~= Seq::<(Seq<char>, Seq<char>)>::empty());
    while idx < b.len() && b.len() - idx > 8
        invariant
            idp@ == id_pat(),
            ridp@ == rid_pat(),
            hf_rels_scan_v(b@, idx as int, (max_rid, max_header, max_footer, preserved.deep_view()))
                == hf_rels_scan_v(b@, 0, (5, 0, 0, Seq::empty())),
        decreases b@.len() - idx,
    {
        if at(b, idx, &idp) && at(b, idx + 4, &ridp) {
            let (j, digits) = digits_at(b, idx + 7);
            proof {
                lemma_digits_end(b@, idx + 7);
                lemma_next_rel_id_bound(b@, j as int);
            }
            let next_id = find_next_relationship_id(b, j);
            let empty = chars_of(digits.as_str()).len() == 0;
            let advance = if empty { idx + 1 } else { next_id };
            if !empty {
                match parse_uint(digits.as_str(), u32::MAX as u64) {
                    Some(n) => {
                        if n as u32 > max_rid {
                            max_rid = n as u32;
                        }
                    },
                    None => {},
                }
                let window = slice_vec(b, idx, next_id);
                if let Some((rid_str, target)) = extract_hf_target(window.as_slice()) {
                    let bare = match strip_suffix(target.as_str(), ".xml") {
                        Some(x) => x,
                        None => target,
                    };
                    if let Some(k) = parse_hf_basename_index(bare.as_str(), true) {
                        if k > max_header {
                            max_header = k;
                        }
                    }
                    if let Some(k) = parse_hf_basename_index(bare.as_str(), false) {
                        if k > max_footer {
                            max_footer = k;
                        }
                    }
                    let ghost before = preserved.deep_view();
                    preserved.push((rid_str, bare));
                    assert(preserved.deep_view() =~= before.push((rid_str@, bare@)));
                }
            }
            idx = advance;
        } else {
            idx = idx + 1;
        }
    }
    (max_rid, max_header, max_footer, preserved)
}

/// Scans a preserved package (if any) for the highest relationship id and
/// the header and footer relationships it already has.
pub fn scan_preserved_hf_state(preserve_from: Option<&[u8]>) -> (r: Result<(u32, u32, u32, Vec<(String, String)>), OfficeError>)
    ensures
        match hf_state_v(match preserve_from { Some(b) => Some(b@), None => None }) {
            Ok(v) => r matches Ok(x) && x.0 == v.0 && x.1 == v.1 && x.2 == v.2 && x.3.deep_view() == v.3,
            Err(e) => r matches Err(x) && x.deep_view() == e,
        },
{
    match preserve_from {
        None => {
            let v: Vec<(String, String)> = Vec::new();
            assert(v.deep_view() =~= Seq::<(Seq<char>, Seq<char>)>::empty());
            Ok((5, 0, 0, v))
        },
        Some(bytes) => {
            let n = match zip_entry_count(bytes) {
                Ok(n) => n,
                Err(m) => {
                    return Err(OfficeError::Zip(m));
                },
            };
            let mut rels_xml: Option<String> = None;
            let mut i: usize = 0;
            while i < n
                invariant
                    i <= n,
                    preserve_from == Some(bytes),
                    zip_count_v(bytes@) == Ok::<usize, Seq<char>>(n),
                    rels_scan_v(bytes@, n, i as int, rels_xml.deep_view()) == rels_scan_v(bytes@, n, 0, None),
                decreases n - i,
            {
                let e = match zip_entry_at(bytes, i) {
                    Ok(e) => e,
                    Err(m) => {
                        return Err(OfficeError::Zip(m));
                    },
                };
                if str_eq(e.name.as_str(), "word/_rels/document.xml.rels") {
                    rels_xml = Some(prefix_text(&e.data, 1024 * 1024));
                }
                i = i + 1;
            }
            match rels_xml {
                None => {
                    let v: Vec<(String, String)> = Vec::new();
                    assert(v.deep_view() =~= Seq::<(Seq<char>, Seq<char>)>::empty());
                    Ok((5, 0, 0, v))
                },
                Some(s) => {
                    let r = scan_rels_for_hf(s.as_str().as_bytes());
                    Ok(r)
                },
            }
        },
    }
}

} // verus!
