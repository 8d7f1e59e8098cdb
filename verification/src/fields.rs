//! Reading field instructions (`PAGE`, `DATE \@ "…"`, …) and OOXML text
//! directions back into the model.

use vstd::prelude::*;
use crate::model::{FieldRef, FieldRefV};
use crate::text::{chars_of, is_whitespace, is_ws, owned, str_eq, string_of_range, trim, trim_v};

verus! {

/// The whitespace-separated words of `s` (`str::split_whitespace`).
pub open spec fn words_v(s: Seq<char>) -> Seq<Seq<char>>
    decreases s.len(),
{
    words_from_v(s, 0, 0)
}

/// The words of `s` from position `i`, the current word having started at `start`.
pub open spec fn words_from_v(s: Seq<char>, start: int, i: int) -> Seq<Seq<char>>
    decreases s.len() - i,
{
    if i >= s.len() || i < 0 || start < 0 || start > i {
        if 0 <= start < s.len() && start <= i { seq![s.subrange(start, s.len() as int)] } else { Seq::empty() }
    } else if is_ws(s[i]) {
        (if start < i { seq![s.subrange(start, i)] } else { Seq::empty() }) + words_from_v(s, i + 1, i + 1)
    } else {
        words_from_v(s, start, i + 1)
    }
}

/// Splits `s` into its whitespace-separated words.
pub fn split_whitespace(s: &str) -> (r: Vec<String>)
    ensures
        r.deep_view() == words_v(s@),
{
    let v = chars_of(s);
    let n = v.len();
    let mut out: Vec<String> = Vec::new();
    let mut start: usize = 0;
    let mut i: usize = 0;
    assert(out.deep_view() =~= Seq::<Seq<char>>::empty());
    while i < n
        invariant
            start <= i <= n,
            n == v@.len(),
            v@ == s@,
            out.deep_view() + words_from_v(s@, start as int, i as int) == words_v(s@),
        decreases n - i,
    {
        if is_whitespace(v[i]) {
            let ghost o = out.deep_view();
            if start < i {
                let w = string_of_range(v.as_slice(), start, i);
                out.push(w);
                assert(out.deep_view() =~= o.push(w@));
            }
            assert(o + words_from_v(s@, start as int, i as int) == words_v(s@));
            assert(out.deep_view() + words_from_v(s@, (i + 1) as int, (i + 1) as int) =~= o + words_from_v(
                s@,
                start as int,
                i as int,
            ));
            start = i + 1;
        }
        i = i + 1;
    }
    if start < n {
        let ghost o = out.deep_view();
        let w = string_of_range(v.as_slice(), start, n);
        out.push(w);
        assert(out.deep_view() =~= o + words_from_v(s@, start as int, n as int));
    } else {
        assert(out.deep_view() =~= out.deep_view() + words_from_v(s@, start as int, n as int));
    }
    out
}

/// The words joined with single spaces.
pub open spec fn join_words_v(ws: Seq<Seq<char>>) -> Seq<char>
    decreases ws.len(),
{
    if ws.len() == 0 {
        Seq::empty()
    } else if ws.len() == 1 {
        ws[0]
    } else {
        join_words_v(ws.drop_last()) + " "@ + ws.last()
    }
}

/// The words before the first formatting switch (`\*…`).
pub open spec fn before_switch_v(ws: Seq<Seq<char>>) -> Seq<Seq<char>>
    decreases ws.len(),
{
    if ws.len() == 0 || "\\*"@.is_prefix_of(ws[0]) { Seq::empty() } else { seq![ws[0]] + before_switch_v(ws.drop_first()) }
}

/// `str::to_uppercase`: Unicode upper-casing, named.
pub uninterp spec fn uppercase_v(s: Seq<char>) -> Seq<char>;

/// A character with ASCII lower-case letters made upper-case.
pub open spec fn ascii_upper_char_v(c: char) -> char {
    if 'a' <= c <= 'z' { ((c as u32) - 32) as char } else { c }
}

/// `s` with its ASCII lower-case letters made upper-case.
pub open spec fn ascii_upper_v(s: Seq<char>) -> Seq<char> {
    Seq::new(s.len(), |i: int| ascii_upper_char_v(s[i]))
}

/// Upper-cases `s` with `str::to_uppercase`. On ASCII text, where Unicode
/// upper-casing maps each letter to its ASCII capital and leaves every
/// other character, the result is stated character by character.
#[verifier::external_body]
fn to_uppercase(s: &str) -> (r: String)
    ensures
        r@ == uppercase_v(s@),
        vstd::utf8::is_ascii_chars(s@) ==> r@ == ascii_upper_v(s@),
{
    s.to_uppercase()
}

/// `s` without surrounding `"` characters (`trim_matches('"')`).
pub open spec fn trim_quotes_v(s: Seq<char>) -> Seq<char>
    decreases s.len(),
{
    if s.len() > 0 && s[0] == '"' {
        trim_quotes_v(s.drop_first())
    } else if s.len() > 0 && s.last() == '"' {
        trim_quotes_v(s.drop_last())
    } else {
        s
    }
}

/// Whether word `w` closes a quoted format; the word that opens the quote
/// closes it only when it holds a second quote.
pub open spec fn closes_quote_v(w: Seq<char>, opening: bool) -> bool {
    w.len() >= (if opening { 2int } else { 1int }) && w.last() == '"'
}

/// How many words from the start a quoted format spans: up to the first
/// word from `i` on that closes the quote, or all of them.
pub open spec fn quoted_span_v(ws: Seq<Seq<char>>, i: int) -> int
    decreases ws.len() - i,
{
    if i < 0 || i >= ws.len() {
        ws.len() as int
    } else if closes_quote_v(ws[i], i == 0) {
        i + 1
    } else {
        quoted_span_v(ws, i + 1)
    }
}

proof fn lemma_quoted_span(ws: Seq<Seq<char>>, i: int)
    requires
        0 <= i <= ws.len(),
    ensures
        i <= quoted_span_v(ws, i) <= ws.len(),
        i < ws.len() ==> i < quoted_span_v(ws, i),
    decreases ws.len() - i,
{
    if i < ws.len() && !closes_quote_v(ws[i], i == 0) {
        lemma_quoted_span(ws, i + 1);
    }
}

/// The format argument that starts at the first of `ws`: a quoted pattern
/// whole (its words joined by single spaces, the quotes removed), else the
/// word itself unquoted.
pub open spec fn format_arg_v(ws: Seq<Seq<char>>) -> Seq<char> {
    if ws[0].len() > 0 && ws[0][0] == '"' {
        trim_quotes_v(join_words_v(ws.take(quoted_span_v(ws, 0))))
    } else {
        trim_quotes_v(ws[0])
    }
}

/// The format after the first `\@` switch; none without one, or when it is
/// the last word.
pub open spec fn date_format_from_v(ws: Seq<Seq<char>>) -> Option<Seq<char>>
    decreases ws.len(),
{
    if ws.len() == 0 {
        None
    } else if ws[0] == "\\@"@ {
        if ws.len() > 1 { Some(format_arg_v(ws.drop_first())) } else { None }
    } else {
        date_format_from_v(ws.drop_first())
    }
}

/// The `\@` date/time format of a field's arguments.
pub open spec fn date_format_v(rest: Seq<char>) -> Option<Seq<char>> {
    date_format_from_v(words_v(rest))
}

fn trim_quotes(s: &str) -> (r: String)
    ensures
        r@ == trim_quotes_v(s@),
{
    let v = chars_of(s);
    let mut lo: usize = 0;
    let mut hi: usize = v.len();
    assert(v@.subrange(0, v@.len() as int) =~= s@);
    while lo < hi && (v[lo] == '"' || v[hi - 1] == '"')
        invariant
            lo <= hi <= v@.len(),
            v@ == s@,
            trim_quotes_v(s@) == trim_quotes_v(v@.subrange(lo as int, hi as int)),
        decreases hi - lo,
    {
        let ghost t = v@.subrange(lo as int, hi as int);
        if v[lo] == '"' {
            assert(t.drop_first() =~= v@.subrange(lo + 1, hi as int));
            lo = lo + 1;
        } else {
            assert(t.drop_last() =~= v@.subrange(lo as int, hi - 1));
            hi = hi - 1;
        }
    }
    string_of_range(v.as_slice(), lo, hi)
}

/// The words `lo..hi` of `ws` joined by single spaces.
fn join_range(ws: &Vec<String>, lo: usize, hi: usize) -> (r: String)
    requires
        lo <= hi <= ws@.len(),
    ensures
        r@ == join_words_v(ws.deep_view().subrange(lo as int, hi as int)),
{
    let ghost wv = ws.deep_view();
    let mut out = String::new();
    let mut k: usize = lo;
    assert(wv.subrange(lo as int, lo as int) =~= Seq::<Seq<char>>::empty());
    while k < hi
        invariant
            lo <= k <= hi <= wv.len(),
            wv == ws.deep_view(),
            out@ == join_words_v(wv.subrange(lo as int, k as int)),
        decreases hi - k,
    {
        if k > lo {
            out.append(" ");
        }
        out.append(ws[k].as_str());
        proof {
            let t = wv.subrange(lo as int, k + 1);
            assert(t.drop_last() =~= wv.subrange(lo as int, k as int));
            assert(t.last() == ws@[k as int]@);
            if k == lo {
                assert(t =~= seq![ws@[k as int]@]);
            }
        }
        k = k + 1;
    }
    out
}

/// The format argument that starts at word `i` of `ws`.
fn format_arg(ws: &Vec<String>, i: usize) -> (r: String)
    requires
        i < ws@.len(),
    ensures
        r@ == format_arg_v(ws.deep_view().skip(i as int)),
{
    let ghost a = ws.deep_view().skip(i as int);
    assert(a[0] == ws@[i as int]@);
    let first = chars_of(ws[i].as_str());
    if first.len() > 0 && first[0] == '"' {
        assert(a[0].len() > 0 && a[0][0] == '"');
        proof {
            lemma_quoted_span(a, 0);
        }
        let mut j: usize = i;
        let mut end: usize = ws.len();
        while j < ws.len()
            invariant
                i <= j <= ws@.len(),
                a == ws.deep_view().skip(i as int),
                end == ws@.len(),
                a[0].len() > 0 && a[0][0] == '"',
                quoted_span_v(a, 0) == quoted_span_v(a, (j - i) as int),
            decreases ws@.len() - j,
        {
            let w = chars_of(ws[j].as_str());
            assert(a[(j - i) as int] == ws@[j as int]@);
            let need: usize = if j == i { 2 } else { 1 };
            if w.len() >= need && w[w.len() - 1] == '"' {
                assert(w@.last() == w@[w@.len() - 1]);
                assert(closes_quote_v(a[(j - i) as int], j - i == 0));
                assert(quoted_span_v(a, (j - i) as int) == j - i + 1);
                let joined = join_range(ws, i, j + 1);
                let ghost n: int = (j - i + 1) as int;
                assert(quoted_span_v(a, 0) == n);
                assert(a.take(n) =~= ws.deep_view().subrange(i as int, j + 1));
                assert(joined@ == join_words_v(a.take(quoted_span_v(a, 0))));
                return trim_quotes(joined.as_str());
            }
            j = j + 1;
        }
        assert(quoted_span_v(a, (j - i) as int) == a.len());
        let joined = join_range(ws, i, end);
        assert(a.take(a.len() as int) =~= ws.deep_view().subrange(i as int, end as int));
        trim_quotes(joined.as_str())
    } else {
        trim_quotes(ws[i].as_str())
    }
}

/// Extracts the `\@` format of a DATE / TIME field's arguments.
pub fn parse_date_format(rest: &str) -> (r: Option<String>)
    ensures
        r.deep_view() == date_format_v(rest@),
{
    let ws = split_whitespace(rest);
    let ghost wv = ws.deep_view();
    let mut i: usize = 0;
    assert(wv.skip(0) =~= wv);
    while i < ws.len()
        invariant
            i <= wv.len(),
            wv == ws.deep_view(),
            date_format_v(rest@) == date_format_from_v(wv.skip(i as int)),
        decreases wv.len() - i,
    {
        assert(wv.skip(i as int)[0] == ws@[i as int]@);
        if str_eq(ws[i].as_str(), "\\@") {
            if i + 1 < ws.len() {
                assert(wv.skip(i as int).drop_first() =~= wv.skip(i + 1));
                return Some(format_arg(&ws, i + 1));
            }
            return None;
        }
        assert(wv.skip(i as int).drop_first() =~= wv.skip(i + 1));
        i = i + 1;
    }
    None
}

/// Whether some word equals `w`.
pub open spec fn has_word_v(ws: Seq<Seq<char>>, w: Seq<char>) -> bool {
    exists|i: int| 0 <= i < ws.len() && ws[i] == w
}

/// The two parts of a `<w:instrText>` payload: its first word, which names
/// the field, and the rest, both taken from the words before the first `\*`
/// switch.
pub open spec fn instr_parts_v(instr: Seq<char>) -> (Seq<char>, Seq<char>) {
    let ws = before_switch_v(words_v(trim_v(instr)));
    let cleaned = join_words_v(ws);
    let head = if ws.len() > 0 { ws[0] } else { Seq::empty() };
    (head, trim_v(cleaned.skip(head.len() as int)))
}

/// The field named by the upper-cased name `up` with arguments `rest`:
/// unknown names become custom fields; nothing without a name.
pub open spec fn field_of_head_v(up: Seq<char>, rest: Seq<char>) -> Option<FieldRefV> {
    if up == "PAGE"@ {
        Some(FieldRefV::Page)
    } else if up == "NUMPAGES"@ {
        Some(FieldRefV::NumPages)
    } else if up == "SECTIONPAGES"@ {
        Some(FieldRefV::SectionPages)
    } else if up == "SECTION"@ {
        Some(FieldRefV::Section)
    } else if up == "DATE"@ {
        Some(FieldRefV::Date { format: date_format_v(rest) })
    } else if up == "TIME"@ {
        Some(FieldRefV::Time { format: date_format_v(rest) })
    } else if up == "AUTHOR"@ {
        Some(FieldRefV::Author)
    } else if up == "TITLE"@ {
        Some(FieldRefV::Title)
    } else if up == "FILENAME"@ {
        Some(FieldRefV::Filename { with_ext: !has_word_v(words_v(rest), "\\p"@) })
    } else if up.len() == 0 {
        None
    } else {
        Some(FieldRefV::Custom { instr: up + " "@ + rest })
    }
}

/// The field a `<w:instrText>` payload names: its first word, upper-cased,
/// names the field, and the rest are its arguments.
pub open spec fn field_instr_v(instr: Seq<char>) -> Option<FieldRefV> {
    let (head, rest) = instr_parts_v(instr);
    field_of_head_v(uppercase_v(head), rest)
}

/// [`field_instr_v`] where the field's name is ASCII, so that upper-casing
/// it is stated letter by letter.
pub open spec fn field_instr_ascii_v(instr: Seq<char>) -> Option<FieldRefV> {
    let (head, rest) = instr_parts_v(instr);
    field_of_head_v(ascii_upper_v(head), rest)
}

/// Reads the field named by the upper-cased name `up` with arguments `rest`.
pub fn field_of_head(up: &str, rest: &str) -> (r: Option<FieldRef>)
    ensures
        r.deep_view() == field_of_head_v(up@, rest@),
{
    if str_eq(up, "PAGE") {
        Some(FieldRef::Page)
    } else if str_eq(up, "NUMPAGES") {
        Some(FieldRef::NumPages)
    } else if str_eq(up, "SECTIONPAGES") {
        Some(FieldRef::SectionPages)
    } else if str_eq(up, "SECTION") {
        Some(FieldRef::Section)
    } else if str_eq(up, "DATE") {
        Some(FieldRef::Date { format: parse_date_format(rest) })
    } else if str_eq(up, "TIME") {
        Some(FieldRef::Time { format: parse_date_format(rest) })
    } else if str_eq(up, "AUTHOR") {
        Some(FieldRef::Author)
    } else if str_eq(up, "TITLE") {
        Some(FieldRef::Title)
    } else if str_eq(up, "FILENAME") {
        let rw = split_whitespace(rest);
        let p = has_word(&rw, "\\p");
        Some(FieldRef::Filename { with_ext: !p })
    } else if chars_of(up).len() == 0 {
        None
    } else {
        let mut s = owned(up);
        s.append(" ");
        s.append(rest);
        Some(FieldRef::Custom { instr: s })
    }
}

proof fn lemma_before_switch(ws: Seq<Seq<char>>, k: int)
    requires
        0 <= k <= ws.len(),
        forall|j: int| 0 <= j < k ==> !"\\*"@.is_prefix_of(#[trigger] ws[j]),
        k == ws.len() || "\\*"@.is_prefix_of(ws[k]),
    ensures
        before_switch_v(ws) == ws.take(k),
    decreases k,
{
    if k == 0 {
        assert(ws.take(0) =~= Seq::<Seq<char>>::empty());
    } else {
        assert forall|j: int| 0 <= j < k - 1 implies !"\\*"@.is_prefix_of(#[trigger] ws.drop_first()[j]) by {
            assert(ws.drop_first()[j] == ws[j + 1]);
        }
        lemma_before_switch(ws.drop_first(), k - 1);
        assert(seq![ws[0]] + ws.drop_first().take(k - 1) =~= ws.take(k));
    }
}

fn has_word(ws: &Vec<String>, w: &str) -> (r: bool)
    ensures
        r == has_word_v(ws.deep_view(), w@),
{
    let mut i: usize = 0;
    while i < ws.len()
        invariant
            i <= ws@.len(),
            forall|j: int| 0 <= j < i ==> ws.deep_view()[j] != w@,
        decreases ws@.len() - i,
    {
        if str_eq(ws[i].as_str(), w) {
            assert(ws.deep_view()[i as int] == w@);
            return true;
        }
        i = i + 1;
    }
    false
}

/// Reads a `<w:instrText>` payload as a field.
pub fn parse_field_instr(instr: &str) -> (r: Option<FieldRef>)
    ensures
        r.deep_view() == field_instr_v(instr@),
        vstd::utf8::is_ascii_chars(instr_parts_v(instr@).0) ==> r.deep_view() == field_instr_ascii_v(instr@),
{
    let trimmed = trim(instr);
    let all = split_whitespace(trimmed.as_str());
    let ghost av = all.deep_view();
    let mut k: usize = 0;
    while k < all.len() && !crate::text::starts_with(all[k].as_str(), "\\*")
        invariant
            k <= av.len(),
            av == all.deep_view(),
            forall|j: int| 0 <= j < k ==> !"\\*"@.is_prefix_of(#[trigger] av[j]),
        decreases av.len() - k,
    {
        k = k + 1;
    }
    proof {
        lemma_before_switch(av, k as int);
    }
    let ghost ws = av.take(k as int);
    let mut cleaned = String::new();
    let mut i: usize = 0;
    while i < k
        invariant
            i <= k <= av.len(),
            av == all.deep_view(),
            ws == av.take(k as int),
            cleaned@ == join_words_v(ws.take(i as int)),
        decreases k - i,
    {
        if i > 0 {
            cleaned.append(" ");
        }
        cleaned.append(all[i].as_str());
        proof {
            let t = ws.take(i + 1);
            assert(t.drop_last() =~= ws.take(i as int));
            assert(t.last() == all@[i as int]@);
            if i == 0 {
                assert(t =~= seq![all@[0]@]);
            }
        }
        i = i + 1;
    }
    assert(ws.take(k as int) =~= ws);
    let head = if k > 0 { all[0].clone() } else { String::new() };
    assert(head@ == (if ws.len() > 0 { ws[0] } else { Seq::<char>::empty() }));
    let cv = chars_of(cleaned.as_str());
    let hn = chars_of(head.as_str()).len();
    let after = if hn <= cv.len() { string_of_range(cv.as_slice(), hn, cv.len()) } else { String::new() };
    proof {
        if k > 0 {
            lemma_join_starts_with_head(ws);
        }
        assert(after@ =~= cleaned@.skip(head@.len() as int));
    }
    let rest = trim(after.as_str());
    let up = to_uppercase(head.as_str());
    field_of_head(up.as_str(), rest.as_str())
}

proof fn lemma_join_starts_with_head(ws: Seq<Seq<char>>)
    requires
        ws.len() > 0,
    ensures
        ws[0].len() <= join_words_v(ws).len(),
        join_words_v(ws).take(ws[0].len() as int) == ws[0],
    decreases ws.len(),
{
    if ws.len() > 1 {
        lemma_join_starts_with_head(ws.drop_last());
        assert(ws.drop_last()[0] == ws[0]);
        let j = join_words_v(ws.drop_last());
        assert((j + " "@ + ws.last()).take(ws[0].len() as int) =~= j.take(ws[0].len() as int));
    }
}

/// The model's name for an OOXML text direction; others pass through.
pub open spec fn normalise_text_direction_v(v: Seq<char>) -> Seq<char> {
    if v == "lrTb"@ {
        "horizontal"@
    } else if v == "tbRl"@ {
        "verticalRightToLeft"@
    } else if v == "btLr"@ {
        "verticalRightToLeft"@
    } else if v == "lrTbV"@ {
        "rotate90"@
    } else if v == "tbRlV"@ {
        "vertical"@
    } else if v == "btLrV"@ {
        "verticalLeftToRight"@
    } else {
        v
    }
}

/// Maps OOXML `w:textDirection` values to the model's names.
pub fn normalise_text_direction(v: &str) -> (r: String)
    ensures
        r@ == normalise_text_direction_v(v@),
{
    if str_eq(v, "lrTb") {
        owned("horizontal")
    } else if str_eq(v, "tbRl") {
        owned("verticalRightToLeft")
    } else if str_eq(v, "btLr") {
        owned("verticalRightToLeft")
    } else if str_eq(v, "lrTbV") {
        owned("rotate90")
    } else if str_eq(v, "tbRlV") {
        owned("vertical")
    } else if str_eq(v, "btLrV") {
        owned("verticalLeftToRight")
    } else {
        owned(v)
    }
}

/// A word as `split_whitespace` gives it: non-empty, without whitespace.
pub open spec fn plain_word_v(w: Seq<char>) -> bool {
    w.len() > 0 && forall|i: int| 0 <= i < w.len() ==> !is_ws(#[trigger] w[i])
}

proof fn lemma_scan_word(s: Seq<char>, start: int, i: int, e: int)
    requires
        0 <= start <= i <= e <= s.len(),
        forall|j: int| i <= j < e ==> !is_ws(#[trigger] s[j]),
    ensures
        words_from_v(s, start, i) == words_from_v(s, start, e),
    decreases e - i,
{
    if i < e {
        lemma_scan_word(s, start, i + 1, e);
    }
}

proof fn lemma_join_front(ws: Seq<Seq<char>>)
    requires
        ws.len() >= 2,
    ensures
        join_words_v(ws) == ws[0] + " "@ + join_words_v(ws.drop_first()),
    decreases ws.len(),
{
    if ws.len() == 2 {
        assert(ws.drop_last() =~= seq![ws[0]]);
        assert(ws.drop_first() =~= seq![ws[1]]);
        assert(join_words_v(ws.drop_last()) == ws[0]);
        assert(join_words_v(ws.drop_first()) == ws[1]);
    } else {
        lemma_join_front(ws.drop_last());
        assert(ws.drop_last().drop_first() =~= ws.drop_first().drop_last());
        assert(ws.drop_first().last() == ws.last());
        assert(ws.drop_last()[0] == ws[0]);
        let a = join_words_v(ws.drop_first().drop_last());
        assert(join_words_v(ws.drop_first()) == a + " "@ + ws.last());
        assert(join_words_v(ws.drop_last()) == ws[0] + " "@ + a);
        assert(ws[0] + " "@ + a + " "@ + ws.last() =~= ws[0] + " "@ + (a + " "@ + ws.last()));
    }
}

proof fn lemma_join_ends(ws: Seq<Seq<char>>)
    requires
        ws.len() > 0,
        forall|k: int| 0 <= k < ws.len() ==> plain_word_v(#[trigger] ws[k]),
    ensures
        join_words_v(ws).len() > 0,
        join_words_v(ws)[0] == ws[0][0],
        join_words_v(ws).last() == ws.last().last(),
    decreases ws.len(),
{
    if ws.len() >= 2 {
        assert(plain_word_v(ws[0]));
        assert(plain_word_v(ws.last()));
        lemma_join_ends(ws.drop_last());
        assert(ws.drop_last()[0] == ws[0]);
    } else {
        assert(plain_word_v(ws[0]));
    }
}

proof fn lemma_words_of_join(s: Seq<char>, p: int, ws: Seq<Seq<char>>)
    requires
        0 <= p <= s.len(),
        s.skip(p) == join_words_v(ws),
        forall|k: int| 0 <= k < ws.len() ==> plain_word_v(#[trigger] ws[k]),
    ensures
        words_from_v(s, p, p) == ws,
    decreases ws.len(),
{
    if ws.len() == 0 {
        assert(s.skip(p).len() == 0);
    } else if ws.len() == 1 {
        let w = ws[0];
        assert(plain_word_v(w));
        assert forall|j: int| p <= j < s.len() implies !is_ws(#[trigger] s[j]) by {
            assert(s[j] == s.skip(p)[j - p]);
        }
        lemma_scan_word(s, p, p, s.len() as int);
        assert(s.subrange(p, s.len() as int) =~= w);
        assert(words_from_v(s, p, p) =~= ws);
    } else {
        reveal_strlit(" ");
        lemma_join_front(ws);
        let w = ws[0];
        assert(plain_word_v(w));
        let e = p + w.len();
        let rest = join_words_v(ws.drop_first());
        assert(s.skip(p) == w + " "@ + rest);
        assert(" "@.len() == 1);
        assert(s.skip(p).len() == s.len() - p);
        assert((w + " "@ + rest).len() == w.len() + 1 + rest.len());
        assert(e < s.len());
        assert forall|j: int| p <= j < e implies !is_ws(#[trigger] s[j]) by {
            assert(s[j] == s.skip(p)[j - p]);
            assert((w + " "@ + rest)[j - p] == w[j - p]);
        }
        lemma_scan_word(s, p, p, e);
        assert(s[e] == s.skip(p)[w.len() as int]);
        assert((w + " "@ + rest)[w.len() as int] == ' ');
        assert(s.subrange(p, e) =~= w);
        assert forall|j: int| 0 <= j < rest.len() implies s.skip(e + 1)[j] == rest[j] by {
            assert(s.skip(e + 1)[j] == s.skip(p)[w.len() + 1 + j]);
            assert((w + " "@ + rest)[w.len() + 1 + j] == rest[j]);
        }
        assert(s.skip(e + 1) =~= rest);
        assert forall|k: int| 0 <= k < ws.drop_first().len() implies plain_word_v(#[trigger] ws.drop_first()[k]) by {
            assert(ws.drop_first()[k] == ws[k + 1]);
        }
        lemma_words_of_join(s, e + 1, ws.drop_first());
        assert(seq![w] + ws.drop_first() =~= ws);
    }
}

proof fn lemma_trim_padded(x: Seq<char>)
    requires
        x.len() > 0,
        !is_ws(x[0]),
        !is_ws(x.last()),
    ensures
        trim_v(" "@ + x + " "@) == x,
        trim_v(" "@ + x) == x,
        trim_v(x) == x,
{
    reveal_strlit(" ");
    let a = " "@ + x + " "@;
    assert(a.drop_first() =~= x + " "@);
    assert(crate::text::trim_start_ws(x + " "@) == x + " "@);
    assert((x + " "@).drop_last() =~= x);
    assert(crate::text::trim_end_ws(x + " "@) == crate::text::trim_end_ws(x));
    let b = " "@ + x;
    assert(b.drop_first() =~= x);
    assert(crate::text::trim_start_ws(x) == x);
    assert(crate::text::trim_end_ws(x) == x);
}

proof fn lemma_parts_of_padded(ws: Seq<Seq<char>>)
    requires
        ws.len() > 0,
        forall|k: int| 0 <= k < ws.len() ==> plain_word_v(#[trigger] ws[k]),
        forall|k: int| 0 <= k < ws.len() ==> !"\\*"@.is_prefix_of(#[trigger] ws[k]),
    ensures
        instr_parts_v(" "@ + join_words_v(ws) + " "@) == (ws[0], join_words_v(ws.drop_first())),
        words_v(join_words_v(ws.drop_first())) == ws.drop_first(),
{
    let j = join_words_v(ws);
    lemma_join_ends(ws);
    assert(plain_word_v(ws[0]));
    assert(plain_word_v(ws.last()));
    lemma_trim_padded(j);
    assert(j.skip(0) =~= j);
    lemma_words_of_join(j, 0, ws);
    lemma_before_switch(ws, ws.len() as int);
    assert(ws.take(ws.len() as int) =~= ws);
    let rest = join_words_v(ws.drop_first());
    assert forall|k: int| 0 <= k < ws.drop_first().len() implies plain_word_v(#[trigger] ws.drop_first()[k]) by {
        assert(ws.drop_first()[k] == ws[k + 1]);
    }
    assert(rest.skip(0) =~= rest);
    lemma_words_of_join(rest, 0, ws.drop_first());
    if ws.len() == 1 {
        assert(j == ws[0]);
        assert(j.skip(ws[0].len() as int) =~= Seq::<char>::empty());
        assert(ws.drop_first() =~= Seq::<Seq<char>>::empty());
        assert(trim_v(Seq::<char>::empty()) =~= Seq::<char>::empty());
    } else {
        lemma_join_front(ws);
        assert(j.skip(ws[0].len() as int) =~= " "@ + rest);
        lemma_join_ends(ws.drop_first());
        assert(ws.drop_first()[0] == ws[1]);
        assert(plain_word_v(ws[1]));
        assert(ws.drop_first().last() == ws.last());
        lemma_trim_padded(rest);
    }
}

/// A date or time format that the written field instruction gives back:
/// non-empty, without whitespace or `"`.
pub open spec fn format_round_trips_v(fmt: Seq<char>) -> bool {
    fmt.len() > 0 && forall|i: int| 0 <= i < fmt.len() ==> !is_ws(#[trigger] fmt[i]) && fmt[i] != '"'
}

/// A field whose written instruction reads back as itself: any but a
/// custom field, with a format, if any, as [`format_round_trips_v`] says.
pub open spec fn field_round_trips_v(f: FieldRefV) -> bool {
    match f {
        FieldRefV::Custom { .. } => false,
        FieldRefV::Date { format: Some(x) } => format_round_trips_v(x),
        FieldRefV::Time { format: Some(x) } => format_round_trips_v(x),
        _ => true,
    }
}

proof fn lemma_name_word(h: Seq<char>)
    requires
        h.len() > 0,
        forall|i: int| 0 <= i < h.len() ==> 'A' <= #[trigger] h[i] <= 'Z',
    ensures
        plain_word_v(h),
        !"\\*"@.is_prefix_of(h),
        vstd::utf8::is_ascii_chars(h),
        ascii_upper_v(h) == h,
{
    reveal_strlit("\\*");
    assert(h[0] != "\\*"@[0]);
    assert(ascii_upper_v(h) =~= h);
    assert forall|i: int| 0 <= i < h.len() implies !is_ws(#[trigger] h[i]) by {
        assert('A' <= h[i] <= 'Z');
    }
}

proof fn lemma_switch_word(w: Seq<char>)
    requires
        w.len() == 2,
        w[0] == '\\',
        w[1] != '*',
        !is_ws(w[1]),
    ensures
        plain_word_v(w),
        !"\\*"@.is_prefix_of(w),
{
    reveal_strlit("\\*");
    assert(w[1] != "\\*"@[1]);
}

proof fn lemma_quoted_word(fmt: Seq<char>)
    requires
        format_round_trips_v(fmt),
    ensures
        plain_word_v("\""@ + fmt + "\""@),
        !"\\*"@.is_prefix_of("\""@ + fmt + "\""@),
        format_arg_v(seq!["\""@ + fmt + "\""@]) == fmt,
{
    reveal_strlit("\\*");
    reveal_strlit("\"");
    let q = "\""@ + fmt + "\""@;
    assert(q.len() == fmt.len() + 2);
    assert(q[0] == '"');
    assert(q[0] != "\\*"@[0]);
    assert forall|i: int| 0 <= i < q.len() implies !is_ws(#[trigger] q[i]) by {
        if 0 < i < q.len() - 1 {
            assert(q[i] == fmt[i - 1]);
        }
    }
    let ws = seq![q];
    assert(closes_quote_v(q, true));
    assert(quoted_span_v(ws, 0) == 1);
    assert(ws.take(1) =~= ws);
    assert(join_words_v(ws) == q);
    assert(q.drop_first() =~= fmt + "\""@);
    assert(fmt[0] != '"');
    assert((fmt + "\""@)[0] == fmt[0]);
    assert((fmt + "\""@).drop_last() =~= fmt);
    assert(trim_quotes_v(fmt + "\""@) == trim_quotes_v(fmt));
    assert(fmt.last() == fmt[fmt.len() - 1]);
    assert(trim_quotes_v(fmt) == fmt);
}

proof fn lemma_name_only(h: Seq<char>)
    requires
        h.len() > 0,
        forall|i: int| 0 <= i < h.len() ==> 'A' <= #[trigger] h[i] <= 'Z',
    ensures
        vstd::utf8::is_ascii_chars(h),
        ascii_upper_v(h) == h,
        " "@ + h + " "@ == " "@ + join_words_v(seq![h]) + " "@,
        instr_parts_v(" "@ + h + " "@) == (h, Seq::<char>::empty()),
        words_v(Seq::<char>::empty()) == Seq::<Seq<char>>::empty(),
{
    lemma_name_word(h);
    let ws = seq![h];
    assert(join_words_v(ws) == h);
    lemma_parts_of_padded(ws);
    assert(ws.drop_first() =~= Seq::<Seq<char>>::empty());
}

proof fn lemma_name_arg(h: Seq<char>, a: Seq<char>)
    requires
        h.len() > 0,
        forall|i: int| 0 <= i < h.len() ==> 'A' <= #[trigger] h[i] <= 'Z',
        plain_word_v(a),
        !"\\*"@.is_prefix_of(a),
    ensures
        vstd::utf8::is_ascii_chars(h),
        ascii_upper_v(h) == h,
        instr_parts_v(" "@ + h + " "@ + a + " "@) == (h, a),
        words_v(a) == seq![a],
{
    lemma_name_word(h);
    let ws = seq![h, a];
    assert(ws.drop_last() =~= seq![h]);
    assert(join_words_v(seq![h]) == h);
    assert(ws.last() == a);
    assert(join_words_v(ws) == h + " "@ + a);
    assert(ws.drop_first() =~= seq![a]);
    assert(join_words_v(seq![a]) == a);
    assert(join_words_v(ws.drop_first()) == a);
    lemma_parts_of_padded(ws);
    assert(" "@ + h + " "@ + a + " "@ =~= " "@ + join_words_v(ws) + " "@);
}

proof fn lemma_name_switch_arg(h: Seq<char>, sw: Seq<char>, a: Seq<char>)
    requires
        h.len() > 0,
        forall|i: int| 0 <= i < h.len() ==> 'A' <= #[trigger] h[i] <= 'Z',
        plain_word_v(sw),
        !"\\*"@.is_prefix_of(sw),
        plain_word_v(a),
        !"\\*"@.is_prefix_of(a),
    ensures
        vstd::utf8::is_ascii_chars(h),
        ascii_upper_v(h) == h,
        instr_parts_v(" "@ + h + " "@ + sw + " "@ + a + " "@) == (h, sw + " "@ + a),
        words_v(sw + " "@ + a) == seq![sw, a],
{
    lemma_name_word(h);
    let ws = seq![h, sw, a];
    assert(ws.drop_last() =~= seq![h, sw]);
    assert(seq![h, sw].drop_last() =~= seq![h]);
    assert(join_words_v(seq![h]) == h);
    assert(seq![h, sw].last() == sw);
    assert(join_words_v(seq![h, sw]) == h + " "@ + sw);
    assert(ws.last() == a);
    assert(join_words_v(ws) == h + " "@ + sw + " "@ + a);
    assert(ws.drop_first() =~= seq![sw, a]);
    assert(seq![sw, a].drop_last() =~= seq![sw]);
    assert(join_words_v(seq![sw]) == sw);
    assert(seq![sw, a].last() == a);
    assert(join_words_v(ws.drop_first()) == sw + " "@ + a);
    lemma_parts_of_padded(ws);
    assert(" "@ + h + " "@ + sw + " "@ + a + " "@ =~= " "@ + join_words_v(ws) + " "@);
}

/// Writing a field's instruction and reading it back gives the field again,
/// for every field but a custom one whose format, if any, is non-empty and
/// holds no whitespace or `"`. The written name is ASCII, so that reading
/// it upper-cases it letter by letter (see [`parse_field_instr`]).
pub proof fn lemma_field_instr_round_trip(f: FieldRefV)
    requires
        field_round_trips_v(f),
    ensures
        vstd::utf8::is_ascii_chars(instr_parts_v(crate::writer::field_instr_v(f)).0),
        field_instr_ascii_v(crate::writer::field_instr_v(f)) == Some(f),
{
    reveal_strlit(" PAGE ");
    reveal_strlit(" NUMPAGES ");
    reveal_strlit(" SECTIONPAGES ");
    reveal_strlit(" SECTION ");
    reveal_strlit(" DATE \\@ \"");
    reveal_strlit(" DATE ");
    reveal_strlit(" TIME \\@ \"");
    reveal_strlit(" TIME ");
    reveal_strlit(" AUTHOR ");
    reveal_strlit(" TITLE ");
    reveal_strlit(" FILENAME ");
    reveal_strlit(" FILENAME \\p ");
    reveal_strlit("\" ");
    reveal_strlit("PAGE");
    reveal_strlit("NUMPAGES");
    reveal_strlit("SECTIONPAGES");
    reveal_strlit("SECTION");
    reveal_strlit("DATE");
    reveal_strlit("TIME");
    reveal_strlit("AUTHOR");
    reveal_strlit("TITLE");
    reveal_strlit("FILENAME");
    reveal_strlit("\\@");
    reveal_strlit("\\p");
    reveal_strlit(" ");
    reveal_strlit("\"");
    assert("FILENAME"@[0] != "NUMPAGES"@[0]);
    assert("FILENAME"@ != "NUMPAGES"@);
    assert("DATE"@[0] != "PAGE"@[0]);
    assert("DATE"@ != "PAGE"@);
    assert("TIME"@[0] != "PAGE"@[0]);
    assert("TIME"@ != "PAGE"@);
    assert("TIME"@[0] != "DATE"@[0]);
    assert("TIME"@ != "DATE"@);
    let w = crate::writer::field_instr_v(f);
    match f {
        FieldRefV::Page => {
            assert(w =~= " "@ + "PAGE"@ + " "@);
            lemma_name_only("PAGE"@);
        },
        FieldRefV::NumPages => {
            assert(w =~= " "@ + "NUMPAGES"@ + " "@);
            lemma_name_only("NUMPAGES"@);
        },
        FieldRefV::SectionPages => {
            assert(w =~= " "@ + "SECTIONPAGES"@ + " "@);
            lemma_name_only("SECTIONPAGES"@);
        },
        FieldRefV::Section => {
            assert(w =~= " "@ + "SECTION"@ + " "@);
            lemma_name_only("SECTION"@);
        },
        FieldRefV::Author => {
            assert(w =~= " "@ + "AUTHOR"@ + " "@);
            lemma_name_only("AUTHOR"@);
        },
        FieldRefV::Title => {
            assert(w =~= " "@ + "TITLE"@ + " "@);
            lemma_name_only("TITLE"@);
        },
        FieldRefV::Filename { with_ext } => {
            if with_ext {
                assert(w =~= " "@ + "FILENAME"@ + " "@);
                lemma_name_only("FILENAME"@);
                assert(!has_word_v(Seq::<Seq<char>>::empty(), "\\p"@));
            } else {
                lemma_switch_word("\\p"@);
                assert(w =~= " "@ + "FILENAME"@ + " "@ + "\\p"@ + " "@);
                lemma_name_arg("FILENAME"@, "\\p"@);
                assert(seq!["\\p"@][0] == "\\p"@);
                assert(has_word_v(seq!["\\p"@], "\\p"@));
            }
        },
        FieldRefV::Date { format } => match format {
            None => {
                assert(w =~= " "@ + "DATE"@ + " "@);
                lemma_name_only("DATE"@);
            },
            Some(fmt) => {
                let q = "\""@ + fmt + "\""@;
                lemma_quoted_word(fmt);
                lemma_switch_word("\\@"@);
                assert(w =~= " "@ + "DATE"@ + " "@ + "\\@"@ + " "@ + q + " "@);
                lemma_name_switch_arg("DATE"@, "\\@"@, q);
                assert(seq!["\\@"@, q].drop_first() =~= seq![q]);
                assert(date_format_from_v(seq!["\\@"@, q]) == Some(format_arg_v(seq![q])));
            },
        },
        FieldRefV::Time { format } => match format {
            None => {
                assert(w =~= " "@ + "TIME"@ + " "@);
                lemma_name_only("TIME"@);
            },
            Some(fmt) => {
                let q = "\""@ + fmt + "\""@;
                lemma_quoted_word(fmt);
                lemma_switch_word("\\@"@);
                assert(w =~= " "@ + "TIME"@ + " "@ + "\\@"@ + " "@ + q + " "@);
                lemma_name_switch_arg("TIME"@, "\\@"@, q);
                assert(seq!["\\@"@, q].drop_first() =~= seq![q]);
                assert(date_format_from_v(seq!["\\@"@, q]) == Some(format_arg_v(seq![q])));
            },
        },
        FieldRefV::Custom { .. } => {},
    }
}

} // verus!
