//! The whole `document.xml` body: paragraphs with their section breaks,
//! tables and pictures anchored by marker paragraphs, container tables
//! holding their inner paragraphs, orphan tables, and the trailing section.

use vstd::prelude::*;
use crate::model::{
    default_section_v, TableRow, WordDocument, WordDocumentV, WordImage, WordImageV, WordParagraph,
    WordParagraphV, WordSection, WordSectionV, WordTable, WordTableV,
};
use crate::text::{
    chars_of, escape_xml, find, find_v, owned, parse_uint, parse_uint_v, starts_with, str_eq,
    string_of_range, strip_prefix, strip_prefix_v, strip_suffix, strip_suffix_v, spec_escape_xml,
};
use crate::styled_writer::{
    build_callout_close_xml, build_callout_container_xml, build_code_block_container_xml,
    build_styled_table_xml, callout_container_v, classify_and_strip, classify_v, code_container_v,
    at_least_one, cell_width, col_count_v, styled_table_xml_v, styled_widths_fit, TableKind, TableKindV,
};
use crate::writer::{
    body_sectpr_v, build_body_sectpr_xml, build_image_drawing_xml, build_paragraph_ppr_xml,
    build_table_xml, drawing_v, emit_inner_paragraph, emit_inner_paragraphs, inner_paras_v,
    opt_sect_v, para_content_v, plain_table_v, plain_widths_fit, ppr_v, push_para_content,
};

verus! {

/// The section a section-break marker paragraph closes: its id is
/// `__sect_break_<n>__` with `n` a decimal `usize`.
pub open spec fn sect_break_idx_v(id: Seq<char>) -> Option<nat> {
    match strip_prefix_v(id, "__sect_break_"@) {
        Some(rest) => match strip_suffix_v(rest, "__"@) {
            Some(digits) => parse_uint_v(digits, usize::MAX as nat),
            None => None,
        },
        None => None,
    }
}

/// Whether a paragraph is a section-break marker.
pub open spec fn is_sect_marker_v(p: WordParagraphV) -> bool {
    sect_break_idx_v(p.id) is Some
}

/// If `p` is a section-break marker, the index of the section it closes.
pub fn section_break_section_idx(p: &WordParagraph) -> (r: Option<usize>)
    ensures
        match sect_break_idx_v(p@.id) {
            Some(n) => r == Some(n as usize),
            None => r is None,
        },
{
    match strip_prefix(p.id.as_str(), "__sect_break_") {
        Some(rest) => match strip_suffix(rest.as_str(), "__") {
            Some(digits) => match parse_uint(digits.as_str(), usize::MAX as u64) {
                Some(n) => Some(n as usize),
                None => None,
            },
            None => None,
        },
        None => None,
    }
}

/// The number of section-break markers among the first `i` paragraphs.
pub open spec fn markers_before_v(ps: Seq<WordParagraphV>, i: int) -> nat
    decreases i,
{
    if i <= 0 {
        0
    } else {
        markers_before_v(ps, i - 1) + if is_sect_marker_v(ps[i - 1]) { 1nat } else { 0nat }
    }
}

/// The positions of the section-break markers among the first `k` paragraphs.
pub open spec fn marker_indices_v(ps: Seq<WordParagraphV>, k: int) -> Seq<int>
    decreases k,
{
    if k <= 0 {
        Seq::empty()
    } else {
        marker_indices_v(ps, k - 1) + if is_sect_marker_v(ps[k - 1]) { seq![k - 1] } else { Seq::empty() }
    }
}

proof fn lemma_marker_indices_len(ps: Seq<WordParagraphV>, k: int)
    ensures
        marker_indices_v(ps, k).len() == markers_before_v(ps, k),
    decreases k,
{
    if k > 0 {
        lemma_marker_indices_len(ps, k - 1);
    }
}

/// The positions of the section-break markers, when the document has more
/// than one section; none otherwise.
pub fn collect_section_breaks(paragraphs: &Vec<WordParagraph>, section_count: usize) -> (r: Vec<usize>)
    ensures
        section_count <= 1 ==> r@.len() == 0,
        section_count > 1 ==> r@.len() == marker_indices_v(paragraphs.deep_view(), paragraphs@.len() as int).len()
            && forall|j: int| 0 <= j < r@.len() ==> r@[j] as int == #[trigger] marker_indices_v(
                paragraphs.deep_view(),
                paragraphs@.len() as int,
            )[j],
        r@.len() == (if section_count <= 1 { 0 } else { markers_before_v(paragraphs.deep_view(), paragraphs@.len() as int) }),
{
    let mut breaks: Vec<usize> = Vec::new();
    if section_count <= 1 {
        return breaks;
    }
    let ghost ps = paragraphs.deep_view();
    let mut i: usize = 0;
    while i < paragraphs.len()
        invariant
            i <= paragraphs@.len(),
            ps == paragraphs.deep_view(),
            breaks@.len() == marker_indices_v(ps, i as int).len(),
            forall|j: int| 0 <= j < breaks@.len() ==> breaks@[j] as int == #[trigger] marker_indices_v(ps, i as int)[j],
        decreases paragraphs@.len() - i,
    {
        assert(ps[i as int] == paragraphs@[i as int]@);
        if section_break_section_idx(&paragraphs[i]).is_some() {
            breaks.push(i);
        }
        i = i + 1;
    }
    proof {
        lemma_marker_indices_len(ps, ps.len() as int);
    }
    breaks
}

/// Whether a paragraph ends the run of paragraphs a container table takes
/// in: a table or picture marker, or a section-break marker id.
pub open spec fn is_stop_v(p: WordParagraphV) -> bool {
    "<__tbl_pos_"@.is_prefix_of(p.text) || "<__img_pos_"@.is_prefix_of(p.text) || "__sect_break_"@.is_prefix_of(
        p.id,
    )
}

/// The number of paragraphs from `start` on up to the next stop paragraph.
pub open spec fn count_inner_v(ps: Seq<WordParagraphV>, start: int) -> nat
    decreases ps.len() - start,
{
    if start < 0 || start >= ps.len() || is_stop_v(ps[start]) {
        0
    } else {
        1 + count_inner_v(ps, start + 1)
    }
}

pub proof fn lemma_count_inner_bound(ps: Seq<WordParagraphV>, start: int)
    requires
        0 <= start,
    ensures
        start + count_inner_v(ps, start) <= (if start <= ps.len() { ps.len() as int } else { start }),
    decreases ps.len() - start,
{
    if start < ps.len() && !is_stop_v(ps[start]) {
        lemma_count_inner_bound(ps, start + 1);
    }
}

fn is_stop(p: &WordParagraph) -> (r: bool)
    ensures
        r == is_stop_v(p@),
{
    starts_with(p.text.as_str(), "<__tbl_pos_") || starts_with(p.text.as_str(), "<__img_pos_") || starts_with(
        p.id.as_str(),
        "__sect_break_",
    )
}

/// The number of body paragraphs after a container marker that belong in
/// the container's cell.
pub fn count_callout_inner_paragraphs(doc: &WordDocument, start_idx: usize) -> (r: usize)
    ensures
        r as nat == count_inner_v(doc@.paragraphs, start_idx as int),
        start_idx <= doc@.paragraphs.len() ==> start_idx + r <= doc@.paragraphs.len(),
{
    let ghost ps = doc@.paragraphs;
    let mut i = start_idx;
    while i < doc.paragraphs.len()
        invariant
            start_idx <= i,
            ps == doc@.paragraphs,
            ps.len() == doc.paragraphs@.len(),
            count_inner_v(ps, start_idx as int) == (i - start_idx) + count_inner_v(ps, i as int),
        ensures
            start_idx <= i,
            count_inner_v(ps, start_idx as int) == (i - start_idx) + count_inner_v(ps, i as int),
            count_inner_v(ps, i as int) == 0,
        decreases doc.paragraphs@.len() - i,
    {
        assert(ps[i as int] == doc.paragraphs@[i as int]@);
        if is_stop(&doc.paragraphs[i]) {
            break;
        }
        i = i + 1;
    }
    proof {
        lemma_count_inner_bound(ps, start_idx as int);
    }
    i - start_idx
}

/// Appends the body paragraphs after a container marker, up to the next
/// stop paragraph, inside the container's open cell; returns their number.
pub fn emit_callout_inner_paragraphs(xml: &mut String, doc: &WordDocument, start_idx: usize) -> (consumed: usize)
    requires
        start_idx <= doc@.paragraphs.len(),
    ensures
        consumed as nat == count_inner_v(doc@.paragraphs, start_idx as int),
        start_idx + consumed <= doc@.paragraphs.len(),
        final(xml)@ == old(xml)@ + inner_paras_v(
            doc@.paragraphs.subrange(start_idx as int, start_idx + consumed),
        ),
{
    let n = count_callout_inner_paragraphs(doc, start_idx);
    let total = doc.paragraphs.len();
    let ghost ps = doc@.paragraphs;
    let mut k: usize = 0;
    while k < n
        invariant
            k <= n,
            start_idx + n <= ps.len(),
            total == ps.len(),
            ps == doc@.paragraphs,
            ps.len() == doc.paragraphs@.len(),
            xml@ == old(xml)@ + inner_paras_v(ps.subrange(start_idx as int, start_idx + k)),
        decreases n - k,
    {
        let ghost before = xml@;
        emit_inner_paragraph(xml, &doc.paragraphs[start_idx + k]);
        proof {
            let t = ps.subrange(start_idx as int, start_idx + k + 1);
            assert(t.drop_last() =~= ps.subrange(start_idx as int, start_idx + k));
            assert(t.last() == doc.paragraphs@[start_idx + k]@);
        }
        k = k + 1;
    }
    n
}


/// The id a table-position marker text `<__tbl_pos_<id>__>` names.
pub open spec fn tbl_marker_v(text: Seq<char>) -> Option<Seq<char>> {
    match strip_prefix_v(text, "<__tbl_pos_"@) {
        Some(rest) => match find_v(rest, "__>"@) {
            Some(end) => Some(rest.take(end as int)),
            None => None,
        },
        None => None,
    }
}

/// The id a picture-position marker text `<__img_pos_<id>__>` names.
pub open spec fn img_marker_v(text: Seq<char>) -> Option<Seq<char>> {
    match strip_prefix_v(text, "<__img_pos_"@) {
        Some(rest) => match find_v(rest, "__>"@) {
            Some(end) => Some(rest.take(end as int)),
            None => None,
        },
        None => None,
    }
}

pub(crate) fn marker_id(text: &str, prefix: &str) -> (r: Option<String>)
    ensures
        r.deep_view() == match strip_prefix_v(text@, prefix@) {
            Some(rest) => match find_v(rest, "__>"@) {
                Some(end) => Some(rest.take(end as int)),
                None => None,
            },
            None => None,
        },
{
    let sp = strip_prefix(text, prefix);
    match sp {
        Some(rest) => {
            assert(strip_prefix_v(text@, prefix@) == Some(rest@));
            match find(rest.as_str(), "__>") {
                Some(end) => {
                    let rv = chars_of(rest.as_str());
                    let id = string_of_range(rv.as_slice(), 0, end);
                    assert(id@ =~= rest@.take(end as int));
                    let r = Some(id);
                    assert(r.deep_view() == Some(id@));
                    assert(find_v(rest@, "__>"@) == Some(end as nat));
                    r
                },
                None => {
                    assert(find_v(rest@, "__>"@) is None);
                    None
                },
            }
        },
        None => None,
    }
}

/// The position of the last table with id `id` (later tables shadow earlier ones).
pub open spec fn last_table_with_id(ts: Seq<WordTableV>, id: Seq<char>) -> Option<int>
    decreases ts.len(),
{
    if ts.len() == 0 {
        None
    } else if ts.last().id == id {
        Some(ts.len() - 1)
    } else {
        last_table_with_id(ts.drop_last(), id)
    }
}

/// The position of the last picture with id `id`.
pub open spec fn last_image_with_id(ims: Seq<WordImageV>, id: Seq<char>) -> Option<int>
    decreases ims.len(),
{
    if ims.len() == 0 {
        None
    } else if ims.last().id == id {
        Some(ims.len() - 1)
    } else {
        last_image_with_id(ims.drop_last(), id)
    }
}

pub proof fn lemma_last_table_in_range(ts: Seq<WordTableV>, id: Seq<char>)
    ensures
        last_table_with_id(ts, id) matches Some(i) ==> 0 <= i < ts.len() && ts[i].id == id,
    decreases ts.len(),
{
    if ts.len() > 0 {
        lemma_last_table_in_range(ts.drop_last(), id);
    }
}

pub proof fn lemma_last_image_in_range(ims: Seq<WordImageV>, id: Seq<char>)
    ensures
        last_image_with_id(ims, id) matches Some(i) ==> 0 <= i < ims.len() && ims[i].id == id,
    decreases ims.len(),
{
    if ims.len() > 0 {
        lemma_last_image_in_range(ims.drop_last(), id);
    }
}

pub(crate) fn find_table(tables: &Vec<WordTable>, id: &str) -> (r: Option<usize>)
    ensures
        match last_table_with_id(tables.deep_view(), id@) {
            Some(i) => r matches Some(j) && j as int == i,
            None => r is None,
        },
        r matches Some(i) ==> i < tables@.len(),
{
    let ghost ts = tables.deep_view();
    let mut found: Option<usize> = None;
    let mut i: usize = 0;
    while i < tables.len()
        invariant
            i <= tables@.len(),
            ts == tables.deep_view(),
            match last_table_with_id(ts.take(i as int), id@) {
                Some(j) => found matches Some(k) && k as int == j,
                None => found is None,
            },
            found matches Some(j) ==> j < i,
        decreases tables@.len() - i,
    {
        assert(ts.take(i + 1).drop_last() =~= ts.take(i as int));
        assert(ts.take(i + 1).last() == tables@[i as int]@);
        if str_eq(tables[i].id.as_str(), id) {
            found = Some(i);
        }
        i = i + 1;
    }
    assert(ts.take(ts.len() as int) =~= ts);
    found
}

pub(crate) fn find_image(images: &Vec<WordImage>, id: &str) -> (r: Option<usize>)
    ensures
        match last_image_with_id(images.deep_view(), id@) {
            Some(i) => r matches Some(j) && j as int == i,
            None => r is None,
        },
        r matches Some(i) ==> i < images@.len(),
{
    let ghost ims = images.deep_view();
    let mut found: Option<usize> = None;
    let mut i: usize = 0;
    while i < images.len()
        invariant
            i <= images@.len(),
            ims == images.deep_view(),
            match last_image_with_id(ims.take(i as int), id@) {
                Some(j) => found matches Some(k) && k as int == j,
                None => found is None,
            },
            found matches Some(j) ==> j < i,
        decreases images@.len() - i,
    {
        assert(ims.take(i + 1).drop_last() =~= ims.take(i as int));
        assert(ims.take(i + 1).last() == images@[i as int]@);
        if str_eq(images[i].id.as_str(), id) {
            found = Some(i);
        }
        i = i + 1;
    }
    assert(ims.take(ims.len() as int) =~= ims);
    found
}

/// The sections the document is laid out in: its own, or the default
/// section when it has none.
pub open spec fn sections_of_v(d: WordDocumentV) -> Seq<WordSectionV> {
    if d.sections.len() == 0 { seq![default_section_v()] } else { d.sections }
}

/// Whether the section-break markers place the paragraphs: more than one
/// section, and exactly one marker per section but the last.
pub open spec fn uses_markers_v(d: WordDocumentV) -> bool {
    let t = sections_of_v(d).len();
    t > 1 && markers_before_v(d.paragraphs, d.paragraphs.len() as int) + 1 == t
}

/// The section paragraph `i` belongs to: with markers, the number of markers
/// before it (capped at the last section); without, the last section.
pub open spec fn assign_v(d: WordDocumentV, i: int) -> nat {
    let t = sections_of_v(d).len();
    if uses_markers_v(d) {
        let m = markers_before_v(d.paragraphs, i);
        if m < t - 1 { m } else { (t - 1) as nat }
    } else {
        (t - 1) as nat
    }
}

fn section_at<'a>(doc: &'a WordDocument, dflt: &'a WordSection, i: usize) -> (r: &'a WordSection)
    requires
        dflt@ == default_section_v(),
        i < sections_of_v(doc@).len(),
    ensures
        r@ == sections_of_v(doc@)[i as int],
{
    if doc.sections.len() == 0 {
        dflt
    } else {
        assert(doc@.sections[i as int] == doc.sections@[i as int]@);
        &doc.sections[i]
    }
}

fn assign_sections(doc: &WordDocument) -> (r: Vec<usize>)
    ensures
        r@.len() == doc@.paragraphs.len(),
        forall|i: int| 0 <= i < r@.len() ==> r@[i] as nat == #[trigger] assign_v(doc@, i),
{
    let ghost d = doc@;
    let ghost ps = d.paragraphs;
    let total: usize = if doc.sections.len() == 0 { 1 } else { doc.sections.len() };
    let breaks = collect_section_breaks(&doc.paragraphs, doc.sections.len());
    let n = doc.paragraphs.len();
    let mut out: Vec<usize> = Vec::new();
    let by_markers = total > 1 && breaks.len() == total - 1;
    assert(by_markers == uses_markers_v(d));
    let mut current: usize = 0;
    let mut i: usize = 0;
    while i < n
        invariant
            i <= n,
            n == ps.len(),
            d == doc@,
            ps == d.paragraphs,
            total as nat == sections_of_v(d).len(),
            total >= 1,
            by_markers == uses_markers_v(d),
            current as nat == (if markers_before_v(ps, i as int) < total - 1 { markers_before_v(ps, i as int) } else { (total - 1) as nat }),
            out@.len() == i,
            forall|j: int| 0 <= j < out@.len() ==> out@[j] as nat == #[trigger] assign_v(d, j),
        decreases n - i,
    {
        if by_markers {
            out.push(current);
        } else {
            out.push(total - 1);
        }
        assert(ps[i as int] == doc.paragraphs@[i as int]@);
        if section_break_section_idx(&doc.paragraphs[i]).is_some() {
            if current + 1 < total {
                current = current + 1;
            } else {
                current = total - 1;
            }
        }
        i = i + 1;
    }
    out
}


/// The paragraph standing for an anchored table.
pub open spec fn tbl_anchor_v(id: Seq<char>) -> Seq<char> {
    "\n    <w:p>"@ + "<w:pPr><inkuo:id w:val=\"__tbl_pos_"@ + spec_escape_xml(id) + "__\"/></w:pPr>"@ + "</w:p>"@
}

/// The paragraph carrying an anchored picture.
pub open spec fn img_anchor_v(id: Seq<char>, img: WordImageV) -> Seq<char> {
    "\n    <w:p>"@ + "<w:pPr><inkuo:id w:val=\"__img_pos_"@ + spec_escape_xml(id) + "__\"/></w:pPr>"@ + drawing_v(img)
        + "</w:p>"@
}

/// The paragraphs inside a container anchored at `idx`: those recovered
/// with the table when it has any, else the body paragraphs that follow
/// the anchor up to the next stop paragraph.
pub open spec fn container_inner_v(d: WordDocumentV, idx: int, t: WordTableV) -> Seq<char> {
    if t.cell_paragraphs.len() == 0 {
        inner_paras_v(d.paragraphs.subrange(idx + 1, idx + 1 + count_inner_v(d.paragraphs, idx + 1)))
    } else {
        inner_paras_v(t.cell_paragraphs)
    }
}

/// What an anchored table renders to, and how many following body
/// paragraphs it takes in.
pub open spec fn table_step_v(d: WordDocumentV, idx: int, tid: Seq<char>, t: WordTableV) -> (Seq<char>, nat) {
    let a = tbl_anchor_v(tid);
    let c = classify_v(t.rows);
    match c.0 {
        TableKindV::Styled(st) => (a + styled_table_xml_v(c.1, st), 0),
        TableKindV::Callout { bg, accent } => (
            a + callout_container_v(bg, accent) + container_inner_v(d, idx, t) + "</w:tc></w:tr></w:tbl>"@,
            count_inner_v(d.paragraphs, idx + 1),
        ),
        TableKindV::Code { bg } => (
            a + code_container_v(bg) + container_inner_v(d, idx, t) + "</w:tc></w:tr></w:tbl>"@,
            count_inner_v(d.paragraphs, idx + 1),
        ),
        TableKindV::Plain => (a + plain_table_v(t.rows, false), 0),
    }
}

/// Whether paragraph `idx` is the last of a section that is not the last one.
pub open spec fn closes_section_v(d: WordDocumentV, idx: int) -> bool {
    let si = assign_v(d, idx);
    si + 1 < sections_of_v(d).len() && idx + 1 < d.paragraphs.len() && assign_v(d, idx + 1) != si
}

/// An ordinary body paragraph, carrying the section properties of the
/// section it closes.
pub open spec fn regular_para_v(d: WordDocumentV, idx: int) -> Seq<char> {
    let p = d.paragraphs[idx];
    "\n    <w:p>"@ + ppr_v(
        p,
        if closes_section_v(d, idx) { Some(sections_of_v(d)[assign_v(d, idx) as int]) } else { None },
    ) + para_content_v(p) + "</w:p>"@
}

/// What body paragraph `idx` renders to, how many following paragraphs it
/// takes in, and the id of the table it places, if any.
#[verifier::opaque]
pub open spec fn step_v(d: WordDocumentV, idx: int) -> (Seq<char>, nat, Option<Seq<char>>) {
    let p = d.paragraphs[idx];
    let tm = tbl_marker_v(p.text);
    let tl = match tm {
        Some(tid) => last_table_with_id(d.tables, tid),
        None => None,
    };
    let im = img_marker_v(p.text);
    let il = match im {
        Some(iid) => last_image_with_id(d.images, iid),
        None => None,
    };
    if tm is Some && tl is Some {
        let r = table_step_v(d, idx, tm->0, d.tables[tl->0]);
        (r.0, r.1, Some(tm->0))
    } else if im is Some && il is Some {
        (img_anchor_v(im->0, d.images[il->0]), 0, None)
    } else if sect_break_idx_v(p.id) is Some && sect_break_idx_v(p.id)->0 < sections_of_v(d).len() {
        (
            "\n    <w:p>"@ + ppr_v(p, Some(sections_of_v(d)[sect_break_idx_v(p.id)->0 as int])) + "</w:p>"@,
            0,
            None,
        )
    } else {
        (regular_para_v(d, idx), 0, None)
    }
}

pub proof fn lemma_step_extra(d: WordDocumentV, idx: int)
    requires
        0 <= idx < d.paragraphs.len(),
    ensures
        idx + 1 + step_v(d, idx).1 <= d.paragraphs.len(),
{
    reveal(step_v);
    lemma_count_inner_bound(d.paragraphs, idx + 1);
}

proof fn lemma_step_table(d: WordDocumentV, idx: int, tid: Seq<char>, ti: int)
    requires
        0 <= idx < d.paragraphs.len(),
        tbl_marker_v(d.paragraphs[idx].text) == Some(tid),
        last_table_with_id(d.tables, tid) == Some(ti),
    ensures
        step_v(d, idx) == (table_step_v(d, idx, tid, d.tables[ti]).0, table_step_v(d, idx, tid, d.tables[ti]).1, Some(tid)),
{
    reveal(step_v);
}

proof fn lemma_step_image(d: WordDocumentV, idx: int, iid: Seq<char>, ii: int)
    requires
        0 <= idx < d.paragraphs.len(),
        tbl_marker_v(d.paragraphs[idx].text) matches Some(tid) ==> last_table_with_id(d.tables, tid) is None,
        img_marker_v(d.paragraphs[idx].text) == Some(iid),
        last_image_with_id(d.images, iid) == Some(ii),
    ensures
        step_v(d, idx) == (img_anchor_v(iid, d.images[ii]), 0nat, None::<Seq<char>>),
{
    reveal(step_v);
}

proof fn lemma_step_break(d: WordDocumentV, idx: int, b: nat)
    requires
        0 <= idx < d.paragraphs.len(),
        tbl_marker_v(d.paragraphs[idx].text) matches Some(tid) ==> last_table_with_id(d.tables, tid) is None,
        img_marker_v(d.paragraphs[idx].text) matches Some(iid) ==> last_image_with_id(d.images, iid) is None,
        sect_break_idx_v(d.paragraphs[idx].id) == Some(b),
        b < sections_of_v(d).len(),
    ensures
        step_v(d, idx) == (
            "\n    <w:p>"@ + ppr_v(d.paragraphs[idx], Some(sections_of_v(d)[b as int])) + "</w:p>"@,
            0nat,
            None::<Seq<char>>,
        ),
{
    reveal(step_v);
}

proof fn lemma_step_regular(d: WordDocumentV, idx: int)
    requires
        0 <= idx < d.paragraphs.len(),
        tbl_marker_v(d.paragraphs[idx].text) matches Some(tid) ==> last_table_with_id(d.tables, tid) is None,
        img_marker_v(d.paragraphs[idx].text) matches Some(iid) ==> last_image_with_id(d.images, iid) is None,
        sect_break_idx_v(d.paragraphs[idx].id) matches Some(b) ==> b >= sections_of_v(d).len(),
    ensures
        step_v(d, idx) == (regular_para_v(d, idx), 0nat, None::<Seq<char>>),
{
    reveal(step_v);
}

/// The body from paragraph `idx` on, given the ids of the tables already
/// placed; also the ids placed by the end.
pub open spec fn body_from_v(d: WordDocumentV, idx: int, em: Seq<Seq<char>>) -> (Seq<char>, Seq<Seq<char>>)
    decreases d.paragraphs.len() - idx,
{
    if idx < 0 || idx >= d.paragraphs.len() {
        (Seq::empty(), em)
    } else {
        let st = step_v(d, idx);
        let em2 = match st.2 {
            Some(tid) => em.push(tid),
            None => em,
        };
        proof {
            lemma_step_extra(d, idx);
        }
        let rest = body_from_v(d, idx + 1 + st.1, em2);
        (st.0 + rest.0, rest.1)
    }
}

/// A table no marker placed, rendered after the body paragraphs (a
/// container renders empty).
pub open spec fn orphan_v(t: WordTableV) -> Seq<char> {
    let c = classify_v(t.rows);
    match c.0 {
        TableKindV::Styled(st) => styled_table_xml_v(c.1, st),
        TableKindV::Callout { bg, accent } => callout_container_v(bg, accent) + "</w:tc></w:tr></w:tbl>"@,
        TableKindV::Code { bg } => code_container_v(bg) + "</w:tc></w:tr></w:tbl>"@,
        TableKindV::Plain => plain_table_v(t.rows, false),
    }
}

/// The first `k` tables that no marker placed, in order.
pub open spec fn orphans_v(ts: Seq<WordTableV>, em: Seq<Seq<char>>, k: nat) -> Seq<char>
    decreases k,
{
    if k == 0 {
        Seq::empty()
    } else {
        orphans_v(ts, em, (k - 1) as nat) + if em.contains(ts[k - 1].id) { Seq::empty() } else { orphan_v(ts[k - 1]) }
    }
}

/// The cell widths of a table, as it will be rendered, fit in `u32`.
pub open spec fn table_fits_v(t: WordTableV) -> bool {
    let c = classify_v(t.rows);
    match c.0 {
        TableKindV::Styled(_) => styled_widths_fit(c.1),
        TableKindV::Plain => plain_widths_fit(t.rows),
        _ => true,
    }
}

/// The cell widths of every table of a document fit in `u32`.
pub open spec fn doc_fits_v(d: WordDocumentV) -> bool {
    forall|i: int| 0 <= i < d.tables.len() ==> table_fits_v(#[trigger] d.tables[i])
}

/// Twips per column of a table of `n` columns: the styled layout when
/// `styled`, else the plain 1440.
pub open spec fn column_width_v(styled: bool, n: nat, c: int) -> nat {
    if styled { cell_width(n, c) } else { 1440 }
}

fn column_width(styled: bool, n: usize, c: usize) -> (w: u64)
    ensures
        w as nat == column_width_v(styled, n as nat, c as int),
        w <= 9360,
{
    if !styled {
        1440
    } else if n == 2 {
        if c == 0 { 2304 } else { 7056 }
    } else if n == 3 {
        if c == 0 { 2304 } else if c == 1 { 3024 } else { 4032 }
    } else if n == 0 {
        9360
    } else {
        9360 / (n as u64)
    }
}

fn spans_fit(rows: &Vec<TableRow>, styled: bool) -> (r: bool)
    ensures
        r == (if styled { styled_widths_fit(rows.deep_view()) } else { plain_widths_fit(rows.deep_view()) }),
{
    let ghost rv = rows.deep_view();
    let n: usize = if rows.len() == 0 { 0 } else { rows[0].cells.len() };
    assert(n as nat == col_count_v(rv));
    let mut ri: usize = 0;
    while ri < rows.len()
        invariant
            ri <= rv.len(),
            rv == rows.deep_view(),
            n as nat == col_count_v(rv),
            forall|r: int, c: int|
                0 <= r < ri && 0 <= c < rv[r].cells.len() ==>
                    column_width_v(styled, n as nat, c) * ((at_least_one(#[trigger] rv[r].cells[c].col_span) as u32) as nat) <= u32::MAX,
        decreases rv.len() - ri,
    {
        let row = &rows[ri];
        assert(rv[ri as int] == row.deep_view());
        let mut ci: usize = 0;
        while ci < row.cells.len()
            invariant
                ri < rv.len(),
                ci <= rv[ri as int].cells.len(),
                rv == rows.deep_view(),
                rv[ri as int] == row.deep_view(),
                n as nat == col_count_v(rv),
                forall|r: int, c: int|
                    0 <= r < ri && 0 <= c < rv[r].cells.len() ==>
                        column_width_v(styled, n as nat, c) * ((at_least_one(#[trigger] rv[r].cells[c].col_span) as u32) as nat) <= u32::MAX,
                forall|c: int|
                    0 <= c < ci ==>
                        column_width_v(styled, n as nat, c) * ((at_least_one(#[trigger] rv[ri as int].cells[c].col_span) as u32) as nat) <= u32::MAX,
            decreases rv[ri as int].cells.len() - ci,
        {
            let raw = row.cells[ci].col_span;
            assert(raw == rv[ri as int].cells[ci as int].col_span);
            let span: usize = if raw < 1 { 1 } else { raw };
            let span32 = span as u32;
            let w = column_width(styled, n, ci);
            let s64 = span32 as u64;
            assert(w * s64 <= 9360 * 4294967295) by (nonlinear_arith)
                requires
                    w <= 9360,
                    s64 <= 4294967295,
            ;
            if w * s64 > 4294967295 {
                proof {
                    assert(column_width_v(styled, n as nat, ci as int) * ((at_least_one(rv[ri as int].cells[ci as int].col_span) as u32) as nat) > u32::MAX);
                }
                return false;
            }
            ci = ci + 1;
        }
        ri = ri + 1;
    }
    true
}

/// Whether the cell widths of `t`, as it will be rendered, fit in `u32`.
pub fn table_fits(t: &WordTable) -> (r: bool)
    ensures
        r == table_fits_v(t@),
{
    let (kind, body) = classify_and_strip(t.rows.as_slice());
    match kind {
        TableKind::Styled(_) => spans_fit(&body, true),
        TableKind::Plain => spans_fit(&t.rows, false),
        _ => true,
    }
}

/// Whether the cell widths of every table of `doc` fit in `u32`, which the
/// writers need.
pub fn doc_fits(doc: &WordDocument) -> (r: bool)
    ensures
        r == doc_fits_v(doc@),
{
    let mut i: usize = 0;
    while i < doc.tables.len()
        invariant
            i <= doc@.tables.len(),
            forall|k: int| 0 <= k < i ==> table_fits_v(#[trigger] doc@.tables[k]),
        decreases doc@.tables.len() - i,
    {
        assert(doc@.tables[i as int] == doc.tables[i as int]@);
        if !table_fits(&doc.tables[i]) {
            return false;
        }
        i = i + 1;
    }
    true
}

/// The XML declaration, the `<w:document>` element with its namespaces, and
/// the opening of the body.
pub open spec fn doc_head_v() -> Seq<char> {
    "<?xml version=\"1.0\" encoding=\"UTF-8\" standalone=\"yes\"?>\n<w:document xmlns:w=\"http://schemas.openxmlformats.org/wordprocessingml/2006/main\"\n            xmlns:r=\"http://schemas.openxmlformats.org/officeDocument/2006/relationships\"\n            xmlns:wp=\"http://schemas.openxmlformats.org/drawingml/2006/wordprocessingDrawing\"\n            xmlns:a=\"http://schemas.openxmlformats.org/drawingml/2006/main\"\n            xmlns:pic=\"http://schemas.openxmlformats.org/drawingml/2006/picture\"\n            xmlns:inkuo=\"http://inkuo.app/wordprocessingml/2026/main\">\n  <w:body>"@
}

/// The whole `document.xml`: head, body paragraphs, orphan tables, the
/// trailing section properties of the last section, and the closing tags.
pub open spec fn document_xml_v(d: WordDocumentV) -> Seq<char> {
    let body = body_from_v(d, 0, Seq::empty());
    doc_head_v() + body.0 + orphans_v(d.tables, body.1, d.tables.len()) + body_sectpr_v(sections_of_v(d).last())
        + "\n  </w:body>\n</w:document>"@
}


fn render_container_inner(xml: &mut String, doc: &WordDocument, idx: usize, t: &WordTable) -> (extra: usize)
    requires
        idx < doc@.paragraphs.len(),
    ensures
        final(xml)@ == old(xml)@ + container_inner_v(doc@, idx as int, t@),
        extra as nat == count_inner_v(doc@.paragraphs, idx + 1),
        idx + 1 + extra <= doc@.paragraphs.len(),
{
    let n = doc.paragraphs.len();
    if t.cell_paragraphs.len() == 0 {
        emit_callout_inner_paragraphs(xml, doc, idx + 1)
    } else {
        emit_inner_paragraphs(xml, &t.cell_paragraphs);
        count_callout_inner_paragraphs(doc, idx + 1)
    }
}

#[verifier::rlimit(60)]
fn render_table_anchor(xml: &mut String, doc: &WordDocument, idx: usize, tid: &str, t: &WordTable) -> (extra: usize)
    requires
        idx < doc@.paragraphs.len(),
        table_fits_v(t@),
    ensures
        final(xml)@ == old(xml)@ + table_step_v(doc@, idx as int, tid@, t@).0,
        extra as nat == table_step_v(doc@, idx as int, tid@, t@).1,
        idx + 1 + extra <= doc@.paragraphs.len(),
{
    let ghost o0 = xml@;
    xml.append("\n    <w:p>");
    xml.append("<w:pPr><inkuo:id w:val=\"__tbl_pos_");
    let e = escape_xml(tid);
    xml.append(e.as_str());
    xml.append("__\"/></w:pPr>");
    xml.append("</w:p>");
    assert(xml@ =~= o0 + tbl_anchor_v(tid@));
    let ghost o1 = xml@;
    let rs = t.rows.as_slice();
    let (kind, body_rows) = classify_and_strip(rs);
    proof {
        assert(rs.deep_view() =~= t@.rows);
    }
    match kind {
        TableKind::Styled(style) => {
            let x = build_styled_table_xml(t.id.as_str(), body_rows.as_slice(), &style);
            xml.append(x.as_str());
            0
        },
        TableKind::Callout { bg, accent } => {
            let open = build_callout_container_xml(bg.as_str(), accent.as_str());
            xml.append(open.as_str());
            let extra = render_container_inner(xml, doc, idx, t);
            let close = build_callout_close_xml();
            xml.append(close.as_str());
            extra
        },
        TableKind::Code { bg } => {
            let open = build_code_block_container_xml(bg.as_str());
            xml.append(open.as_str());
            let extra = render_container_inner(xml, doc, idx, t);
            let close = build_callout_close_xml();
            xml.append(close.as_str());
            extra
        },
        TableKind::Plain => {
            let x = build_table_xml(t.id.as_str(), &t.rows, None);
            xml.append(x.as_str());
            0
        },
    }
}

#[verifier::rlimit(60)]
fn render_regular(xml: &mut String, doc: &WordDocument, dflt: &WordSection, assign: &Vec<usize>, idx: usize)
    requires
        idx < doc@.paragraphs.len(),
        dflt@ == default_section_v(),
        assign@.len() == doc@.paragraphs.len(),
        forall|i: int| 0 <= i < assign@.len() ==> assign@[i] as nat == #[trigger] assign_v(doc@, i),
    ensures
        final(xml)@ == old(xml)@ + regular_para_v(doc@, idx as int),
{
    let total: usize = if doc.sections.len() == 0 { 1 } else { doc.sections.len() };
    let n = doc.paragraphs.len();
    let para = &doc.paragraphs[idx];
    assert(doc@.paragraphs[idx as int] == para@);
    let si = assign[idx];
    assert(si as nat == assign_v(doc@, idx as int));
    let closes = si < total - 1 && idx + 1 < doc.paragraphs.len() && assign[idx + 1] != si;
    assert(closes == closes_section_v(doc@, idx as int));
    xml.append("\n    <w:p>");
    if closes {
        let sect = section_at(doc, dflt, si);
        let ppr = build_paragraph_ppr_xml(para, Some(sect));
        xml.append(ppr.as_str());
    } else {
        let ppr = build_paragraph_ppr_xml(para, None);
        xml.append(ppr.as_str());
    }
    push_para_content(xml, para);
    xml.append("</w:p>");
    assert(xml@ =~= old(xml)@ + regular_para_v(doc@, idx as int));
}

fn render_image_anchor(xml: &mut String, iid: &str, img: &WordImage)
    ensures
        final(xml)@ == old(xml)@ + img_anchor_v(iid@, img@),
{
    let ghost o0 = xml@;
    xml.append("\n    <w:p>");
    xml.append("<w:pPr><inkuo:id w:val=\"__img_pos_");
    let e = escape_xml(iid);
    xml.append(e.as_str());
    xml.append("__\"/></w:pPr>");
    let dr = build_image_drawing_xml(img);
    xml.append(dr.as_str());
    xml.append("</w:p>");
    assert(xml@ =~= o0 + img_anchor_v(iid@, img@));
}

fn render_break(xml: &mut String, doc: &WordDocument, dflt: &WordSection, idx: usize, b: usize)
    requires
        idx < doc@.paragraphs.len(),
        dflt@ == default_section_v(),
        b < sections_of_v(doc@).len(),
    ensures
        final(xml)@ == old(xml)@ + ("\n    <w:p>"@ + ppr_v(doc@.paragraphs[idx as int], Some(sections_of_v(doc@)[b as int])) + "</w:p>"@),
{
    let ghost o0 = xml@;
    let para = &doc.paragraphs[idx];
    assert(doc@.paragraphs[idx as int] == para@);
    let sect = section_at(doc, dflt, b);
    xml.append("\n    <w:p>");
    let ppr = build_paragraph_ppr_xml(para, Some(sect));
    xml.append(ppr.as_str());
    xml.append("</w:p>");
    assert(xml@ =~= o0 + ("\n    <w:p>"@ + ppr_v(para@, Some(sect@)) + "</w:p>"@));
}

#[verifier::rlimit(60)]
fn render_step(xml: &mut String, doc: &WordDocument, dflt: &WordSection, assign: &Vec<usize>, idx: usize) -> (r: (
    usize,
    Option<String>,
))
    requires
        idx < doc@.paragraphs.len(),
        dflt@ == default_section_v(),
        doc_fits_v(doc@),
        assign@.len() == doc@.paragraphs.len(),
        forall|i: int| 0 <= i < assign@.len() ==> assign@[i] as nat == #[trigger] assign_v(doc@, i),
    ensures
        final(xml)@ == old(xml)@ + step_v(doc@, idx as int).0,
        r.0 as nat == step_v(doc@, idx as int).1,
        r.1.deep_view() == step_v(doc@, idx as int).2,
        idx + 1 + r.0 <= doc@.paragraphs.len(),
{
    let ghost d = doc@;
    let para = &doc.paragraphs[idx];
    assert(d.paragraphs[idx as int] == para@);
    let tm = marker_id(para.text.as_str(), "<__tbl_pos_");
    if let Some(tid) = &tm {
        if let Some(ti) = find_table(&doc.tables, tid.as_str()) {
            proof {
                lemma_last_table_in_range(d.tables, tid@);
                assert(d.tables[ti as int] == doc.tables@[ti as int]@);
            }
            let extra = render_table_anchor(xml, doc, idx, tid.as_str(), &doc.tables[ti]);
            let id = tid.clone();
            proof {
                lemma_step_table(d, idx as int, tid@, ti as int);
            }
            return (extra, Some(id));
        }
    }
    let im = marker_id(para.text.as_str(), "<__img_pos_");
    if let Some(iid) = &im {
        if let Some(ii) = find_image(&doc.images, iid.as_str()) {
            proof {
                lemma_last_image_in_range(d.images, iid@);
                assert(d.images[ii as int] == doc.images@[ii as int]@);
            }
            render_image_anchor(xml, iid.as_str(), &doc.images[ii]);
            proof {
                lemma_step_image(d, idx as int, iid@, ii as int);
            }
            return (0, None);
        }
    }
    let total: usize = if doc.sections.len() == 0 { 1 } else { doc.sections.len() };
    if let Some(b) = section_break_section_idx(para) {
        if b < total {
            render_break(xml, doc, dflt, idx, b);
            proof {
                lemma_step_break(d, idx as int, b as nat);
            }
            return (0, None);
        }
    }
    render_regular(xml, doc, dflt, assign, idx);
    proof {
        lemma_step_regular(d, idx as int);
    }
    (0, None)
}

pub(crate) fn contains_id(ids: &Vec<String>, id: &str) -> (r: bool)
    ensures
        r == ids.deep_view().contains(id@),
{
    let mut i: usize = 0;
    while i < ids.len()
        invariant
            i <= ids@.len(),
            forall|j: int| 0 <= j < i ==> ids.deep_view()[j] != id@,
        decreases ids@.len() - i,
    {
        if str_eq(ids[i].as_str(), id) {
            assert(ids.deep_view()[i as int] == id@);
            return true;
        }
        i = i + 1;
    }
    false
}

fn render_orphan(xml: &mut String, t: &WordTable)
    requires
        table_fits_v(t@),
    ensures
        final(xml)@ == old(xml)@ + orphan_v(t@),
{
    let rs = t.rows.as_slice();
    let (kind, body_rows) = classify_and_strip(rs);
    proof {
        assert(rs.deep_view() =~= t@.rows);
    }
    match kind {
        TableKind::Styled(style) => {
            let x = build_styled_table_xml(t.id.as_str(), body_rows.as_slice(), &style);
            xml.append(x.as_str());
        },
        TableKind::Callout { bg, accent } => {
            let open = build_callout_container_xml(bg.as_str(), accent.as_str());
            xml.append(open.as_str());
            let close = build_callout_close_xml();
            xml.append(close.as_str());
        },
        TableKind::Code { bg } => {
            let open = build_code_block_container_xml(bg.as_str());
            xml.append(open.as_str());
            let close = build_callout_close_xml();
            xml.append(close.as_str());
        },
        TableKind::Plain => {
            let x = build_table_xml(t.id.as_str(), &t.rows, None);
            xml.append(x.as_str());
        },
    }
}

/// Renders the whole `document.xml` of `doc`.
///
/// Marker paragraphs place tables (`<__tbl_pos_<id>__>`) and pictures
/// (`<__img_pos_<id>__>`); a container table takes in the paragraphs that
/// follow its marker. Section-break marker paragraphs (`__sect_break_<n>__`)
/// close their section; a document with several sections but not one marker
/// per section break keeps all paragraphs in its last section. Tables no
/// marker placed follow the paragraphs, and the last section's properties
/// close the body.
pub fn build_document_xml(doc: &WordDocument) -> (xml: String)
    requires
        doc_fits_v(doc@),
    ensures
        xml@ == document_xml_v(doc@),
{
    let ghost d = doc@;
    let dflt = WordSection::default();
    let assign = assign_sections(doc);
    let mut xml = owned("<?xml version=\"1.0\" encoding=\"UTF-8\" standalone=\"yes\"?>\n<w:document xmlns:w=\"http://schemas.openxmlformats.org/wordprocessingml/2006/main\"\n            xmlns:r=\"http://schemas.openxmlformats.org/officeDocument/2006/relationships\"\n            xmlns:wp=\"http://schemas.openxmlformats.org/drawingml/2006/wordprocessingDrawing\"\n            xmlns:a=\"http://schemas.openxmlformats.org/drawingml/2006/main\"\n            xmlns:pic=\"http://schemas.openxmlformats.org/drawingml/2006/picture\"\n            xmlns:inkuo=\"http://inkuo.app/wordprocessingml/2026/main\">\n  <w:body>");
    let ghost total = body_from_v(d, 0, Seq::empty());
    let mut emitted: Vec<String> = Vec::new();
    let mut idx: usize = 0;
    let n = doc.paragraphs.len();
    proof {
        assert(emitted.deep_view() =~= Seq::<Seq<char>>::empty());
    }
    while idx < n
        invariant
            d == doc@,
            n == d.paragraphs.len(),
            idx <= n,
            dflt@ == default_section_v(),
            doc_fits_v(d),
            assign@.len() == d.paragraphs.len(),
            forall|i: int| 0 <= i < assign@.len() ==> assign@[i] as nat == #[trigger] assign_v(d, i),
            doc_head_v() + total.0 == xml@ + body_from_v(d, idx as int, emitted.deep_view()).0,
            total.1 == body_from_v(d, idx as int, emitted.deep_view()).1,
        decreases n - idx,
    {
        let ghost before = xml@;
        let ghost em = emitted.deep_view();
        let (extra, placed) = render_step(&mut xml, doc, &dflt, &assign, idx);
        match placed {
            Some(tid) => {
                emitted.push(tid);
            },
            None => {},
        }
        proof {
            let st = step_v(d, idx as int);
            let em2 = match st.2 {
                Some(t) => em.push(t),
                None => em,
            };
            assert(emitted.deep_view() =~= em2);
            assert(xml@ == before + st.0);
        }
        idx = idx + 1 + extra;
    }
    assert(xml@ == doc_head_v() + total.0);
    let ghost em = emitted.deep_view();
    let mut k: usize = 0;
    let ghost b = xml@;
    while k < doc.tables.len()
        invariant
            d == doc@,
            doc_fits_v(d),
            k <= d.tables.len(),
            em == emitted.deep_view(),
            xml@ == b + orphans_v(d.tables, em, k as nat),
        decreases d.tables.len() - k,
    {
        let t = &doc.tables[k];
        assert(d.tables[k as int] == t@);
        if !contains_id(&emitted, t.id.as_str()) {
            render_orphan(&mut xml, t);
        }
        k = k + 1;
    }
    let last = section_at(doc, &dflt, if doc.sections.len() == 0 { 0 } else { doc.sections.len() - 1 });
    let tail = build_body_sectpr_xml(last);
    xml.append(tail.as_str());
    xml.append("\n  </w:body>\n</w:document>");
    xml
}

} // verus!
