//! Properties of the library as a whole: what writing and reading agree
//! on, and what the editing operations keep.

use vstd::prelude::*;
use crate::cellparse::{cell_end_v, cell_initial_v, cell_para_end_v, cell_run_end_v, cell_start_v, cell_empty_v, cell_text_v, container_paragraphs_v, walk_from_v, CellStateV};
use crate::elements::{
    elem_table_v, images_pass_v, nonempty_rows_v, para_elem_v, para_pass_v, table_elem_v, tables_pass_v,
    delete_list_v, elements_v, first_elem_from, from_elements_v, img_marker_para_v, insert_one_v, insert_pass_v, kept_v,
    last_elem_with_id, lookup_pair_v, merge_v, modified_elements_v, modify_v, rebuild_v, tbl_marker_para_v, marker_pairs_v, or_v,
};
use crate::fields::normalise_text_direction_v;
use crate::model::{DocElementV, InsertElementV, WordDocumentV, WordImageV, WordParagraphV, WordSectionV, WordTableV};
use crate::tables::{resolve_table_v, RawTableV, VMergeKind};
use crate::text::{escape_char, spec_escape_xml};
use crate::writer::{pgmar_of_v, pgmar_v, pgsz_of_v, pgsz_v, sectpr_v, text_direction_v};
use crate::xml::XmlEventV;
use crate::docread::{invalid_utf8_msg_v, zip_text_v};
use crate::error::OfficeErrorV;
use crate::package::{holds_entries_v, PackageEntryV};
use vstd::utf8::{decode_utf8, encode_utf8, encode_utf8_decode_utf8, encode_utf8_valid_utf8, valid_utf8};
use crate::docwrite::{
    generated_entries_v, hf_entries_v, hf_plans_v, image_entries_v, image_plans_v, package_entries_v, plan_rids_v,
    preserved_entries_v, subst_hf_v, subst_images_v, has_numbering_v,
};
use crate::document::{assign_v, closes_section_v, document_xml_v, sections_of_v, uses_markers_v};
use crate::components::{decode_table_style_v, empty_to_none_v, flag, or_empty, style_marker, TableStyleV};
use crate::model::{TableCellV, TableRowV};
use crate::text::{lemma_split_concat, lemma_split_no_sep, spec_split};
use crate::renderer::{render_blocks_v, render_one_v, CalloutLevelName, ContentBlockV, RenderedV};
use crate::design_tokens::DesignTokens;
use crate::reader::{document_text_v, join_v, plain_text_v};
use crate::writer::{rpr_v, run_xml_v};
use crate::runfmt::{apply_run_attr_v, RunFormatV};
use crate::docparse::props_fmt_v;
use crate::xml::{attr_value_v, XmlAttrV};
use crate::components::{level_meta_v, CalloutLevel};
use crate::model::FontRunV;
use crate::document::{img_marker_v, last_image_with_id, last_table_with_id, tbl_marker_v};
use crate::text::find_from_v;
use crate::docwrite::{fresh_plan_v, image_plans_from_v, picture_supported_v, preserved_plan_v, ImageWritePlanV};
use crate::relscan::{image_state_v, PreservedImageRefV};
use crate::docread::{has_footer_v, has_header_v, hf_rels_v, kept_footer_refs_v, kept_header_refs_v, renamed_v, resolved_sections_v};
use crate::model::{FooterPartRefV, FooterPartV, HeaderPartRefV, HeaderPartV};

verus! {

/// Whether `p` occurs in `s` at `i`.
pub open spec fn occurs_at_v(s: Seq<char>, p: Seq<char>, i: int) -> bool {
    0 <= i && i + p.len() <= s.len() && s.subrange(i, i + p.len()) == p
}

/// Whether `p` occurs in `s`.
pub open spec fn occurs_v(s: Seq<char>, p: Seq<char>) -> bool {
    exists|i: int| #[trigger] occurs_at_v(s, p, i)
}

/// The text directions of the model that the writer maps to an OOXML value
/// of their own.
pub open spec fn model_direction_v(v: Seq<char>) -> bool {
    v == "horizontal"@ || v == "vertical"@ || v == "verticalRightToLeft"@ || v == "verticalLeftToRight"@ || v
        == "rotate90"@
}

/// The OOXML text directions that the reader maps to a model value of
/// their own.
pub open spec fn ooxml_direction_v(v: Seq<char>) -> bool {
    v == "lrTb"@ || v == "tbRl"@ || v == "lrTbV"@ || v == "tbRlV"@ || v == "btLrV"@
}


proof fn lemma_direction_literals()
    ensures
        "horizontal"@ != "vertical"@,
        "horizontal"@ != "verticalRightToLeft"@,
        "horizontal"@ != "verticalLeftToRight"@,
        "horizontal"@ != "rotate90"@,
        "horizontal"@ != "rotate270"@,
        "vertical"@ != "verticalRightToLeft"@,
        "vertical"@ != "verticalLeftToRight"@,
        "vertical"@ != "rotate90"@,
        "vertical"@ != "rotate270"@,
        "verticalRightToLeft"@ != "verticalLeftToRight"@,
        "verticalRightToLeft"@ != "rotate90"@,
        "verticalRightToLeft"@ != "rotate270"@,
        "verticalLeftToRight"@ != "rotate90"@,
        "verticalLeftToRight"@ != "rotate270"@,
        "rotate90"@ != "rotate270"@,
        "lrTb"@ != "tbRl"@,
        "lrTb"@ != "btLr"@,
        "lrTb"@ != "lrTbV"@,
        "lrTb"@ != "tbRlV"@,
        "lrTb"@ != "btLrV"@,
        "tbRl"@ != "btLr"@,
        "tbRl"@ != "lrTbV"@,
        "tbRl"@ != "tbRlV"@,
        "tbRl"@ != "btLrV"@,
        "btLr"@ != "lrTbV"@,
        "btLr"@ != "tbRlV"@,
        "btLr"@ != "btLrV"@,
        "lrTbV"@ != "tbRlV"@,
        "lrTbV"@ != "btLrV"@,
        "tbRlV"@ != "btLrV"@,
        "horizontal"@ != "lrTb"@,
        "horizontal"@ != "tbRl"@,
        "horizontal"@ != "btLr"@,
        "horizontal"@ != "lrTbV"@,
        "horizontal"@ != "tbRlV"@,
        "horizontal"@ != "btLrV"@,
        "vertical"@ != "lrTb"@,
        "vertical"@ != "tbRl"@,
        "vertical"@ != "btLr"@,
        "vertical"@ != "lrTbV"@,
        "vertical"@ != "tbRlV"@,
        "vertical"@ != "btLrV"@,
        "verticalRightToLeft"@ != "lrTb"@,
        "verticalRightToLeft"@ != "tbRl"@,
        "verticalRightToLeft"@ != "btLr"@,
        "verticalRightToLeft"@ != "lrTbV"@,
        "verticalRightToLeft"@ != "tbRlV"@,
        "verticalRightToLeft"@ != "btLrV"@,
        "verticalLeftToRight"@ != "lrTb"@,
        "verticalLeftToRight"@ != "tbRl"@,
        "verticalLeftToRight"@ != "btLr"@,
        "verticalLeftToRight"@ != "lrTbV"@,
        "verticalLeftToRight"@ != "tbRlV"@,
        "verticalLeftToRight"@ != "btLrV"@,
        "rotate90"@ != "lrTb"@,
        "rotate90"@ != "tbRl"@,
        "rotate90"@ != "btLr"@,
        "rotate90"@ != "lrTbV"@,
        "rotate90"@ != "tbRlV"@,
        "rotate90"@ != "btLrV"@,
{
    reveal_strlit("horizontal");
    reveal_strlit("vertical");
    reveal_strlit("verticalRightToLeft");
    reveal_strlit("verticalLeftToRight");
    reveal_strlit("rotate90");
    reveal_strlit("rotate270");
    reveal_strlit("lrTb");
    reveal_strlit("tbRlV");
    reveal_strlit("btLr");
    reveal_strlit("btLrV");
    reveal_strlit("lrTbV");
    reveal_strlit("tbRl");
    assert("horizontal"@.len() == 10);
    assert("vertical"@.len() == 8);
    assert("verticalRightToLeft"@.len() == 19);
    assert("verticalLeftToRight"@.len() == 19);
    assert("rotate90"@.len() == 8);
    assert("rotate270"@.len() == 9);
    assert("lrTb"@.len() == 4);
    assert("tbRlV"@.len() == 5);
    assert("btLr"@.len() == 4);
    assert("btLrV"@.len() == 5);
    assert("lrTbV"@.len() == 5);
    assert("tbRl"@.len() == 4);
    assert("horizontal"@[0] == 'h');
    assert("vertical"@[0] == 'v');
    assert("verticalRightToLeft"@[0] == 'v');
    assert("verticalLeftToRight"@[0] == 'v');
    assert("rotate90"@[0] == 'r');
    assert("rotate270"@[0] == 'r');
    assert("lrTb"@[0] == 'l');
    assert("tbRlV"@[0] == 't');
    assert("btLr"@[0] == 'b');
    assert("btLrV"@[0] == 'b');
    assert("lrTbV"@[0] == 'l');
    assert("tbRl"@[0] == 't');
    assert("verticalRightToLeft"@[8] == 'R');
    assert("verticalLeftToRight"@[8] == 'L');
}

/// A text direction of the model that is written and read back is the
/// same direction.
pub proof fn lemma_text_direction_read_back(v: Seq<char>)
    requires
        model_direction_v(v),
    ensures
        normalise_text_direction_v(text_direction_v(v)) == v,
{
    lemma_direction_literals();
}

/// An OOXML text direction that is read and written again is the same
/// value.
pub proof fn lemma_text_direction_write_back(v: Seq<char>)
    requires
        ooxml_direction_v(v),
    ensures
        text_direction_v(normalise_text_direction_v(v)) == v,
{
    lemma_direction_literals();
}

proof fn lemma_occurs_at_end(x: Seq<char>, b: Seq<char>, p: Seq<char>)
    requires
        p.is_prefix_of(b),
    ensures
        occurs_at_v(x + b, p, x.len() as int),
{
    assert((x + b).subrange(x.len() as int, (x.len() + p.len()) as int) =~= p);
}

proof fn lemma_occurs_at_extend(x: Seq<char>, y: Seq<char>, p: Seq<char>, i: int)
    requires
        occurs_at_v(x, p, i),
    ensures
        occurs_at_v(x + y, p, i),
{
    assert((x + y).subrange(i, i + p.len()) =~= x.subrange(i, i + p.len()));
}

/// Every section's properties give a page size and page margins: the
/// section's own, or A4 portrait with one-inch margins.
pub proof fn lemma_section_page_setup(s: WordSectionV)
    ensures
        occurs_v(sectpr_v(s), "<w:pgSz"@),
        occurs_v(sectpr_v(s), "<w:pgMar"@),
{
    let sz = pgsz_v(s.page_size_twips);
    let mar = pgmar_v(s.margins);
    let a3 = "<w:sectPr>"@ + crate::writer::hdr_refs_v(s.header_refs) + crate::writer::ftr_refs_v(s.footer_refs)
        + crate::writer::opt_val_elem_v("type"@, s.section_type);
    let a4 = a3 + sz;
    let a5 = a4 + mar;
    let a6 = a5 + crate::writer::td_elem_v(s.text_direction);
    let a7 = a6 + crate::writer::cols_v(s.cols);
    let a8 = a7 + crate::writer::when_v(s.title_pg, "<w:titlePg/>"@);
    let a9 = a8 + crate::writer::pgnum_v(s.page_num_start, s.page_num_format);
    let a10 = a9 + "</w:sectPr>"@;
    assert(sectpr_v(s) == a10);
    reveal_strlit("<w:pgSz");
    reveal_strlit("<w:pgSz w:w=\"");
    reveal_strlit("<w:pgMar");
    reveal_strlit("<w:pgMar w:top=\"");
    assert("<w:pgSz"@.is_prefix_of(sz)) by {
        assert(sz.subrange(0, 7) =~= "<w:pgSz w:w=\""@.subrange(0, 7));
    }
    assert("<w:pgMar"@.is_prefix_of(mar)) by {
        assert(mar.subrange(0, 8) =~= "<w:pgMar w:top=\""@.subrange(0, 8));
    }
    let i = a3.len() as int;
    lemma_occurs_at_end(a3, sz, "<w:pgSz"@);
    lemma_occurs_at_extend(a4, mar, "<w:pgSz"@, i);
    lemma_occurs_at_extend(a5, crate::writer::td_elem_v(s.text_direction), "<w:pgSz"@, i);
    lemma_occurs_at_extend(a6, crate::writer::cols_v(s.cols), "<w:pgSz"@, i);
    lemma_occurs_at_extend(a7, crate::writer::when_v(s.title_pg, "<w:titlePg/>"@), "<w:pgSz"@, i);
    lemma_occurs_at_extend(a8, crate::writer::pgnum_v(s.page_num_start, s.page_num_format), "<w:pgSz"@, i);
    lemma_occurs_at_extend(a9, "</w:sectPr>"@, "<w:pgSz"@, i);
    let j = a4.len() as int;
    lemma_occurs_at_end(a4, mar, "<w:pgMar"@);
    lemma_occurs_at_extend(a5, crate::writer::td_elem_v(s.text_direction), "<w:pgMar"@, j);
    lemma_occurs_at_extend(a6, crate::writer::cols_v(s.cols), "<w:pgMar"@, j);
    lemma_occurs_at_extend(a7, crate::writer::when_v(s.title_pg, "<w:titlePg/>"@), "<w:pgMar"@, j);
    lemma_occurs_at_extend(a8, crate::writer::pgnum_v(s.page_num_start, s.page_num_format), "<w:pgMar"@, j);
    lemma_occurs_at_extend(a9, "</w:sectPr>"@, "<w:pgMar"@, j);
}

/// The paragraph an element gives when a document is built from elements:
/// a paragraph as itself, a table or picture as its marker paragraph.
pub open spec fn para_of_elem_v(e: DocElementV) -> WordParagraphV {
    match e {
        DocElementV::Paragraph { id, text, style, runs, numbering, alignment, text_direction, .. } => WordParagraphV {
            id,
            text,
            style,
            runs,
            numbering,
            alignment,
            text_direction,
            page_break: None,
        },
        DocElementV::Table { id, .. } => tbl_marker_para_v(id),
        DocElementV::Image { id, .. } => img_marker_para_v(id),
    }
}

proof fn lemma_rebuild_paragraphs(es: Seq<DocElementV>, k: int, orig: Seq<WordImageV>, ms: Seq<DocElementV>)
    requires
        0 <= k <= es.len(),
    ensures
        rebuild_v(es, k, orig, ms).0.len() == k,
        forall|i: int| 0 <= i < k ==> rebuild_v(es, k, orig, ms).0[i] == para_of_elem_v(es[i]),
    decreases k,
{
    if k > 0 {
        lemma_rebuild_paragraphs(es, k - 1, orig, ms);
    }
}

/// A document built from elements has one paragraph per element, in
/// order: each table and each picture is stood for by its marker
/// paragraph (`__tbl_pos_<id>__`, `__img_pos_<id>__`), so that deleting a
/// table or picture by id takes its marker along.
pub proof fn lemma_from_elements_markers(es: Seq<DocElementV>)
    ensures
        from_elements_v(es).paragraphs.len() == es.len(),
        forall|k: int| 0 <= k < es.len() ==> #[trigger] from_elements_v(es).paragraphs[k] == para_of_elem_v(es[k]),
{
    lemma_rebuild_paragraphs(es, es.len() as int, Seq::empty(), Seq::empty());
}

proof fn lemma_kept_unchanged(es: Seq<DocElementV>, k: int)
    requires
        0 <= k <= es.len(),
    ensures
        kept_v(es, Seq::empty(), Seq::empty(), k) == es.take(k),
    decreases k,
{
    if k > 0 {
        lemma_kept_unchanged(es, k - 1);
        assert(es.take(k) =~= es.take(k - 1).push(es[k - 1]));
    }
}

/// An edit with no replacement, deletion or insertion leaves the element
/// view of a document as it is.
pub proof fn lemma_modify_nothing(d: WordDocumentV)
    ensures
        modified_elements_v(d, Seq::empty(), Seq::empty(), Seq::empty()) == elements_v(d),
{
    let es = elements_v(d);
    lemma_kept_unchanged(es, es.len() as int);
    assert(es.take(es.len() as int) =~= es);
}

proof fn lemma_delete_list_keeps(dels: Seq<Seq<char>>, pairs: Seq<(Seq<char>, Seq<char>)>, k: int, x: Seq<char>)
    requires
        0 <= k <= dels.len(),
        dels.contains(x),
    ensures
        delete_list_v(dels, pairs, k).contains(x),
    decreases k,
{
    if k > 0 {
        lemma_delete_list_keeps(dels, pairs, k - 1, x);
        let a = delete_list_v(dels, pairs, k - 1);
        let j = choose|j: int| 0 <= j < a.len() && a[j] == x;
        match crate::elements::lookup_pair_v(pairs, dels[k - 1]) {
            Some(m) => {
                assert(a.push(m)[j] == x);
            },
            None => {},
        }
    }
}

proof fn lemma_kept_excludes(es: Seq<DocElementV>, dl: Seq<Seq<char>>, k: int)
    requires
        0 <= k <= es.len(),
    ensures
        forall|j: int| 0 <= j < kept_v(es, dl, Seq::empty(), k).len() ==> !dl.contains(
            #[trigger] kept_v(es, dl, Seq::empty(), k)[j].id(),
        ),
    decreases k,
{
    if k > 0 {
        lemma_kept_excludes(es, dl, k - 1);
        let a = kept_v(es, dl, Seq::empty(), k - 1);
        let e = es[k - 1];
        assert(last_elem_with_id(Seq::<DocElementV>::empty(), e.id()) is None);
        if !dl.contains(e.id()) {
            assert(kept_v(es, dl, Seq::empty(), k) == a.push(e));
            assert forall|j: int| 0 <= j < a.push(e).len() implies !dl.contains(#[trigger] a.push(e)[j].id()) by {
                if j < a.len() {
                    assert(a.push(e)[j] == a[j]);
                }
            }
        }
    }
}

/// After an edit that only deletes, no element of the element view has a
/// deleted id.
pub proof fn lemma_modify_deletes(d: WordDocumentV, dels: Seq<Seq<char>>, x: Seq<char>)
    requires
        dels.contains(x),
    ensures
        forall|j: int|
            0 <= j < modified_elements_v(d, Seq::empty(), dels, Seq::empty()).len() ==> (#[trigger] modified_elements_v(
                d,
                Seq::empty(),
                dels,
                Seq::empty(),
            )[j]).id() != x,
{
    let pairs = crate::elements::marker_pairs_v(d.paragraphs, d.paragraphs.len() as int);
    let dl = delete_list_v(dels, pairs, dels.len() as int);
    let es = elements_v(d);
    lemma_delete_list_keeps(dels, pairs, dels.len() as int, x);
    lemma_kept_excludes(es, dl, es.len() as int);
}

/// An element inserted with an anchor that the element view holds lands
/// right after the first element with that id, or right before it when
/// asked; the other elements keep their order.
pub proof fn lemma_insert_at_anchor(d: WordDocumentV, ie: InsertElementV, aid: Seq<char>, i: nat)
    requires
        ie.anchor_id == Some(aid),
        first_elem_from(elements_v(d), aid, 0) == Some(i),
    ensures
        modified_elements_v(d, Seq::empty(), Seq::empty(), seq![ie]).len() == elements_v(d).len() + 1,
        ie.position == Some("before"@) ==> modified_elements_v(d, Seq::empty(), Seq::empty(), seq![ie])[i as int]
            == ie.element,
        ie.position != Some("before"@) ==> modified_elements_v(d, Seq::empty(), Seq::empty(), seq![ie])[(i + 1) as int]
            == ie.element,
{
    let es = elements_v(d);
    lemma_kept_unchanged(es, es.len() as int);
    assert(es.take(es.len() as int) =~= es);
    lemma_first_elem_bound(es, aid, 0);
    let pairs = crate::elements::marker_pairs_v(d.paragraphs, d.paragraphs.len() as int);
    assert(delete_list_v(Seq::empty(), pairs, 0) == Seq::<Seq<char>>::empty());
    let kept = kept_v(es, Seq::empty(), Seq::empty(), es.len() as int);
    assert(kept == es);
    assert(last_elem_with_id(Seq::<DocElementV>::empty(), ie.element.id()) is None);
    assert(insert_pass_v(es, Seq::empty(), seq![ie], 0) == es);
    assert(insert_pass_v(es, Seq::empty(), seq![ie], 1) == insert_one_v(es, ie));
    let at = if ie.position == Some("before"@) { i as int } else { i + 1int };
    assert(insert_one_v(es, ie) == es.insert(at, ie.element));
    assert(modified_elements_v(d, Seq::empty(), Seq::empty(), seq![ie]) == es.insert(at, ie.element));
}

proof fn lemma_first_elem_bound(es: Seq<DocElementV>, id: Seq<char>, i: nat)
    ensures
        first_elem_from(es, id, i) matches Some(j) ==> i <= j < es.len(),
    decreases es.len() - i,
{
    if i < es.len() && es[i as int].id() != id {
        lemma_first_elem_bound(es, id, i + 1);
    }
}

proof fn lemma_continue_run_bound(rows: Seq<Seq<crate::tables::RawCellV>>, col: int, j: int)
    requires
        0 <= j,
    ensures
        crate::tables::continue_run_v(rows, col, j) <= if j <= rows.len() { rows.len() - j } else { 0 },
    decreases rows.len() - j,
{
    if j < rows.len() && crate::tables::continues_at_v(rows[j], col) {
        lemma_continue_run_bound(rows, col, j + 1);
    }
}

/// Resolving merges keeps a table's shape, its cells' text and column
/// spans; every row span is at least one, and only a cell that starts a
/// merge spans more than its own row.
pub proof fn lemma_vmerge_shape(t: RawTableV, r: int, k: int)
    requires
        t.rows.len() <= usize::MAX,
        0 <= r < t.rows.len(),
        0 <= k < t.rows[r].len(),
    ensures
        resolve_table_v(t).rows.len() == t.rows.len(),
        resolve_table_v(t).rows[r].cells.len() == t.rows[r].len(),
        resolve_table_v(t).rows[r].cells[k].text == t.rows[r][k].text,
        resolve_table_v(t).rows[r].cells[k].col_span == t.rows[r][k].col_span,
        resolve_table_v(t).rows[r].cells[k].row_span >= 1,
        t.rows[r][k].vmerge != Some(VMergeKind::Restart) ==> resolve_table_v(t).rows[r].cells[k].row_span == 1,
{
    lemma_continue_run_bound(t.rows, crate::tables::offset_v(t.rows[r], k) as int, r + 1);
}

proof fn lemma_walk_keeps_buckets(evs: Seq<XmlEventV>, i: int, s: CellStateV, flags: Seq<bool>)
    ensures
        walk_from_v(evs, i, s, flags).out.len() == s.out.len(),
    decreases evs.len() - i,
{
    reveal(cell_start_v);
    reveal(cell_empty_v);
    reveal(cell_end_v);
    reveal(cell_para_end_v);
    if 0 <= i < evs.len() {
        match evs[i] {
            XmlEventV::Error { .. } => {},
            XmlEventV::Start { name, attrs } => lemma_walk_keeps_buckets(evs, i + 1, cell_start_v(s, name, attrs, flags), flags),
            XmlEventV::Empty { name, attrs } => lemma_walk_keeps_buckets(evs, i + 1, cell_empty_v(s, name, attrs), flags),
            XmlEventV::Text { text } => lemma_walk_keeps_buckets(evs, i + 1, cell_text_v(s, text), flags),
            XmlEventV::End { name } => lemma_walk_keeps_buckets(evs, i + 1, cell_end_v(s, name), flags),
            _ => lemma_walk_keeps_buckets(evs, i + 1, s, flags),
        }
    }
}

/// The container paragraphs come in one bucket per table flag, so that
/// they pair with the tables by position.
pub proof fn lemma_container_buckets(evs: Seq<XmlEventV>, flags: Seq<bool>)
    ensures
        container_paragraphs_v(evs, flags).len() == flags.len(),
{
    lemma_walk_keeps_buckets(evs, 0, cell_initial_v(flags.len()), flags);
}

/// Escaped text holds no markup character: no `<`, `>`, `"` or `'`.
pub proof fn lemma_escape_has_no_markup(s: Seq<char>, i: int)
    requires
        0 <= i < spec_escape_xml(s).len(),
    ensures
        spec_escape_xml(s)[i] != '<',
        spec_escape_xml(s)[i] != '>',
        spec_escape_xml(s)[i] != '"',
        spec_escape_xml(s)[i] != '\'',
    decreases s.len(),
{
    reveal_strlit("&amp;");
    reveal_strlit("&lt;");
    reveal_strlit("&gt;");
    reveal_strlit("&quot;");
    reveal_strlit("&apos;");
    if s.len() > 0 {
        let prev = spec_escape_xml(s.drop_last());
        let e = escape_char(s.last());
        assert(spec_escape_xml(s) == prev + e);
        if i < prev.len() {
            lemma_escape_has_no_markup(s.drop_last(), i);
        } else {
            assert(spec_escape_xml(s)[i] == e[i - prev.len()]);
        }
    }
}

/// Every entry of a package that was written reads back by its name: as
/// the text its bytes encode when they are UTF-8, and as the UTF-8 error
/// otherwise.
pub proof fn lemma_package_entry_reads_back(b: Seq<u8>, es: Seq<PackageEntryV>, i: int)
    requires
        holds_entries_v(b, es),
        0 <= i < es.len(),
    ensures
        valid_utf8(es[i].data) ==> zip_text_v(b, es[i].name) == Ok::<Seq<char>, OfficeErrorV>(decode_utf8(es[i].data)),
        !valid_utf8(es[i].data) ==> zip_text_v(b, es[i].name) == Err::<Seq<char>, OfficeErrorV>(
            OfficeErrorV::Io(invalid_utf8_msg_v()),
        ),
{
    assert(crate::package::zip_named_v(b, es[i].name) == crate::package::zip_entry_v(b, i as usize));
}

/// The document part of the package of `d`: its document XML with the
/// picture and header/footer placeholders resolved to relationship ids,
/// when the pictures can be planned.
pub open spec fn written_document_part_v(
    d: WordDocumentV,
    preserve: Option<Seq<u8>>,
    sources: Seq<Result<Seq<u8>, Seq<char>>>,
) -> Option<Seq<char>> {
    match image_plans_v(d.images, preserve, sources) {
        Err(_) => None,
        Ok((rid, imgs)) => {
            let hfs = hf_plans_v(d.headers, d.footers, preserve, rid);
            Some(subst_hf_v(subst_images_v(document_xml_v(d), plan_rids_v(imgs)), hfs, hfs.len() as int))
        },
    }
}

/// Reading `word/document.xml` back from the package written for `d` gives
/// the document XML the writer built, placeholders resolved; for a document
/// without pictures and without header or footer parts, exactly the XML
/// the writer builds for it.
pub proof fn lemma_written_document_reads_back(
    d: WordDocumentV,
    preserve: Option<Seq<u8>>,
    sources: Seq<Result<Seq<u8>, Seq<char>>>,
    b: Seq<u8>,
)
    requires
        package_entries_v(d, preserve, sources) matches Ok(es) && holds_entries_v(b, es),
    ensures
        written_document_part_v(d, preserve, sources) matches Some(x) && zip_text_v(b, "word/document.xml"@) == Ok::<
            Seq<char>,
            OfficeErrorV,
        >(x),
        d.images.len() == 0 && d.headers.len() == 0 && d.footers.len() == 0 ==> zip_text_v(b, "word/document.xml"@)
            == Ok::<Seq<char>, OfficeErrorV>(document_xml_v(d)),
{
    let es = package_entries_v(d, preserve, sources)->Ok_0;
    let (rid, imgs) = image_plans_v(d.images, preserve, sources)->Ok_0;
    let hfs = hf_plans_v(d.headers, d.footers, preserve, rid);
    let skip = Seq::new(hfs.len(), |k: int| hfs[k].internal_path);
    let copied = preserved_entries_v(preserve, skip, has_numbering_v(d), crate::numbering::doc_numbering_xml_v(d.paragraphs))->Ok_0;
    let x = subst_hf_v(subst_images_v(document_xml_v(d), plan_rids_v(imgs)), hfs, hfs.len() as int);
    let k: int = (copied.len() + image_entries_v(imgs).len() + hf_entries_v(hfs).len() + 3) as int;
    assert(es[k] == generated_entries_v(d, imgs, hfs)[3]);
    assert(es[k].name == "word/document.xml"@);
    assert(es[k].data == encode_utf8(x));
    encode_utf8_valid_utf8(x);
    encode_utf8_decode_utf8(x);
    lemma_package_entry_reads_back(b, es, k);
    if d.images.len() == 0 && d.headers.len() == 0 && d.footers.len() == 0 {
        assert(imgs.len() == 0);
        assert(plan_rids_v(imgs) =~= Seq::<Seq<char>>::empty());
        assert(hfs.len() == 0);
    }
}

/// A value that a style marker carries through unchanged: absent, or a
/// non-empty string without the `|` that separates the marker's fields.
pub open spec fn marker_safe_v(o: Option<Seq<char>>) -> bool {
    match o {
        None => true,
        Some(x) => x.len() > 0 && !x.contains('|'),
    }
}

proof fn lemma_flag_piece(b: bool)
    ensures
        !flag(b).contains('|'),
        (flag(b) == "1"@) == b,
{
    reveal_strlit("1");
    reveal_strlit("0");
    if flag(b).contains('|') {
        let k = choose|k: int| 0 <= k < flag(b).len() && flag(b)[k] == '|';
        assert(k == 0);
    }
    if !b {
        assert(flag(b)[0] != "1"@[0]);
    }
}

proof fn lemma_safe_piece(o: Option<Seq<char>>)
    requires
        marker_safe_v(o),
    ensures
        !or_empty(o).contains('|'),
        empty_to_none_v(or_empty(o)) == o,
{
}

proof fn lemma_split_step(p: Seq<char>, x: Seq<char>, prev: Seq<Seq<char>>)
    requires
        spec_split(p, '|') == prev,
        !x.contains('|'),
    ensures
        spec_split(p + seq!['|'] + x, '|') == prev.push(x),
{
    lemma_split_concat(p, x, '|');
    lemma_split_no_sep(x, '|');
    assert(prev + seq![x] =~= prev.push(x));
}

proof fn lemma_prefix_extends(q: Seq<char>, p: Seq<char>, x: Seq<char>)
    requires
        q.is_prefix_of(p),
    ensures
        q.is_prefix_of(p + seq!['|'] + x),
{
    assert((p + seq!['|'] + x).subrange(0, q.len() as int) =~= p.subrange(0, q.len() as int));
}

/// The style a table carries in its marker row is the style the writer
/// reads back from it: fills, border colour and both flags as given, and
/// the header text colour written into the marker; provided no given value
/// is empty and none holds the `|` that separates the marker's fields.
pub proof fn lemma_style_marker_round_trip(s: TableStyleV, c: Seq<char>, rest: Seq<TableRowV>)
    requires
        marker_safe_v(s.header_fill),
        marker_safe_v(s.zebra_fill),
        marker_safe_v(s.border_color),
        !c.contains('|'),
    ensures
        decode_table_style_v(
            seq![TableRowV { cells: seq![TableCellV { text: style_marker(s, c), col_span: 1, row_span: 1 }] }] + rest,
        ) == Some((TableStyleV { header_text_color: empty_to_none_v(c), ..s }, c)),
{
    let head: Seq<char> = "__STYLE__"@;
    let a = or_empty(s.header_fill);
    let b = or_empty(s.zebra_fill);
    let d = or_empty(s.border_color);
    let f1 = flag(s.repeat_header);
    let f2 = flag(s.zebra);
    lemma_safe_piece(s.header_fill);
    lemma_safe_piece(s.zebra_fill);
    lemma_safe_piece(s.border_color);
    lemma_flag_piece(s.repeat_header);
    lemma_flag_piece(s.zebra);
    assert(!head.contains('|')) by {
        reveal_strlit("__STYLE__");
        if head.contains('|') {
            let k = choose|k: int| 0 <= k < head.len() && head[k] == '|';
            assert(head[k] != '|');
        }
    }
    let p1 = head + seq!['|'] + a;
    let p2 = p1 + seq!['|'] + b;
    let p3 = p2 + seq!['|'] + d;
    let p4 = p3 + seq!['|'] + f1;
    let p5 = p4 + seq!['|'] + f2;
    let text = p5 + seq!['|'] + c;
    lemma_split_no_sep(head, '|');
    lemma_split_step(head, a, seq![head]);
    assert(seq![head].push(a) =~= seq![head, a]);
    lemma_split_step(p1, b, seq![head, a]);
    assert(seq![head, a].push(b) =~= seq![head, a, b]);
    lemma_split_step(p2, d, seq![head, a, b]);
    assert(seq![head, a, b].push(d) =~= seq![head, a, b, d]);
    lemma_split_step(p3, f1, seq![head, a, b, d]);
    assert(seq![head, a, b, d].push(f1) =~= seq![head, a, b, d, f1]);
    lemma_split_step(p4, f2, seq![head, a, b, d, f1]);
    assert(seq![head, a, b, d, f1].push(f2) =~= seq![head, a, b, d, f1, f2]);
    lemma_split_step(p5, c, seq![head, a, b, d, f1, f2]);
    assert(seq![head, a, b, d, f1, f2].push(c) =~= seq![head, a, b, d, f1, f2, c]);
    let marker: Seq<char> = "__STYLE__|"@;
    assert(marker.is_prefix_of(p1)) by {
        reveal_strlit("__STYLE__|");
        reveal_strlit("__STYLE__");
        assert(p1.subrange(0, 10) =~= marker);
    }
    lemma_prefix_extends(marker, p1, b);
    lemma_prefix_extends(marker, p2, d);
    lemma_prefix_extends(marker, p3, f1);
    lemma_prefix_extends(marker, p4, f2);
    lemma_prefix_extends(marker, p5, c);
    assert(text == style_marker(s, c));
    let rows = seq![TableRowV { cells: seq![TableCellV { text: style_marker(s, c), col_span: 1, row_span: 1 }] }] + rest;
    assert(rows[0].cells[0].text == text);
}

/// Section-break markers place paragraphs only when the document has more
/// than one section and one marker per section but the last. Otherwise
/// every paragraph belongs to the last section and no paragraph closes a
/// section: the document is written as a single section with the last
/// section's properties.
pub proof fn lemma_unmarked_sections_coerce(d: WordDocumentV, idx: int)
    requires
        !uses_markers_v(d),
    ensures
        assign_v(d, idx) == sections_of_v(d).len() - 1,
        !closes_section_v(d, idx),
{
}

/// A new picture of an unsupported type is refused before its file is
/// read: planning it fails the same way whatever its source gave.
pub proof fn lemma_unsupported_picture_needs_no_source(
    img: WordImageV,
    s1: Result<Seq<u8>, Seq<char>>,
    s2: Result<Seq<u8>, Seq<char>>,
    media: u32,
    rid: u32,
)
    requires
        !crate::docwrite::picture_supported_v(img.path),
    ensures
        crate::docwrite::fresh_plan_v(img, s1, media, rid) is Err,
        crate::docwrite::fresh_plan_v(img, s1, media, rid) == crate::docwrite::fresh_plan_v(img, s2, media, rid),
{
}

/// The error a refused new picture is answered with: that its path has no
/// extension, or that its extension is not supported.
pub open spec fn refused_picture_msg_v(path: Seq<char>) -> Seq<char> {
    match crate::paths::extension_v(path) {
        None => crate::docwrite::no_ext_msg_v(path),
        Some(e) => crate::docwrite::bad_ext_msg_v(crate::docwrite::norm_ext_v(crate::paths::ascii_lower_v(e))),
    }
}

/// Whether picture `j` is planned without an error: preserved, or new with
/// a supported extension and a source that was read.
pub open spec fn planned_ok_v(
    imgs: Seq<WordImageV>,
    sources: Seq<Result<Seq<u8>, Seq<char>>>,
    refs: Seq<PreservedImageRefV>,
    preserve: Option<Seq<u8>>,
    j: int,
) -> bool {
    preserved_plan_v(imgs[j], refs, preserve) is Some || (picture_supported_v(imgs[j].path) && sources[j] is Ok)
}

proof fn lemma_plans_name_refused(
    imgs: Seq<WordImageV>,
    sources: Seq<Result<Seq<u8>, Seq<char>>>,
    refs: Seq<PreservedImageRefV>,
    preserve: Option<Seq<u8>>,
    i: int,
    media: u32,
    rid: u32,
    acc: Seq<ImageWritePlanV>,
    k: int,
)
    requires
        0 <= i <= k < imgs.len(),
        preserved_plan_v(imgs[k], refs, preserve) is None,
        !picture_supported_v(imgs[k].path),
        forall|j: int| i <= j < k ==> planned_ok_v(imgs, sources, refs, preserve, j),
    ensures
        image_plans_from_v(imgs, sources, refs, preserve, i, media, rid, acc) == Err::<(u32, Seq<ImageWritePlanV>), Seq<char>>(
            refused_picture_msg_v(imgs[k].path),
        ),
    decreases k - i,
{
    if i < k {
        assert(planned_ok_v(imgs, sources, refs, preserve, i));
        match preserved_plan_v(imgs[i], refs, preserve) {
            Some(p) => {
                lemma_plans_name_refused(imgs, sources, refs, preserve, i + 1, media, rid, acc.push(p), k);
            },
            None => {
                let p = fresh_plan_v(imgs[i], sources[i], media, rid)->Ok_0;
                assert(fresh_plan_v(imgs[i], sources[i], media, rid) is Ok);
                lemma_plans_name_refused(imgs, sources, refs, preserve, i + 1, media.wrapping_add(1), rid.wrapping_add(1), acc.push(p), k);
            },
        }
    }
}

/// When every picture before it is planned without an error, a refused new
/// picture (see [`lemma_unsupported_picture_refused`]) is what the package
/// fails on: the error names its path when it has no extension, and its
/// extension otherwise.
pub proof fn lemma_unsupported_picture_named(d: WordDocumentV, preserve: Option<Seq<u8>>, sources: Seq<Result<Seq<u8>, Seq<char>>>, k: int)
    requires
        0 <= k < d.images.len(),
        !picture_supported_v(d.images[k].path),
        image_state_v(preserve) matches Ok((_, _, refs)) && preserved_plan_v(d.images[k], refs, preserve) is None
            && forall|j: int| 0 <= j < k ==> planned_ok_v(d.images, sources, refs, preserve, j),
    ensures
        package_entries_v(d, preserve, sources) == Err::<Seq<PackageEntryV>, OfficeErrorV>(
            OfficeErrorV::Xml(refused_picture_msg_v(d.images[k].path)),
        ),
{
    let (mm, mr, refs) = image_state_v(preserve)->Ok_0;
    lemma_plans_name_refused(d.images, sources, refs, preserve, 0, mm.wrapping_add(1), mr.wrapping_add(1), Seq::empty(), k);
}

/// Two rendered documents one after the other: paragraphs, tables and
/// images each appended.
pub open spec fn rendered_concat_v(x: RenderedV, y: RenderedV) -> RenderedV {
    RenderedV { paragraphs: x.paragraphs + y.paragraphs, tables: x.tables + y.tables, images: x.images + y.images }
}

/// The empty rendered document.
pub open spec fn rendered_empty_v() -> RenderedV {
    RenderedV { paragraphs: Seq::empty(), tables: Seq::empty(), images: Seq::empty() }
}

proof fn lemma_render_one_appends(b: ContentBlockV, t: DesignTokens, d: RenderedV)
    ensures
        render_one_v(b, t, d) == rendered_concat_v(d, render_one_v(b, t, rendered_empty_v())),
{
    let e = rendered_empty_v();
    let r = render_one_v(b, t, e);
    assert(d.paragraphs + r.paragraphs =~= render_one_v(b, t, d).paragraphs);
    assert(d.tables + r.tables =~= render_one_v(b, t, d).tables);
    assert(d.images + r.images =~= render_one_v(b, t, d).images);
}

/// Rendering two lists of blocks back to back gives the rendering of the
/// first followed by that of the second: paragraphs, tables and images each
/// appended in order. So no block's output depends on the blocks before it.
pub proof fn lemma_render_blocks_concat(a: Seq<ContentBlockV>, b: Seq<ContentBlockV>, t: DesignTokens)
    ensures
        render_blocks_v(a + b, t) == rendered_concat_v(render_blocks_v(a, t), render_blocks_v(b, t)),
    decreases b.len(),
{
    if b.len() == 0 {
        assert(a + b =~= a);
        let x = render_blocks_v(a, t);
        assert(x.paragraphs + Seq::empty() =~= x.paragraphs);
        assert(x.tables + Seq::empty() =~= x.tables);
        assert(x.images + Seq::empty() =~= x.images);
    } else {
        assert((a + b).drop_last() =~= a + b.drop_last());
        assert((a + b).last() == b.last());
        lemma_render_blocks_concat(a, b.drop_last(), t);
        let x = render_blocks_v(a, t);
        let y = render_blocks_v(b.drop_last(), t);
        let o = render_one_v(b.last(), t, rendered_empty_v());
        lemma_render_one_appends(b.last(), t, rendered_concat_v(x, y));
        lemma_render_one_appends(b.last(), t, y);
        assert((x.paragraphs + y.paragraphs) + o.paragraphs =~= x.paragraphs + (y.paragraphs + o.paragraphs));
        assert((x.tables + y.tables) + o.tables =~= x.tables + (y.tables + o.tables));
        assert((x.images + y.images) + o.images =~= x.images + (y.images + o.images));
    }
}

/// A body block with neither text nor runs, and a callout with neither a
/// body nor body lines, render to nothing: the document is left as it was.
pub proof fn lemma_empty_blocks_render_nothing(
    t: DesignTokens,
    d: RenderedV,
    id: Seq<char>,
    level: CalloutLevelName,
    title: Seq<char>,
)
    ensures
        render_one_v(ContentBlockV::Body { id, text: None, runs: None }, t, d) == d,
        render_one_v(ContentBlockV::Callout { id, level, title, body: None, body_lines: None }, t, d) == d,
{
}

/// A header reference renamed through the relationships `map`.
pub open spec fn renamed_header_ref_v(map: Seq<(Seq<char>, Seq<char>)>, r: HeaderPartRefV) -> HeaderPartRefV {
    HeaderPartRefV { header_id: renamed_v(map, r.header_id), ..r }
}

/// A footer reference renamed through the relationships `map`.
pub open spec fn renamed_footer_ref_v(map: Seq<(Seq<char>, Seq<char>)>, r: FooterPartRefV) -> FooterPartRefV {
    FooterPartRefV { footer_id: renamed_v(map, r.footer_id), ..r }
}

proof fn lemma_kept_header_refs(refs: Seq<HeaderPartRefV>, map: Seq<(Seq<char>, Seq<char>)>, hs: Seq<HeaderPartV>)
    ensures
        kept_header_refs_v(refs, map, hs) == refs.map_values(|r: HeaderPartRefV| renamed_header_ref_v(map, r)).filter(
            |r: HeaderPartRefV| has_header_v(hs, r.header_id),
        ),
    decreases refs.len(),
{
    let m = refs.map_values(|r: HeaderPartRefV| renamed_header_ref_v(map, r));
    reveal_with_fuel(Seq::filter, 1);
    if refs.len() > 0 {
        lemma_kept_header_refs(refs.drop_last(), map, hs);
        assert(m.drop_last() =~= refs.drop_last().map_values(|r: HeaderPartRefV| renamed_header_ref_v(map, r)));
    } else {
        assert(m =~= Seq::<HeaderPartRefV>::empty());
    }
}

proof fn lemma_kept_footer_refs(refs: Seq<FooterPartRefV>, map: Seq<(Seq<char>, Seq<char>)>, fs: Seq<FooterPartV>)
    ensures
        kept_footer_refs_v(refs, map, fs) == refs.map_values(|r: FooterPartRefV| renamed_footer_ref_v(map, r)).filter(
            |r: FooterPartRefV| has_footer_v(fs, r.footer_id),
        ),
    decreases refs.len(),
{
    let m = refs.map_values(|r: FooterPartRefV| renamed_footer_ref_v(map, r));
    reveal_with_fuel(Seq::filter, 1);
    if refs.len() > 0 {
        lemma_kept_footer_refs(refs.drop_last(), map, fs);
        assert(m.drop_last() =~= refs.drop_last().map_values(|r: FooterPartRefV| renamed_footer_ref_v(map, r)));
    } else {
        assert(m =~= Seq::<FooterPartRefV>::empty());
    }
}

/// Resolving section references through a non-empty rels part keeps every
/// section and all but its references; each section's header (footer)
/// references become, in their order and with their kinds, those of its
/// references renamed through the part's header and footer relationships
/// (to the file stem of the target) that name a loaded header (footer)
/// part. So every reference that survives names an existing part.
pub proof fn lemma_section_refs_resolved(ss: Seq<WordSectionV>, rels: Seq<char>, hs: Seq<HeaderPartV>, fs: Seq<FooterPartV>)
    requires
        rels.len() > 0,
    ensures
        ({
            let out = resolved_sections_v(ss, rels, hs, fs);
            let map = hf_rels_v(rels);
            &&& out.len() == ss.len()
            &&& forall|k: int| 0 <= k < ss.len() ==> {
                &&& (#[trigger] out[k]) == WordSectionV { header_refs: out[k].header_refs, footer_refs: out[k].footer_refs, ..ss[k] }
                &&& out[k].header_refs == ss[k].header_refs.map_values(|r: HeaderPartRefV| renamed_header_ref_v(map, r)).filter(
                    |r: HeaderPartRefV| has_header_v(hs, r.header_id),
                )
                &&& out[k].footer_refs == ss[k].footer_refs.map_values(|r: FooterPartRefV| renamed_footer_ref_v(map, r)).filter(
                    |r: FooterPartRefV| has_footer_v(fs, r.footer_id),
                )
                &&& forall|j: int| 0 <= j < out[k].header_refs.len() ==> has_header_v(hs, #[trigger] out[k].header_refs[j].header_id)
                &&& forall|j: int| 0 <= j < out[k].footer_refs.len() ==> has_footer_v(fs, #[trigger] out[k].footer_refs[j].footer_id)
            }
        }),
{
    let out = resolved_sections_v(ss, rels, hs, fs);
    let map = hf_rels_v(rels);
    assert forall|k: int| 0 <= k < ss.len() implies {
        &&& (#[trigger] out[k]) == WordSectionV { header_refs: out[k].header_refs, footer_refs: out[k].footer_refs, ..ss[k] }
        &&& out[k].header_refs == ss[k].header_refs.map_values(|r: HeaderPartRefV| renamed_header_ref_v(map, r)).filter(
            |r: HeaderPartRefV| has_header_v(hs, r.header_id),
        )
        &&& out[k].footer_refs == ss[k].footer_refs.map_values(|r: FooterPartRefV| renamed_footer_ref_v(map, r)).filter(
            |r: FooterPartRefV| has_footer_v(fs, r.footer_id),
        )
        &&& forall|j: int| 0 <= j < out[k].header_refs.len() ==> has_header_v(hs, #[trigger] out[k].header_refs[j].header_id)
        &&& forall|j: int| 0 <= j < out[k].footer_refs.len() ==> has_footer_v(fs, #[trigger] out[k].footer_refs[j].footer_id)
    } by {
        lemma_kept_header_refs(ss[k].header_refs, map, hs);
        lemma_kept_footer_refs(ss[k].footer_refs, map, fs);
        let hm = ss[k].header_refs.map_values(|r: HeaderPartRefV| renamed_header_ref_v(map, r));
        let fm = ss[k].footer_refs.map_values(|r: FooterPartRefV| renamed_footer_ref_v(map, r));
        hm.filter_lemma(|r: HeaderPartRefV| has_header_v(hs, r.header_id));
        fm.filter_lemma(|r: FooterPartRefV| has_footer_v(fs, r.footer_id));
    }
}

proof fn lemma_plans_refuse_unsupported(
    imgs: Seq<WordImageV>,
    sources: Seq<Result<Seq<u8>, Seq<char>>>,
    refs: Seq<PreservedImageRefV>,
    preserve: Option<Seq<u8>>,
    i: int,
    media: u32,
    rid: u32,
    acc: Seq<ImageWritePlanV>,
    k: int,
    x: Result<Seq<u8>, Seq<char>>,
)
    requires
        0 <= i <= k < imgs.len(),
        k < sources.len(),
        preserved_plan_v(imgs[k], refs, preserve) is None,
        !picture_supported_v(imgs[k].path),
    ensures
        image_plans_from_v(imgs, sources, refs, preserve, i, media, rid, acc) is Err,
        image_plans_from_v(imgs, sources, refs, preserve, i, media, rid, acc)
            == image_plans_from_v(imgs, sources.update(k, x), refs, preserve, i, media, rid, acc),
    decreases k - i,
{
    let s2 = sources.update(k, x);
    if i < k {
        assert(s2[i] == sources[i]);
        match preserved_plan_v(imgs[i], refs, preserve) {
            Some(p) => {
                lemma_plans_refuse_unsupported(imgs, sources, refs, preserve, i + 1, media, rid, acc.push(p), k, x);
            },
            None => match fresh_plan_v(imgs[i], sources[i], media, rid) {
                Err(m) => {},
                Ok(p) => {
                    lemma_plans_refuse_unsupported(
                        imgs,
                        sources,
                        refs,
                        preserve,
                        i + 1,
                        media.wrapping_add(1),
                        rid.wrapping_add(1),
                        acc.push(p),
                        k,
                        x,
                    );
                },
            },
        }
    } else {
        assert(fresh_plan_v(imgs[k], sources[k], media, rid) is Err);
        assert(fresh_plan_v(imgs[k], sources[k], media, rid) == fresh_plan_v(imgs[k], x, media, rid));
    }
}

/// A picture that the preserved package does not hold (it has no internal
/// path, or its path has no preserved relationship) and whose file has no
/// extension, or one other than png, jpeg, jpg or gif, makes the package
/// fail, and what its source holds makes no difference: the file is never
/// read.
pub proof fn lemma_unsupported_picture_refused(
    d: WordDocumentV,
    preserve: Option<Seq<u8>>,
    sources: Seq<Result<Seq<u8>, Seq<char>>>,
    k: int,
    x: Result<Seq<u8>, Seq<char>>,
)
    requires
        0 <= k < d.images.len(),
        k < sources.len(),
        !picture_supported_v(d.images[k].path),
        d.images[k].internal_path is None || (image_state_v(preserve) matches Ok((_, _, refs))
            && preserved_plan_v(d.images[k], refs, preserve) is None),
    ensures
        package_entries_v(d, preserve, sources) is Err,
        package_entries_v(d, preserve, sources) == package_entries_v(d, preserve, sources.update(k, x)),
{
    match image_state_v(preserve) {
        Err(e) => {},
        Ok((mm, mr, refs)) => {
            lemma_plans_refuse_unsupported(d.images, sources, refs, preserve, 0, mm.wrapping_add(1), mr.wrapping_add(1), Seq::empty(), k, x);
        },
    }
}

/// An element after the replacements `ms`: merged with the last
/// replacement with its id, if any.
pub open spec fn replaced_v(e: DocElementV, ms: Seq<DocElementV>) -> DocElementV {
    match last_elem_with_id(ms, e.id()) {
        Some(j) => merge_v(e, ms[j]),
        None => e,
    }
}

proof fn lemma_kept_filter_map(es: Seq<DocElementV>, dl: Seq<Seq<char>>, ms: Seq<DocElementV>, k: int)
    requires
        0 <= k <= es.len(),
    ensures
        kept_v(es, dl, ms, k) == es.take(k).filter(|e: DocElementV| !dl.contains(e.id())).map_values(
            |e: DocElementV| replaced_v(e, ms),
        ),
    decreases k,
{
    reveal_with_fuel(Seq::filter, 1);
    let pred = |e: DocElementV| !dl.contains(e.id());
    if k == 0 {
        assert(es.take(0) =~= Seq::<DocElementV>::empty());
        assert(es.take(0).filter(pred) =~= Seq::<DocElementV>::empty());
        assert(es.take(0).filter(pred).map_values(|e: DocElementV| replaced_v(e, ms)) =~= Seq::<DocElementV>::empty());
    } else {
        lemma_kept_filter_map(es, dl, ms, k - 1);
        assert(es.take(k).drop_last() =~= es.take(k - 1));
        assert(es.take(k).last() == es[k - 1]);
        let f = es.take(k - 1).filter(pred);
        if pred(es[k - 1]) {
            assert(es.take(k).filter(pred) == f.push(es[k - 1]));
            assert(f.push(es[k - 1]).map_values(|e: DocElementV| replaced_v(e, ms)) =~= f.map_values(
                |e: DocElementV| replaced_v(e, ms),
            ).push(replaced_v(es[k - 1], ms)));
        } else {
            assert(es.take(k).filter(pred) == f);
        }
    }
}

/// Replacing elements without deleting or inserting any keeps the element
/// view's length and order: each element with the id of a replacement is
/// merged with (the last such) replacement in its own place, the others
/// stay as they are.
pub proof fn lemma_modify_replaces_in_place(d: WordDocumentV, ms: Seq<DocElementV>)
    ensures
        modified_elements_v(d, ms, Seq::empty(), Seq::empty()) == elements_v(d).map_values(|e: DocElementV| replaced_v(e, ms)),
{
    reveal_with_fuel(Seq::filter, 1);
    let es = elements_v(d);
    let pairs = marker_pairs_v(d.paragraphs, d.paragraphs.len() as int);
    assert(delete_list_v(Seq::empty(), pairs, 0) == Seq::<Seq<char>>::empty());
    lemma_kept_filter_map(es, Seq::empty(), ms, es.len() as int);
    assert(es.take(es.len() as int) =~= es);
    let pred = |e: DocElementV| !Seq::<Seq<char>>::empty().contains(e.id());
    es.lemma_filter_len(pred);
    lemma_filter_all(es, pred);
}

proof fn lemma_filter_all(s: Seq<DocElementV>, pred: spec_fn(DocElementV) -> bool)
    requires
        forall|i: int| 0 <= i < s.len() ==> pred(#[trigger] s[i]),
    ensures
        s.filter(pred) == s,
    decreases s.len(),
{
    reveal_with_fuel(Seq::filter, 1);
    if s.len() > 0 {
        assert forall|i: int| 0 <= i < s.drop_last().len() implies pred(#[trigger] s.drop_last()[i]) by {
            assert(s.drop_last()[i] == s[i]);
        }
        lemma_filter_all(s.drop_last(), pred);
        assert(s.drop_last().push(s.last()) =~= s);
    } else {
        assert(s.filter(pred) =~= s);
    }
}

/// An edit without insertions: the element view loses exactly the elements
/// whose id is to be deleted (a deleted table's id also deleting its marker
/// paragraph's), keeps the others in their order, and merges each with the
/// last replacement with its id, if any.
pub proof fn lemma_modify_without_insertions(d: WordDocumentV, ms: Seq<DocElementV>, dels: Seq<Seq<char>>)
    ensures
        ({
            let dl = delete_list_v(dels, marker_pairs_v(d.paragraphs, d.paragraphs.len() as int), dels.len() as int);
            modified_elements_v(d, ms, dels, Seq::empty()) == elements_v(d).filter(|e: DocElementV| !dl.contains(e.id())).map_values(
                |e: DocElementV| replaced_v(e, ms),
            )
        }),
{
    let es = elements_v(d);
    let dl = delete_list_v(dels, marker_pairs_v(d.paragraphs, d.paragraphs.len() as int), dels.len() as int);
    lemma_kept_filter_map(es, dl, ms, es.len() as int);
    assert(es.take(es.len() as int) =~= es);
}

/// Modifying one paragraph: each element of the element view keeps its
/// place; the one with the paragraph's id becomes the merge: the new runs
/// (with empty text) when given, else the new text (without runs) unless
/// the text is omitted, else the old text and runs; style, numbering,
/// alignment and text direction the new value or else the old one. The
/// document's sections, headers and footers are unchanged.
pub proof fn lemma_modify_one_paragraph(d: WordDocumentV, m: DocElementV, i: int)
    requires
        m is Paragraph,
        0 <= i < elements_v(d).len(),
    ensures
        modified_elements_v(d, seq![m], Seq::empty(), Seq::empty()).len() == elements_v(d).len(),
        elements_v(d)[i].id() != m.id() ==> modified_elements_v(d, seq![m], Seq::empty(), Seq::empty())[i] == elements_v(d)[i],
        elements_v(d)[i] matches DocElementV::Paragraph { id, text: ot, style: os, runs: ors, numbering: on, alignment: oa, text_direction: otd, .. }
            ==> id == m.id() ==> modified_elements_v(d, seq![m], Seq::empty(), Seq::empty())[i] == (DocElementV::Paragraph {
                id: m.id(),
                text: if m->Paragraph_runs is Some { Seq::empty() } else if !m->omit_text { m->Paragraph_text } else { ot },
                omit_text: false,
                style: or_v(m->Paragraph_style, os),
                runs: if m->Paragraph_runs is Some { m->Paragraph_runs } else if !m->omit_text { None } else { ors },
                numbering: or_v(m->numbering, on),
                alignment: or_v(m->alignment, oa),
                text_direction: or_v(m->text_direction, otd),
            }),
        modify_v(d, seq![m], Seq::empty(), Seq::empty()).sections == d.sections,
        modify_v(d, seq![m], Seq::empty(), Seq::empty()).headers == d.headers,
        modify_v(d, seq![m], Seq::empty(), Seq::empty()).footers == d.footers,
{
    lemma_modify_replaces_in_place(d, seq![m]);
    let e = elements_v(d)[i];
    let ms = seq![m];
    assert(ms.drop_last() =~= Seq::<DocElementV>::empty());
    assert(last_elem_with_id(ms.drop_last(), e.id()) is None);
    assert(last_elem_with_id(ms, e.id()) == if ms.last().id() == e.id() { Some(0int) } else { None });
}

/// Deleting without replacing or inserting removes from the element view
/// exactly the elements whose id is to be deleted (a deleted table's id
/// also deleting its marker paragraph's), and keeps the others in their
/// order. The document's sections, headers and footers are unchanged.
pub proof fn lemma_modify_deletes_in_order(d: WordDocumentV, dels: Seq<Seq<char>>)
    ensures
        ({
            let dl = delete_list_v(dels, marker_pairs_v(d.paragraphs, d.paragraphs.len() as int), dels.len() as int);
            modified_elements_v(d, Seq::empty(), dels, Seq::empty()) == elements_v(d).filter(|e: DocElementV| !dl.contains(e.id()))
        }),
        modify_v(d, Seq::empty(), dels, Seq::empty()).sections == d.sections,
        modify_v(d, Seq::empty(), dels, Seq::empty()).headers == d.headers,
        modify_v(d, Seq::empty(), dels, Seq::empty()).footers == d.footers,
{
    let dl = delete_list_v(dels, marker_pairs_v(d.paragraphs, d.paragraphs.len() as int), dels.len() as int);
    let es = elements_v(d);
    lemma_kept_filter_map(es, dl, Seq::empty(), es.len() as int);
    assert(es.take(es.len() as int) =~= es);
    let f = es.filter(|e: DocElementV| !dl.contains(e.id()));
    assert forall|j: int| 0 <= j < f.len() implies replaced_v(#[trigger] f[j], Seq::empty()) == f[j] by {
        assert(last_elem_with_id(Seq::<DocElementV>::empty(), f[j].id()) is None);
    }
    assert(f.map_values(|e: DocElementV| replaced_v(e, Seq::empty())) =~= f);
}

/// Where a paragraph of a rebuilt document comes from: a paragraph element
/// with its id, or the marker of a table or picture element.
pub open spec fn para_from_v(p: WordParagraphV, e: DocElementV) -> bool {
    match e {
        DocElementV::Paragraph { id, .. } => p.id == id,
        DocElementV::Table { id, .. } => p == tbl_marker_para_v(id),
        DocElementV::Image { id, .. } => p == img_marker_para_v(id),
    }
}

#[verifier::spinoff_prover]
proof fn lemma_rebuild_origin(es: Seq<DocElementV>, k: int, orig: Seq<WordImageV>, ms: Seq<DocElementV>)
    requires
        0 <= k <= es.len(),
    ensures
        forall|j: int| 0 <= j < rebuild_v(es, k, orig, ms).1.len() ==> exists|i: int|
            0 <= i < k && es[i] is Table && #[trigger] rebuild_v(es, k, orig, ms).1[j].id == es[i].id(),
        forall|j: int| 0 <= j < rebuild_v(es, k, orig, ms).0.len() ==> exists|i: int|
            0 <= i < k && para_from_v(#[trigger] rebuild_v(es, k, orig, ms).0[j], es[i]),
    decreases k,
{
    if k > 0 {
        lemma_rebuild_origin(es, k - 1, orig, ms);
        let a = rebuild_v(es, k - 1, orig, ms);
        let r = rebuild_v(es, k, orig, ms);
        match es[k - 1] {
            DocElementV::Table { id, header, rows, .. } => {
                assert(r.1 == a.1.push(elem_table_v(id, header, rows)));
                assert(r.1.last().id == id);
            },
            _ => {
                assert(r.1 == a.1);
            },
        }
        assert forall|j: int| 0 <= j < r.1.len() implies exists|i: int|
            0 <= i < k && es[i] is Table && #[trigger] r.1[j].id == es[i].id() by {
            if j < a.1.len() {
                assert(r.1[j] == a.1[j]);
                let i = choose|i: int| 0 <= i < k - 1 && es[i] is Table && a.1[j].id == es[i].id();
                assert(0 <= i < k && es[i] is Table && r.1[j].id == es[i].id());
            } else {
                assert(es[k - 1] is Table && r.1[j].id == es[k - 1].id());
            }
        }
        assert forall|j: int| 0 <= j < r.0.len() implies exists|i: int| 0 <= i < k && para_from_v(#[trigger] r.0[j], es[i]) by {
            if j < a.0.len() {
                assert(r.0[j] == a.0[j]);
                let i = choose|i: int| 0 <= i < k - 1 && para_from_v(a.0[j], es[i]);
                assert(0 <= i < k && para_from_v(r.0[j], es[i]));
            } else {
                assert(para_from_v(r.0[j], es[k - 1]));
            }
        }
    }
}

/// Deleting a table, where its marker paragraph has the usual marker id,
/// leaves no table with its id and no paragraph with its marker's id; the
/// other elements keep their order (see [`lemma_modify_deletes_in_order`])
/// and the sections, headers and footers stay as they were.
pub proof fn lemma_delete_table(d: WordDocumentV, t: Seq<char>)
    requires
        lookup_pair_v(marker_pairs_v(d.paragraphs, d.paragraphs.len() as int), t) == Some(tbl_marker_para_v(t).id),
    ensures
        forall|j: int| 0 <= j < modify_v(d, Seq::empty(), seq![t], Seq::empty()).tables.len()
            ==> (#[trigger] modify_v(d, Seq::empty(), seq![t], Seq::empty()).tables[j]).id != t,
        forall|j: int| 0 <= j < modify_v(d, Seq::empty(), seq![t], Seq::empty()).paragraphs.len()
            ==> (#[trigger] modify_v(d, Seq::empty(), seq![t], Seq::empty()).paragraphs[j]).id != tbl_marker_para_v(t).id,
        modify_v(d, Seq::empty(), seq![t], Seq::empty()).sections == d.sections,
        modify_v(d, Seq::empty(), seq![t], Seq::empty()).headers == d.headers,
        modify_v(d, Seq::empty(), seq![t], Seq::empty()).footers == d.footers,
{
    let dels = seq![t];
    let pairs = marker_pairs_v(d.paragraphs, d.paragraphs.len() as int);
    let mid = tbl_marker_para_v(t).id;
    let dl = delete_list_v(dels, pairs, 1);
    assert(delete_list_v(dels, pairs, 0) == dels);
    assert(dl == dels.push(mid));
    lemma_modify_deletes_in_order(d, dels);
    let pred = |e: DocElementV| !dl.contains(e.id());
    let f = elements_v(d).filter(pred);
    elements_v(d).filter_lemma(pred);
    assert(dl[0] == t && dl[1] == mid);
    let res = modified_elements_v(d, Seq::empty(), dels, Seq::empty());
    assert(res == f);
    let r = rebuild_v(res, res.len() as int, d.images, Seq::empty());
    lemma_rebuild_origin(res, res.len() as int, d.images, Seq::empty());
    assert forall|j: int| 0 <= j < r.1.len() implies (#[trigger] r.1[j]).id != t by {
        let i = choose|i: int| 0 <= i < res.len() && res[i] is Table && r.1[j].id == res[i].id();
        assert(pred(f[i]));
    }
    assert forall|j: int| 0 <= j < r.0.len() implies (#[trigger] r.0[j]).id != mid by {
        let i = choose|i: int| 0 <= i < res.len() && para_from_v(r.0[j], res[i]);
        assert(pred(f[i]));
        match res[i] {
            DocElementV::Paragraph { id, .. } => {},
            DocElementV::Table { id, .. } => {
                if r.0[j].id == mid {
                    lemma_marker_id_injective(id, t);
                }
            },
            DocElementV::Image { id, .. } => {
                lemma_marker_kinds_differ(id, t);
            },
        }
    }
}

proof fn lemma_marker_id_injective(a: Seq<char>, b: Seq<char>)
    requires
        tbl_marker_para_v(a).id == tbl_marker_para_v(b).id,
    ensures
        a == b,
{
    reveal_strlit("__tbl_pos_");
    reveal_strlit("__");
    let xa = "__tbl_pos_"@ + a + "__"@;
    let xb = "__tbl_pos_"@ + b + "__"@;
    assert(xa == xb);
    assert("__tbl_pos_"@.len() == 10);
    assert("__"@.len() == 2);
    assert(xa.len() == a.len() + 12);
    assert(xb.len() == b.len() + 12);
    assert forall|i: int| 0 <= i < a.len() implies a[i] == b[i] by {
        assert(xa[10 + i] == a[i]);
        assert(xb[10 + i] == b[i]);
    }
    assert(a =~= b);
}

proof fn lemma_marker_kinds_differ(a: Seq<char>, b: Seq<char>)
    ensures
        img_marker_para_v(a).id != tbl_marker_para_v(b).id,
{
    reveal_strlit("__tbl_pos_");
    reveal_strlit("__img_pos_");
    assert(img_marker_para_v(a).id[2] == 'i');
    assert(tbl_marker_para_v(b).id[2] == 't');
}

/// The table a table element becomes.
pub open spec fn table_of_elem_v(e: DocElementV) -> WordTableV {
    match e {
        DocElementV::Table { id, header, rows, .. } => elem_table_v(id, header, rows),
        _ => elem_table_v(e.id(), Seq::empty(), Seq::empty()),
    }
}

/// The picture a new picture element becomes.
pub open spec fn image_of_elem_v(e: DocElementV) -> WordImageV {
    match e {
        DocElementV::Image { id, path, width_emu, height_emu, .. } => WordImageV { id, path, width_emu, height_emu, internal_path: None },
        _ => WordImageV { id: e.id(), path: Seq::empty(), width_emu: 0, height_emu: 0, internal_path: None },
    }
}

/// An element with its position set to `pos`.
pub open spec fn renumbered_v(e: DocElementV, pos: int) -> DocElementV {
    match e {
        DocElementV::Table { id, header, rows, .. } => DocElementV::Table { id, position: pos as usize, header, rows },
        DocElementV::Image { id, path, width_emu, height_emu, .. } => DocElementV::Image {
            id,
            position: pos as usize,
            path,
            width_emu,
            height_emu,
        },
        _ => e,
    }
}

/// A list of elements that converts to a document and back as itself: ids
/// unique; paragraphs with their text, which does not start like a marker;
/// tables with a header and no empty row; table and picture ids without
/// `__>`, which ends a marker.
pub open spec fn elements_round_trip_v(es: Seq<DocElementV>) -> bool {
    &&& es.len() <= usize::MAX
    &&& forall|i: int, j: int| 0 <= i < j < es.len() ==> (#[trigger] es[i]).id() != (#[trigger] es[j]).id()
    &&& forall|i: int| 0 <= i < es.len() ==> match #[trigger] es[i] {
        DocElementV::Paragraph { text, omit_text, .. } => !omit_text && !"<__tbl_pos_"@.is_prefix_of(text) && !"<__img_pos_"@.is_prefix_of(text),
        DocElementV::Table { id, header, rows, .. } => header.len() > 0 && (forall|r: int| 0 <= r < rows.len() ==> (#[trigger] rows[r]).len() > 0)
            && !occurs_v(id, "__>"@),
        DocElementV::Image { id, .. } => !occurs_v(id, "__>"@),
    }
}

#[verifier::spinoff_prover]
proof fn lemma_rebuild_tables(es: Seq<DocElementV>, k: int)
    requires
        0 <= k <= es.len(),
    ensures
        forall|j: int| 0 <= j < rebuild_v(es, k, Seq::empty(), Seq::empty()).1.len() ==> exists|i: int|
            0 <= i < k && es[i] is Table && #[trigger] rebuild_v(es, k, Seq::empty(), Seq::empty()).1[j] == table_of_elem_v(es[i]),
        forall|i: int| 0 <= i < k && #[trigger] es[i] is Table ==> exists|j: int|
            0 <= j < rebuild_v(es, k, Seq::empty(), Seq::empty()).1.len() && rebuild_v(es, k, Seq::empty(), Seq::empty()).1[j] == table_of_elem_v(es[i]),
    decreases k,
{
    if k > 0 {
        lemma_rebuild_tables(es, k - 1);
        let a = rebuild_v(es, k - 1, Seq::empty(), Seq::empty()).1;
        let r = rebuild_v(es, k, Seq::empty(), Seq::empty()).1;
        let e = es[k - 1];
        if e is Table {
            assert(r == a.push(table_of_elem_v(e)));
        } else {
            assert(r == a);
        }
        assert forall|j: int| 0 <= j < r.len() implies exists|i: int| 0 <= i < k && es[i] is Table && #[trigger] r[j] == table_of_elem_v(es[i]) by {
            if j < a.len() {
                assert(r[j] == a[j]);
                let i = choose|i: int| 0 <= i < k - 1 && es[i] is Table && a[j] == table_of_elem_v(es[i]);
                assert(0 <= i < k && es[i] is Table && r[j] == table_of_elem_v(es[i]));
            } else {
                assert(0 <= k - 1 < k && es[k - 1] is Table && r[j] == table_of_elem_v(es[k - 1]));
            }
        }
        assert forall|i: int| 0 <= i < k && #[trigger] es[i] is Table implies exists|j: int| 0 <= j < r.len() && r[j] == table_of_elem_v(es[i]) by {
            if i < k - 1 {
                let j = choose|j: int| 0 <= j < a.len() && a[j] == table_of_elem_v(es[i]);
                assert(r[j] == a[j]);
            } else {
                assert(r[a.len() as int] == table_of_elem_v(es[i]));
            }
        }
    }
}

#[verifier::spinoff_prover]
proof fn lemma_rebuild_images(es: Seq<DocElementV>, k: int)
    requires
        0 <= k <= es.len(),
    ensures
        forall|j: int| 0 <= j < rebuild_v(es, k, Seq::empty(), Seq::empty()).2.len() ==> exists|i: int|
            0 <= i < k && es[i] is Image && #[trigger] rebuild_v(es, k, Seq::empty(), Seq::empty()).2[j] == image_of_elem_v(es[i]),
        forall|i: int| 0 <= i < k && #[trigger] es[i] is Image ==> exists|j: int|
            0 <= j < rebuild_v(es, k, Seq::empty(), Seq::empty()).2.len() && rebuild_v(es, k, Seq::empty(), Seq::empty()).2[j] == image_of_elem_v(es[i]),
    decreases k,
{
    if k > 0 {
        lemma_rebuild_images(es, k - 1);
        let a = rebuild_v(es, k - 1, Seq::empty(), Seq::empty()).2;
        let r = rebuild_v(es, k, Seq::empty(), Seq::empty()).2;
        let e = es[k - 1];
        if e is Image {
            assert(last_elem_with_id(Seq::<DocElementV>::empty(), e.id()) is None);
            assert(last_image_with_id(Seq::<WordImageV>::empty(), e.id()) is None);
            assert(r == a.push(image_of_elem_v(e)));
        } else {
            assert(r == a);
        }
        assert forall|j: int| 0 <= j < r.len() implies exists|i: int| 0 <= i < k && es[i] is Image && #[trigger] r[j] == image_of_elem_v(es[i]) by {
            if j < a.len() {
                assert(r[j] == a[j]);
                let i = choose|i: int| 0 <= i < k - 1 && es[i] is Image && a[j] == image_of_elem_v(es[i]);
                assert(0 <= i < k && es[i] is Image && r[j] == image_of_elem_v(es[i]));
            } else {
                assert(0 <= k - 1 < k && es[k - 1] is Image && r[j] == image_of_elem_v(es[k - 1]));
            }
        }
        assert forall|i: int| 0 <= i < k && #[trigger] es[i] is Image implies exists|j: int| 0 <= j < r.len() && r[j] == image_of_elem_v(es[i]) by {
            if i < k - 1 {
                let j = choose|j: int| 0 <= j < a.len() && a[j] == image_of_elem_v(es[i]);
                assert(r[j] == a[j]);
            } else {
                assert(r[a.len() as int] == image_of_elem_v(es[i]));
            }
        }
    }
}

proof fn lemma_table_lookup(es: Seq<DocElementV>, k: int)
    requires
        elements_round_trip_v(es),
        0 <= k < es.len(),
        es[k] is Table,
    ensures
        last_table_with_id(from_elements_v(es).tables, es[k].id()) matches Some(ti)
            && from_elements_v(es).tables[ti] == table_of_elem_v(es[k]),
{
    let ts = from_elements_v(es).tables;
    let n = es.len() as int;
    lemma_rebuild_tables(es, n);
    let j = choose|j: int| 0 <= j < ts.len() && ts[j] == table_of_elem_v(es[k]);
    lemma_last_table_found(ts, j);
    let ti = last_table_with_id(ts, ts[j].id).unwrap();
    let i2 = choose|i: int| 0 <= i < n && es[i] is Table && ts[ti] == table_of_elem_v(es[i]);
    assert(es[i2].id() == ts[ti].id);
    if i2 < k {
        assert(es[i2].id() != es[k].id());
    } else if i2 > k {
        assert(es[k].id() != es[i2].id());
    }
}

proof fn lemma_image_lookup(es: Seq<DocElementV>, k: int)
    requires
        elements_round_trip_v(es),
        0 <= k < es.len(),
        es[k] is Image,
    ensures
        last_image_with_id(from_elements_v(es).images, es[k].id()) matches Some(ii)
            && from_elements_v(es).images[ii] == image_of_elem_v(es[k]),
{
    let ims = from_elements_v(es).images;
    let n = es.len() as int;
    lemma_rebuild_images(es, n);
    let j = choose|j: int| 0 <= j < ims.len() && ims[j] == image_of_elem_v(es[k]);
    lemma_last_image_found(ims, j);
    let ii = last_image_with_id(ims, ims[j].id).unwrap();
    let i2 = choose|i: int| 0 <= i < n && es[i] is Image && ims[ii] == image_of_elem_v(es[i]);
    assert(es[i2].id() == ims[ii].id);
    if i2 < k {
        assert(es[i2].id() != es[k].id());
    } else if i2 > k {
        assert(es[k].id() != es[i2].id());
    }
}

proof fn lemma_last_table_found(ts: Seq<WordTableV>, j: int)
    requires
        0 <= j < ts.len(),
    ensures
        last_table_with_id(ts, ts[j].id) matches Some(i) && 0 <= i < ts.len() && ts[i].id == ts[j].id,
    decreases ts.len(),
{
    if ts.last().id != ts[j].id {
        assert(j < ts.len() - 1);
        assert(ts.drop_last()[j] == ts[j]);
        lemma_last_table_found(ts.drop_last(), j);
    }
}

proof fn lemma_last_image_found(ims: Seq<WordImageV>, j: int)
    requires
        0 <= j < ims.len(),
    ensures
        last_image_with_id(ims, ims[j].id) matches Some(i) && 0 <= i < ims.len() && ims[i].id == ims[j].id,
    decreases ims.len(),
{
    if ims.last().id != ims[j].id {
        assert(j < ims.len() - 1);
        assert(ims.drop_last()[j] == ims[j]);
        lemma_last_image_found(ims.drop_last(), j);
    }
}

proof fn lemma_marker_found(id: Seq<char>, i: nat)
    requires
        !occurs_v(id, "__>"@),
        i <= id.len(),
    ensures
        find_from_v(id + "__>"@, "__>"@, i) == Some(id.len()),
    decreases id.len() - i,
{
    reveal_strlit("__>");
    let rest = id + "__>"@;
    let p = "__>"@;
    assert(rest.len() == id.len() + 3);
    if i == id.len() {
        assert(rest.skip(i as int).subrange(0, 3) =~= p);
        assert(p.is_prefix_of(rest.skip(i as int)));
    } else {
        if i + 3 <= id.len() {
            assert(!occurs_at_v(id, p, i as int));
            if p.is_prefix_of(rest.skip(i as int)) {
                assert(id.subrange(i as int, (i + 3) as int) =~= p);
            }
        } else {
            if p.is_prefix_of(rest.skip(i as int)) {
                assert(rest.skip(i as int)[2] == p[2]);
                assert(rest[(i + 2) as int] == '>');
                assert(rest[(i + 2) as int] == p[(i + 2 - id.len()) as int]);
                assert(p[(i + 2 - id.len()) as int] == '_');
            }
        }
        lemma_marker_found(id, i + 1);
    }
}

proof fn lemma_markers_read(id: Seq<char>)
    requires
        !occurs_v(id, "__>"@),
    ensures
        tbl_marker_v(tbl_marker_para_v(id).text) == Some(id),
        img_marker_v(tbl_marker_para_v(id).text) is None,
        tbl_marker_v(img_marker_para_v(id).text) is None,
        img_marker_v(img_marker_para_v(id).text) == Some(id),
{
    reveal_strlit("<__tbl_pos_");
    reveal_strlit("<__img_pos_");
    reveal_strlit("__>");
    let t = tbl_marker_para_v(id).text;
    let m = img_marker_para_v(id).text;
    assert(t == "<__tbl_pos_"@ + id + "__>"@);
    assert(m == "<__img_pos_"@ + id + "__>"@);
    assert(t.subrange(0, 11) =~= "<__tbl_pos_"@);
    assert(t.skip(11) =~= id + "__>"@);
    assert(m.subrange(0, 11) =~= "<__img_pos_"@);
    assert(m.skip(11) =~= id + "__>"@);
    lemma_marker_found(id, 0);
    assert((id + "__>"@).take(id.len() as int) =~= id);
    assert(t[3] != "<__img_pos_"@[3]);
    assert(m[3] != "<__tbl_pos_"@[3]);
}

proof fn lemma_nonempty_rows_all(rows: Seq<Seq<TableCellV>>, k: int)
    requires
        0 <= k <= rows.len(),
        forall|r: int| 0 <= r < rows.len() ==> (#[trigger] rows[r]).len() > 0,
    ensures
        nonempty_rows_v(rows, k) == Seq::new(k as nat, |i: int| TableRowV { cells: rows[i] }),
    decreases k,
{
    if k == 0 {
        assert(nonempty_rows_v(rows, 0) =~= Seq::new(0, |i: int| TableRowV { cells: rows[i] }));
    } else {
        lemma_nonempty_rows_all(rows, k - 1);
        assert(rows[k - 1].len() > 0);
        assert(nonempty_rows_v(rows, k) =~= Seq::new(k as nat, |i: int| TableRowV { cells: rows[i] }));
    }
}

proof fn lemma_table_elem_back(e: DocElementV, pos: int)
    requires
        0 <= pos,
        e matches DocElementV::Table { header, rows, .. } && header.len() > 0 && (forall|r: int| 0 <= r < rows.len() ==> (#[trigger] rows[r]).len() > 0),
    ensures
        table_elem_v(table_of_elem_v(e), pos as nat) == renumbered_v(e, pos),
{
    match e {
        DocElementV::Table { id, header, rows, .. } => {
            let t = table_of_elem_v(e);
            lemma_nonempty_rows_all(rows, rows.len() as int);
            let body = Seq::new(rows.len(), |i: int| TableRowV { cells: rows[i] });
            assert(t.rows == seq![TableRowV { cells: header }] + body);
            assert(t.rows[0].cells == header);
            assert(t.rows.skip(1) =~= body);
            assert(body.map_values(|r: TableRowV| r.cells) =~= rows);
        },
        _ => {},
    }
}

#[verifier::spinoff_prover]
proof fn lemma_para_pass_step(es: Seq<DocElementV>, k: int)
    requires
        elements_round_trip_v(es),
        0 < k <= es.len(),
        para_pass_v(from_elements_v(es), k - 1).0.len() == k - 1,
    ensures
        ({
            let d = from_elements_v(es);
            let acc = para_pass_v(d, k - 1);
            let e = es[k - 1];
            para_pass_v(d, k) == (
                acc.0.push(renumbered_v(e, k - 1)),
                if e is Table { acc.1.push(e.id()) } else { acc.1 },
                if e is Image { acc.2.push(e.id()) } else { acc.2 },
            )
        }),
{
    let d = from_elements_v(es);
    let n = es.len() as int;
    lemma_from_elements_markers(es);
    let acc = para_pass_v(d, k - 1);
    let e = es[k - 1];
    let p = d.paragraphs[k - 1];
    assert(p == para_of_elem_v(e));
    match e {
        DocElementV::Paragraph { text, .. } => {
            reveal_strlit("<__tbl_pos_");
            reveal_strlit("<__img_pos_");
            assert(tbl_marker_v(p.text) is None);
            assert(img_marker_v(p.text) is None);
            assert(para_elem_v(p) == renumbered_v(e, k - 1));
        },
        DocElementV::Table { id, .. } => {
            lemma_markers_read(id);
            lemma_table_lookup(es, k - 1);
            lemma_table_elem_back(e, k - 1);
        },
        DocElementV::Image { id, .. } => {
            lemma_markers_read(id);
            lemma_image_lookup(es, k - 1);
        },
    }
}

proof fn lemma_para_pass_round_trip(es: Seq<DocElementV>, k: int)
    requires
        elements_round_trip_v(es),
        0 <= k <= es.len(),
    ensures
        para_pass_v(from_elements_v(es), k).0 == Seq::new(k as nat, |i: int| renumbered_v(es[i], i)),
        forall|i: int| 0 <= i < k && #[trigger] es[i] is Table ==> para_pass_v(from_elements_v(es), k).1.contains(es[i].id()),
        forall|i: int| 0 <= i < k && #[trigger] es[i] is Image ==> para_pass_v(from_elements_v(es), k).2.contains(es[i].id()),
    decreases k,
{
    let d = from_elements_v(es);
    if k == 0 {
        assert(para_pass_v(d, 0).0 =~= Seq::new(0, |i: int| renumbered_v(es[i], i)));
    } else {
        lemma_para_pass_round_trip(es, k - 1);
        lemma_para_pass_step(es, k);
        let acc = para_pass_v(d, k - 1);
        let r = para_pass_v(d, k);
        let e = es[k - 1];
        assert(r.0 =~= Seq::new(k as nat, |i: int| renumbered_v(es[i], i)));
        assert forall|i: int| 0 <= i < k && #[trigger] es[i] is Table implies r.1.contains(es[i].id()) by {
            if i < k - 1 {
                let w = choose|w: int| 0 <= w < acc.1.len() && acc.1[w] == es[i].id();
                if e is Table {
                    assert(r.1[w] == acc.1[w]);
                }
            } else {
                assert(r.1[acc.1.len() as int] == es[i].id());
            }
        }
        assert forall|i: int| 0 <= i < k && #[trigger] es[i] is Image implies r.2.contains(es[i].id()) by {
            if i < k - 1 {
                let w = choose|w: int| 0 <= w < acc.2.len() && acc.2[w] == es[i].id();
                if e is Image {
                    assert(r.2[w] == acc.2[w]);
                }
            } else {
                assert(r.2[acc.2.len() as int] == es[i].id());
            }
        }
    }
}

proof fn lemma_tables_pass_placed(ts: Seq<WordTableV>, placed: Seq<Seq<char>>, acc: Seq<DocElementV>, k: int)
    requires
        0 <= k <= ts.len(),
        forall|j: int| 0 <= j < ts.len() ==> placed.contains(#[trigger] ts[j].id),
    ensures
        tables_pass_v(ts, placed, acc, k) == acc,
    decreases k,
{
    if k > 0 {
        lemma_tables_pass_placed(ts, placed, acc, k - 1);
        assert(placed.contains(ts[k - 1].id));
    }
}

proof fn lemma_images_pass_placed(ims: Seq<WordImageV>, placed: Seq<Seq<char>>, acc: Seq<DocElementV>, k: int)
    requires
        0 <= k <= ims.len(),
        forall|j: int| 0 <= j < ims.len() ==> placed.contains(#[trigger] ims[j].id),
    ensures
        images_pass_v(ims, placed, acc, k) == acc,
    decreases k,
{
    if k > 0 {
        lemma_images_pass_placed(ims, placed, acc, k - 1);
        assert(placed.contains(ims[k - 1].id));
    }
}

/// Converting elements to a document and back gives the same elements,
/// each table and picture with its position set to its index, for element
/// lists as [`elements_round_trip_v`] describes.
pub proof fn lemma_elements_round_trip(es: Seq<DocElementV>)
    requires
        elements_round_trip_v(es),
    ensures
        elements_v(from_elements_v(es)) == Seq::new(es.len(), |i: int| renumbered_v(es[i], i)),
{
    let d = from_elements_v(es);
    let n = es.len() as int;
    lemma_from_elements_markers(es);
    lemma_rebuild_tables(es, n);
    lemma_rebuild_images(es, n);
    lemma_para_pass_round_trip(es, n);
    let a = para_pass_v(d, n);
    assert forall|j: int| 0 <= j < d.tables.len() implies a.1.contains(#[trigger] d.tables[j].id) by {
        let i = choose|i: int| 0 <= i < n && es[i] is Table && d.tables[j] == table_of_elem_v(es[i]);
        assert(es[i] is Table);
    }
    assert forall|j: int| 0 <= j < d.images.len() implies a.2.contains(#[trigger] d.images[j].id) by {
        let i = choose|i: int| 0 <= i < n && es[i] is Image && d.images[j] == image_of_elem_v(es[i]);
        assert(es[i] is Image);
    }
    lemma_tables_pass_placed(d.tables, a.1, a.0, d.tables.len() as int);
    lemma_images_pass_placed(d.images, a.2, a.0, d.images.len() as int);
}

/// A paragraph's text block in the plain-text rendering, without the blank
/// line that follows it: `[style] ` when styled, then its text.
pub open spec fn styled_text_v(p: WordParagraphV) -> Seq<char> {
    (match p.style {
        Some(s) => "["@ + s + "] "@,
        None => Seq::empty(),
    }) + p.text
}

/// A paragraph whose text block is plain: no runs, and a block that starts
/// and ends with a character other than whitespace.
pub open spec fn plain_block_v(p: WordParagraphV) -> bool {
    &&& (p.runs is None || p.runs == Some(Seq::<FontRunV>::empty()))
    &&& styled_text_v(p).len() > 0
    &&& !crate::text::is_ws(styled_text_v(p)[0])
    &&& !crate::text::is_ws(styled_text_v(p).last())
}

proof fn lemma_plain_text_joined(ps: Seq<WordParagraphV>, k: int)
    requires
        1 <= k <= ps.len(),
        forall|j: int| 0 <= j < ps.len() ==> plain_block_v(#[trigger] ps[j]),
    ensures
        plain_text_v(ps, k) == join_v(ps.take(k).map_values(|p: WordParagraphV| styled_text_v(p)), "\n\n"@) + "\n\n"@,
        join_v(ps.take(k).map_values(|p: WordParagraphV| styled_text_v(p)), "\n\n"@).len() > 0,
        !crate::text::is_ws(join_v(ps.take(k).map_values(|p: WordParagraphV| styled_text_v(p)), "\n\n"@)[0]),
        !crate::text::is_ws(join_v(ps.take(k).map_values(|p: WordParagraphV| styled_text_v(p)), "\n\n"@).last()),
    decreases k,
{
    let m = ps.take(k).map_values(|p: WordParagraphV| styled_text_v(p));
    let p = ps[k - 1];
    assert(plain_block_v(p));
    assert(crate::reader::para_md_v(p) == p.text);
    assert(crate::reader::para_block_v(p) =~= styled_text_v(p) + "\n\n"@);
    if k == 1 {
        assert(m =~= seq![styled_text_v(ps[0])]);
        assert(plain_text_v(ps, 0) == Seq::<char>::empty());
        assert(plain_text_v(ps, 1) =~= styled_text_v(ps[0]) + "\n\n"@);
    } else {
        lemma_plain_text_joined(ps, k - 1);
        let m0 = ps.take(k - 1).map_values(|p: WordParagraphV| styled_text_v(p));
        assert(m.drop_last() =~= m0);
        assert(m.last() == styled_text_v(p));
        let j0 = join_v(m0, "\n\n"@);
        assert(join_v(m, "\n\n"@) == j0 + "\n\n"@ + styled_text_v(p));
        assert(plain_text_v(ps, k) =~= j0 + "\n\n"@ + styled_text_v(p) + "\n\n"@);
        assert((j0 + "\n\n"@ + styled_text_v(p))[0] == j0[0]);
        assert((j0 + "\n\n"@ + styled_text_v(p)).last() == styled_text_v(p).last());
    }
}

proof fn lemma_trim_blank_line(x: Seq<char>)
    requires
        x.len() > 0,
        !crate::text::is_ws(x[0]),
        !crate::text::is_ws(x.last()),
    ensures
        crate::text::trim_v(x + "\n\n"@) == x,
{
    reveal_strlit("\n\n");
    reveal_strlit("\n");
    let y = x + "\n\n"@;
    assert(y[0] == x[0]);
    assert(crate::text::trim_start_ws(y) == y);
    assert(y.drop_last() =~= x + "\n"@);
    assert((x + "\n"@).drop_last() =~= x);
    assert(y.last() == '\n');
    assert((x + "\n"@).last() == '\n');
    assert(crate::text::trim_end_ws(y) == crate::text::trim_end_ws(x + "\n"@));
    assert(crate::text::trim_end_ws(x + "\n"@) == crate::text::trim_end_ws(x));
    assert(crate::text::trim_end_ws(x) == x);
}

/// The text of a document without tables whose paragraphs have no runs:
/// the paragraphs' blocks (`[style] ` when styled, then the text), each
/// followed by a blank line, so that consecutive paragraphs are separated
/// by `"\n\n"` and never run together; the whole is trimmed.
pub proof fn lemma_plain_text_paragraphs_separated(d: WordDocumentV)
    requires
        d.tables.len() == 0,
        d.paragraphs.len() > 0,
        forall|j: int| 0 <= j < d.paragraphs.len() ==> plain_block_v(#[trigger] d.paragraphs[j]),
    ensures
        document_text_v(d) == join_v(d.paragraphs.map_values(|p: WordParagraphV| styled_text_v(p)), "\n\n"@),
{
    let ps = d.paragraphs;
    lemma_plain_text_joined(ps, ps.len() as int);
    assert(ps.take(ps.len() as int) =~= ps);
    lemma_trim_blank_line(join_v(ps.map_values(|p: WordParagraphV| styled_text_v(p)), "\n\n"@));
}

proof fn lemma_occurs_inside(a: Seq<char>, b: Seq<char>, c: Seq<char>, p: Seq<char>, i: int)
    requires
        occurs_at_v(b, p, i),
    ensures
        occurs_at_v(a + b + c, p, a.len() + i),
{
    assert((a + b + c).subrange(a.len() + i, a.len() + i + p.len()) =~= b.subrange(i, i + p.len()));
}

proof fn lemma_run_head(r: FontRunV)
    requires
        r.field is Some || !r.page_break,
    ensures
        run_xml_v(r) == "<w:r>"@ + crate::writer::rpr_open_v(rpr_v(r)) + run_xml_v(r).skip(
            ("<w:r>"@ + crate::writer::rpr_open_v(rpr_v(r))).len() as int,
        ),
{
    let head = "<w:r>"@ + crate::writer::rpr_open_v(rpr_v(r));
    match r.field {
        Some(f) => {
            assert(run_xml_v(r) =~= head + run_xml_v(r).skip(head.len() as int));
        },
        None => {
            assert(run_xml_v(r) =~= head + run_xml_v(r).skip(head.len() as int));
        },
    }
}

proof fn lemma_flag_in_run(r: FontRunV, p: Seq<char>, i: int)
    requires
        occurs_at_v(rpr_v(r), p, i),
        p.len() > 0,
    ensures
        occurs_v(rpr_v(r), p),
        (r.field is Some || !r.page_break) ==> occurs_v(run_xml_v(r), p),
{
    let x = rpr_v(r);
    if r.field is Some || !r.page_break {
        lemma_run_head(r);
        let head = "<w:r>"@ + crate::writer::rpr_open_v(x);
        let tail = run_xml_v(r).skip(head.len() as int);
        assert(crate::writer::rpr_open_v(x) == "<w:rPr>"@ + x + "</w:rPr>"@);
        lemma_occurs_inside("<w:rPr>"@, x, "</w:rPr>"@, p, i);
        lemma_occurs_inside("<w:r>"@, "<w:rPr>"@ + x + "</w:rPr>"@, tail, p, ("<w:rPr>"@.len() + i) as int);
        assert("<w:r>"@ + ("<w:rPr>"@ + x + "</w:rPr>"@) + tail =~= head + tail);
        assert(occurs_at_v(run_xml_v(r), p, ("<w:r>"@.len() + "<w:rPr>"@.len() + i) as int));
    }
}

/// The concatenation of the first `k` of the nine pieces of a run's properties.
pub open spec fn rpr_pieces_v(r: FontRunV, k: int) -> Seq<char>
    decreases k,
{
    if k <= 0 {
        Seq::empty()
    } else {
        rpr_pieces_v(r, k - 1) + rpr_piece_v(r, k - 1)
    }
}

/// Piece `k` of a run's properties, in writing order.
pub open spec fn rpr_piece_v(r: FontRunV, k: int) -> Seq<char> {
    if k == 0 {
        crate::writer::when_v(r.bold, "<w:b/>"@)
    } else if k == 1 {
        crate::writer::when_v(r.italic, "<w:i/>"@)
    } else if k == 2 {
        crate::writer::when_v(r.underline, "<w:u w:val=\"single\"/>"@)
    } else if k == 3 {
        crate::writer::when_v(r.strikethrough, "<w:strike/>"@)
    } else if k == 4 {
        crate::writer::opt_val_elem_v("highlight"@, r.highlight)
    } else if k == 5 {
        crate::writer::opt_val_elem_v("color"@, r.color)
    } else if k == 6 {
        crate::writer::size_elems_v(r.font_size)
    } else if k == 7 {
        crate::writer::font_elem_v(r.font_name)
    } else {
        crate::writer::opt_val_elem_v("vertAlign"@, r.vert_align)
    }
}

proof fn lemma_extend_pieces(r: FontRunV, p: Seq<char>, i: int, k: int)
    requires
        1 <= k <= 9,
        occurs_at_v(rpr_pieces_v(r, k), p, i),
    ensures
        occurs_at_v(rpr_pieces_v(r, 9), p, i),
    decreases 9 - k,
{
    if k < 9 {
        lemma_occurs_at_extend(rpr_pieces_v(r, k), rpr_piece_v(r, k), p, i);
        lemma_extend_pieces(r, p, i, k + 1);
    }
}

proof fn lemma_pieces_are_rpr(r: FontRunV)
    ensures
        rpr_pieces_v(r, 9) == rpr_v(r),
{
    reveal_with_fuel(rpr_pieces_v, 10);
}


/// In the run properties of a written run, each set flag has its element:
/// bold `<w:b/>`, italic `<w:i/>`, underline `<w:u w:val="single"/>`,
/// strike-through `<w:strike/>`; and the run's XML (a text run or a field
/// run) holds them. Reading those elements back sets the same flags (see
/// [`lemma_flag_elements_read`]).
pub proof fn lemma_run_flags_written(r: FontRunV)
    ensures
        r.bold ==> occurs_v(rpr_v(r), "<w:b/>"@),
        r.italic ==> occurs_v(rpr_v(r), "<w:i/>"@),
        r.underline ==> occurs_v(rpr_v(r), "<w:u w:val=\"single\"/>"@),
        r.strikethrough ==> occurs_v(rpr_v(r), "<w:strike/>"@),
        (r.field is Some || !r.page_break) ==> {
            &&& r.bold ==> occurs_v(run_xml_v(r), "<w:b/>"@)
            &&& r.italic ==> occurs_v(run_xml_v(r), "<w:i/>"@)
            &&& r.underline ==> occurs_v(run_xml_v(r), "<w:u w:val=\"single\"/>"@)
            &&& r.strikethrough ==> occurs_v(run_xml_v(r), "<w:strike/>"@)
        },
{
    lemma_bold_written(r);
    lemma_italic_written(r);
    lemma_underline_written(r);
    lemma_strike_written(r);
}

proof fn lemma_bold_written(r: FontRunV)
    ensures
        r.bold ==> occurs_v(rpr_v(r), "<w:b/>"@),
        r.bold && (r.field is Some || !r.page_break) ==> occurs_v(run_xml_v(r), "<w:b/>"@),
{
    if r.bold {
        reveal_strlit("<w:b/>");
        let pre = rpr_pieces_v(r, 0);
        assert(rpr_pieces_v(r, 1) == pre + "<w:b/>"@);
        lemma_occurs_at_end(pre, "<w:b/>"@, "<w:b/>"@);
        lemma_extend_pieces(r, "<w:b/>"@, pre.len() as int, 1);
        lemma_pieces_are_rpr(r);
        lemma_flag_in_run(r, "<w:b/>"@, pre.len() as int);
    }
}

proof fn lemma_italic_written(r: FontRunV)
    ensures
        r.italic ==> occurs_v(rpr_v(r), "<w:i/>"@),
        r.italic && (r.field is Some || !r.page_break) ==> occurs_v(run_xml_v(r), "<w:i/>"@),
{
    if r.italic {
        reveal_strlit("<w:i/>");
        let pre = rpr_pieces_v(r, 1);
        assert(rpr_pieces_v(r, 2) == pre + "<w:i/>"@);
        lemma_occurs_at_end(pre, "<w:i/>"@, "<w:i/>"@);
        lemma_extend_pieces(r, "<w:i/>"@, pre.len() as int, 2);
        lemma_pieces_are_rpr(r);
        lemma_flag_in_run(r, "<w:i/>"@, pre.len() as int);
    }
}

proof fn lemma_underline_written(r: FontRunV)
    ensures
        r.underline ==> occurs_v(rpr_v(r), "<w:u w:val=\"single\"/>"@),
        r.underline && (r.field is Some || !r.page_break) ==> occurs_v(run_xml_v(r), "<w:u w:val=\"single\"/>"@),
{
    if r.underline {
        reveal_strlit("<w:u w:val=\"single\"/>");
        let pre = rpr_pieces_v(r, 2);
        assert(rpr_pieces_v(r, 3) == pre + "<w:u w:val=\"single\"/>"@);
        lemma_occurs_at_end(pre, "<w:u w:val=\"single\"/>"@, "<w:u w:val=\"single\"/>"@);
        lemma_extend_pieces(r, "<w:u w:val=\"single\"/>"@, pre.len() as int, 3);
        lemma_pieces_are_rpr(r);
        lemma_flag_in_run(r, "<w:u w:val=\"single\"/>"@, pre.len() as int);
    }
}

proof fn lemma_strike_written(r: FontRunV)
    ensures
        r.strikethrough ==> occurs_v(rpr_v(r), "<w:strike/>"@),
        r.strikethrough && (r.field is Some || !r.page_break) ==> occurs_v(run_xml_v(r), "<w:strike/>"@),
{
    if r.strikethrough {
        reveal_strlit("<w:strike/>");
        let pre = rpr_pieces_v(r, 3);
        assert(rpr_pieces_v(r, 4) == pre + "<w:strike/>"@);
        lemma_occurs_at_end(pre, "<w:strike/>"@, "<w:strike/>"@);
        lemma_extend_pieces(r, "<w:strike/>"@, pre.len() as int, 4);
        lemma_pieces_are_rpr(r);
        lemma_flag_in_run(r, "<w:strike/>"@, pre.len() as int);
    }
}

proof fn lemma_flag_tags_distinct()
    ensures
        "i"@ != "b"@,
        "i"@ != "bCs"@,
        "iCs"@ != "b"@,
        "iCs"@ != "bCs"@,
        "u"@ != "b"@,
        "u"@ != "bCs"@,
        "u"@ != "i"@,
        "u"@ != "iCs"@,
        "strike"@ != "b"@,
        "strike"@ != "bCs"@,
        "strike"@ != "i"@,
        "strike"@ != "iCs"@,
        "strike"@ != "u"@,
{
    reveal_strlit("b");
    reveal_strlit("bCs");
    reveal_strlit("i");
    reveal_strlit("iCs");
    reveal_strlit("u");
    reveal_strlit("strike");
    assert("i"@[0] != "b"@[0]);
    assert("i"@[0] != "bCs"@[0]);
    assert("iCs"@[0] != "b"@[0]);
    assert("iCs"@[0] != "bCs"@[0]);
    assert("u"@[0] != "b"@[0]);
    assert("u"@[0] != "bCs"@[0]);
    assert("u"@[0] != "i"@[0]);
    assert("u"@[0] != "iCs"@[0]);
    assert("strike"@[0] != "b"@[0]);
    assert("strike"@[0] != "bCs"@[0]);
    assert("strike"@[0] != "i"@[0]);
    assert("strike"@[0] != "iCs"@[0]);
    assert("strike"@[0] != "u"@[0]);
}

/// Whether a run-property element's `val` switches its flag off.
pub open spec fn switched_off_v(attrs: Seq<XmlAttrV>) -> bool {
    attr_value_v(attrs, "val"@) matches Some(v) && crate::runfmt::is_off_v(v)
}

/// Whether a run-property element names no font.
pub open spec fn no_font_attr_v(attrs: Seq<XmlAttrV>) -> bool {
    attr_value_v(attrs, "ascii"@) is None && attr_value_v(attrs, "hAnsi"@) is None && attr_value_v(attrs, "cs"@) is None
}

/// Reading a flag element of a run's properties: `<w:b>` / `<w:bCs>` sets
/// bold, `<w:i>` / `<w:iCs>` italic, `<w:u>` underline and `<w:strike>`
/// strike-through, whatever the format before, and changes nothing else.
/// An element whose `val` is `false`, `0` or `off` clears its flag instead.
pub proof fn lemma_flag_elements_read(f: RunFormatV, val: Option<Seq<char>>, attrs: Seq<XmlAttrV>)
    ensures
        apply_run_attr_v(f, "b"@, val) == (RunFormatV { bold: true, ..f }),
        apply_run_attr_v(f, "bCs"@, val) == (RunFormatV { bold: true, ..f }),
        apply_run_attr_v(f, "i"@, val) == (RunFormatV { italic: true, ..f }),
        apply_run_attr_v(f, "iCs"@, val) == (RunFormatV { italic: true, ..f }),
        apply_run_attr_v(f, "u"@, val) == (RunFormatV { underline: true, ..f }),
        apply_run_attr_v(f, "strike"@, val) == (RunFormatV { strikethrough: true, ..f }),
        no_font_attr_v(attrs) ==> props_fmt_v(f, "b"@, attrs) == (RunFormatV { bold: !switched_off_v(attrs), ..f }),
        no_font_attr_v(attrs) ==> props_fmt_v(f, "i"@, attrs) == (RunFormatV { italic: !switched_off_v(attrs), ..f }),
        no_font_attr_v(attrs) ==> props_fmt_v(f, "iCs"@, attrs) == (RunFormatV { italic: !switched_off_v(attrs), ..f }),
        no_font_attr_v(attrs) ==> props_fmt_v(f, "u"@, attrs) == (RunFormatV { underline: !switched_off_v(attrs), ..f }),
        no_font_attr_v(attrs) ==> props_fmt_v(f, "strike"@, attrs) == (RunFormatV { strikethrough: !switched_off_v(attrs), ..f }),
{
    reveal(apply_run_attr_v);
    lemma_flag_tags_distinct();
}

proof fn lemma_unanchored_pass(r: Seq<DocElementV>, ms: Seq<DocElementV>, ins: Seq<InsertElementV>, k: int)
    requires
        0 <= k <= ins.len(),
        forall|j: int| 0 <= j < ins.len() ==> (#[trigger] ins[j]).anchor_id is None,
        forall|j: int| 0 <= j < ins.len() ==> last_elem_with_id(ms, (#[trigger] ins[j]).element.id()) is None,
    ensures
        insert_pass_v(r, ms, ins, k) == r + ins.take(k).map_values(|ie: InsertElementV| ie.element),
    decreases k,
{
    if k == 0 {
        assert(ins.take(0).map_values(|ie: InsertElementV| ie.element) =~= Seq::<DocElementV>::empty());
        assert(r + Seq::<DocElementV>::empty() =~= r);
    } else {
        lemma_unanchored_pass(r, ms, ins, k - 1);
        let ie = ins[k - 1];
        assert(ie.anchor_id is None);
        assert(last_elem_with_id(ms, ie.element.id()) is None);
        let a = ins.take(k - 1).map_values(|ie: InsertElementV| ie.element);
        assert(ins.take(k).map_values(|ie: InsertElementV| ie.element) =~= a.push(ie.element));
        assert((r + a).push(ie.element) =~= r + a.push(ie.element));
    }
}

/// Insertions without an anchor, whose ids have no replacement, append
/// their elements, in order, after the elements the edit keeps: the edited
/// element view is the one without the insertions followed by the new
/// elements.
pub proof fn lemma_unanchored_insertions_append(
    d: WordDocumentV,
    ms: Seq<DocElementV>,
    dels: Seq<Seq<char>>,
    ins: Seq<InsertElementV>,
)
    requires
        forall|j: int| 0 <= j < ins.len() ==> (#[trigger] ins[j]).anchor_id is None,
        forall|j: int| 0 <= j < ins.len() ==> last_elem_with_id(ms, (#[trigger] ins[j]).element.id()) is None,
    ensures
        modified_elements_v(d, ms, dels, ins) == modified_elements_v(d, ms, dels, Seq::empty()) + ins.map_values(
            |ie: InsertElementV| ie.element,
        ),
{
    let pairs = marker_pairs_v(d.paragraphs, d.paragraphs.len() as int);
    let dl = delete_list_v(dels, pairs, dels.len() as int);
    let es = elements_v(d);
    let kept = kept_v(es, dl, ms, es.len() as int);
    lemma_unanchored_pass(kept, ms, ins, ins.len() as int);
    assert(ins.take(ins.len() as int) =~= ins);
    assert(insert_pass_v(kept, ms, Seq::<InsertElementV>::empty(), 0) == kept);
}

/// One insertion whose anchor is not in the element view, and whose id has
/// no replacement, is appended at the end, like one without an anchor.
pub proof fn lemma_missing_anchor_appends(d: WordDocumentV, ie: InsertElementV, aid: Seq<char>)
    requires
        ie.anchor_id == Some(aid),
        first_elem_from(elements_v(d), aid, 0) is None,
    ensures
        modified_elements_v(d, Seq::empty(), Seq::empty(), seq![ie]) == elements_v(d).push(ie.element),
{
    let es = elements_v(d);
    lemma_modify_nothing(d);
    let pairs = marker_pairs_v(d.paragraphs, d.paragraphs.len() as int);
    assert(delete_list_v(Seq::empty(), pairs, 0) == Seq::<Seq<char>>::empty());
    assert(kept_v(es, Seq::empty(), Seq::empty(), es.len() as int) == es);
    assert(last_elem_with_id(Seq::<DocElementV>::empty(), ie.element.id()) is None);
    assert(insert_pass_v(es, Seq::empty(), seq![ie], 0) == es);
    assert(insert_pass_v(es, Seq::empty(), seq![ie], 1) == insert_one_v(es, ie));
}

proof fn lemma_level_labels()
    ensures
        "💡 Info"@ != "⚠ Warning"@,
        "💡 Info"@ != "❗ Important"@,
        "💡 Info"@ != "✓ Tip"@,
        "⚠ Warning"@ != "❗ Important"@,
        "⚠ Warning"@ != "✓ Tip"@,
        "❗ Important"@ != "✓ Tip"@,
{
    reveal_strlit("💡 Info");
    reveal_strlit("⚠ Warning");
    reveal_strlit("❗ Important");
    reveal_strlit("✓ Tip");
    assert("💡 Info"@[0] != "⚠ Warning"@[0]);
    assert("💡 Info"@[0] != "❗ Important"@[0]);
    assert("💡 Info"@[0] != "✓ Tip"@[0]);
    assert("⚠ Warning"@[0] != "❗ Important"@[0]);
    assert("⚠ Warning"@[0] != "✓ Tip"@[0]);
    assert("❗ Important"@[0] != "✓ Tip"@[0]);
}

/// Each callout level has its own label and colours, whatever the design
/// tokens: Info `💡 Info` on the info background in the secondary colour,
/// Warning `⚠ Warning` on the warning background in the accent colour,
/// Important `❗ Important` on the important background in `C0504D`, Tip
/// `✓ Tip` on the tip background in the primary colour; distinct levels
/// have distinct labels. A callout's title run is the label, a space and
/// the title, bold, in the level's accent colour.
pub proof fn lemma_callout_levels(t: DesignTokens, l1: CalloutLevel, l2: CalloutLevel, id: Seq<char>, title: Seq<char>)
    ensures
        level_meta_v(CalloutLevel::Info, t) == (t.palette.callout_info_bg@, t.palette.secondary@, "💡 Info"@),
        level_meta_v(CalloutLevel::Warning, t) == (t.palette.callout_warning_bg@, t.palette.accent@, "⚠ Warning"@),
        level_meta_v(CalloutLevel::Important, t) == (t.palette.callout_important_bg@, "C0504D"@, "❗ Important"@),
        level_meta_v(CalloutLevel::Tip, t) == (t.palette.callout_tip_bg@, t.palette.primary@, "✓ Tip"@),
        l1 != l2 ==> level_meta_v(l1, t).2 != level_meta_v(l2, t).2,
        crate::components::callout_title_v(t, id, l1, title).runs matches Some(rs) && rs.len() == 1
            && rs[0].text == level_meta_v(l1, t).2 + " "@ + title && rs[0].bold && rs[0].color == Some(level_meta_v(l1, t).1),
{
    lemma_level_labels();
}

} // verus!
