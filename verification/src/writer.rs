//! `document.xml` builders: runs, field codes, paragraph and section
//! properties, plain tables, inline pictures, and the whole document body.

use vstd::prelude::*;
use crate::model::{
    default_margins, default_margins_v, default_page_size, default_page_size_v,
    FieldRef, FieldRefV, FontRun, FontRunV, PageMargins, PageSize, TableCell, TableCellV, TableRow, TableRowV,
    WordDocument, WordImage, WordImageV, WordParagraph, WordParagraphV, WordSection, WordSectionV,
    WordTable, WordTableV, NumberingRefV, HeaderPartRef, HeaderPartRefV, FooterPartRef, FooterPartRefV,
    PageSizeV, PageMarginsV,
};
use crate::components::{TableStyle, TableStyleV};
use crate::styled_writer::{at_least_one, col_count_v};
use crate::text::{chars_of, dec, escape_xml, owned, push_dec, spec_escape_xml, spec_split, split_char, str_eq};

verus! {

/// An escaped attribute element `<w:TAG w:val="V"/>`.
pub open spec fn val_elem_v(tag: Seq<char>, v: Seq<char>) -> Seq<char> {
    "<w:"@ + tag + " w:val=\""@ + spec_escape_xml(v) + "\"/>"@
}

/// `val_elem_v` for a present, non-empty value; nothing otherwise.
pub open spec fn opt_val_elem_v(tag: Seq<char>, o: Option<Seq<char>>) -> Seq<char> {
    match o {
        Some(v) => if v.len() > 0 { val_elem_v(tag, v) } else { Seq::empty() },
        None => Seq::empty(),
    }
}

pub(crate) fn push_val_elem(out: &mut String, tag: &str, v: &str)
    ensures
        final(out)@ == old(out)@ + val_elem_v(tag@, v@),
{
    out.append("<w:");
    out.append(tag);
    out.append(" w:val=\"");
    let e = escape_xml(v);
    out.append(e.as_str());
    out.append("\"/>");
    assert(out@ =~= old(out)@ + val_elem_v(tag@, v@));
}

fn push_opt_val_elem(out: &mut String, tag: &str, o: &Option<String>)
    ensures
        final(out)@ == old(out)@ + opt_val_elem_v(tag@, o.deep_view()),
{
    match o {
        Some(v) => {
            let vc = chars_of(v.as_str());
            if vc.len() > 0 {
                out.append("<w:");
                out.append(tag);
                out.append(" w:val=\"");
                let e = escape_xml(v.as_str());
                out.append(e.as_str());
                out.append("\"/>");
                assert(out@ =~= old(out)@ + opt_val_elem_v(tag@, o.deep_view()));
            }
        },
        None => {},
    }
}

/// `lit` when `b` holds, nothing otherwise.
pub open spec fn when_v(b: bool, lit: Seq<char>) -> Seq<char> {
    if b { lit } else { Seq::empty() }
}

/// Appends `lit` when `b` holds.
pub fn push_when(out: &mut String, b: bool, lit: &str)
    ensures
        final(out)@ == old(out)@ + when_v(b, lit@),
{
    if b {
        out.append(lit);
    } else {
        assert(out@ =~= old(out)@ + when_v(b, lit@));
    }
}

/// The size elements of a run with a size.
pub open spec fn size_elems_v(o: Option<u32>) -> Seq<char> {
    match o {
        Some(n) => "<w:sz w:val=\""@ + dec(n as nat) + "\"/><w:szCs w:val=\""@ + dec(n as nat) + "\"/>"@,
        None => Seq::empty(),
    }
}

fn push_size_elems(out: &mut String, o: Option<u32>)
    ensures
        final(out)@ == old(out)@ + size_elems_v(o),
{
    if let Some(size) = o {
        out.append("<w:sz w:val=\"");
        push_dec(out, size as u64);
        out.append("\"/><w:szCs w:val=\"");
        push_dec(out, size as u64);
        out.append("\"/>");
    }
    assert(out@ =~= old(out)@ + size_elems_v(o));
}

/// The font element of a run with a non-empty font name.
pub open spec fn font_elem_v(o: Option<Seq<char>>) -> Seq<char> {
    match o {
        Some(f) => if f.len() > 0 {
            "<w:rFonts w:ascii=\""@ + spec_escape_xml(f) + "\" w:hAnsi=\""@ + spec_escape_xml(f) + "\"/>"@
        } else {
            Seq::empty()
        },
        None => Seq::empty(),
    }
}

fn push_font_elem(out: &mut String, o: &Option<String>)
    ensures
        final(out)@ == old(out)@ + font_elem_v(o.deep_view()),
{
    if let Some(font) = o {
        let fc = chars_of(font.as_str());
        if fc.len() > 0 {
            let e = escape_xml(font.as_str());
            out.append("<w:rFonts w:ascii=\"");
            out.append(e.as_str());
            out.append("\" w:hAnsi=\"");
            out.append(e.as_str());
            out.append("\"/>");
        }
    }
    assert(out@ =~= old(out)@ + font_elem_v(o.deep_view()));
}

/// The `<w:rPr>` children of a run.
pub open spec fn rpr_v(r: FontRunV) -> Seq<char> {
    when_v(r.bold, "<w:b/>"@)
        + when_v(r.italic, "<w:i/>"@)
        + when_v(r.underline, "<w:u w:val=\"single\"/>"@)
        + when_v(r.strikethrough, "<w:strike/>"@)
        + opt_val_elem_v("highlight"@, r.highlight)
        + opt_val_elem_v("color"@, r.color)
        + size_elems_v(r.font_size)
        + font_elem_v(r.font_name)
        + opt_val_elem_v("vertAlign"@, r.vert_align)
}

/// Renders the run-property children of `run`.
pub fn build_run_rpr_xml(run: &FontRun) -> (rpr: String)
    ensures
        rpr@ == rpr_v(run@),
{
    let mut rpr = String::new();
    push_when(&mut rpr, run.bold, "<w:b/>");
    assert(rpr@ =~= when_v(run.bold, "<w:b/>"@));
    push_when(&mut rpr, run.italic, "<w:i/>");
    push_when(&mut rpr, run.underline, "<w:u w:val=\"single\"/>");
    push_when(&mut rpr, run.strikethrough, "<w:strike/>");
    push_opt_val_elem(&mut rpr, "highlight", &run.highlight);
    push_opt_val_elem(&mut rpr, "color", &run.color);
    push_size_elems(&mut rpr, run.font_size);
    push_font_elem(&mut rpr, &run.font_name);
    push_opt_val_elem(&mut rpr, "vertAlign", &run.vert_align);
    rpr
}

/// The raw instruction text of a field code (with Word's surrounding spaces).
pub open spec fn field_instr_v(f: FieldRefV) -> Seq<char> {
    match f {
        FieldRefV::Page => " PAGE "@,
        FieldRefV::NumPages => " NUMPAGES "@,
        FieldRefV::SectionPages => " SECTIONPAGES "@,
        FieldRefV::Section => " SECTION "@,
        FieldRefV::Date { format } => match format {
            Some(fmt) => " DATE \\@ \""@ + fmt + "\" "@,
            None => " DATE "@,
        },
        FieldRefV::Time { format } => match format {
            Some(fmt) => " TIME \\@ \""@ + fmt + "\" "@,
            None => " TIME "@,
        },
        FieldRefV::Author => " AUTHOR "@,
        FieldRefV::Title => " TITLE "@,
        FieldRefV::Filename { with_ext } => if with_ext { " FILENAME "@ } else { " FILENAME \\p "@ },
        FieldRefV::Custom { instr } => " "@ + instr + " "@,
    }
}

/// The instruction text of a field code.
pub fn field_instr_text(field: &FieldRef) -> (r: String)
    ensures
        r@ == field_instr_v(field@),
{
    match field {
        FieldRef::Page => owned(" PAGE "),
        FieldRef::NumPages => owned(" NUMPAGES "),
        FieldRef::SectionPages => owned(" SECTIONPAGES "),
        FieldRef::Section => owned(" SECTION "),
        FieldRef::Date { format: Some(f) } => {
            let mut s = owned(" DATE \\@ \"");
            s.append(f.as_str());
            s.append("\" ");
            s
        },
        FieldRef::Date { format: None } => owned(" DATE "),
        FieldRef::Time { format: Some(f) } => {
            let mut s = owned(" TIME \\@ \"");
            s.append(f.as_str());
            s.append("\" ");
            s
        },
        FieldRef::Time { format: None } => owned(" TIME "),
        FieldRef::Author => owned(" AUTHOR "),
        FieldRef::Title => owned(" TITLE "),
        FieldRef::Filename { with_ext } => if *with_ext { owned(" FILENAME ") } else { owned(" FILENAME \\p ") },
        FieldRef::Custom { instr } => {
            let mut s = owned(" ");
            s.append(instr.as_str());
            s.append(" ");
            s
        },
    }
}

/// `<w:rPr>…</w:rPr>` around non-empty run properties.
pub open spec fn rpr_open_v(rpr: Seq<char>) -> Seq<char> {
    if rpr.len() == 0 { Seq::empty() } else { "<w:rPr>"@ + rpr + "</w:rPr>"@ }
}

/// A field run: begin, instruction, separate, cached text and end runs,
/// each carrying the run's formatting.
pub open spec fn field_run_v(r: FontRunV, f: FieldRefV) -> Seq<char> {
    let ro = rpr_open_v(rpr_v(r));
    "<w:r>"@ + ro + "<w:fldChar w:fldCharType=\"begin\"/></w:r><w:r>"@
        + ro + "<w:instrText xml:space=\"preserve\">"@ + spec_escape_xml(field_instr_v(f)) + "</w:instrText></w:r><w:r>"@
        + ro + "<w:fldChar w:fldCharType=\"separate\"/></w:r><w:r>"@
        + ro + "<w:t xml:space=\"preserve\">"@ + spec_escape_xml(r.text) + "</w:t></w:r><w:r>"@
        + ro + "<w:fldChar w:fldCharType=\"end\"/></w:r>"@
}

fn push_rpr_open(out: &mut String, rpr: &String)
    ensures
        final(out)@ == old(out)@ + rpr_open_v(rpr@),
{
    let rc = chars_of(rpr.as_str());
    if rc.len() > 0 {
        out.append("<w:rPr>");
        out.append(rpr.as_str());
        out.append("</w:rPr>");
        assert(out@ =~= old(out)@ + rpr_open_v(rpr@));
    } else {
        assert(out@ =~= old(out)@ + rpr_open_v(rpr@));
    }
}

/// Renders `run` as a field-code run sequence.
pub fn build_field_run_xml(run: &FontRun, field: &FieldRef) -> (xml: String)
    ensures
        xml@ == field_run_v(run@, field@),
{
    let rpr = build_run_rpr_xml(run);
    let instr = field_instr_text(field);
    let ei = escape_xml(instr.as_str());
    let et = escape_xml(run.text.as_str());
    let mut xml = owned("<w:r>");
    push_rpr_open(&mut xml, &rpr);
    xml.append("<w:fldChar w:fldCharType=\"begin\"/></w:r><w:r>");
    push_rpr_open(&mut xml, &rpr);
    xml.append("<w:instrText xml:space=\"preserve\">");
    xml.append(ei.as_str());
    xml.append("</w:instrText></w:r><w:r>");
    push_rpr_open(&mut xml, &rpr);
    xml.append("<w:fldChar w:fldCharType=\"separate\"/></w:r><w:r>");
    push_rpr_open(&mut xml, &rpr);
    xml.append("<w:t xml:space=\"preserve\">");
    xml.append(et.as_str());
    xml.append("</w:t></w:r><w:r>");
    push_rpr_open(&mut xml, &rpr);
    xml.append("<w:fldChar w:fldCharType=\"end\"/></w:r>");
    assert(xml@ =~= field_run_v(run@, field@));
    xml
}

/// The XML of one run: a field sequence, a page break, or formatted text.
pub open spec fn run_xml_v(r: FontRunV) -> Seq<char> {
    match r.field {
        Some(f) => field_run_v(r, f),
        None => if r.page_break {
            "<w:r><w:br w:type=\"page\"/></w:r>"@
        } else {
            "<w:r>"@ + rpr_open_v(rpr_v(r)) + "<w:t xml:space=\"preserve\">"@ + spec_escape_xml(r.text) + "</w:t></w:r>"@
        },
    }
}

/// Renders one run.
pub fn build_run_xml(run: &FontRun) -> (xml: String)
    ensures
        xml@ == run_xml_v(run@),
{
    if let Some(field) = &run.field {
        return build_field_run_xml(run, field);
    }
    if run.page_break {
        return owned("<w:r><w:br w:type=\"page\"/></w:r>");
    }
    let mut xml = owned("<w:r>");
    let rpr = build_run_rpr_xml(run);
    push_rpr_open(&mut xml, &rpr);
    xml.append("<w:t xml:space=\"preserve\">");
    let e = escape_xml(run.text.as_str());
    xml.append(e.as_str());
    xml.append("</w:t></w:r>");
    assert(xml@ =~= run_xml_v(run@));
    xml
}


/// The OOXML `w:textDirection` value for a model text direction; values
/// outside the model vocabulary pass through unchanged.
pub open spec fn text_direction_v(v: Seq<char>) -> Seq<char> {
    if v == "horizontal"@ {
        "lrTb"@
    } else if v == "vertical"@ {
        "tbRlV"@
    } else if v == "verticalRightToLeft"@ {
        "tbRl"@
    } else if v == "verticalLeftToRight"@ {
        "btLrV"@
    } else if v == "rotate90"@ {
        "lrTbV"@
    } else if v == "rotate270"@ {
        "lrTb"@
    } else {
        v
    }
}

/// Maps the model's text-direction names to OOXML values.
pub fn emit_text_direction<'a>(v: &'a str) -> (r: &'a str)
    ensures
        r@ == text_direction_v(v@),
{
    if str_eq(v, "horizontal") {
        "lrTb"
    } else if str_eq(v, "vertical") {
        "tbRlV"
    } else if str_eq(v, "verticalRightToLeft") {
        "tbRl"
    } else if str_eq(v, "verticalLeftToRight") {
        "btLrV"
    } else if str_eq(v, "rotate90") {
        "lrTbV"
    } else if str_eq(v, "rotate270") {
        "lrTb"
    } else {
        v
    }
}

/// `<w:textDirection …/>` for a present, non-empty direction (value unescaped).
pub open spec fn td_elem_v(o: Option<Seq<char>>) -> Seq<char> {
    match o {
        Some(td) => if td.len() > 0 {
            "<w:textDirection w:val=\""@ + text_direction_v(td) + "\"/>"@
        } else {
            Seq::empty()
        },
        None => Seq::empty(),
    }
}

fn push_td_elem(out: &mut String, o: &Option<String>)
    ensures
        final(out)@ == old(out)@ + td_elem_v(o.deep_view()),
{
    if let Some(td) = o {
        let tc = chars_of(td.as_str());
        if tc.len() > 0 {
            let v = emit_text_direction(td.as_str());
            out.append("<w:textDirection w:val=\"");
            out.append(v);
            out.append("\"/>");
        }
    }
    assert(out@ =~= old(out)@ + td_elem_v(o.deep_view()));
}

/// `<w:pStyle …/>` for a present style (even an empty one).
pub open spec fn style_elem_v(o: Option<Seq<char>>) -> Seq<char> {
    match o {
        Some(st) => val_elem_v("pStyle"@, st),
        None => Seq::empty(),
    }
}

/// The `<w:numPr>` block of a list paragraph.
pub open spec fn numpr_v(o: Option<NumberingRefV>) -> Seq<char> {
    match o {
        Some(n) => "<w:numPr><w:ilvl w:val=\""@ + dec(n.level as nat) + "\"/><w:numId w:val=\""@
            + dec(n.num_id as nat) + "\"/></w:numPr>"@,
        None => Seq::empty(),
    }
}

/// The stable-id element `<inkuo:id …/>` of a paragraph with a non-empty id.
pub open spec fn id_elem_v(id: Seq<char>) -> Seq<char> {
    if id.len() > 0 { "<inkuo:id w:val=\""@ + spec_escape_xml(id) + "\"/>"@ } else { Seq::empty() }
}

/// Whether a paragraph carries any paragraph property.
pub open spec fn has_ppr_v(p: WordParagraphV) -> bool {
    p.style is Some || p.numbering is Some || p.id.len() > 0 || p.alignment is Some
        || p.text_direction is Some
}

/// The children of `<w:pPr>` that precede the section properties.
pub open spec fn ppr_head_v(p: WordParagraphV) -> Seq<char> {
    style_elem_v(p.style) + numpr_v(p.numbering) + opt_val_elem_v("jc"@, p.alignment) + td_elem_v(
        p.text_direction,
    )
}

fn push_ppr_head(out: &mut String, p: &WordParagraph)
    ensures
        final(out)@ == old(out)@ + ppr_head_v(p@),
{
    let ghost o = out@;
    if let Some(st) = &p.style {
        push_val_elem(out, "pStyle", st.as_str());
    }
    assert(out@ =~= o + style_elem_v(p@.style));
    let ghost o1 = out@;
    if let Some(n) = &p.numbering {
        out.append("<w:numPr><w:ilvl w:val=\"");
        push_dec(out, n.level as u64);
        out.append("\"/><w:numId w:val=\"");
        push_dec(out, n.num_id as u64);
        out.append("\"/></w:numPr>");
    }
    assert(out@ =~= o1 + numpr_v(p@.numbering));
    push_opt_val_elem(out, "jc", &p.alignment);
    push_td_elem(out, &p.text_direction);
    assert(out@ =~= o + ppr_head_v(p@));
}

fn push_id_elem(out: &mut String, id: &String)
    ensures
        final(out)@ == old(out)@ + id_elem_v(id@),
{
    let ic = chars_of(id.as_str());
    if ic.len() > 0 {
        out.append("<inkuo:id w:val=\"");
        let e = escape_xml(id.as_str());
        out.append(e.as_str());
        out.append("\"/>");
    }
    assert(out@ =~= old(out)@ + id_elem_v(id@));
}


/// The header-part kind, `default` when none is given.
pub open spec fn kind_or_default(o: Option<Seq<char>>) -> Seq<char> {
    match o {
        Some(k) => k,
        None => "default"@,
    }
}

/// A header reference with its placeholder relationship id.
pub open spec fn hdr_ref_v(r: HeaderPartRefV) -> Seq<char> {
    "<w:headerReference r:id=\"rIdHeaderPlaceholder_"@ + spec_escape_xml(r.header_id) + "\" w:type=\""@
        + spec_escape_xml(kind_or_default(r.kind)) + "\"/>"@
}

/// A footer reference with its placeholder relationship id.
pub open spec fn ftr_ref_v(r: FooterPartRefV) -> Seq<char> {
    "<w:footerReference r:id=\"rIdFooterPlaceholder_"@ + spec_escape_xml(r.footer_id) + "\" w:type=\""@
        + spec_escape_xml(kind_or_default(r.kind)) + "\"/>"@
}

/// All header references of a section, in order.
pub open spec fn hdr_refs_v(rs: Seq<HeaderPartRefV>) -> Seq<char>
    decreases rs.len(),
{
    if rs.len() == 0 { Seq::empty() } else { hdr_refs_v(rs.drop_last()) + hdr_ref_v(rs.last()) }
}

/// All footer references of a section, in order.
pub open spec fn ftr_refs_v(rs: Seq<FooterPartRefV>) -> Seq<char>
    decreases rs.len(),
{
    if rs.len() == 0 { Seq::empty() } else { ftr_refs_v(rs.drop_last()) + ftr_ref_v(rs.last()) }
}

fn push_kind(out: &mut String, kind: &Option<String>)
    ensures
        final(out)@ == old(out)@ + spec_escape_xml(kind_or_default(kind.deep_view())),
{
    match kind {
        Some(k) => {
            let e = escape_xml(k.as_str());
            out.append(e.as_str());
        },
        None => {
            let e = escape_xml("default");
            out.append(e.as_str());
        },
    }
}

fn push_hdr_refs(out: &mut String, rs: &Vec<HeaderPartRef>)
    ensures
        final(out)@ == old(out)@ + hdr_refs_v(rs.deep_view()),
{
    let mut i: usize = 0;
    while i < rs.len()
        invariant
            i <= rs@.len(),
            out@ == old(out)@ + hdr_refs_v(rs.deep_view().take(i as int)),
        decreases rs@.len() - i,
    {
        let ghost before = out@;
        let r = &rs[i];
        out.append("<w:headerReference r:id=\"rIdHeaderPlaceholder_");
        let e = escape_xml(r.header_id.as_str());
        out.append(e.as_str());
        out.append("\" w:type=\"");
        push_kind(out, &r.kind);
        out.append("\"/>");
        proof {
            let t = rs.deep_view().take(i + 1);
            assert(t.drop_last() =~= rs.deep_view().take(i as int));
            assert(t.last() == rs@[i as int]@);
            assert(out@ =~= before + hdr_ref_v(rs@[i as int]@));
        }
        i = i + 1;
    }
    assert(rs.deep_view().take(rs@.len() as int) =~= rs.deep_view());
}

fn push_ftr_refs(out: &mut String, rs: &Vec<FooterPartRef>)
    ensures
        final(out)@ == old(out)@ + ftr_refs_v(rs.deep_view()),
{
    let mut i: usize = 0;
    while i < rs.len()
        invariant
            i <= rs@.len(),
            out@ == old(out)@ + ftr_refs_v(rs.deep_view().take(i as int)),
        decreases rs@.len() - i,
    {
        let ghost before = out@;
        let r = &rs[i];
        out.append("<w:footerReference r:id=\"rIdFooterPlaceholder_");
        let e = escape_xml(r.footer_id.as_str());
        out.append(e.as_str());
        out.append("\" w:type=\"");
        push_kind(out, &r.kind);
        out.append("\"/>");
        proof {
            let t = rs.deep_view().take(i + 1);
            assert(t.drop_last() =~= rs.deep_view().take(i as int));
            assert(t.last() == rs@[i as int]@);
            assert(out@ =~= before + ftr_ref_v(rs@[i as int]@));
        }
        i = i + 1;
    }
    assert(rs.deep_view().take(rs@.len() as int) =~= rs.deep_view());
}

/// `<w:pgSz …/>` of a page size.
pub open spec fn pgsz_of_v(ps: PageSizeV) -> Seq<char> {
    "<w:pgSz w:w=\""@ + dec(ps.width as nat) + "\" w:h=\""@ + dec(ps.height as nat) + "\""@ + (match ps.orient {
        Some(o) => if o.len() > 0 { " w:orient=\""@ + spec_escape_xml(o) + "\""@ } else { Seq::empty() },
        None => Seq::empty(),
    }) + "/>"@
}

/// `<w:pgSz …/>` of a section: its own size, or A4 portrait.
pub open spec fn pgsz_v(o: Option<PageSizeV>) -> Seq<char> {
    pgsz_of_v(
        match o {
            Some(ps) => ps,
            None => default_page_size_v(),
        },
    )
}

fn push_pgsz(out: &mut String, ps: &PageSize)
    ensures
        final(out)@ == old(out)@ + pgsz_of_v(ps@),
{
    let ghost o0 = out@;
    out.append("<w:pgSz w:w=\"");
    push_dec(out, ps.width as u64);
    out.append("\" w:h=\"");
    push_dec(out, ps.height as u64);
    out.append("\"");
    let ghost o1 = out@;
    if let Some(o) = &ps.orient {
        let oc = chars_of(o.as_str());
        if oc.len() > 0 {
            out.append(" w:orient=\"");
            let e = escape_xml(o.as_str());
            out.append(e.as_str());
            out.append("\"");
        }
    }
    out.append("/>");
    assert(out@ =~= o0 + pgsz_of_v(ps@));
}

/// ` NAME="n"` for a present number.
pub open spec fn opt_num_attr_v(name: Seq<char>, o: Option<u32>) -> Seq<char> {
    match o {
        Some(n) => name + dec(n as nat) + "\""@,
        None => Seq::empty(),
    }
}

fn push_opt_num_attr(out: &mut String, name: &str, o: Option<u32>)
    ensures
        final(out)@ == old(out)@ + opt_num_attr_v(name@, o),
{
    if let Some(n) = o {
        out.append(name);
        push_dec(out, n as u64);
        out.append("\"");
    }
    assert(out@ =~= old(out)@ + opt_num_attr_v(name@, o));
}

/// `<w:pgMar …/>` of page margins.
pub open spec fn pgmar_of_v(m: PageMarginsV) -> Seq<char> {
    "<w:pgMar w:top=\""@ + dec(m.top as nat) + "\" w:right=\""@ + dec(m.right as nat) + "\" w:bottom=\""@
        + dec(m.bottom as nat) + "\" w:left=\""@ + dec(m.left as nat) + "\""@ + opt_num_attr_v(
        " w:header=\""@,
        m.header,
    ) + opt_num_attr_v(" w:footer=\""@, m.footer) + opt_num_attr_v(" w:gutter=\""@, m.gutter) + "/>"@
}

/// `<w:pgMar …/>` of a section: its own margins, or one-inch margins.
pub open spec fn pgmar_v(o: Option<PageMarginsV>) -> Seq<char> {
    pgmar_of_v(
        match o {
            Some(m) => m,
            None => default_margins_v(),
        },
    )
}

fn push_pgmar(out: &mut String, m: &PageMargins)
    ensures
        final(out)@ == old(out)@ + pgmar_of_v(m@),
{
    let ghost o0 = out@;
    out.append("<w:pgMar w:top=\"");
    push_dec(out, m.top as u64);
    out.append("\" w:right=\"");
    push_dec(out, m.right as u64);
    out.append("\" w:bottom=\"");
    push_dec(out, m.bottom as u64);
    out.append("\" w:left=\"");
    push_dec(out, m.left as u64);
    out.append("\"");
    push_opt_num_attr(out, " w:header=\"", m.header);
    push_opt_num_attr(out, " w:footer=\"", m.footer);
    push_opt_num_attr(out, " w:gutter=\"", m.gutter);
    out.append("/>");
    assert(out@ =~= o0 + pgmar_of_v(m@));
}

/// `<w:cols …/>` for a section with a column count.
pub open spec fn cols_v(o: Option<u32>) -> Seq<char> {
    match o {
        Some(n) => if n > 1 {
            "<w:cols w:num=\""@ + dec(n as nat) + "\" w:space=\"720\"/>"@
        } else {
            "<w:cols w:space=\"720\"/>"@
        },
        None => Seq::empty(),
    }
}

/// ` w:fmt="…"` for a present, non-empty number format.
pub open spec fn fmt_attr_v(o: Option<Seq<char>>) -> Seq<char> {
    match o {
        Some(f) => if f.len() > 0 { " w:fmt=\""@ + spec_escape_xml(f) + "\""@ } else { Seq::empty() },
        None => Seq::empty(),
    }
}

/// `<w:pgNumType …/>` for a section with a start number or a format.
pub open spec fn pgnum_v(start: Option<u32>, fmt: Option<Seq<char>>) -> Seq<char> {
    match start {
        Some(st) => "<w:pgNumType w:start=\""@ + dec(st as nat) + "\""@ + fmt_attr_v(fmt) + "/>"@,
        None => match fmt {
            Some(f) => if f.len() > 0 {
                "<w:pgNumType w:fmt=\""@ + spec_escape_xml(f) + "\"/>"@
            } else {
                Seq::empty()
            },
            None => Seq::empty(),
        },
    }
}

fn push_fmt_attr(out: &mut String, o: &Option<String>)
    ensures
        final(out)@ == old(out)@ + fmt_attr_v(o.deep_view()),
{
    if let Some(f) = o {
        let fc = chars_of(f.as_str());
        if fc.len() > 0 {
            out.append(" w:fmt=\"");
            let e = escape_xml(f.as_str());
            out.append(e.as_str());
            out.append("\"");
        }
    }
    assert(out@ =~= old(out)@ + fmt_attr_v(o.deep_view()));
}

fn push_cols_pgnum(out: &mut String, sect: &WordSection)
    ensures
        final(out)@ == old(out)@ + cols_v(sect@.cols) + when_v(sect@.title_pg, "<w:titlePg/>"@) + pgnum_v(
            sect@.page_num_start,
            sect@.page_num_format,
        ),
{
    let ghost o0 = out@;
    if let Some(n) = sect.cols {
        if n > 1 {
            out.append("<w:cols w:num=\"");
            push_dec(out, n as u64);
            out.append("\" w:space=\"720\"/>");
        } else {
            out.append("<w:cols w:space=\"720\"/>");
        }
    }
    assert(out@ =~= o0 + cols_v(sect@.cols));
    let ghost o1 = out@;
    push_when(out, sect.title_pg, "<w:titlePg/>");
    let ghost o2 = out@;
    if let Some(start) = sect.page_num_start {
        out.append("<w:pgNumType w:start=\"");
        push_dec(out, start as u64);
        out.append("\"");
        push_fmt_attr(out, &sect.page_num_format);
        out.append("/>");
    } else if let Some(f) = &sect.page_num_format {
        let fc = chars_of(f.as_str());
        if fc.len() > 0 {
            out.append("<w:pgNumType w:fmt=\"");
            let e = escape_xml(f.as_str());
            out.append(e.as_str());
            out.append("\"/>");
        }
    }
    assert(out@ =~= o2 + pgnum_v(sect@.page_num_start, sect@.page_num_format));
}

/// The `<w:sectPr>` block of a section.
pub open spec fn sectpr_v(s: WordSectionV) -> Seq<char> {
    "<w:sectPr>"@ + hdr_refs_v(s.header_refs) + ftr_refs_v(s.footer_refs) + opt_val_elem_v(
        "type"@,
        s.section_type,
    ) + pgsz_v(s.page_size_twips) + pgmar_v(s.margins) + td_elem_v(s.text_direction) + cols_v(s.cols)
        + when_v(s.title_pg, "<w:titlePg/>"@) + pgnum_v(s.page_num_start, s.page_num_format)
        + "</w:sectPr>"@
}

/// Renders the section properties of `sect`. A section without a page
/// size or margins gets A4 portrait with one-inch margins.
pub fn build_sectpr_xml(sect: &WordSection) -> (xml: String)
    ensures
        xml@ == sectpr_v(sect@),
{
    let mut xml = owned("<w:sectPr>");
    push_hdr_refs(&mut xml, &sect.header_refs);
    push_ftr_refs(&mut xml, &sect.footer_refs);
    push_opt_val_elem(&mut xml, "type", &sect.section_type);
    match &sect.page_size_twips {
        Some(ps) => push_pgsz(&mut xml, ps),
        None => {
            let d = default_page_size();
            push_pgsz(&mut xml, &d);
        },
    }
    match &sect.margins {
        Some(m) => push_pgmar(&mut xml, m),
        None => {
            let d = default_margins();
            push_pgmar(&mut xml, &d);
        },
    }
    push_td_elem(&mut xml, &sect.text_direction);
    push_cols_pgnum(&mut xml, sect);
    xml.append("</w:sectPr>");
    xml
}

/// The trailing, body-level section properties.
pub open spec fn body_sectpr_v(s: WordSectionV) -> Seq<char> {
    "\n    "@ + sectpr_v(s)
}

/// Renders the body-level section properties of `sect`.
pub fn build_body_sectpr_xml(sect: &WordSection) -> (xml: String)
    ensures
        xml@ == body_sectpr_v(sect@),
{
    let mut xml = owned("\n    ");
    let inner = build_sectpr_xml(sect);
    xml.append(inner.as_str());
    xml
}

/// The `<w:pPr>` block of a paragraph, with the section properties of the
/// section it closes, if any; empty when there is nothing to say.
pub open spec fn ppr_v(p: WordParagraphV, sect: Option<WordSectionV>) -> Seq<char> {
    if !(has_ppr_v(p) || sect is Some) {
        Seq::empty()
    } else {
        "<w:pPr>"@ + ppr_head_v(p) + (match sect {
            Some(s) => sectpr_v(s),
            None => Seq::empty(),
        }) + id_elem_v(p.id) + "</w:pPr>"@
    }
}

/// The model of an optional borrowed section.
pub open spec fn opt_sect_v(sect: Option<&WordSection>) -> Option<WordSectionV> {
    match sect {
        Some(s) => Some(s@),
        None => None,
    }
}

/// Renders the paragraph properties of `para`, embedding `sect`'s section
/// properties when `para` closes that section.
pub fn build_paragraph_ppr_xml(para: &WordParagraph, sect: Option<&WordSection>) -> (xml: String)
    ensures
        xml@ == ppr_v(para@, opt_sect_v(sect)),
{
    let idc = chars_of(para.id.as_str());
    let has_ppr = para.style.is_some() || para.numbering.is_some() || idc.len() > 0
        || para.alignment.is_some() || para.text_direction.is_some() || sect.is_some();
    if !has_ppr {
        return String::new();
    }
    let mut xml = owned("<w:pPr>");
    push_ppr_head(&mut xml, para);
    let ghost mid = xml@;
    if let Some(s) = sect {
        let sx = build_sectpr_xml(s);
        xml.append(sx.as_str());
    }
    assert(xml@ =~= mid + (match opt_sect_v(sect) {
        Some(s) => sectpr_v(s),
        None => Seq::empty(),
    }));
    push_id_elem(&mut xml, &para.id);
    xml.append("</w:pPr>");
    xml
}


/// One line of a paragraph's plain text: a text run when non-empty, then a
/// line break.
pub open spec fn text_chunk_v(c: Seq<char>) -> Seq<char> {
    (if c.len() > 0 {
        "<w:r><w:t xml:space=\"preserve\">"@ + spec_escape_xml(c) + "</w:t></w:r>"@
    } else {
        Seq::empty()
    }) + "<w:r><w:br/></w:r>"@
}

/// The lines of a paragraph's plain text, in order.
pub open spec fn text_chunks_v(cs: Seq<Seq<char>>) -> Seq<char>
    decreases cs.len(),
{
    if cs.len() == 0 { Seq::empty() } else { text_chunks_v(cs.drop_last()) + text_chunk_v(cs.last()) }
}

/// The runs of a paragraph, in order.
pub open spec fn runs_xml_v(rs: Seq<FontRunV>) -> Seq<char>
    decreases rs.len(),
{
    if rs.len() == 0 { Seq::empty() } else { runs_xml_v(rs.drop_last()) + run_xml_v(rs.last()) }
}

/// The content of a paragraph: its runs when it has any, else its text
/// split on newlines.
pub open spec fn para_content_v(p: WordParagraphV) -> Seq<char> {
    match p.runs {
        Some(rs) => runs_xml_v(rs),
        None => if p.text.len() > 0 { text_chunks_v(spec_split(p.text, '\n')) } else { Seq::empty() },
    }
}

pub(crate) fn push_runs(out: &mut String, rs: &Vec<FontRun>)
    ensures
        final(out)@ == old(out)@ + runs_xml_v(rs.deep_view()),
{
    let mut i: usize = 0;
    while i < rs.len()
        invariant
            i <= rs@.len(),
            out@ == old(out)@ + runs_xml_v(rs.deep_view().take(i as int)),
        decreases rs@.len() - i,
    {
        let r = build_run_xml(&rs[i]);
        out.append(r.as_str());
        proof {
            let t = rs.deep_view().take(i + 1);
            assert(t.drop_last() =~= rs.deep_view().take(i as int));
        }
        i = i + 1;
    }
    assert(rs.deep_view().take(rs@.len() as int) =~= rs.deep_view());
}

fn push_text_chunks(out: &mut String, text: &str)
    ensures
        final(out)@ == old(out)@ + text_chunks_v(spec_split(text@, '\n')),
{
    let chunks = split_char(text, '\n');
    let ghost cs = spec_split(text@, '\n');
    let mut i: usize = 0;
    while i < chunks.len()
        invariant
            i <= chunks@.len(),
            chunks.deep_view() == cs,
            out@ == old(out)@ + text_chunks_v(cs.take(i as int)),
        decreases chunks@.len() - i,
    {
        let ghost before = out@;
        let c = chunks[i].as_str();
        let cc = chars_of(c);
        if cc.len() > 0 {
            out.append("<w:r><w:t xml:space=\"preserve\">");
            let e = escape_xml(c);
            out.append(e.as_str());
            out.append("</w:t></w:r>");
        }
        out.append("<w:r><w:br/></w:r>");
        proof {
            assert(cs[i as int] == chunks@[i as int]@);
            assert(out@ =~= before + text_chunk_v(cs[i as int]));
            assert(cs.take(i + 1).drop_last() =~= cs.take(i as int));
        }
        i = i + 1;
    }
    assert(cs.take(cs.len() as int) =~= cs);
}

pub(crate) fn push_para_content(out: &mut String, p: &WordParagraph)
    ensures
        final(out)@ == old(out)@ + para_content_v(p@),
{
    match &p.runs {
        Some(rs) => push_runs(out, rs),
        None => {
            let tc = chars_of(p.text.as_str());
            if tc.len() > 0 {
                push_text_chunks(out, p.text.as_str());
            } else {
                assert(out@ =~= old(out)@ + para_content_v(p@));
            }
        },
    }
}

/// A paragraph inside a callout or code-block cell.
pub open spec fn inner_para_v(p: WordParagraphV) -> Seq<char> {
    "\n      <w:p>"@ + ppr_v(p, None) + para_content_v(p) + "</w:p>"@
}

/// Appends `para` as a paragraph inside an open container cell.
pub fn emit_inner_paragraph(xml: &mut String, para: &WordParagraph)
    ensures
        final(xml)@ == old(xml)@ + inner_para_v(para@),
{
    xml.append("\n      <w:p>");
    let ppr = build_paragraph_ppr_xml(para, None);
    xml.append(ppr.as_str());
    push_para_content(xml, para);
    xml.append("</w:p>");
    assert(xml@ =~= old(xml)@ + inner_para_v(para@));
}

/// The given paragraphs inside a container cell, in order.
pub open spec fn inner_paras_v(ps: Seq<WordParagraphV>) -> Seq<char>
    decreases ps.len(),
{
    if ps.len() == 0 { Seq::empty() } else { inner_paras_v(ps.drop_last()) + inner_para_v(ps.last()) }
}

/// Appends `paragraphs` inside an open container cell.
pub fn emit_inner_paragraphs(xml: &mut String, paragraphs: &Vec<WordParagraph>)
    ensures
        final(xml)@ == old(xml)@ + inner_paras_v(paragraphs.deep_view()),
{
    let mut i: usize = 0;
    while i < paragraphs.len()
        invariant
            i <= paragraphs@.len(),
            xml@ == old(xml)@ + inner_paras_v(paragraphs.deep_view().take(i as int)),
        decreases paragraphs@.len() - i,
    {
        emit_inner_paragraph(xml, &paragraphs[i]);
        proof {
            let t = paragraphs.deep_view().take(i + 1);
            assert(t.drop_last() =~= paragraphs.deep_view().take(i as int));
        }
        i = i + 1;
    }
    assert(paragraphs.deep_view().take(paragraphs@.len() as int) =~= paragraphs.deep_view());
}


/// The table properties of a plain table: grid style, automatic width,
/// no indent, fixed layout and single borders.
pub open spec fn plain_tbl_head_v() -> Seq<char> {
    "\n    <w:tbl>\n      <w:tblPr><w:tblStyle w:val=\"TableGrid\"/><w:tblW w:type=\"auto\" w:w=\"0\"/><w:tblInd w:type=\"dxa\" w:w=\"0\"/><w:tblLayout w:type=\"fixed\"/><w:tblLook w:firstColumn=\"1\" w:firstRow=\"1\" w:lastColumn=\"0\" w:lastRow=\"0\" w:noHBand=\"0\" w:noVBand=\"1\" w:val=\"04A0\"/><w:tblBorders><w:top w:val=\"single\" w:sz=\"4\" w:space=\"0\" w:color=\"auto\"/><w:left w:val=\"single\" w:sz=\"4\" w:space=\"0\" w:color=\"auto\"/><w:bottom w:val=\"single\" w:sz=\"4\" w:space=\"0\" w:color=\"auto\"/><w:right w:val=\"single\" w:sz=\"4\" w:space=\"0\" w:color=\"auto\"/><w:insideH w:val=\"single\" w:sz=\"4\" w:space=\"0\" w:color=\"auto\"/><w:insideV w:val=\"single\" w:sz=\"4\" w:space=\"0\" w:color=\"auto\"/></w:tblBorders></w:tblPr>"@
}

/// The cell properties of a plain table cell after its width, up to the
/// opening of its paragraph.
pub open spec fn plain_cell_props_v() -> Seq<char> {
    "<w:tcMar><w:top w:w=\"100\" w:type=\"dxa\"/><w:left w:w=\"120\" w:type=\"dxa\"/><w:bottom w:w=\"100\" w:type=\"dxa\"/><w:right w:w=\"120\" w:type=\"dxa\"/></w:tcMar><w:vAlign w:val=\"center\"/><w:tcBorders><w:top w:val=\"single\" w:sz=\"4\" w:space=\"0\" w:color=\"auto\"/><w:left w:val=\"single\" w:sz=\"4\" w:space=\"0\" w:color=\"auto\"/><w:bottom w:val=\"single\" w:sz=\"4\" w:space=\"0\" w:color=\"auto\"/><w:right w:val=\"single\" w:sz=\"4\" w:space=\"0\" w:color=\"auto\"/><w:insideH w:val=\"single\" w:sz=\"4\" w:space=\"0\" w:color=\"auto\"/><w:insideV w:val=\"single\" w:sz=\"4\" w:space=\"0\" w:color=\"auto\"/></w:tcBorders></w:tcPr><w:p>"@
}

/// `k` copies of a one-inch grid column.
pub open spec fn plain_grid_cols_v(k: nat) -> Seq<char>
    decreases k,
{
    if k == 0 { Seq::empty() } else { plain_grid_cols_v((k - 1) as nat) + "<w:gridCol w:w=\"1440\"/>"@ }
}

/// The grid of a plain table with `n` columns.
pub open spec fn plain_grid_v(n: nat) -> Seq<char> {
    if n > 0 { "\n      <w:tblGrid>"@ + plain_grid_cols_v(n) + "</w:tblGrid>"@ } else { Seq::empty() }
}

/// Line `k` of `n` of a plain cell: a text run when non-empty, and a line
/// break unless it is the last line.
pub open spec fn plain_line_v(line: Seq<char>, k: int, n: int) -> Seq<char> {
    (if line.len() > 0 {
        "<w:r><w:t xml:space=\"preserve\">"@ + spec_escape_xml(line) + "</w:t></w:r>"@
    } else {
        Seq::empty()
    }) + (if k < n - 1 { "<w:r><w:br/></w:r>"@ } else { Seq::empty() })
}

/// The first `k` lines of a plain cell.
pub open spec fn plain_lines_v(lines: Seq<Seq<char>>, k: nat) -> Seq<char>
    decreases k,
{
    if k == 0 {
        Seq::empty()
    } else {
        plain_lines_v(lines, (k - 1) as nat) + plain_line_v(lines[k - 1], k - 1, lines.len() as int)
    }
}

/// A plain table cell: span, merge, one inch per spanned column, margins,
/// borders, and its text split on newlines.
pub open spec fn plain_cell_v(c: TableCellV) -> Seq<char> {
    let cs = at_least_one(c.col_span);
    let rs = at_least_one(c.row_span);
    let lines = spec_split(c.text, '\n');
    "<w:tc><w:tcPr>"@ + (if cs > 1 { "<w:gridSpan w:val=\""@ + dec(cs as nat) + "\"/>"@ } else { Seq::empty() })
        + (if rs > 1 { "<w:vMerge w:val=\"restart\"/>"@ } else { Seq::empty() }) + "<w:tcW w:type=\"dxa\" w:w=\""@
        + dec(1440 * ((cs as u32) as nat)) + "\"/>"@ + plain_cell_props_v() + plain_lines_v(lines, lines.len())
        + "</w:p></w:tc>"@
}

/// The first `k` cells of a plain row.
pub open spec fn plain_cells_v(cells: Seq<TableCellV>, k: nat) -> Seq<char>
    decreases k,
{
    if k == 0 { Seq::empty() } else { plain_cells_v(cells, (k - 1) as nat) + plain_cell_v(cells[k - 1]) }
}

/// Row `ri` of a plain table; the first row repeats as a header when asked.
pub open spec fn plain_row_v(r: TableRowV, ri: int, repeat: bool) -> Seq<char> {
    "\n        <w:tr>"@ + (if repeat && ri == 0 { "<w:trPr><w:tblHeader/></w:trPr>"@ } else { Seq::empty() })
        + plain_cells_v(r.cells, r.cells.len()) + "</w:tr>"@
}

/// The first `k` rows of a plain table.
pub open spec fn plain_rows_v(rows: Seq<TableRowV>, k: nat, repeat: bool) -> Seq<char>
    decreases k,
{
    if k == 0 { Seq::empty() } else { plain_rows_v(rows, (k - 1) as nat, repeat) + plain_row_v(rows[k - 1], k - 1, repeat) }
}

/// Whether the first row of a plain table is to repeat on each page.
pub open spec fn repeat_header_v(style: Option<TableStyleV>) -> bool {
    match style {
        Some(s) => s.repeat_header,
        None => false,
    }
}

/// The XML of a plain table.
pub open spec fn plain_table_v(rows: Seq<TableRowV>, repeat: bool) -> Seq<char> {
    plain_tbl_head_v() + plain_grid_v(col_count_v(rows)) + plain_rows_v(rows, rows.len(), repeat) + "\n    </w:tbl>"@
}

/// The cell widths of a plain table (one inch per spanned column) fit in `u32`.
pub open spec fn plain_widths_fit(rows: Seq<TableRowV>) -> bool {
    forall|r: int, c: int|
        0 <= r < rows.len() && 0 <= c < rows[r].cells.len() ==>
            1440 * ((at_least_one(#[trigger] rows[r].cells[c].col_span) as u32) as nat) <= u32::MAX
}

fn push_plain_lines(xml: &mut String, text: &str)
    ensures
        final(xml)@ == old(xml)@ + plain_lines_v(spec_split(text@, '\n'), spec_split(text@, '\n').len()),
{
    let lines = split_char(text, '\n');
    let ghost lv = spec_split(text@, '\n');
    let n = lines.len();
    let mut k: usize = 0;
    while k < n
        invariant
            k <= n,
            n == lines@.len(),
            lines.deep_view() == lv,
            xml@ == old(xml)@ + plain_lines_v(lv, k as nat),
        decreases n - k,
    {
        let ghost before = xml@;
        let line = lines[k].as_str();
        let lc = chars_of(line);
        if lc.len() > 0 {
            xml.append("<w:r><w:t xml:space=\"preserve\">");
            let e = escape_xml(line);
            xml.append(e.as_str());
            xml.append("</w:t></w:r>");
        }
        if k + 1 < n {
            xml.append("<w:r><w:br/></w:r>");
        }
        proof {
            assert(lv[k as int] == lines@[k as int]@);
            assert(xml@ =~= before + plain_line_v(lv[k as int], k as int, lv.len() as int));
        }
        k = k + 1;
    }
}

fn push_plain_cell(xml: &mut String, c: &TableCell)
    requires
        1440 * ((at_least_one(c@.col_span) as u32) as nat) <= u32::MAX,
    ensures
        final(xml)@ == old(xml)@ + plain_cell_v(c@),
{
    let ghost o0 = xml@;
    let cs: usize = if c.col_span < 1 { 1 } else { c.col_span };
    let rs: usize = if c.row_span < 1 { 1 } else { c.row_span };
    xml.append("<w:tc><w:tcPr>");
    if cs > 1 {
        xml.append("<w:gridSpan w:val=\"");
        push_dec(xml, cs as u64);
        xml.append("\"/>");
    }
    if rs > 1 {
        xml.append("<w:vMerge w:val=\"restart\"/>");
    }
    let width: u32 = 1440u32 * (cs as u32);
    xml.append("<w:tcW w:type=\"dxa\" w:w=\"");
    push_dec(xml, width as u64);
    xml.append("\"/>");
    xml.append("<w:tcMar><w:top w:w=\"100\" w:type=\"dxa\"/><w:left w:w=\"120\" w:type=\"dxa\"/><w:bottom w:w=\"100\" w:type=\"dxa\"/><w:right w:w=\"120\" w:type=\"dxa\"/></w:tcMar><w:vAlign w:val=\"center\"/><w:tcBorders><w:top w:val=\"single\" w:sz=\"4\" w:space=\"0\" w:color=\"auto\"/><w:left w:val=\"single\" w:sz=\"4\" w:space=\"0\" w:color=\"auto\"/><w:bottom w:val=\"single\" w:sz=\"4\" w:space=\"0\" w:color=\"auto\"/><w:right w:val=\"single\" w:sz=\"4\" w:space=\"0\" w:color=\"auto\"/><w:insideH w:val=\"single\" w:sz=\"4\" w:space=\"0\" w:color=\"auto\"/><w:insideV w:val=\"single\" w:sz=\"4\" w:space=\"0\" w:color=\"auto\"/></w:tcBorders></w:tcPr><w:p>");
    let ghost o1 = xml@;
    push_plain_lines(xml, c.text.as_str());
    xml.append("</w:p></w:tc>");
    assert(xml@ =~= o0 + plain_cell_v(c@));
}

fn push_plain_row(xml: &mut String, r: &TableRow, ri: usize, repeat: bool)
    requires
        forall|c: int| 0 <= c < r@.cells.len() ==> 1440 * ((at_least_one(#[trigger] r@.cells[c].col_span) as u32) as nat) <= u32::MAX,
    ensures
        final(xml)@ == old(xml)@ + plain_row_v(r@, ri as int, repeat),
{
    let ghost o0 = xml@;
    xml.append("\n        <w:tr>");
    if repeat && ri == 0 {
        xml.append("<w:trPr><w:tblHeader/></w:trPr>");
    }
    let ghost o1 = xml@;
    let mut k: usize = 0;
    while k < r.cells.len()
        invariant
            k <= r@.cells.len(),
            r@.cells.len() == r.cells@.len(),
            forall|c: int| 0 <= c < r@.cells.len() ==> 1440 * ((at_least_one(#[trigger] r@.cells[c].col_span) as u32) as nat) <= u32::MAX,
            xml@ == o1 + plain_cells_v(r@.cells, k as nat),
        decreases r@.cells.len() - k,
    {
        assert(r@.cells[k as int] == r.cells@[k as int]@);
        push_plain_cell(xml, &r.cells[k]);
        k = k + 1;
    }
    xml.append("</w:tr>");
    assert(xml@ =~= o0 + plain_row_v(r@, ri as int, repeat));
}

/// Renders a plain bordered table with one-inch columns; with a style
/// asking for it, the first row repeats on each page.
pub fn build_table_xml(table_id: &str, rows: &Vec<TableRow>, style: Option<&TableStyle>) -> (xml: String)
    requires
        plain_widths_fit(rows.deep_view()),
    ensures
        xml@ == plain_table_v(rows.deep_view(), repeat_header_v(
            match style {
                Some(s) => Some(s@),
                None => None,
            },
        )),
{
    let repeat = match style {
        Some(s) => s.repeat_header,
        None => false,
    };
    let ghost rv = rows.deep_view();
    let mut xml = owned("\n    <w:tbl>\n      <w:tblPr><w:tblStyle w:val=\"TableGrid\"/><w:tblW w:type=\"auto\" w:w=\"0\"/><w:tblInd w:type=\"dxa\" w:w=\"0\"/><w:tblLayout w:type=\"fixed\"/><w:tblLook w:firstColumn=\"1\" w:firstRow=\"1\" w:lastColumn=\"0\" w:lastRow=\"0\" w:noHBand=\"0\" w:noVBand=\"1\" w:val=\"04A0\"/><w:tblBorders><w:top w:val=\"single\" w:sz=\"4\" w:space=\"0\" w:color=\"auto\"/><w:left w:val=\"single\" w:sz=\"4\" w:space=\"0\" w:color=\"auto\"/><w:bottom w:val=\"single\" w:sz=\"4\" w:space=\"0\" w:color=\"auto\"/><w:right w:val=\"single\" w:sz=\"4\" w:space=\"0\" w:color=\"auto\"/><w:insideH w:val=\"single\" w:sz=\"4\" w:space=\"0\" w:color=\"auto\"/><w:insideV w:val=\"single\" w:sz=\"4\" w:space=\"0\" w:color=\"auto\"/></w:tblBorders></w:tblPr>");
    let n: usize = if rows.len() > 0 { rows[0].cells.len() } else { 0 };
    if n > 0 {
        xml.append("\n      <w:tblGrid>");
        let ghost g0 = xml@;
        let mut k: usize = 0;
        while k < n
            invariant
                k <= n,
                xml@ == g0 + plain_grid_cols_v(k as nat),
            decreases n - k,
        {
            xml.append("<w:gridCol w:w=\"1440\"/>");
            k = k + 1;
        }
        xml.append("</w:tblGrid>");
    }
    assert(xml@ =~= plain_tbl_head_v() + plain_grid_v(col_count_v(rv)));
    let ghost h = xml@;
    let mut i: usize = 0;
    while i < rows.len()
        invariant
            i <= rows@.len(),
            rv == rows.deep_view(),
            plain_widths_fit(rv),
            xml@ == h + plain_rows_v(rv, i as nat, repeat),
        decreases rows@.len() - i,
    {
        assert(rv[i as int] == rows@[i as int]@);
        assert forall|c: int| 0 <= c < rv[i as int].cells.len() implies 1440 * ((at_least_one(
            #[trigger] rv[i as int].cells[c].col_span,
        ) as u32) as nat) <= u32::MAX by {
            assert(0 <= i < rv.len());
        }
        push_plain_row(&mut xml, &rows[i], i, repeat);
        i = i + 1;
    }
    xml.append("\n    </w:tbl>");
    let _ = table_id;
    xml
}


/// FNV-1a (32-bit) of a byte string.
pub open spec fn fnv1a_v(bytes: Seq<u8>) -> u32
    decreases bytes.len(),
{
    if bytes.len() == 0 {
        2166136261u32
    } else {
        (fnv1a_v(bytes.drop_last()) ^ (bytes.last() as u32)).wrapping_mul(16777619u32)
    }
}

/// The drawing id of an image: the FNV-1a hash of its id's UTF-8 bytes, reduced
/// modulo 2^31 so that it fits a positive `i32`, and raised to 1 where that gives 0.
pub open spec fn docpr_id_v(id: Seq<char>) -> u32 {
    let h = (fnv1a_v(vstd::utf8::encode_utf8(id)) % 0x8000_0000) as u32;
    if h < 1 { 1 } else { h }
}

/// Derives a stable, positive drawing id from an image's id.
pub fn stable_id_to_docpr_id(id: &str) -> (r: u32)
    ensures
        r == docpr_id_v(id@),
        1 <= r <= i32::MAX,
{
    let bytes = id.as_bytes();
    let mut hash: u32 = 2166136261u32;
    let mut i: usize = 0;
    while i < bytes.len()
        invariant
            i <= bytes@.len(),
            bytes@ == vstd::utf8::encode_utf8(id@),
            hash == fnv1a_v(bytes@.take(i as int)),
        decreases bytes@.len() - i,
    {
        hash = hash ^ (bytes[i] as u32);
        hash = hash.wrapping_mul(16777619u32);
        assert(bytes@.take(i + 1).drop_last() =~= bytes@.take(i as int));
        i = i + 1;
    }
    assert(bytes@.take(bytes@.len() as int) =~= bytes@);
    let h = hash % 0x8000_0000u32;
    if h < 1 { 1 } else { h }
}

/// An inline picture run sized `cx` x `cy` EMU, named by the image id, whose
/// relationship id is a placeholder filled in when the package is written.
pub open spec fn drawing_v(img: WordImageV) -> Seq<char> {
    let cx = dec(img.width_emu as nat);
    let cy = dec(img.height_emu as nat);
    let id = dec(docpr_id_v(img.id) as nat);
    let name = spec_escape_xml(img.id);
    "<w:r><w:drawing><wp:inline distT=\"0\" distB=\"0\" distL=\"0\" distR=\"0\"><wp:extent cx=\""@ + cx + "\" cy=\""@ + cy + "\"/><wp:effectExtent l=\"0\" t=\"0\" r=\"0\" b=\"0\"/><wp:docPr id=\""@ + id + "\" name=\""@ + name + "\"/><wp:cNvGraphicFramePr><a:graphicFrameLocks xmlns:a=\"http://schemas.openxmlformats.org/drawingml/2006/main\" noChangeAspect=\"1\"/></wp:cNvGraphicFramePr><a:graphic xmlns:a=\"http://schemas.openxmlformats.org/drawingml/2006/main\"><a:graphicData uri=\"http://schemas.openxmlformats.org/drawingml/2006/picture\"><pic:pic xmlns:pic=\"http://schemas.openxmlformats.org/drawingml/2006/picture\"><pic:nvPicPr><pic:cNvPr id=\""@ + id + "\" name=\""@ + name + "\"/><pic:cNvPicPr/></pic:nvPicPr><pic:blipFill><a:blip xmlns:r=\"http://schemas.openxmlformats.org/officeDocument/2006/relationships\" r:embed=\"rIdImgPlaceholder\"/><a:stretch><a:fillRect/></a:stretch></pic:blipFill><pic:spPr><a:xfrm><a:off x=\"0\" y=\"0\"/><a:ext cx=\""@ + cx + "\" cy=\""@ + cy + "\"/></a:xfrm><a:prstGeom prst=\"rect\"><a:avLst/></a:prstGeom></pic:spPr></pic:pic></a:graphicData></a:graphic></wp:inline></w:drawing></w:r>"@
}

/// Renders `img` as an inline `<w:drawing>` run.
pub fn build_image_drawing_xml(img: &WordImage) -> (xml: String)
    ensures
        xml@ == drawing_v(img@),
{
    let name = escape_xml(img.id.as_str());
    let id = stable_id_to_docpr_id(img.id.as_str());
    let mut xml = owned("<w:r><w:drawing><wp:inline distT=\"0\" distB=\"0\" distL=\"0\" distR=\"0\"><wp:extent cx=\"");
    push_dec(&mut xml, img.width_emu as u64);
    xml.append("\" cy=\"");
    push_dec(&mut xml, img.height_emu as u64);
    xml.append("\"/><wp:effectExtent l=\"0\" t=\"0\" r=\"0\" b=\"0\"/><wp:docPr id=\"");
    push_dec(&mut xml, id as u64);
    xml.append("\" name=\"");
    xml.append(name.as_str());
    xml.append("\"/><wp:cNvGraphicFramePr><a:graphicFrameLocks xmlns:a=\"http://schemas.openxmlformats.org/drawingml/2006/main\" noChangeAspect=\"1\"/></wp:cNvGraphicFramePr><a:graphic xmlns:a=\"http://schemas.openxmlformats.org/drawingml/2006/main\"><a:graphicData uri=\"http://schemas.openxmlformats.org/drawingml/2006/picture\"><pic:pic xmlns:pic=\"http://schemas.openxmlformats.org/drawingml/2006/picture\"><pic:nvPicPr><pic:cNvPr id=\"");
    push_dec(&mut xml, id as u64);
    xml.append("\" name=\"");
    xml.append(name.as_str());
    xml.append("\"/><pic:cNvPicPr/></pic:nvPicPr><pic:blipFill><a:blip xmlns:r=\"http://schemas.openxmlformats.org/officeDocument/2006/relationships\" r:embed=\"rIdImgPlaceholder\"/><a:stretch><a:fillRect/></a:stretch></pic:blipFill><pic:spPr><a:xfrm><a:off x=\"0\" y=\"0\"/><a:ext cx=\"");
    push_dec(&mut xml, img.width_emu as u64);
    xml.append("\" cy=\"");
    push_dec(&mut xml, img.height_emu as u64);
    xml.append("\"/></a:xfrm><a:prstGeom prst=\"rect\"><a:avLst/></a:prstGeom></pic:spPr></pic:pic></a:graphicData></a:graphic></wp:inline></w:drawing></w:r>");
    assert(xml@ =~= drawing_v(img@));
    xml
}

} // verus!
