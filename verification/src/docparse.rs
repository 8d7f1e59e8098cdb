//! Reading `word/document.xml`: paragraphs (with runs, numbering, layout
//! and stable ids), picture marker paragraphs, and section properties.

use vstd::prelude::*;
use crate::fields::{normalise_text_direction, normalise_text_direction_v, parse_field_instr, field_instr_v};
use crate::model::{
    default_page_size, default_page_size_v, default_section_v, FieldRef, FieldRefV, FontRun, FontRunV,
    FooterPartRef, FooterPartRefV, HeaderPartRef, HeaderPartRefV, NumberingRef, NumberingRefV, PageMargins,
    PageMarginsV, PageSize, PageSizeV, WordParagraph, WordParagraphV, WordSection, WordSectionV,
};
use crate::runfmt::{
    apply_attrs_from_event_v, apply_run_attr, apply_run_attr_v, apply_run_attrs_from_event, is_off, is_off_v, plain_format_v, turn_off, turn_off_v, RunFormat,
    RunFormatV,
};
use crate::text::{
    chars_of, dec, dec_string, ends_with, owned, parse_uint, parse_uint_v, starts_with, str_eq, strip_prefix,
    strip_prefix_v, strip_suffix, strip_suffix_v, trim, trim_v,
};
use crate::error::{OfficeError, OfficeErrorV};
use crate::xml::{attr_value, attr_value_v, xml_events, xml_events_v, XmlAttr, XmlAttrV, XmlEvent, XmlEventV};

verus! {

/// The state of the document reader between events.
pub struct ParseState {
    pub para_depth: usize,
    pub cell_depth: usize,
    pub para_counter: usize,
    pub text: String,
    pub style: Option<String>,
    pub runs: Vec<FontRun>,
    pub numbering: Option<NumberingRef>,
    pub stable_id: Option<String>,
    pub in_numpr: bool,
    pub num_id: Option<u32>,
    pub ilvl: Option<u32>,
    pub is_tbl: bool,
    pub is_img: bool,
    pub alignment: Option<String>,
    pub text_direction: Option<String>,
    pub in_ppr: bool,
    pub pending_sect: Option<WordSection>,
    pub sect_counter: u32,
    pub image_markers: Vec<WordParagraph>,
    pub in_run: bool,
    pub in_props: bool,
    pub run_text: String,
    pub fmt: RunFormat,
    pub vert_align: Option<String>,
    pub field: Option<FieldRef>,
    pub fld_state: u8,
    pub fld_instr: String,
    pub saw_run: bool,
    pub sections: Vec<WordSection>,
    pub hdr_refs: Vec<HeaderPartRef>,
    pub ftr_refs: Vec<FooterPartRef>,
    pub in_sectpr: bool,
    pub in_body: bool,
    pub paragraphs: Vec<WordParagraph>,
}

/// Model of a [`ParseState`].
pub struct ParseStateV {
    pub para_depth: usize,
    pub cell_depth: usize,
    pub para_counter: usize,
    pub text: Seq<char>,
    pub style: Option<Seq<char>>,
    pub runs: Seq<FontRunV>,
    pub numbering: Option<NumberingRefV>,
    pub stable_id: Option<Seq<char>>,
    pub in_numpr: bool,
    pub num_id: Option<u32>,
    pub ilvl: Option<u32>,
    pub is_tbl: bool,
    pub is_img: bool,
    pub alignment: Option<Seq<char>>,
    pub text_direction: Option<Seq<char>>,
    pub in_ppr: bool,
    pub pending_sect: Option<WordSectionV>,
    pub sect_counter: u32,
    pub image_markers: Seq<WordParagraphV>,
    pub in_run: bool,
    pub in_props: bool,
    pub run_text: Seq<char>,
    pub fmt: RunFormatV,
    pub vert_align: Option<Seq<char>>,
    pub field: Option<FieldRefV>,
    pub fld_state: u8,
    pub fld_instr: Seq<char>,
    pub saw_run: bool,
    pub sections: Seq<WordSectionV>,
    pub hdr_refs: Seq<HeaderPartRefV>,
    pub ftr_refs: Seq<FooterPartRefV>,
    pub in_sectpr: bool,
    pub in_body: bool,
    pub paragraphs: Seq<WordParagraphV>,
}

impl View for ParseState {
    type V = ParseStateV;

    open spec fn view(&self) -> ParseStateV {
        ParseStateV {
            para_depth: self.para_depth,
            cell_depth: self.cell_depth,
            para_counter: self.para_counter,
            text: self.text@,
            style: self.style.deep_view(),
            runs: self.runs.deep_view(),
            numbering: self.numbering.deep_view(),
            stable_id: self.stable_id.deep_view(),
            in_numpr: self.in_numpr,
            num_id: self.num_id,
            ilvl: self.ilvl,
            is_tbl: self.is_tbl,
            is_img: self.is_img,
            alignment: self.alignment.deep_view(),
            text_direction: self.text_direction.deep_view(),
            in_ppr: self.in_ppr,
            pending_sect: self.pending_sect.deep_view(),
            sect_counter: self.sect_counter,
            image_markers: self.image_markers.deep_view(),
            in_run: self.in_run,
            in_props: self.in_props,
            run_text: self.run_text@,
            fmt: self.fmt.deep_view(),
            vert_align: self.vert_align.deep_view(),
            field: self.field.deep_view(),
            fld_state: self.fld_state,
            fld_instr: self.fld_instr@,
            saw_run: self.saw_run,
            sections: self.sections.deep_view(),
            hdr_refs: self.hdr_refs.deep_view(),
            ftr_refs: self.ftr_refs.deep_view(),
            in_sectpr: self.in_sectpr,
            in_body: self.in_body,
            paragraphs: self.paragraphs.deep_view(),
        }
    }
}

/// The state before the first event.
pub open spec fn initial_state_v() -> ParseStateV {
    ParseStateV {
        para_depth: 0,
        cell_depth: 0,
        para_counter: 0,
        text: Seq::empty(),
        style: None,
        runs: Seq::empty(),
        numbering: None,
        stable_id: None,
        in_numpr: false,
        num_id: None,
        ilvl: None,
        is_tbl: false,
        is_img: false,
        alignment: None,
        text_direction: None,
        in_ppr: false,
        pending_sect: None,
        sect_counter: 0,
        image_markers: Seq::empty(),
        in_run: false,
        in_props: false,
        run_text: Seq::empty(),
        fmt: plain_format_v(),
        vert_align: None,
        field: None,
        fld_state: 0,
        fld_instr: Seq::empty(),
        saw_run: false,
        sections: Seq::empty(),
        hdr_refs: Seq::empty(),
        ftr_refs: Seq::empty(),
        in_sectpr: false,
        in_body: false,
        paragraphs: Seq::empty(),
    }
}

fn initial_state() -> (r: ParseState)
    ensures
        r@ == initial_state_v(),
{
    let r = ParseState {
        para_depth: 0,
        cell_depth: 0,
        para_counter: 0,
        text: String::new(),
        style: None,
        runs: Vec::new(),
        numbering: None,
        stable_id: None,
        in_numpr: false,
        num_id: None,
        ilvl: None,
        is_tbl: false,
        is_img: false,
        alignment: None,
        text_direction: None,
        in_ppr: false,
        pending_sect: None,
        sect_counter: 0,
        image_markers: Vec::new(),
        in_run: false,
        in_props: false,
        run_text: String::new(),
        fmt: RunFormat::default(),
        vert_align: None,
        field: None,
        fld_state: 0,
        fld_instr: String::new(),
        saw_run: false,
        sections: Vec::new(),
        hdr_refs: Vec::new(),
        ftr_refs: Vec::new(),
        in_sectpr: false,
        in_body: false,
        paragraphs: Vec::new(),
    };
    assert(r@.text =~= Seq::<char>::empty());
    assert(r@.run_text =~= Seq::<char>::empty());
    assert(r@.fld_instr =~= Seq::<char>::empty());
    assert(r@.runs =~= Seq::<FontRunV>::empty());
    assert(r@.image_markers =~= Seq::<WordParagraphV>::empty());
    assert(r@.paragraphs =~= Seq::<WordParagraphV>::empty());
    assert(r@.sections =~= Seq::<WordSectionV>::empty());
    assert(r@.hdr_refs =~= Seq::<HeaderPartRefV>::empty());
    assert(r@.ftr_refs =~= Seq::<FooterPartRefV>::empty());
    r
}

/// A decimal `u32`, as `str::parse::<u32>` reads it.
pub open spec fn parse_u32_v(v: Seq<char>) -> Option<u32> {
    match parse_uint_v(v, u32::MAX as nat) {
        Some(n) => Some(n as u32),
        None => None,
    }
}

pub(crate) fn parse_u32(v: &str) -> (r: Option<u32>)
    ensures
        r == parse_u32_v(v@),
{
    match parse_uint(v, u32::MAX as u64) {
        Some(n) => Some(n as u32),
        None => None,
    }
}

/// The `u32` value of attribute `key`, or `d` when missing or not a number.
pub open spec fn num_attr_or_v(attrs: Seq<XmlAttrV>, key: Seq<char>, d: u32) -> u32 {
    match attr_value_v(attrs, key) {
        Some(v) => match parse_u32_v(v) {
            Some(n) => n,
            None => d,
        },
        None => d,
    }
}

fn num_attr_or(attrs: &Vec<XmlAttr>, key: &str, d: u32) -> (r: u32)
    ensures
        r == num_attr_or_v(attrs.deep_view(), key@, d),
{
    match attr_value(attrs, key) {
        Some(v) => match parse_u32(v.as_str()) {
            Some(n) => n,
            None => d,
        },
        None => d,
    }
}

/// The `u32` value of attribute `key`, if present and a number.
pub open spec fn num_attr_v(attrs: Seq<XmlAttrV>, key: Seq<char>) -> Option<u32> {
    match attr_value_v(attrs, key) {
        Some(v) => parse_u32_v(v),
        None => None,
    }
}

fn num_attr(attrs: &Vec<XmlAttr>, key: &str) -> (r: Option<u32>)
    ensures
        r == num_attr_v(attrs.deep_view(), key@),
{
    match attr_value(attrs, key) {
        Some(v) => parse_u32(v.as_str()),
        None => None,
    }
}

/// The value of attribute `key` when present and non-empty.
pub open spec fn nonempty_attr_v(attrs: Seq<XmlAttrV>, key: Seq<char>) -> Option<Seq<char>> {
    match attr_value_v(attrs, key) {
        Some(v) => if v.len() > 0 { Some(v) } else { None },
        None => None,
    }
}

fn nonempty_attr(attrs: &Vec<XmlAttr>, key: &str) -> (r: Option<String>)
    ensures
        r.deep_view() == nonempty_attr_v(attrs.deep_view(), key@),
{
    match attr_value(attrs, key) {
        Some(v) => if chars_of(v.as_str()).len() > 0 { Some(v) } else { None },
        None => None,
    }
}


/// `a` when present, else `b`.
pub open spec fn or_else_v<T>(a: Option<T>, b: Option<T>) -> Option<T> {
    match a {
        Some(x) => Some(x),
        None => b,
    }
}

/// A section after a `<w:pgSz>`: given width, height or (non-empty)
/// orientation override the current size, or A4 portrait when there is none.
pub open spec fn pgsz_update_v(sect: WordSectionV, attrs: Seq<XmlAttrV>) -> WordSectionV {
    let w = num_attr_v(attrs, "w"@);
    let h = num_attr_v(attrs, "h"@);
    let o0 = or_else_v(attr_value_v(attrs, "orient"@), attr_value_v(attrs, "o"@));
    let o = match o0 {
        Some(v) => if v.len() > 0 { Some(v) } else { None },
        None => None,
    };
    if w is Some || h is Some || o is Some {
        let ex = match sect.page_size_twips {
            Some(p) => p,
            None => default_page_size_v(),
        };
        WordSectionV {
            page_size_twips: Some(PageSizeV {
                width: match w { Some(x) => x, None => ex.width },
                height: match h { Some(x) => x, None => ex.height },
                orient: or_else_v(o, ex.orient),
            }),
            ..sect
        }
    } else {
        sect
    }
}

/// A section after a `<w:pgMar>`: every margin read, defaulting to one inch
/// (half an inch for header and footer, no gutter).
pub open spec fn pgmar_update_v(sect: WordSectionV, attrs: Seq<XmlAttrV>) -> WordSectionV {
    WordSectionV {
        margins: Some(PageMarginsV {
            top: num_attr_or_v(attrs, "top"@, 1440),
            right: num_attr_or_v(attrs, "right"@, 1440),
            bottom: num_attr_or_v(attrs, "bottom"@, 1440),
            left: num_attr_or_v(attrs, "left"@, 1440),
            header: Some(num_attr_or_v(attrs, "header"@, 720)),
            footer: Some(num_attr_or_v(attrs, "footer"@, 720)),
            gutter: Some(num_attr_or_v(attrs, "gutter"@, 0)),
        }),
        ..sect
    }
}

/// A section after one of its property elements.
pub open spec fn sect_update_v(sect: WordSectionV, name: Seq<char>, attrs: Seq<XmlAttrV>) -> WordSectionV {
    if name == "pgSz"@ {
        pgsz_update_v(sect, attrs)
    } else if name == "pgMar"@ {
        pgmar_update_v(sect, attrs)
    } else if name == "textDirection"@ {
        match nonempty_attr_v(attrs, "val"@) {
            Some(v) => WordSectionV { text_direction: Some(normalise_text_direction_v(v)), ..sect },
            None => sect,
        }
    } else if name == "titlePg"@ {
        WordSectionV { title_pg: true, ..sect }
    } else if name == "cols"@ {
        match num_attr_v(attrs, "num"@) {
            Some(n) => WordSectionV { cols: Some(if n < 1 { 1 } else { n }), ..sect },
            None => sect,
        }
    } else if name == "pgNumType"@ {
        let s1 = match num_attr_v(attrs, "start"@) {
            Some(n) => WordSectionV { page_num_start: Some(n), ..sect },
            None => sect,
        };
        match nonempty_attr_v(attrs, "fmt"@) {
            Some(f) => WordSectionV { page_num_format: Some(f), ..s1 },
            None => s1,
        }
    } else if name == "type"@ {
        match nonempty_attr_v(attrs, "val"@) {
            Some(v) => WordSectionV { section_type: Some(v), ..sect },
            None => sect,
        }
    } else {
        sect
    }
}

/// Whether `name` is a section property element the reader keeps.
pub open spec fn is_sect_child_v(name: Seq<char>) -> bool {
    name == "pgSz"@ || name == "pgMar"@ || name == "textDirection"@ || name == "titlePg"@ || name == "cols"@
        || name == "pgNumType"@ || name == "type"@
}

/// The state after a section property element: the pending section, if
/// any, updated.
#[verifier::opaque]
pub open spec fn sect_child_v(s: ParseStateV, name: Seq<char>, attrs: Seq<XmlAttrV>) -> ParseStateV {
    ParseStateV {
        pending_sect: match s.pending_sect {
            Some(sect) => Some(sect_update_v(sect, name, attrs)),
            None => None,
        },
        ..s
    }
}

fn pgsz_update(sect: &mut WordSection, attrs: &Vec<XmlAttr>)
    ensures
        final(sect)@ == pgsz_update_v(old(sect)@, attrs.deep_view()),
{
    let w = num_attr(attrs, "w");
    let h = num_attr(attrs, "h");
    let o0 = match attr_value(attrs, "orient") {
        Some(v) => Some(v),
        None => attr_value(attrs, "o"),
    };
    let o = match o0 {
        Some(v) => if chars_of(v.as_str()).len() > 0 { Some(v) } else { None },
        None => None,
    };
    if w.is_some() || h.is_some() || o.is_some() {
        let ex = match &sect.page_size_twips {
            Some(p) => p.clone(),
            None => default_page_size(),
        };
        let orient = match o {
            Some(v) => Some(v),
            None => ex.orient,
        };
        sect.page_size_twips = Some(PageSize {
            width: match w { Some(x) => x, None => ex.width },
            height: match h { Some(x) => x, None => ex.height },
            orient,
        });
    }
}

fn sect_update(sect: &mut WordSection, name: &str, attrs: &Vec<XmlAttr>)
    ensures
        final(sect)@ == sect_update_v(old(sect)@, name@, attrs.deep_view()),
{
    if str_eq(name, "pgSz") {
        pgsz_update(sect, attrs);
    } else if str_eq(name, "pgMar") {
        sect.margins = Some(PageMargins {
            top: num_attr_or(attrs, "top", 1440),
            right: num_attr_or(attrs, "right", 1440),
            bottom: num_attr_or(attrs, "bottom", 1440),
            left: num_attr_or(attrs, "left", 1440),
            header: Some(num_attr_or(attrs, "header", 720)),
            footer: Some(num_attr_or(attrs, "footer", 720)),
            gutter: Some(num_attr_or(attrs, "gutter", 0)),
        });
    } else if str_eq(name, "textDirection") {
        if let Some(v) = nonempty_attr(attrs, "val") {
            sect.text_direction = Some(normalise_text_direction(v.as_str()));
        }
    } else if str_eq(name, "titlePg") {
        sect.title_pg = true;
    } else if str_eq(name, "cols") {
        if let Some(n) = num_attr(attrs, "num") {
            sect.cols = Some(if n < 1 { 1 } else { n });
        }
    } else if str_eq(name, "pgNumType") {
        if let Some(n) = num_attr(attrs, "start") {
            sect.page_num_start = Some(n);
        }
        if let Some(f) = nonempty_attr(attrs, "fmt") {
            sect.page_num_format = Some(f);
        }
    } else if str_eq(name, "type") {
        if let Some(v) = nonempty_attr(attrs, "val") {
            sect.section_type = Some(v);
        }
    }
}

fn sect_child(st: &mut ParseState, name: &str, attrs: &Vec<XmlAttr>)
    ensures
        final(st)@ == sect_child_v(old(st)@, name@, attrs.deep_view()),
        final(st).para_depth == old(st).para_depth,
        final(st).cell_depth == old(st).cell_depth,
        final(st).para_counter == old(st).para_counter,
{
    reveal(sect_child_v);
    if let Some(sect) = &mut st.pending_sect {
        sect_update(sect, name, attrs);
    }
    assert(st@ == sect_child_v(old(st)@, name@, attrs.deep_view()));
}

/// The state after a header (or footer) reference: one with a non-empty
/// relationship id is recorded with its kind, `default` when unnamed.
#[verifier::opaque]
pub open spec fn ref_v(s: ParseStateV, is_header: bool, attrs: Seq<XmlAttrV>) -> ParseStateV {
    match nonempty_attr_v(attrs, "id"@) {
        Some(rid) => {
            let kind = match attr_value_v(attrs, "type"@) {
                Some(k) => k,
                None => "default"@,
            };
            if is_header {
                ParseStateV { hdr_refs: s.hdr_refs.push(HeaderPartRefV { header_id: rid, kind: Some(kind) }), ..s }
            } else {
                ParseStateV { ftr_refs: s.ftr_refs.push(FooterPartRefV { footer_id: rid, kind: Some(kind) }), ..s }
            }
        },
        None => s,
    }
}

fn push_ref(st: &mut ParseState, is_header: bool, attrs: &Vec<XmlAttr>)
    ensures
        final(st)@ == ref_v(old(st)@, is_header, attrs.deep_view()),
        final(st).para_depth == old(st).para_depth,
        final(st).cell_depth == old(st).cell_depth,
        final(st).para_counter == old(st).para_counter,
{
    reveal(ref_v);
    if let Some(rid) = nonempty_attr(attrs, "id") {
        let kind = match attr_value(attrs, "type") {
            Some(k) => k,
            None => owned("default"),
        };
        if is_header {
            let ghost h0 = st.hdr_refs.deep_view();
            let r = HeaderPartRef { header_id: rid, kind: Some(kind) };
            st.hdr_refs.push(r);
            assert(st.hdr_refs.deep_view() =~= h0.push(r@));
        } else {
            let ghost f0 = st.ftr_refs.deep_view();
            let r = FooterPartRef { footer_id: rid, kind: Some(kind) };
            st.ftr_refs.push(r);
            assert(st.ftr_refs.deep_view() =~= f0.push(r@));
        }
    }
}


/// The state at a paragraph's start: depth one deeper, the paragraph and
/// run accumulators cleared.
#[verifier::opaque]
pub open spec fn reset_para_v(s: ParseStateV) -> ParseStateV {
    ParseStateV {
        para_depth: (s.para_depth + 1) as usize,
        text: Seq::empty(),
        style: None,
        runs: Seq::empty(),
        numbering: None,
        stable_id: None,
        is_tbl: false,
        is_img: false,
        in_numpr: false,
        num_id: None,
        ilvl: None,
        saw_run: false,
        alignment: None,
        text_direction: None,
        in_ppr: false,
        vert_align: None,
        field: None,
        ..s
    }
}

fn reset_para(st: &mut ParseState)
    requires
        old(st).para_depth < usize::MAX,
    ensures
        final(st)@ == reset_para_v(old(st)@),
        final(st).para_depth == old(st).para_depth + 1,
        final(st).cell_depth == old(st).cell_depth,
        final(st).para_counter == old(st).para_counter,
{
    reveal(reset_para_v);
    st.para_depth = st.para_depth + 1;
    st.text = String::new();
    st.style = None;
    st.runs = Vec::new();
    st.numbering = None;
    st.stable_id = None;
    st.is_tbl = false;
    st.is_img = false;
    st.in_numpr = false;
    st.num_id = None;
    st.ilvl = None;
    st.saw_run = false;
    st.alignment = None;
    st.text_direction = None;
    st.in_ppr = false;
    st.vert_align = None;
    st.field = None;
    assert(st.text@ =~= Seq::<char>::empty());
    assert(st.runs.deep_view() =~= Seq::<FontRunV>::empty());
}

/// Whether a stable id is a marker id `PRE…__`.
pub open spec fn is_marker_id_v(v: Seq<char>, pre: Seq<char>) -> bool {
    pre.is_prefix_of(v) && "__"@.is_suffix_of(v)
}

/// The state after an `<inkuo:id>`: a non-empty id becomes the stable id,
/// table and picture marker ids also marking the paragraph; a plain id
/// counts only inside a paragraph when `need_para` holds.
#[verifier::opaque]
pub open spec fn id_v(s: ParseStateV, attrs: Seq<XmlAttrV>, need_para: bool) -> ParseStateV {
    match nonempty_attr_v(attrs, "val"@) {
        Some(v) => if is_marker_id_v(v, "__tbl_pos_"@) {
            ParseStateV { stable_id: Some(v), is_tbl: true, ..s }
        } else if is_marker_id_v(v, "__img_pos_"@) {
            ParseStateV { stable_id: Some(v), is_img: true, ..s }
        } else if !need_para || s.para_depth > 0 {
            ParseStateV { stable_id: Some(v), ..s }
        } else {
            s
        },
        None => s,
    }
}

fn id_elem(st: &mut ParseState, attrs: &Vec<XmlAttr>, need_para: bool)
    ensures
        final(st)@ == id_v(old(st)@, attrs.deep_view(), need_para),
        final(st).para_depth == old(st).para_depth,
        final(st).cell_depth == old(st).cell_depth,
        final(st).para_counter == old(st).para_counter,
{
    reveal(id_v);
    if let Some(v) = nonempty_attr(attrs, "val") {
        if starts_with(v.as_str(), "__tbl_pos_") && ends_with(v.as_str(), "__") {
            st.stable_id = Some(v);
            st.is_tbl = true;
        } else if starts_with(v.as_str(), "__img_pos_") && ends_with(v.as_str(), "__") {
            st.stable_id = Some(v);
            st.is_img = true;
        } else if !need_para || st.para_depth > 0 {
            st.stable_id = Some(v);
        }
    }
}

/// The format after a run-property element: its `val` applied as that
/// property, and its first font attribute (`ascii`, `hAnsi`, `cs`) as the font.
pub open spec fn props_fmt_v(f: RunFormatV, name: Seq<char>, attrs: Seq<XmlAttrV>) -> RunFormatV {
    let val = attr_value_v(attrs, "val"@);
    let f0 = apply_run_attr_v(f, name, val);
    let f1 = match val {
        Some(v) => if is_off_v(v) { turn_off_v(f0, name) } else { f0 },
        None => f0,
    };
    let fonts = or_else_v(or_else_v(attr_value_v(attrs, "ascii"@), attr_value_v(attrs, "hAnsi"@)), attr_value_v(attrs, "cs"@));
    match fonts {
        Some(v) => apply_run_attr_v(f1, "rFonts"@, Some(v)),
        None => f1,
    }
}

/// The state after a run-property element.
#[verifier::opaque]
pub open spec fn props_v(s: ParseStateV, name: Seq<char>, attrs: Seq<XmlAttrV>) -> ParseStateV {
    ParseStateV { fmt: props_fmt_v(s.fmt, name, attrs), ..s }
}

fn props_fmt(fmt: &mut RunFormat, name: &str, attrs: &Vec<XmlAttr>)
    ensures
        final(fmt).deep_view() == props_fmt_v(old(fmt).deep_view(), name@, attrs.deep_view()),
{
    let val = attr_value(attrs, "val");
    match &val {
        Some(v) => {
            apply_run_attr(fmt, name, Some(v.as_str()));
            if is_off(v.as_str()) {
                turn_off(fmt, name);
            }
        },
        None => apply_run_attr(fmt, name, None),
    }
    let fonts = match attr_value(attrs, "ascii") {
        Some(v) => Some(v),
        None => match attr_value(attrs, "hAnsi") {
            Some(v) => Some(v),
            None => attr_value(attrs, "cs"),
        },
    };
    if let Some(v) = &fonts {
        apply_run_attr(fmt, "rFonts", Some(v.as_str()));
    }
}

fn props(st: &mut ParseState, name: &str, attrs: &Vec<XmlAttr>)
    ensures
        final(st)@ == props_v(old(st)@, name@, attrs.deep_view()),
        final(st).para_depth == old(st).para_depth,
        final(st).cell_depth == old(st).cell_depth,
        final(st).para_counter == old(st).para_counter,
{
    reveal(props_v);
    props_fmt(&mut st.fmt, name, attrs);
}

/// The state after a `<w:fldChar>`: `begin` starts collecting the
/// instruction, `separate` moves on, `end` turns the run into the field the
/// instruction names (with empty text) and closes the field.
#[verifier::opaque]
pub open spec fn fld_v(s: ParseStateV, attrs: Seq<XmlAttrV>) -> ParseStateV {
    match attr_value_v(attrs, "fldCharType"@) {
        Some(v) => if v == "begin"@ {
            ParseStateV { fld_state: 1, fld_instr: Seq::empty(), ..s }
        } else if v == "separate"@ {
            if s.fld_state == 1 { ParseStateV { fld_state: 2, ..s } } else { s }
        } else if v == "end"@ {
            if s.fld_state >= 1 {
                ParseStateV {
                    run_text: Seq::empty(),
                    field: field_instr_v(s.fld_instr),
                    fld_instr: Seq::empty(),
                    fld_state: 0,
                    ..s
                }
            } else {
                ParseStateV { fld_state: 0, ..s }
            }
        } else {
            s
        },
        None => s,
    }
}

fn fld(st: &mut ParseState, attrs: &Vec<XmlAttr>)
    ensures
        final(st)@ == fld_v(old(st)@, attrs.deep_view()),
        final(st).para_depth == old(st).para_depth,
        final(st).cell_depth == old(st).cell_depth,
        final(st).para_counter == old(st).para_counter,
{
    reveal(fld_v);
    if let Some(v) = attr_value(attrs, "fldCharType") {
        if str_eq(v.as_str(), "begin") {
            st.fld_state = 1;
            st.fld_instr = String::new();
            assert(st.fld_instr@ =~= Seq::<char>::empty());
        } else if str_eq(v.as_str(), "separate") {
            if st.fld_state == 1 {
                st.fld_state = 2;
            }
        } else if str_eq(v.as_str(), "end") {
            if st.fld_state >= 1 {
                let field = parse_field_instr(st.fld_instr.as_str());
                st.run_text = String::new();
                st.field = field;
                st.fld_instr = String::new();
                assert(st.fld_instr@ =~= Seq::<char>::empty());
                assert(st.run_text@ =~= Seq::<char>::empty());
            }
            st.fld_state = 0;
        }
    }
}

/// The state at a `<w:sectPr>`: a new pending section with the next
/// counter value in its id (`section-N`) and the default properties.
#[verifier::opaque]
pub open spec fn sectpr_start_v(s: ParseStateV) -> ParseStateV {
    let c = s.sect_counter.wrapping_add(1);
    ParseStateV {
        in_sectpr: true,
        sect_counter: c,
        pending_sect: Some(WordSectionV { id: "section-"@ + dec(c as nat), ..default_section_v() }),
        ..s
    }
}

fn sectpr_start(st: &mut ParseState)
    ensures
        final(st)@ == sectpr_start_v(old(st)@),
        final(st).para_depth == old(st).para_depth,
        final(st).cell_depth == old(st).cell_depth,
        final(st).para_counter == old(st).para_counter,
{
    reveal(sectpr_start_v);
    st.in_sectpr = true;
    st.sect_counter = st.sect_counter.wrapping_add(1);
    let mut sect = WordSection::default();
    let mut id = owned("section-");
    let n = dec_string(st.sect_counter as u64);
    id.append(n.as_str());
    sect.id = id;
    st.pending_sect = Some(sect);
}

/// The pending section, if any, recorded with the collected header and
/// footer references.
#[verifier::opaque]
pub open spec fn commit_sect_v(s: ParseStateV) -> ParseStateV {
    match s.pending_sect {
        Some(sect) => ParseStateV {
            sections: s.sections.push(WordSectionV { header_refs: s.hdr_refs, footer_refs: s.ftr_refs, ..sect }),
            hdr_refs: Seq::empty(),
            ftr_refs: Seq::empty(),
            pending_sect: None,
            ..s
        },
        None => s,
    }
}

fn commit_sect(st: &mut ParseState)
    ensures
        final(st)@ == commit_sect_v(old(st)@),
        final(st).para_depth == old(st).para_depth,
        final(st).cell_depth == old(st).cell_depth,
        final(st).para_counter == old(st).para_counter,
{
    reveal(commit_sect_v);
    let pending = st.pending_sect.take();
    if let Some(mut sect) = pending {
        let mut h: Vec<HeaderPartRef> = Vec::new();
        std::mem::swap(&mut h, &mut st.hdr_refs);
        let mut f: Vec<FooterPartRef> = Vec::new();
        std::mem::swap(&mut f, &mut st.ftr_refs);
        sect.header_refs = h;
        sect.footer_refs = f;
        let ghost s0 = st.sections.deep_view();
        st.sections.push(sect);
        assert(st.sections.deep_view() =~= s0.push(sect@));
        assert(st.hdr_refs.deep_view() =~= Seq::<HeaderPartRefV>::empty());
        assert(st.ftr_refs.deep_view() =~= Seq::<FooterPartRefV>::empty());
    }
}


/// Whether a format carries any formatting.
pub open spec fn has_format_v(f: RunFormatV) -> bool {
    f.bold || f.italic || f.underline || f.strikethrough || f.font_size is Some || f.color is Some || f.font_name is Some
        || f.highlight is Some
}

/// The run a closed `<w:r>` gives.
pub open spec fn run_of_v(s: ParseStateV) -> FontRunV {
    FontRunV {
        text: s.run_text,
        bold: s.fmt.bold,
        italic: s.fmt.italic,
        underline: s.fmt.underline,
        strikethrough: s.fmt.strikethrough,
        font_size: s.fmt.font_size,
        color: s.fmt.color,
        font_name: s.fmt.font_name,
        highlight: s.fmt.highlight,
        vert_align: s.vert_align,
        field: s.field,
        page_break: false,
        column_break: false,
    }
}

/// The state at `</w:r>`: outside the run; a top-level run in a paragraph
/// that has text, formatting, a vertical alignment or a field is recorded
/// and its text added to the paragraph's.
#[verifier::opaque]
pub open spec fn run_end_v(s: ParseStateV) -> ParseStateV {
    let s1 = ParseStateV { in_run: false, in_props: false, ..s };
    if s.cell_depth == 0 && s.para_depth > 0 {
        if s.run_text.len() > 0 || has_format_v(s.fmt) || s.vert_align is Some || s.field is Some {
            ParseStateV {
                saw_run: true,
                text: s.text + s.run_text,
                runs: s.runs.push(run_of_v(s)),
                run_text: Seq::empty(),
                vert_align: None,
                field: None,
                ..s1
            }
        } else {
            ParseStateV { saw_run: true, vert_align: None, field: None, ..s1 }
        }
    } else {
        s1
    }
}

fn run_end(st: &mut ParseState)
    ensures
        final(st)@ == run_end_v(old(st)@),
        final(st).para_depth == old(st).para_depth,
        final(st).cell_depth == old(st).cell_depth,
        final(st).para_counter == old(st).para_counter,
{
    reveal(run_end_v);
    let ghost s0 = st@;
    st.in_run = false;
    st.in_props = false;
    if st.cell_depth == 0 && st.para_depth > 0 {
        st.saw_run = true;
        let f = &st.fmt;
        let has_format = f.bold || f.italic || f.underline || f.strikethrough || f.font_size.is_some()
            || f.color.is_some() || f.font_name.is_some() || f.highlight.is_some() || st.vert_align.is_some();
        if chars_of(st.run_text.as_str()).len() > 0 || has_format || st.field.is_some() {
            st.text.append(st.run_text.as_str());
            let mut t = String::new();
            std::mem::swap(&mut t, &mut st.run_text);
            let va = st.vert_align.take();
            let fd = st.field.take();
            let r = FontRun {
                text: t,
                bold: st.fmt.bold,
                italic: st.fmt.italic,
                underline: st.fmt.underline,
                strikethrough: st.fmt.strikethrough,
                font_size: st.fmt.font_size,
                color: st.fmt.color.clone(),
                font_name: st.fmt.font_name.clone(),
                highlight: st.fmt.highlight.clone(),
                vert_align: va,
                field: fd,
                page_break: false,
                column_break: false,
            };
            assert(r@ == run_of_v(s0));
            let ghost r0 = st.runs.deep_view();
            st.runs.push(r);
            assert(st.runs.deep_view() =~= r0.push(r@));
            assert(st.run_text@ =~= Seq::<char>::empty());
        } else {
            st.vert_align = None;
            st.field = None;
        }
    }
}

/// Whether some run carries formatting (vertical alignment aside).
pub open spec fn runs_have_format_v(rs: Seq<FontRunV>) -> bool {
    exists|i: int|
        0 <= i < rs.len() && (rs[i].bold || rs[i].italic || rs[i].underline || rs[i].strikethrough
            || rs[i].font_size is Some || rs[i].color is Some || rs[i].font_name is Some || rs[i].highlight is Some)
}

pub(crate) fn runs_have_format(rs: &Vec<FontRun>) -> (r: bool)
    ensures
        r == runs_have_format_v(rs.deep_view()),
{
    let mut i: usize = 0;
    while i < rs.len()
        invariant
            i <= rs@.len(),
            forall|j: int|
                0 <= j < i ==> !(rs.deep_view()[j].bold || rs.deep_view()[j].italic || rs.deep_view()[j].underline
                    || rs.deep_view()[j].strikethrough || rs.deep_view()[j].font_size is Some || rs.deep_view()[j].color is Some
                    || rs.deep_view()[j].font_name is Some || rs.deep_view()[j].highlight is Some),
        decreases rs@.len() - i,
    {
        let r = &rs[i];
        assert(rs.deep_view()[i as int] == r@);
        if r.bold || r.italic || r.underline || r.strikethrough || r.font_size.is_some() || r.color.is_some()
            || r.font_name.is_some() || r.highlight.is_some() {
            return true;
        }
        i = i + 1;
    }
    false
}

/// The text of a marker paragraph: `<PRE<id>__>` from a stable id
/// `PRE<id>__`; the stable id itself when it has another shape; `fallback`
/// without one.
pub open spec fn marker_text_v(stable: Option<Seq<char>>, pre: Seq<char>, open: Seq<char>, fallback: Seq<char>) -> Seq<char> {
    match stable {
        Some(st) => match strip_prefix_v(st, pre) {
            Some(rest) => match strip_suffix_v(rest, "__"@) {
                Some(x) => open + x + "__>"@,
                None => st,
            },
            None => st,
        },
        None => fallback,
    }
}

fn marker_text(stable: &Option<String>, pre: &str, open: &str, fallback: &str) -> (r: String)
    ensures
        r@ == marker_text_v(stable.deep_view(), pre@, open@, fallback@),
{
    match stable {
        Some(st) => match strip_prefix(st.as_str(), pre) {
            Some(rest) => match strip_suffix(rest.as_str(), "__") {
                Some(x) => {
                    let mut t = owned(open);
                    t.append(x.as_str());
                    t.append("__>");
                    t
                },
                None => st.clone(),
            },
            None => st.clone(),
        },
        None => owned(fallback),
    }
}

/// The id a kept paragraph gets and the next counter value: its stable id,
/// or `p<counter>`.
pub open spec fn para_id_v(s: ParseStateV) -> (Seq<char>, usize) {
    match s.stable_id {
        Some(x) => (x, s.para_counter),
        None => ("p"@ + dec(s.para_counter as nat), (s.para_counter + 1) as usize),
    }
}

fn para_id(st: &mut ParseState) -> (r: String)
    requires
        old(st).para_counter < usize::MAX,
    ensures
        r@ == para_id_v(old(st)@).0,
        final(st)@ == (ParseStateV { para_counter: para_id_v(old(st)@).1, ..old(st)@ }),
        final(st).para_depth == old(st).para_depth,
        final(st).cell_depth == old(st).cell_depth,
        final(st).para_counter <= old(st).para_counter + 1,
{
    match &st.stable_id {
        Some(x) => x.clone(),
        None => {
            let mut id = owned("p");
            let n = dec_string(st.para_counter as u64);
            id.append(n.as_str());
            st.para_counter = st.para_counter + 1;
            id
        },
    }
}

/// Whether a closed top-level paragraph is kept: it has text, style,
/// numbering, formatted runs, any run, or a marker id.
pub open spec fn keep_para_v(s: ParseStateV) -> bool {
    s.text.len() > 0 || s.style is Some || s.numbering is Some || runs_have_format_v(s.runs) || s.saw_run || s.is_tbl
        || s.is_img
}

/// The paragraph recorded at `</w:p>` when it is kept.
#[verifier::opaque]
pub open spec fn kept_para_v(s: ParseStateV) -> WordParagraphV {
    WordParagraphV {
        id: para_id_v(s).0,
        text: if s.is_tbl {
            marker_text_v(s.stable_id, "__tbl_pos_"@, "<__tbl_pos_"@, s.text)
        } else if s.is_img {
            marker_text_v(s.stable_id, "__img_pos_"@, "<__img_pos_"@, s.text)
        } else {
            trim_v(s.text)
        },
        style: s.style,
        runs: if s.runs.len() == 0 { None } else { Some(s.runs) },
        numbering: s.numbering,
        alignment: s.alignment,
        text_direction: s.text_direction,
        page_break: None,
    }
}

fn kept_para(st: &mut ParseState) -> (p: WordParagraph)
    requires
        old(st).para_counter < usize::MAX,
    ensures
        p@ == kept_para_v(old(st)@),
        final(st)@ == (ParseStateV { para_counter: para_id_v(old(st)@).1, alignment: None, text_direction: None, ..old(st)@ }),
        final(st).para_depth == old(st).para_depth,
        final(st).cell_depth == old(st).cell_depth,
        final(st).para_counter <= old(st).para_counter + 1,
{
    reveal(kept_para_v);
    let id = para_id(st);
    let text = if st.is_tbl {
        marker_text(&st.stable_id, "__tbl_pos_", "<__tbl_pos_", st.text.as_str())
    } else if st.is_img {
        marker_text(&st.stable_id, "__img_pos_", "<__img_pos_", st.text.as_str())
    } else {
        trim(st.text.as_str())
    };
    let runs = if st.runs.len() == 0 {
        None
    } else {
        let c = st.runs.clone();
        assert(c.deep_view() =~= st.runs.deep_view());
        Some(c)
    };
    WordParagraph {
        id,
        text,
        style: st.style.clone(),
        runs,
        numbering: st.numbering.clone(),
        alignment: st.alignment.take(),
        text_direction: st.text_direction.take(),
        page_break: None,
    }
}

/// The state after recording a kept paragraph: picture markers aside, the
/// others with the paragraphs; its id taken, its layout cleared.
#[verifier::opaque]
pub open spec fn record_para_v(s: ParseStateV) -> ParseStateV {
    let p = kept_para_v(s);
    if s.is_img {
        ParseStateV {
            para_counter: para_id_v(s).1,
            alignment: None,
            text_direction: None,
            image_markers: s.image_markers.push(p),
            ..s
        }
    } else {
        ParseStateV { para_counter: para_id_v(s).1, alignment: None, text_direction: None, paragraphs: s.paragraphs.push(p), ..s }
    }
}

fn record_para(st: &mut ParseState)
    requires
        old(st).para_counter < usize::MAX,
    ensures
        final(st)@ == record_para_v(old(st)@),
        final(st).para_depth == old(st).para_depth,
        final(st).cell_depth == old(st).cell_depth,
        final(st).para_counter <= old(st).para_counter + 1,
{
    reveal(record_para_v);
    let p = kept_para(st);
    if st.is_img {
        let ghost m0 = st.image_markers.deep_view();
        st.image_markers.push(p);
        assert(st.image_markers.deep_view() =~= m0.push(p@));
    } else {
        let ghost m0 = st.paragraphs.deep_view();
        st.paragraphs.push(p);
        assert(st.paragraphs.deep_view() =~= m0.push(p@));
    }
}

/// The state at `</w:p>`: one level up; back at the top level outside
/// table cells, a kept paragraph is recorded.
#[verifier::opaque]
pub open spec fn para_end_v(s: ParseStateV) -> ParseStateV {
    let d = if s.para_depth > 0 { (s.para_depth - 1) as usize } else { 0usize };
    let s1 = ParseStateV { para_depth: d, ..s };
    if d == 0 && s.cell_depth == 0 && keep_para_v(s) {
        record_para_v(s1)
    } else {
        s1
    }
}

fn para_end(st: &mut ParseState)
    requires
        old(st).para_counter < usize::MAX,
    ensures
        final(st)@ == para_end_v(old(st)@),
        final(st).para_depth <= old(st).para_depth,
        final(st).cell_depth == old(st).cell_depth,
        final(st).para_counter <= old(st).para_counter + 1,
{
    reveal(para_end_v);
    st.para_depth = if st.para_depth > 0 { st.para_depth - 1 } else { 0 };
    if st.para_depth == 0 && st.cell_depth == 0 {
        let has_format = runs_have_format(&st.runs);
        let keep = chars_of(st.text.as_str()).len() > 0 || st.style.is_some() || st.numbering.is_some() || has_format
            || st.saw_run || st.is_tbl || st.is_img;
        if keep {
            record_para(st);
        }
    }
}

/// The state after a self-closing `<w:p/>`: it takes an id; with a style or
/// as a table marker it is recorded as an empty (or marker-text) paragraph.
#[verifier::opaque]
pub open spec fn empty_p_v(s: ParseStateV) -> ParseStateV {
    let (id, counter) = para_id_v(s);
    if s.style is Some || s.is_tbl {
        let text = if s.is_tbl { marker_text_v(s.stable_id, "__tbl_pos_"@, "<__tbl_pos_"@, Seq::empty()) } else { Seq::empty() };
        ParseStateV {
            para_counter: counter,
            paragraphs: s.paragraphs.push(WordParagraphV {
                id,
                text,
                style: None,
                runs: None,
                numbering: None,
                alignment: None,
                text_direction: None,
                page_break: None,
            }),
            ..s
        }
    } else {
        ParseStateV { para_counter: counter, ..s }
    }
}

fn empty_p(st: &mut ParseState)
    requires
        old(st).para_counter < usize::MAX,
    ensures
        final(st)@ == empty_p_v(old(st)@),
        final(st).para_depth == old(st).para_depth,
        final(st).cell_depth == old(st).cell_depth,
        final(st).para_counter <= old(st).para_counter + 1,
{
    reveal(empty_p_v);
    let id = para_id(st);
    if st.style.is_some() || st.is_tbl {
        let text = if st.is_tbl { marker_text(&st.stable_id, "__tbl_pos_", "<__tbl_pos_", "") } else { String::new() };
        proof {
            reveal_strlit("");
        }
        assert(text@ == (if st.is_tbl {
            marker_text_v(st.stable_id.deep_view(), "__tbl_pos_"@, "<__tbl_pos_"@, Seq::empty())
        } else {
            Seq::<char>::empty()
        }));
        let p = WordParagraph {
            id,
            text,
            style: None,
            runs: None,
            numbering: None,
            alignment: None,
            text_direction: None,
            page_break: None,
        };
        let ghost m0 = st.paragraphs.deep_view();
        st.paragraphs.push(p);
        assert(st.paragraphs.deep_view() =~= m0.push(p@));
    }
}


/// The text of an event that is character data.
pub open spec fn text_of_v(e: Option<XmlEventV>) -> Option<Seq<char>> {
    match e {
        Some(XmlEventV::Text { text }) => Some(text),
        _ => None,
    }
}

/// The state at a start tag, and whether the following event was taken
/// as the element's text (`<w:t>`, `<w:pStyle>`, `<w:instrText>` inside a field).
#[verifier::opaque]
pub open spec fn start_v(s: ParseStateV, name: Seq<char>, attrs: Seq<XmlAttrV>, next: Option<XmlEventV>) -> (ParseStateV, bool) {
    if name == "tc"@ {
        (ParseStateV { cell_depth: (s.cell_depth + 1) as usize, ..s }, false)
    } else if name == "body"@ {
        (ParseStateV { in_body: true, ..s }, false)
    } else if name == "p"@ {
        (reset_para_v(s), false)
    } else if name == "r"@ && s.cell_depth == 0 {
        (ParseStateV { in_run: true, in_props: false, run_text: Seq::empty(), fmt: plain_format_v(), ..s }, false)
    } else if name == "rPr"@ && s.in_run {
        (ParseStateV { in_props: true, fmt: apply_attrs_from_event_v(s.fmt, name, attrs), ..s }, false)
    } else if s.in_props {
        (props_v(s, name, attrs), false)
    } else if name == "t"@ && s.in_run {
        (
            match text_of_v(next) {
                Some(t) => ParseStateV { run_text: s.run_text + t, ..s },
                None => s,
            },
            true,
        )
    } else if name == "pStyle"@ {
        let s1 = match nonempty_attr_v(attrs, "val"@) {
            Some(v) => ParseStateV { style: Some(v), ..s },
            None => s,
        };
        (
            match text_of_v(next) {
                Some(t) => if t.len() > 0 { ParseStateV { style: Some(t), ..s1 } } else { s1 },
                None => s1,
            },
            true,
        )
    } else if name == "numPr"@ {
        (ParseStateV { in_numpr: true, num_id: None, ilvl: None, ..s }, false)
    } else if s.in_numpr && name == "numId"@ {
        (
            match num_attr_v(attrs, "val"@) {
                Some(n) => ParseStateV { num_id: Some(n), ..s },
                None => s,
            },
            false,
        )
    } else if s.in_numpr && name == "ilvl"@ {
        (
            match num_attr_v(attrs, "val"@) {
                Some(n) => ParseStateV { ilvl: Some(n), ..s },
                None => s,
            },
            false,
        )
    } else if name == "id"@ && s.para_depth > 0 && s.cell_depth == 0 {
        (id_v(s, attrs, false), false)
    } else if name == "pPr"@ {
        (ParseStateV { in_ppr: true, pending_sect: None, ..s }, false)
    } else if s.in_ppr && name == "jc"@ {
        (
            match nonempty_attr_v(attrs, "val"@) {
                Some(v) => ParseStateV { alignment: Some(v), ..s },
                None => s,
            },
            false,
        )
    } else if s.in_ppr && name == "textDirection"@ {
        (
            match nonempty_attr_v(attrs, "val"@) {
                Some(v) => ParseStateV { text_direction: Some(normalise_text_direction_v(v)), ..s },
                None => s,
            },
            false,
        )
    } else if (s.in_ppr || s.in_body) && name == "sectPr"@ {
        (sectpr_start_v(s), false)
    } else if s.in_sectpr && is_sect_child_v(name) {
        (sect_child_v(s, name, attrs), false)
    } else if s.in_sectpr && name == "headerReference"@ {
        (ref_v(s, true, attrs), false)
    } else if s.in_sectpr && name == "footerReference"@ {
        (ref_v(s, false, attrs), false)
    } else if s.in_run && name == "fldChar"@ {
        (fld_v(s, attrs), false)
    } else if s.in_run && name == "instrText"@ && s.fld_state == 1 {
        (
            match text_of_v(next) {
                Some(t) => ParseStateV { fld_instr: s.fld_instr + t, ..s },
                None => s,
            },
            true,
        )
    } else {
        (s, false)
    }
}

/// The state after a self-closing tag.
#[verifier::opaque]
pub open spec fn empty_v(s: ParseStateV, name: Seq<char>, attrs: Seq<XmlAttrV>) -> ParseStateV {
    if s.in_sectpr && name == "headerReference"@ {
        ref_v(s, true, attrs)
    } else if s.in_sectpr && name == "footerReference"@ {
        ref_v(s, false, attrs)
    } else if s.in_sectpr && is_sect_child_v(name) {
        sect_child_v(s, name, attrs)
    } else if name == "p"@ {
        empty_p_v(s)
    } else if name == "r"@ && s.cell_depth == 0 && s.para_depth > 0 {
        ParseStateV { saw_run: true, ..s }
    } else if name == "pStyle"@ {
        match nonempty_attr_v(attrs, "val"@) {
            Some(v) => ParseStateV { style: Some(v), ..s },
            None => s,
        }
    } else if s.in_props {
        props_v(s, name, attrs)
    } else if s.in_numpr && name == "numId"@ {
        match num_attr_v(attrs, "val"@) {
            Some(n) => ParseStateV { num_id: Some(n), ..s },
            None => s,
        }
    } else if s.in_numpr && name == "ilvl"@ {
        match num_attr_v(attrs, "val"@) {
            Some(n) => ParseStateV { ilvl: Some(n), ..s },
            None => s,
        }
    } else if name == "id"@ && s.cell_depth == 0 {
        id_v(s, attrs, true)
    } else if name == "numPr"@ {
        ParseStateV { in_numpr: false, ..s }
    } else {
        s
    }
}

/// The state after an end tag.
#[verifier::opaque]
pub open spec fn end_v(s: ParseStateV, name: Seq<char>) -> ParseStateV {
    if name == "tc"@ {
        ParseStateV { cell_depth: if s.cell_depth > 0 { (s.cell_depth - 1) as usize } else { 0usize }, ..s }
    } else if name == "body"@ {
        ParseStateV { in_body: false, ..s }
    } else if name == "rPr"@ {
        ParseStateV { in_props: false, ..s }
    } else if name == "numPr"@ {
        ParseStateV {
            numbering: match s.num_id {
                Some(n) => Some(NumberingRefV { num_id: n, level: match s.ilvl { Some(l) => l, None => 0 } }),
                None => s.numbering,
            },
            in_numpr: false,
            ..s
        }
    } else if name == "pPr"@ {
        ParseStateV { in_ppr: false, ..commit_sect_v(s) }
    } else if name == "sectPr"@ {
        ParseStateV { in_sectpr: false, ..commit_sect_v(s) }
    } else if name == "r"@ {
        run_end_v(s)
    } else if name == "p"@ {
        para_end_v(s)
    } else {
        s
    }
}


fn next_text(next: Option<&XmlEvent>) -> (r: Option<&String>)
    ensures
        match text_of_v(match next { Some(e) => Some(e.deep_view()), None => None }) {
            Some(t) => r matches Some(x) && x@ == t,
            None => r is None,
        },
{
    match next {
        Some(XmlEvent::Text { text }) => Some(text),
        _ => None,
    }
}

/// The model of an optional borrowed event.
pub open spec fn opt_event_v(next: Option<&XmlEvent>) -> Option<XmlEventV> {
    match next {
        Some(e) => Some(e.deep_view()),
        None => None,
    }
}

#[verifier::rlimit(60)]
fn start_event(st: &mut ParseState, name: &str, attrs: &Vec<XmlAttr>, next: Option<&XmlEvent>) -> (consumed: bool)
    requires
        old(st).para_depth < usize::MAX,
        old(st).cell_depth < usize::MAX,
    ensures
        (final(st)@, consumed) == start_v(old(st)@, name@, attrs.deep_view(), opt_event_v(next)),
        final(st).para_depth <= old(st).para_depth + 1,
        final(st).cell_depth <= old(st).cell_depth + 1,
        final(st).para_counter == old(st).para_counter,
{
    reveal(start_v);
    if str_eq(name, "tc") {
        st.cell_depth = st.cell_depth + 1;
        false
    } else if str_eq(name, "body") {
        st.in_body = true;
        false
    } else if str_eq(name, "p") {
        reset_para(st);
        false
    } else if str_eq(name, "r") && st.cell_depth == 0 {
        st.in_run = true;
        st.in_props = false;
        st.run_text = String::new();
        st.fmt = RunFormat::default();
        assert(st.run_text@ =~= Seq::<char>::empty());
        false
    } else if str_eq(name, "rPr") && st.in_run {
        st.in_props = true;
        apply_run_attrs_from_event(&mut st.fmt, name, attrs);
        false
    } else if st.in_props {
        props(st, name, attrs);
        false
    } else if str_eq(name, "t") && st.in_run {
        if let Some(t) = next_text(next) {
            st.run_text.append(t.as_str());
        }
        true
    } else if str_eq(name, "pStyle") {
        if let Some(v) = nonempty_attr(attrs, "val") {
            st.style = Some(v);
        }
        if let Some(t) = next_text(next) {
            if chars_of(t.as_str()).len() > 0 {
                st.style = Some(t.clone());
            }
        }
        true
    } else if str_eq(name, "numPr") {
        st.in_numpr = true;
        st.num_id = None;
        st.ilvl = None;
        false
    } else if st.in_numpr && str_eq(name, "numId") {
        if let Some(n) = num_attr(attrs, "val") {
            st.num_id = Some(n);
        }
        false
    } else if st.in_numpr && str_eq(name, "ilvl") {
        if let Some(n) = num_attr(attrs, "val") {
            st.ilvl = Some(n);
        }
        false
    } else if str_eq(name, "id") && st.para_depth > 0 && st.cell_depth == 0 {
        id_elem(st, attrs, false);
        false
    } else if str_eq(name, "pPr") {
        st.in_ppr = true;
        st.pending_sect = None;
        false
    } else if st.in_ppr && str_eq(name, "jc") {
        if let Some(v) = nonempty_attr(attrs, "val") {
            st.alignment = Some(v);
        }
        false
    } else if st.in_ppr && str_eq(name, "textDirection") {
        if let Some(v) = nonempty_attr(attrs, "val") {
            st.text_direction = Some(normalise_text_direction(v.as_str()));
        }
        false
    } else if (st.in_ppr || st.in_body) && str_eq(name, "sectPr") {
        sectpr_start(st);
        false
    } else if st.in_sectpr && (str_eq(name, "pgSz") || str_eq(name, "pgMar") || str_eq(name, "textDirection") || str_eq(
        name,
        "titlePg",
    ) || str_eq(name, "cols") || str_eq(name, "pgNumType") || str_eq(name, "type")) {
        sect_child(st, name, attrs);
        false
    } else if st.in_sectpr && str_eq(name, "headerReference") {
        push_ref(st, true, attrs);
        false
    } else if st.in_sectpr && str_eq(name, "footerReference") {
        push_ref(st, false, attrs);
        false
    } else if st.in_run && str_eq(name, "fldChar") {
        fld(st, attrs);
        false
    } else if st.in_run && str_eq(name, "instrText") && st.fld_state == 1 {
        if let Some(t) = next_text(next) {
            st.fld_instr.append(t.as_str());
        }
        true
    } else {
        false
    }
}

#[verifier::rlimit(60)]
fn empty_event(st: &mut ParseState, name: &str, attrs: &Vec<XmlAttr>)
    requires
        old(st).para_counter < usize::MAX,
    ensures
        final(st)@ == empty_v(old(st)@, name@, attrs.deep_view()),
        final(st).para_depth == old(st).para_depth,
        final(st).cell_depth == old(st).cell_depth,
        final(st).para_counter <= old(st).para_counter + 1,
{
    reveal(empty_v);
    if st.in_sectpr && str_eq(name, "headerReference") {
        push_ref(st, true, attrs);
    } else if st.in_sectpr && str_eq(name, "footerReference") {
        push_ref(st, false, attrs);
    } else if st.in_sectpr && (str_eq(name, "pgSz") || str_eq(name, "pgMar") || str_eq(name, "textDirection") || str_eq(
        name,
        "titlePg",
    ) || str_eq(name, "cols") || str_eq(name, "pgNumType") || str_eq(name, "type")) {
        sect_child(st, name, attrs);
    } else if str_eq(name, "p") {
        empty_p(st);
    } else if str_eq(name, "r") && st.cell_depth == 0 && st.para_depth > 0 {
        st.saw_run = true;
    } else if str_eq(name, "pStyle") {
        if let Some(v) = nonempty_attr(attrs, "val") {
            st.style = Some(v);
        }
    } else if st.in_props {
        props(st, name, attrs);
    } else if st.in_numpr && str_eq(name, "numId") {
        if let Some(n) = num_attr(attrs, "val") {
            st.num_id = Some(n);
        }
    } else if st.in_numpr && str_eq(name, "ilvl") {
        if let Some(n) = num_attr(attrs, "val") {
            st.ilvl = Some(n);
        }
    } else if str_eq(name, "id") && st.cell_depth == 0 {
        id_elem(st, attrs, true);
    } else if str_eq(name, "numPr") {
        st.in_numpr = false;
    }
}

#[verifier::rlimit(60)]
fn end_event(st: &mut ParseState, name: &str)
    requires
        old(st).para_counter < usize::MAX,
    ensures
        final(st)@ == end_v(old(st)@, name@),
        final(st).para_depth <= old(st).para_depth,
        final(st).cell_depth <= old(st).cell_depth,
        final(st).para_counter <= old(st).para_counter + 1,
{
    reveal(end_v);
    if str_eq(name, "tc") {
        st.cell_depth = if st.cell_depth > 0 { st.cell_depth - 1 } else { 0 };
    } else if str_eq(name, "body") {
        st.in_body = false;
    } else if str_eq(name, "rPr") {
        st.in_props = false;
    } else if str_eq(name, "numPr") {
        if let Some(n) = st.num_id {
            st.numbering = Some(NumberingRef { num_id: n, level: match st.ilvl { Some(l) => l, None => 0 } });
        }
        st.in_numpr = false;
    } else if str_eq(name, "pPr") {
        commit_sect(st);
        st.in_ppr = false;
    } else if str_eq(name, "sectPr") {
        commit_sect(st);
        st.in_sectpr = false;
    } else if str_eq(name, "r") {
        run_end(st);
    } else if str_eq(name, "p") {
        para_end(st);
    }
}

/// The event after the one at `i`, if any.
pub open spec fn next_of_v(evs: Seq<XmlEventV>, i: int) -> Option<XmlEventV> {
    if 0 <= i + 1 < evs.len() {
        Some(evs[i + 1])
    } else {
        None
    }
}

/// The reader's state after the events from `i` on, starting in `s`, or the
/// message of the first syntax error met. An event that a start tag takes as
/// its text is skipped.
pub open spec fn parse_from_v(evs: Seq<XmlEventV>, i: int, s: ParseStateV) -> Result<ParseStateV, Seq<char>>
    decreases evs.len() - i,
{
    if i < 0 || i >= evs.len() {
        Ok(s)
    } else {
        match evs[i] {
            XmlEventV::Error { msg } => Err(msg),
            XmlEventV::Start { name, attrs } => {
                let r = start_v(s, name, attrs, next_of_v(evs, i));
                parse_from_v(evs, if r.1 && i + 1 < evs.len() { i + 2 } else { i + 1 }, r.0)
            },
            XmlEventV::Empty { name, attrs } => parse_from_v(evs, i + 1, empty_v(s, name, attrs)),
            XmlEventV::End { name } => parse_from_v(evs, i + 1, end_v(s, name)),
            _ => parse_from_v(evs, i + 1, s),
        }
    }
}

/// What `word/document.xml` reads as: its body paragraphs, its picture
/// marker paragraphs and its sections, or the syntax error that stops it.
pub open spec fn document_parse_v(content: Seq<char>) -> Result<
    (Seq<WordParagraphV>, Seq<WordParagraphV>, Seq<WordSectionV>),
    Seq<char>,
> {
    document_events_v(xml_events_v(content))
}

/// What a stream of XML events of `word/document.xml` reads as: its body
/// paragraphs, its picture marker paragraphs and its sections, or the syntax
/// error that stops it.
pub open spec fn document_events_v(evs: Seq<XmlEventV>) -> Result<
    (Seq<WordParagraphV>, Seq<WordParagraphV>, Seq<WordSectionV>),
    Seq<char>,
> {
    match parse_from_v(evs, 0, initial_state_v()) {
        Ok(s) => Ok((s.paragraphs, s.image_markers, s.sections)),
        Err(m) => Err("XML parse error: "@ + m),
    }
}

/// Reads `word/document.xml`: the body paragraphs, the picture marker
/// paragraphs (kept apart) and the sections in document order.
pub fn parse_document_xml(content: &str) -> (r: Result<(Vec<WordParagraph>, Vec<WordParagraph>, Vec<WordSection>), OfficeError>)
    ensures
        match document_parse_v(content@) {
            Ok(v) => r matches Ok(x) && x.0.deep_view() == v.0 && x.1.deep_view() == v.1 && x.2.deep_view() == v.2,
            Err(m) => r matches Err(e) && e.deep_view() == OfficeErrorV::Xml(m),
        },
{
    let evs = xml_events(content);
    parse_document_events(&evs)
}

/// Reads the XML events of `word/document.xml`: the body paragraphs, the
/// picture marker paragraphs (kept apart) and the sections in document order.
pub fn parse_document_events(evs: &Vec<XmlEvent>) -> (r: Result<(Vec<WordParagraph>, Vec<WordParagraph>, Vec<WordSection>), OfficeError>)
    ensures
        match document_events_v(evs.deep_view()) {
            Ok(v) => r matches Ok(x) && x.0.deep_view() == v.0 && x.1.deep_view() == v.1 && x.2.deep_view() == v.2,
            Err(m) => r matches Err(e) && e.deep_view() == OfficeErrorV::Xml(m),
        },
{
    let ghost ev = evs.deep_view();
    let mut st = initial_state();
    let mut i: usize = 0;
    while i < evs.len()
        invariant
            ev == evs.deep_view(),
            i <= ev.len(),
            st.para_depth <= i,
            st.cell_depth <= i,
            st.para_counter <= i,
            parse_from_v(ev, i as int, st@) == parse_from_v(ev, 0, initial_state_v()),
        decreases ev.len() - i,
    {
        assert(ev[i as int] == evs@[i as int].deep_view());
        match &evs[i] {
            XmlEvent::Error { msg } => {
                let mut m = owned("XML parse error: ");
                m.append(msg.as_str());
                return Err(OfficeError::Xml(m));
            },
            XmlEvent::Start { name, attrs } => {
                let next = if i + 1 < evs.len() {
                    assert(ev[i + 1] == evs@[i + 1].deep_view());
                    Some(&evs[i + 1])
                } else {
                    None
                };
                assert(opt_event_v(next) == next_of_v(ev, i as int));
                let consumed = start_event(&mut st, name.as_str(), attrs, next);
                if consumed && i + 1 < evs.len() {
                    i = i + 2;
                } else {
                    i = i + 1;
                }
            },
            XmlEvent::Empty { name, attrs } => {
                empty_event(&mut st, name.as_str(), attrs);
                i = i + 1;
            },
            XmlEvent::End { name } => {
                end_event(&mut st, name.as_str());
                i = i + 1;
            },
            _ => {
                i = i + 1;
            },
        }
    }
    Ok((st.paragraphs, st.image_markers, st.sections))
}

} // verus!
