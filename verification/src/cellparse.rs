//! Paragraphs inside the single cell of container tables (callouts and code
//! blocks): a second reading of `word/document.xml` that keeps, for each
//! top-level table, the cell paragraphs of the 1×1 ones.

use vstd::prelude::*;
use crate::docparse::{has_format_v, parse_u32, parse_u32_v, runs_have_format, runs_have_format_v};
use crate::model::{FontRun, FontRunV, NumberingRef, NumberingRefV, WordParagraph, WordParagraphV};
use crate::runfmt::{plain_format_v, RunFormat, RunFormatV};
use crate::text::{chars_of, dec, dec_string, owned, str_eq};
use crate::xml::{local_name, local_v, xml_events, xml_events_v, XmlAttr, XmlAttrV, XmlEvent, XmlEventV};

verus! {

/// The value of the last attribute whose local name is `name`.
pub open spec fn last_attr_v(attrs: Seq<XmlAttrV>, name: Seq<char>) -> Option<Seq<char>>
    decreases attrs.len(),
{
    if attrs.len() == 0 {
        None
    } else if local_v(attrs.last().key) == name {
        Some(attrs.last().value)
    } else {
        last_attr_v(attrs.drop_last(), name)
    }
}

/// The value of the last attribute whose local name is `name`.
pub fn last_attr(attrs: &Vec<XmlAttr>, name: &str) -> (r: Option<String>)
    ensures
        r.deep_view() == last_attr_v(attrs.deep_view(), name@),
{
    let ghost av = attrs.deep_view();
    let mut i: usize = attrs.len();
    assert(av.take(i as int) =~= av);
    while i > 0
        invariant
            i <= av.len(),
            av == attrs.deep_view(),
            last_attr_v(av, name@) == last_attr_v(av.take(i as int), name@),
        decreases i,
    {
        let a = &attrs[i - 1];
        assert(av.take(i as int).last() == a.deep_view());
        let l = local_name(a.key.as_str());
        if str_eq(l.as_str(), name) {
            return Some(a.value.clone());
        }
        assert(av.take(i as int).drop_last() =~= av.take(i - 1));
        i = i - 1;
    }
    None
}

/// `Some(v)` replaces `cur`; `None` keeps it.
pub open spec fn set_or_keep_v<T>(v: Option<T>, cur: Option<T>) -> Option<T> {
    match v {
        Some(x) => Some(x),
        None => cur,
    }
}

/// The `u32` read from the last `val` attribute, replacing `cur` (with
/// `None` when it is no number); `cur` when there is none.
pub open spec fn num_val_v(attrs: Seq<XmlAttrV>, cur: Option<u32>) -> Option<u32> {
    match last_attr_v(attrs, "val"@) {
        Some(v) => parse_u32_v(v),
        None => cur,
    }
}

fn num_val(attrs: &Vec<XmlAttr>, cur: Option<u32>) -> (r: Option<u32>)
    ensures
        r == num_val_v(attrs.deep_view(), cur),
{
    match last_attr(attrs, "val") {
        Some(v) => parse_u32(v.as_str()),
        None => cur,
    }
}

fn str_val(attrs: &Vec<XmlAttr>, key: &str, cur: &mut Option<String>)
    ensures
        final(cur).deep_view() == set_or_keep_v(last_attr_v(attrs.deep_view(), key@), old(cur).deep_view()),
{
    if let Some(v) = last_attr(attrs, key) {
        *cur = Some(v);
    }
}

/// Which top-level tables are 1×1 containers, as the tables are met.
pub struct ContainerScanV {
    pub tbl_depth: usize,
    pub tr_count: usize,
    pub tc_count: usize,
    pub out: Seq<bool>,
}

/// The scan from event `i` on: a top-level `<w:tbl>` opens a table, its
/// `<w:tr>`s are counted and the `<w:tc>`s of its first row; its end
/// records whether it had one row of one cell. A syntax error ends the scan.
pub open spec fn scan_from_v(evs: Seq<XmlEventV>, i: int, s: ContainerScanV) -> Seq<bool>
    decreases evs.len() - i,
{
    if i < 0 || i >= evs.len() {
        s.out
    } else {
        match evs[i] {
            XmlEventV::Error { .. } => s.out,
            XmlEventV::Start { name, .. } => scan_from_v(
                evs,
                i + 1,
                if name == "tbl"@ && s.tbl_depth == 0 {
                    ContainerScanV { tbl_depth: 1, tr_count: 0, tc_count: 0, ..s }
                } else if name == "tr"@ && s.tbl_depth == 1 {
                    ContainerScanV { tr_count: (s.tr_count + 1) as usize, tc_count: 0, ..s }
                } else if name == "tc"@ && s.tbl_depth == 1 && s.tr_count == 1 {
                    ContainerScanV { tc_count: (s.tc_count + 1) as usize, ..s }
                } else {
                    s
                },
            ),
            XmlEventV::End { name } => scan_from_v(
                evs,
                i + 1,
                if name == "tbl"@ && s.tbl_depth == 1 {
                    ContainerScanV { out: s.out.push(s.tr_count == 1 && s.tc_count == 1), tbl_depth: 0, ..s }
                } else {
                    s
                },
            ),
            _ => scan_from_v(evs, i + 1, s),
        }
    }
}

/// The container flags of a part's events.
pub open spec fn container_tables_v(evs: Seq<XmlEventV>) -> Seq<bool> {
    scan_from_v(evs, 0, ContainerScanV { tbl_depth: 0, tr_count: 0, tc_count: 0, out: Seq::empty() })
}

/// For each top-level table in document order, whether it is a 1×1
/// container (exactly one row, whose single cell is its first).
pub fn find_container_tables(evs: &Vec<XmlEvent>) -> (r: Vec<bool>)
    ensures
        r@ == container_tables_v(evs.deep_view()),
{
    let ghost ev = evs.deep_view();
    let mut out: Vec<bool> = Vec::new();
    let mut tbl_depth: usize = 0;
    let mut tr_count: usize = 0;
    let mut tc_count: usize = 0;
    let mut i: usize = 0;
    while i < evs.len()
        invariant
            ev == evs.deep_view(),
            i <= ev.len(),
            tr_count <= i,
            tc_count <= i,
            scan_from_v(ev, i as int, ContainerScanV { tbl_depth, tr_count, tc_count, out: out@ })
                == container_tables_v(ev),
        decreases ev.len() - i,
    {
        assert(ev[i as int] == evs@[i as int].deep_view());
        match &evs[i] {
            XmlEvent::Error { .. } => {
                return out;
            },
            XmlEvent::Start { name, .. } => {
                if str_eq(name.as_str(), "tbl") && tbl_depth == 0 {
                    tbl_depth = 1;
                    tr_count = 0;
                    tc_count = 0;
                } else if str_eq(name.as_str(), "tr") && tbl_depth == 1 {
                    tr_count = tr_count + 1;
                    tc_count = 0;
                } else if str_eq(name.as_str(), "tc") && tbl_depth == 1 && tr_count == 1 {
                    tc_count = tc_count + 1;
                }
            },
            XmlEvent::End { name } => {
                if str_eq(name.as_str(), "tbl") && tbl_depth == 1 {
                    out.push(tr_count == 1 && tc_count == 1);
                    tbl_depth = 0;
                }
            },
            _ => {},
        }
        i = i + 1;
    }
    out
}

/// The state of the cell-paragraph reader between events.
pub struct CellState {
    pub tbl_depth: usize,
    pub tbl_index: usize,
    pub p_depth: usize,
    pub in_target: bool,
    pub text: String,
    pub style: Option<String>,
    pub runs: Vec<FontRun>,
    pub stable_id: Option<String>,
    pub alignment: Option<String>,
    pub text_direction: Option<String>,
    pub numbering: Option<NumberingRef>,
    pub saw_run: bool,
    pub fmt: RunFormat,
    pub vert_align: Option<String>,
    pub fld_state: u8,
    pub in_ppr: bool,
    pub in_numpr: bool,
    pub num_id: Option<u32>,
    pub ilvl: Option<u32>,
    pub in_run: bool,
    pub in_props: bool,
    pub para_counter: usize,
    pub out: Vec<Vec<WordParagraph>>,
}

/// Model of a [`CellState`].
pub struct CellStateV {
    pub tbl_depth: usize,
    pub tbl_index: usize,
    pub p_depth: usize,
    pub in_target: bool,
    pub text: Seq<char>,
    pub style: Option<Seq<char>>,
    pub runs: Seq<FontRunV>,
    pub stable_id: Option<Seq<char>>,
    pub alignment: Option<Seq<char>>,
    pub text_direction: Option<Seq<char>>,
    pub numbering: Option<NumberingRefV>,
    pub saw_run: bool,
    pub fmt: RunFormatV,
    pub vert_align: Option<Seq<char>>,
    pub fld_state: u8,
    pub in_ppr: bool,
    pub in_numpr: bool,
    pub num_id: Option<u32>,
    pub ilvl: Option<u32>,
    pub in_run: bool,
    pub in_props: bool,
    pub para_counter: usize,
    pub out: Seq<Seq<WordParagraphV>>,
}

impl View for CellState {
    type V = CellStateV;

    open spec fn view(&self) -> CellStateV {
        CellStateV {
            tbl_depth: self.tbl_depth,
            tbl_index: self.tbl_index,
            p_depth: self.p_depth,
            in_target: self.in_target,
            text: self.text@,
            style: self.style.deep_view(),
            runs: self.runs.deep_view(),
            stable_id: self.stable_id.deep_view(),
            alignment: self.alignment.deep_view(),
            text_direction: self.text_direction.deep_view(),
            numbering: self.numbering.deep_view(),
            saw_run: self.saw_run,
            fmt: self.fmt.deep_view(),
            vert_align: self.vert_align.deep_view(),
            fld_state: self.fld_state,
            in_ppr: self.in_ppr,
            in_numpr: self.in_numpr,
            num_id: self.num_id,
            ilvl: self.ilvl,
            in_run: self.in_run,
            in_props: self.in_props,
            para_counter: self.para_counter,
            out: self.out.deep_view(),
        }
    }
}

/// The state before the first event: one empty bucket per table flag.
pub open spec fn cell_initial_v(n: nat) -> CellStateV {
    CellStateV {
        tbl_depth: 0,
        tbl_index: 0,
        p_depth: 0,
        in_target: false,
        text: Seq::empty(),
        style: None,
        runs: Seq::empty(),
        stable_id: None,
        alignment: None,
        text_direction: None,
        numbering: None,
        saw_run: false,
        fmt: plain_format_v(),
        vert_align: None,
        fld_state: 0,
        in_ppr: false,
        in_numpr: false,
        num_id: None,
        ilvl: None,
        in_run: false,
        in_props: false,
        para_counter: 0,
        out: Seq::new(n, |_i: int| Seq::<WordParagraphV>::empty()),
    }
}

fn cell_initial(n: usize) -> (r: CellState)
    ensures
        r@ == cell_initial_v(n as nat),
{
    let mut out: Vec<Vec<WordParagraph>> = Vec::new();
    let mut k: usize = 0;
    while k < n
        invariant
            k <= n,
            out.deep_view() == Seq::new(k as nat, |_i: int| Seq::<WordParagraphV>::empty()),
        decreases n - k,
    {
        let ghost o = out.deep_view();
        let b: Vec<WordParagraph> = Vec::new();
        assert(b.deep_view() =~= Seq::<WordParagraphV>::empty());
        out.push(b);
        assert(out.deep_view() =~= o.push(b.deep_view()));
        assert(out.deep_view() =~= Seq::new((k + 1) as nat, |_i: int| Seq::<WordParagraphV>::empty()));
        k = k + 1;
    }
    let r = CellState {
        tbl_depth: 0,
        tbl_index: 0,
        p_depth: 0,
        in_target: false,
        text: String::new(),
        style: None,
        runs: Vec::new(),
        stable_id: None,
        alignment: None,
        text_direction: None,
        numbering: None,
        saw_run: false,
        fmt: RunFormat::default(),
        vert_align: None,
        fld_state: 0,
        in_ppr: false,
        in_numpr: false,
        num_id: None,
        ilvl: None,
        in_run: false,
        in_props: false,
        para_counter: 0,
        out,
    };
    assert(r.text@ =~= Seq::<char>::empty());
    assert(r.runs.deep_view() =~= Seq::<FontRunV>::empty());
    r
}

/// The state at a start tag.
#[verifier::opaque]
pub open spec fn cell_start_v(s: CellStateV, name: Seq<char>, attrs: Seq<XmlAttrV>, containers: Seq<bool>) -> CellStateV {
    if name == "tbl"@ {
        if s.tbl_depth == 0 {
            CellStateV {
                tbl_depth: 1,
                in_target: if s.tbl_index < containers.len() { containers[s.tbl_index as int] } else { false },
                ..s
            }
        } else {
            CellStateV { tbl_depth: (s.tbl_depth + 1) as usize, ..s }
        }
    } else if name == "p"@ && s.tbl_depth == 1 && s.in_target {
        if s.p_depth == 0 {
            CellStateV {
                p_depth: 1,
                text: Seq::empty(),
                style: None,
                runs: Seq::empty(),
                stable_id: None,
                alignment: None,
                text_direction: None,
                numbering: None,
                saw_run: false,
                fld_state: 0,
                ..s
            }
        } else {
            CellStateV { p_depth: (s.p_depth + 1) as usize, ..s }
        }
    } else if name == "p"@ && s.tbl_depth == 0 {
        CellStateV { p_depth: (s.p_depth + 1) as usize, ..s }
    } else if name == "r"@ && s.in_target && s.p_depth > 0 && s.tbl_depth == 1 {
        CellStateV { in_run: true, in_props: false, fmt: plain_format_v(), vert_align: None, saw_run: true, ..s }
    } else if name == "rPr"@ && s.in_run {
        CellStateV { in_props: true, ..s }
    } else if name == "pPr"@ && s.in_target && s.p_depth > 0 && s.tbl_depth == 1 {
        CellStateV { in_ppr: true, ..s }
    } else if name == "numPr"@ && s.in_ppr {
        CellStateV { in_numpr: true, ..s }
    } else if name == "pStyle"@ && s.in_ppr {
        CellStateV { style: set_or_keep_v(last_attr_v(attrs, "val"@), s.style), ..s }
    } else if name == "jc"@ && s.in_ppr {
        CellStateV { alignment: set_or_keep_v(last_attr_v(attrs, "val"@), s.alignment), ..s }
    } else if name == "textDirection"@ && s.in_ppr {
        CellStateV { text_direction: set_or_keep_v(last_attr_v(attrs, "val"@), s.text_direction), ..s }
    } else if name == "id"@ && s.in_ppr {
        CellStateV { stable_id: set_or_keep_v(last_attr_v(attrs, "val"@), s.stable_id), ..s }
    } else if name == "ilvl"@ && s.in_numpr {
        CellStateV { ilvl: num_val_v(attrs, s.ilvl), ..s }
    } else if name == "numId"@ && s.in_numpr {
        CellStateV { num_id: num_val_v(attrs, s.num_id), ..s }
    } else if name == "b"@ && s.in_props {
        CellStateV { fmt: RunFormatV { bold: true, ..s.fmt }, ..s }
    } else if name == "i"@ && s.in_props {
        CellStateV { fmt: RunFormatV { italic: true, ..s.fmt }, ..s }
    } else if name == "u"@ && s.in_props {
        CellStateV { fmt: RunFormatV { underline: true, ..s.fmt }, ..s }
    } else if name == "strike"@ && s.in_props {
        CellStateV { fmt: RunFormatV { strikethrough: true, ..s.fmt }, ..s }
    } else if name == "color"@ && s.in_props {
        CellStateV { fmt: RunFormatV { color: set_or_keep_v(last_attr_v(attrs, "val"@), s.fmt.color), ..s.fmt }, ..s }
    } else if name == "sz"@ && s.in_props {
        CellStateV { fmt: RunFormatV { font_size: num_val_v(attrs, s.fmt.font_size), ..s.fmt }, ..s }
    } else if name == "rFonts"@ && s.in_props {
        CellStateV {
            fmt: RunFormatV { font_name: set_or_keep_v(last_attr_v(attrs, "ascii"@), s.fmt.font_name), ..s.fmt },
            ..s
        }
    } else if name == "highlight"@ && s.in_props {
        CellStateV {
            fmt: RunFormatV { highlight: set_or_keep_v(last_attr_v(attrs, "val"@), s.fmt.highlight), ..s.fmt },
            ..s
        }
    } else if name == "vertAlign"@ && s.in_props {
        CellStateV { vert_align: set_or_keep_v(last_attr_v(attrs, "val"@), s.vert_align), ..s }
    } else if name == "fldChar"@ && s.in_run {
        match last_attr_v(attrs, "fldCharType"@) {
            Some(v) => CellStateV {
                fld_state: if v == "begin"@ { 1u8 } else if v == "separate"@ { 2u8 } else { 0u8 },
                ..s
            },
            None => s,
        }
    } else {
        s
    }
}

/// The state at a self-closing tag: paragraph properties and numbering
/// values are read; run properties are not.
#[verifier::opaque]
pub open spec fn cell_empty_v(s: CellStateV, name: Seq<char>, attrs: Seq<XmlAttrV>) -> CellStateV {
    let s1 = if s.in_ppr {
        if name == "pStyle"@ {
            CellStateV { style: set_or_keep_v(last_attr_v(attrs, "val"@), s.style), ..s }
        } else if name == "jc"@ {
            CellStateV { alignment: set_or_keep_v(last_attr_v(attrs, "val"@), s.alignment), ..s }
        } else if name == "textDirection"@ {
            CellStateV { text_direction: set_or_keep_v(last_attr_v(attrs, "val"@), s.text_direction), ..s }
        } else if name == "id"@ {
            CellStateV { stable_id: set_or_keep_v(last_attr_v(attrs, "val"@), s.stable_id), ..s }
        } else {
            s
        }
    } else {
        s
    };
    if s.in_numpr {
        if name == "ilvl"@ {
            CellStateV { ilvl: num_val_v(attrs, s1.ilvl), ..s1 }
        } else if name == "numId"@ {
            CellStateV { num_id: num_val_v(attrs, s1.num_id), ..s1 }
        } else {
            s1
        }
    } else {
        s1
    }
}

/// The state at character data: inside a container paragraph and outside
/// a field instruction, the text is added to the paragraph's.
pub open spec fn cell_text_v(s: CellStateV, t: Seq<char>) -> CellStateV {
    if s.in_target && s.tbl_depth == 1 && s.p_depth > 0 && s.fld_state != 1 {
        CellStateV { text: s.text + t, ..s }
    } else {
        s
    }
}

/// The run a closed `<w:r>` gives: its formatting, without text.
pub open spec fn cell_run_v(s: CellStateV) -> FontRunV {
    FontRunV {
        text: Seq::empty(),
        bold: s.fmt.bold,
        italic: s.fmt.italic,
        underline: s.fmt.underline,
        strikethrough: s.fmt.strikethrough,
        font_size: s.fmt.font_size,
        color: s.fmt.color,
        font_name: s.fmt.font_name,
        highlight: s.fmt.highlight,
        vert_align: s.vert_align,
        field: None,
        page_break: false,
        column_break: false,
    }
}

/// Whether a closed container paragraph is kept.
pub open spec fn cell_keep_v(s: CellStateV) -> bool {
    s.text.len() > 0 || s.style is Some || s.numbering is Some || runs_have_format_v(s.runs) || s.saw_run
}

/// The paragraph's numbering once its properties close (or at its end):
/// both pending values when both are set.
pub open spec fn cell_numbering_v(s: CellStateV) -> Option<NumberingRefV> {
    match (s.num_id, s.ilvl) {
        (Some(n), Some(l)) => Some(NumberingRefV { num_id: n, level: l }),
        _ => s.numbering,
    }
}

/// The id of a kept paragraph and the next counter value.
pub open spec fn cell_id_v(s: CellStateV) -> (Seq<char>, usize) {
    match s.stable_id {
        Some(x) => (x, s.para_counter),
        None => ("p"@ + dec(s.para_counter as nat), (s.para_counter + 1) as usize),
    }
}

/// The paragraph recorded for a kept container paragraph.
pub open spec fn cell_para_v(s: CellStateV) -> WordParagraphV {
    WordParagraphV {
        id: cell_id_v(s).0,
        text: s.text,
        style: s.style,
        runs: if s.runs.len() == 0 { None } else { Some(s.runs) },
        numbering: cell_numbering_v(s),
        alignment: s.alignment,
        text_direction: s.text_direction,
        page_break: None,
    }
}

/// The state at the end of a container paragraph: a kept paragraph goes
/// to the bucket of the current table.
#[verifier::opaque]
pub open spec fn cell_para_end_v(s: CellStateV) -> CellStateV {
    if cell_keep_v(s) {
        CellStateV {
            para_counter: cell_id_v(s).1,
            numbering: cell_numbering_v(s),
            out: if s.tbl_index < s.out.len() {
                s.out.update(s.tbl_index as int, s.out[s.tbl_index as int].push(cell_para_v(s)))
            } else {
                s.out
            },
            ..s
        }
    } else {
        s
    }
}

/// The state at an end tag.
#[verifier::opaque]
pub open spec fn cell_end_v(s: CellStateV, name: Seq<char>) -> CellStateV {
    if name == "tbl"@ {
        let s1 = if s.tbl_depth == 1 {
            CellStateV { tbl_index: (s.tbl_index + 1) as usize, in_target: false, ..s }
        } else {
            s
        };
        CellStateV { tbl_depth: if s.tbl_depth > 0 { (s.tbl_depth - 1) as usize } else { 0 }, ..s1 }
    } else if name == "p"@ {
        let s1 = if s.p_depth > 0 && s.in_target && s.tbl_depth == 1 { cell_para_end_v(s) } else { s };
        CellStateV { p_depth: if s.p_depth > 0 { (s.p_depth - 1) as usize } else { 0 }, ..s1 }
    } else if name == "r"@ {
        if s.in_run { cell_run_end_v(s) } else { s }
    } else if name == "rPr"@ {
        CellStateV { in_props: false, ..s }
    } else if name == "pPr"@ {
        CellStateV { in_ppr: false, in_numpr: false, num_id: None, ilvl: None, numbering: cell_numbering_v(s), ..s }
    } else if name == "numPr"@ {
        CellStateV { in_numpr: false, ..s }
    } else {
        s
    }
}

#[verifier::rlimit(60)]
fn cell_start(st: &mut CellState, name: &str, attrs: &Vec<XmlAttr>, containers: &Vec<bool>)
    requires
        old(st).tbl_depth < usize::MAX,
        old(st).p_depth < usize::MAX,
    ensures
        final(st)@ == cell_start_v(old(st)@, name@, attrs.deep_view(), containers@),
        final(st).tbl_depth <= old(st).tbl_depth + 1,
        final(st).p_depth <= old(st).p_depth + 1,
        final(st).tbl_index == old(st).tbl_index,
        final(st).para_counter == old(st).para_counter,
{
    reveal(cell_start_v);
    if str_eq(name, "tbl") {
        if st.tbl_depth == 0 {
            st.tbl_depth = 1;
            st.in_target = if st.tbl_index < containers.len() { containers[st.tbl_index] } else { false };
        } else {
            st.tbl_depth = st.tbl_depth + 1;
        }
    } else if str_eq(name, "p") && st.tbl_depth == 1 && st.in_target {
        if st.p_depth == 0 {
            st.p_depth = 1;
            st.text = String::new();
            st.style = None;
            st.runs = Vec::new();
            st.stable_id = None;
            st.alignment = None;
            st.text_direction = None;
            st.numbering = None;
            st.saw_run = false;
            st.fld_state = 0;
            assert(st.text@ =~= Seq::<char>::empty());
            assert(st.runs.deep_view() =~= Seq::<FontRunV>::empty());
        } else {
            st.p_depth = st.p_depth + 1;
        }
    } else if str_eq(name, "p") && st.tbl_depth == 0 {
        st.p_depth = st.p_depth + 1;
    } else if str_eq(name, "r") && st.in_target && st.p_depth > 0 && st.tbl_depth == 1 {
        st.in_run = true;
        st.in_props = false;
        st.fmt = RunFormat::default();
        st.vert_align = None;
        st.saw_run = true;
    } else if str_eq(name, "rPr") && st.in_run {
        st.in_props = true;
    } else if str_eq(name, "pPr") && st.in_target && st.p_depth > 0 && st.tbl_depth == 1 {
        st.in_ppr = true;
    } else if str_eq(name, "numPr") && st.in_ppr {
        st.in_numpr = true;
    } else if str_eq(name, "pStyle") && st.in_ppr {
        str_val(attrs, "val", &mut st.style);
    } else if str_eq(name, "jc") && st.in_ppr {
        str_val(attrs, "val", &mut st.alignment);
    } else if str_eq(name, "textDirection") && st.in_ppr {
        str_val(attrs, "val", &mut st.text_direction);
    } else if str_eq(name, "id") && st.in_ppr {
        str_val(attrs, "val", &mut st.stable_id);
    } else if str_eq(name, "ilvl") && st.in_numpr {
        st.ilvl = num_val(attrs, st.ilvl);
    } else if str_eq(name, "numId") && st.in_numpr {
        st.num_id = num_val(attrs, st.num_id);
    } else if str_eq(name, "b") && st.in_props {
        st.fmt.bold = true;
    } else if str_eq(name, "i") && st.in_props {
        st.fmt.italic = true;
    } else if str_eq(name, "u") && st.in_props {
        st.fmt.underline = true;
    } else if str_eq(name, "strike") && st.in_props {
        st.fmt.strikethrough = true;
    } else if str_eq(name, "color") && st.in_props {
        str_val(attrs, "val", &mut st.fmt.color);
    } else if str_eq(name, "sz") && st.in_props {
        st.fmt.font_size = num_val(attrs, st.fmt.font_size);
    } else if str_eq(name, "rFonts") && st.in_props {
        str_val(attrs, "ascii", &mut st.fmt.font_name);
    } else if str_eq(name, "highlight") && st.in_props {
        str_val(attrs, "val", &mut st.fmt.highlight);
    } else if str_eq(name, "vertAlign") && st.in_props {
        str_val(attrs, "val", &mut st.vert_align);
    } else if str_eq(name, "fldChar") && st.in_run {
        if let Some(v) = last_attr(attrs, "fldCharType") {
            st.fld_state = if str_eq(v.as_str(), "begin") {
                1
            } else if str_eq(v.as_str(), "separate") {
                2
            } else {
                0
            };
        }
    }
}

fn cell_empty(st: &mut CellState, name: &str, attrs: &Vec<XmlAttr>)
    ensures
        final(st)@ == cell_empty_v(old(st)@, name@, attrs.deep_view()),
        final(st).tbl_depth == old(st).tbl_depth,
        final(st).p_depth == old(st).p_depth,
        final(st).tbl_index == old(st).tbl_index,
        final(st).para_counter == old(st).para_counter,
{
    reveal(cell_empty_v);
    if st.in_ppr {
        if str_eq(name, "pStyle") {
            str_val(attrs, "val", &mut st.style);
        } else if str_eq(name, "jc") {
            str_val(attrs, "val", &mut st.alignment);
        } else if str_eq(name, "textDirection") {
            str_val(attrs, "val", &mut st.text_direction);
        } else if str_eq(name, "id") {
            str_val(attrs, "val", &mut st.stable_id);
        }
    }
    if st.in_numpr {
        if str_eq(name, "ilvl") {
            st.ilvl = num_val(attrs, st.ilvl);
        } else if str_eq(name, "numId") {
            st.num_id = num_val(attrs, st.num_id);
        }
    }
}

fn cell_para_end(st: &mut CellState)
    requires
        old(st).para_counter < usize::MAX,
    ensures
        final(st)@ == cell_para_end_v(old(st)@),
        final(st).tbl_depth == old(st).tbl_depth,
        final(st).p_depth == old(st).p_depth,
        final(st).tbl_index == old(st).tbl_index,
        final(st).para_counter <= old(st).para_counter + 1,
{
    reveal(cell_para_end_v);
    let ghost s0 = st@;
    let keep = chars_of(st.text.as_str()).len() > 0 || st.style.is_some() || st.numbering.is_some()
        || runs_have_format(&st.runs) || st.saw_run;
    if keep {
        let id = match &st.stable_id {
            Some(x) => x.clone(),
            None => {
                let mut id = owned("p");
                let n = dec_string(st.para_counter as u64);
                id.append(n.as_str());
                st.para_counter = st.para_counter + 1;
                id
            },
        };
        let runs = if st.runs.len() == 0 {
            None
        } else {
            let c = st.runs.clone();
            assert(c.deep_view() =~= st.runs.deep_view());
            Some(c)
        };
        if let (Some(nid), Some(l)) = (st.num_id, st.ilvl) {
            st.numbering = Some(NumberingRef { num_id: nid, level: l });
        }
        let p = WordParagraph {
            id,
            text: st.text.clone(),
            style: st.style.clone(),
            runs,
            numbering: st.numbering.clone(),
            alignment: st.alignment.clone(),
            text_direction: st.text_direction.clone(),
            page_break: None,
        };
        assert(p@ == cell_para_v(s0));
        if st.tbl_index < st.out.len() {
            let ghost o = st.out.deep_view();
            let mut bucket: Vec<WordParagraph> = Vec::new();
            std::mem::swap(&mut bucket, &mut st.out[st.tbl_index]);
            let ghost b0 = bucket.deep_view();
            assert(b0 == o[st.tbl_index as int]);
            bucket.push(p);
            assert(bucket.deep_view() =~= b0.push(p@));
            st.out.set(st.tbl_index, bucket);
            assert(st.out.deep_view() =~= o.update(st.tbl_index as int, b0.push(p@)));
        }
    }
}

/// The state at `</w:r>` inside a run.
pub open spec fn cell_run_end_v(s: CellStateV) -> CellStateV {
    if has_format_v(s.fmt) {
        CellStateV { in_run: false, in_props: false, runs: s.runs.push(cell_run_v(s)), vert_align: None, ..s }
    } else {
        CellStateV { in_run: false, in_props: false, vert_align: None, ..s }
    }
}

fn cell_run_end(st: &mut CellState)
    ensures
        final(st)@ == cell_run_end_v(old(st)@),
        final(st).tbl_depth == old(st).tbl_depth,
        final(st).p_depth == old(st).p_depth,
        final(st).tbl_index == old(st).tbl_index,
        final(st).para_counter == old(st).para_counter,
{
    st.in_run = false;
    st.in_props = false;
    let f = &st.fmt;
    if f.bold || f.italic || f.underline || f.strikethrough || f.font_size.is_some() || f.color.is_some()
        || f.font_name.is_some() || f.highlight.is_some() {
        let ghost s0 = st@;
        let r = FontRun {
            text: String::new(),
            bold: st.fmt.bold,
            italic: st.fmt.italic,
            underline: st.fmt.underline,
            strikethrough: st.fmt.strikethrough,
            font_size: st.fmt.font_size,
            color: st.fmt.color.clone(),
            font_name: st.fmt.font_name.clone(),
            highlight: st.fmt.highlight.clone(),
            vert_align: st.vert_align.take(),
            field: None,
            page_break: false,
            column_break: false,
        };
        assert(r@ == cell_run_v(s0));
        let ghost r0 = st.runs.deep_view();
        st.runs.push(r);
        assert(st.runs.deep_view() =~= r0.push(r@));
    } else {
        st.vert_align = None;
    }
}

fn cell_end(st: &mut CellState, name: &str)
    requires
        old(st).para_counter < usize::MAX,
        old(st).tbl_index < usize::MAX,
    ensures
        final(st)@ == cell_end_v(old(st)@, name@),
        final(st).tbl_depth <= old(st).tbl_depth,
        final(st).p_depth <= old(st).p_depth,
        final(st).tbl_index <= old(st).tbl_index + 1,
        final(st).para_counter <= old(st).para_counter + 1,
{
    reveal(cell_end_v);
    if str_eq(name, "tbl") {
        if st.tbl_depth == 1 {
            st.tbl_index = st.tbl_index + 1;
            st.in_target = false;
        }
        st.tbl_depth = if st.tbl_depth > 0 { st.tbl_depth - 1 } else { 0 };
    } else if str_eq(name, "p") {
        if st.p_depth > 0 && st.in_target && st.tbl_depth == 1 {
            cell_para_end(st);
        }
        st.p_depth = if st.p_depth > 0 { st.p_depth - 1 } else { 0 };
    } else if str_eq(name, "r") {
        if st.in_run {
            cell_run_end(st);
        }
    } else if str_eq(name, "rPr") {
        st.in_props = false;
    } else if str_eq(name, "pPr") {
        if let (Some(nid), Some(l)) = (st.num_id, st.ilvl) {
            st.numbering = Some(NumberingRef { num_id: nid, level: l });
        }
        st.in_ppr = false;
        st.in_numpr = false;
        st.num_id = None;
        st.ilvl = None;
    } else if str_eq(name, "numPr") {
        st.in_numpr = false;
    }
}

/// The reader's state after the events from `i` on; a syntax error ends
/// the reading with what was read so far.
pub open spec fn walk_from_v(evs: Seq<XmlEventV>, i: int, s: CellStateV, containers: Seq<bool>) -> CellStateV
    decreases evs.len() - i,
{
    if i < 0 || i >= evs.len() {
        s
    } else {
        match evs[i] {
            XmlEventV::Error { .. } => s,
            XmlEventV::Start { name, attrs } => walk_from_v(evs, i + 1, cell_start_v(s, name, attrs, containers), containers),
            XmlEventV::Empty { name, attrs } => walk_from_v(evs, i + 1, cell_empty_v(s, name, attrs), containers),
            XmlEventV::Text { text } => walk_from_v(evs, i + 1, cell_text_v(s, text), containers),
            XmlEventV::End { name } => walk_from_v(evs, i + 1, cell_end_v(s, name), containers),
            _ => walk_from_v(evs, i + 1, s, containers),
        }
    }
}

/// The paragraphs of each flagged table, one bucket per flag.
pub open spec fn container_paragraphs_v(evs: Seq<XmlEventV>, containers: Seq<bool>) -> Seq<Seq<WordParagraphV>> {
    walk_from_v(evs, 0, cell_initial_v(containers.len()), containers).out
}

/// For each top-level table (one bucket per entry of `containers`), the
/// paragraphs of its cell when the table is flagged as a container.
pub fn walk_container_paragraphs(evs: &Vec<XmlEvent>, containers: &Vec<bool>) -> (r: Vec<Vec<WordParagraph>>)
    ensures
        r.deep_view() == container_paragraphs_v(evs.deep_view(), containers@),
{
    let ghost ev = evs.deep_view();
    let mut st = cell_initial(containers.len());
    let mut i: usize = 0;
    while i < evs.len()
        invariant
            ev == evs.deep_view(),
            i <= ev.len(),
            st.tbl_depth <= i,
            st.p_depth <= i,
            st.tbl_index <= i,
            st.para_counter <= i,
            walk_from_v(ev, i as int, st@, containers@).out == container_paragraphs_v(ev, containers@),
        decreases ev.len() - i,
    {
        assert(ev[i as int] == evs@[i as int].deep_view());
        match &evs[i] {
            XmlEvent::Error { .. } => {
                return st.out;
            },
            XmlEvent::Start { name, attrs } => {
                cell_start(&mut st, name.as_str(), attrs, containers);
            },
            XmlEvent::Empty { name, attrs } => {
                cell_empty(&mut st, name.as_str(), attrs);
            },
            XmlEvent::Text { text } => {
                if st.in_target && st.tbl_depth == 1 && st.p_depth > 0 && st.fld_state != 1 {
                    st.text.append(text.as_str());
                }
            },
            XmlEvent::End { name } => {
                cell_end(&mut st, name.as_str());
            },
            _ => {},
        }
        i = i + 1;
    }
    st.out
}

/// The cell paragraphs of the container tables of a `document.xml`: one
/// bucket per top-level table, empty for tables that are no container.
pub open spec fn cell_paragraphs_v(content: Seq<char>) -> Seq<Seq<WordParagraphV>> {
    let evs = xml_events_v(content);
    container_paragraphs_v(evs, container_tables_v(evs))
}

/// Reads the paragraphs inside the single cell of each 1×1 top-level table
/// of `content`; other tables get an empty bucket.
pub fn extract_container_cell_paragraphs(content: &str) -> (r: Vec<Vec<WordParagraph>>)
    ensures
        r.deep_view() == cell_paragraphs_v(content@),
{
    let evs = xml_events(content);
    let containers = find_container_tables(&evs);
    walk_container_paragraphs(&evs, &containers)
}

} // verus!
