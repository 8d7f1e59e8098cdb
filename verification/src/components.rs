//! Component builders: each turns design tokens plus content into the
//! paragraphs / tables the writer emits (cover, headings, body, lists,
//! styled tables, callouts, code blocks, page breaks).

use vstd::prelude::*;
use crate::design_tokens::DesignTokens;
use crate::model::{
    FontRun, FontRunV, NumberingRef, NumberingRefV, TableCell, TableCellV, TableRow, TableRowV,
    WordParagraph, WordParagraphV, WordTable, WordTableV,
};
use crate::text::{chars_of, dec, owned, push_char, push_dec, spec_split, split_char, starts_with, str_eq};

verus! {

// ─── Models of the built values ───────────────────────────────────────────

/// A run with only the basic formatting set.
pub open spec fn run_v(
    text: Seq<char>,
    bold: bool,
    italic: bool,
    color: Option<Seq<char>>,
    size_hp: Option<u32>,
    font_name: Option<Seq<char>>,
) -> FontRunV {
    FontRunV {
        text,
        bold,
        italic,
        underline: false,
        strikethrough: false,
        font_size: size_hp,
        color,
        font_name,
        highlight: None,
        vert_align: None,
        field: None,
        page_break: false,
        column_break: false,
    }
}

/// A paragraph holding exactly the runs `runs`.
pub open spec fn para_runs_v(id: Seq<char>, runs: Seq<FontRunV>, style: Option<Seq<char>>) -> WordParagraphV {
    WordParagraphV {
        id,
        text: Seq::empty(),
        style,
        runs: Some(runs),
        numbering: None,
        alignment: None,
        text_direction: None,
        page_break: None,
    }
}

/// A paragraph holding plain text.
pub open spec fn para_text_v(id: Seq<char>, text: Seq<char>, style: Option<Seq<char>>) -> WordParagraphV {
    WordParagraphV {
        id,
        text,
        style,
        runs: None,
        numbering: None,
        alignment: None,
        text_direction: None,
        page_break: None,
    }
}

/// An empty, unstyled spacer paragraph.
pub open spec fn blank_v(id: Seq<char>) -> WordParagraphV {
    para_text_v(id, Seq::empty(), None)
}

/// `prefix-i`, the id of the `i`-th item of a list or code block.
pub open spec fn item_id(prefix: Seq<char>, i: int) -> Seq<char> {
    prefix + "-"@ + dec(i as nat)
}

// ─── Helpers ───────────────────────────────────────────────────────────────

/// A run with the given basic formatting.
pub fn run(
    text: &str,
    bold: bool,
    italic: bool,
    color: Option<&str>,
    size_hp: Option<u32>,
    font_name: Option<&str>,
) -> (r: FontRun)
    ensures
        r@ == run_v(
            text@,
            bold,
            italic,
            match color { Some(c) => Some(c@), None => None },
            size_hp,
            match font_name { Some(f) => Some(f@), None => None },
        ),
{
    FontRun {
        text: owned(text),
        bold,
        italic,
        underline: false,
        strikethrough: false,
        font_size: size_hp,
        color: match color {
            Some(c) => Some(owned(c)),
            None => None,
        },
        font_name: match font_name {
            Some(f) => Some(owned(f)),
            None => None,
        },
        highlight: None,
        vert_align: None,
        field: None,
        page_break: false,
        column_break: false,
    }
}

/// Same as [`run`] with owned colour and font strings.
pub fn run_owned_color(
    text: String,
    bold: bool,
    italic: bool,
    color: Option<String>,
    size_hp: Option<u32>,
    font_name: Option<String>,
) -> (r: FontRun)
    ensures
        r@ == run_v(text@, bold, italic, color.deep_view(), size_hp, font_name.deep_view()),
{
    FontRun {
        text,
        bold,
        italic,
        underline: false,
        strikethrough: false,
        font_size: size_hp,
        color,
        font_name,
        highlight: None,
        vert_align: None,
        field: None,
        page_break: false,
        column_break: false,
    }
}

fn opt_owned(s: Option<&str>) -> (r: Option<String>)
    ensures
        r.deep_view() == match s { Some(c) => Some(c@), None => None::<Seq<char>> },
{
    match s {
        Some(c) => Some(owned(c)),
        None => None,
    }
}

/// A paragraph carrying the single run `r`.
pub fn para_with_run(id: &str, r: FontRun, style: Option<&str>) -> (p: WordParagraph)
    ensures
        p@ == para_runs_v(id@, seq![r@], match style { Some(s) => Some(s@), None => None }),
{
    let p = WordParagraph {
        id: owned(id),
        text: String::new(),
        style: opt_owned(style),
        runs: Some(vec![r]),
        numbering: None,
        alignment: None,
        text_direction: None,
        page_break: None,
    };
    proof {
        assert(p.runs.unwrap().deep_view() =~= seq![r@]);
    }
    p
}

/// A paragraph carrying plain text.
pub fn para_with_text(id: &str, text: &str, style: Option<&str>) -> (p: WordParagraph)
    ensures
        p@ == para_text_v(id@, text@, match style { Some(s) => Some(s@), None => None }),
{
    WordParagraph {
        id: owned(id),
        text: owned(text),
        style: opt_owned(style),
        runs: None,
        numbering: None,
        alignment: None,
        text_direction: None,
        page_break: None,
    }
}

/// An empty spacer paragraph.
pub fn blank_paragraph(id: &str) -> (p: WordParagraph)
    ensures
        p@ == blank_v(id@),
{
    WordParagraph {
        id: owned(id),
        text: String::new(),
        style: None,
        runs: None,
        numbering: None,
        alignment: None,
        text_direction: None,
        page_break: None,
    }
}

/// `prefix-i` as a `String`.
pub fn item_id_string(prefix: &str, i: usize) -> (r: String)
    ensures
        r@ == item_id(prefix@, i as int),
{
    let mut s = owned(prefix);
    s.append("-");
    push_dec(&mut s, i as u64);
    s
}

// ─── Cover & titles ───────────────────────────────────────────────────────

/// The paragraphs of a cover title block.
pub open spec fn cover_title_v(t: DesignTokens, title: Seq<char>, subtitle: Option<Seq<char>>) -> Seq<WordParagraphV> {
    let head = seq![para_runs_v(
        "cover-title"@,
        seq![run_v(title, true, false, Some(t.palette.primary@), Some(t.fonts.cover_title_pt), None)],
        Some("CoverTitle"@),
    )];
    let mid = match subtitle {
        Some(sub) => seq![para_runs_v(
            "cover-subtitle"@,
            seq![run_v(sub, false, true, Some(t.palette.text_muted@), Some(t.fonts.h3_pt), None)],
            Some("CoverSubtitle"@),
        )],
        None => Seq::empty(),
    };
    head + mid + seq![blank_v("cover-spacer-1"@), blank_v("cover-spacer-2"@)]
}

/// Cover title, optional subtitle, then two spacer paragraphs.
pub fn cover_title(tokens: &DesignTokens, title: &str, subtitle: Option<&str>) -> (out: Vec<WordParagraph>)
    ensures
        out.deep_view() == cover_title_v(*tokens, title@, match subtitle { Some(s) => Some(s@), None => None }),
{
    let title_run = run(
        title,
        true,
        false,
        Some(tokens.palette.primary.as_str()),
        Some(tokens.fonts.cover_title_pt),
        None,
    );
    let mut out = vec![para_with_run("cover-title", title_run, Some("CoverTitle"))];
    if let Some(sub) = subtitle {
        let sub_run = run(sub, false, true, Some(tokens.palette.text_muted.as_str()), Some(tokens.fonts.h3_pt), None);
        out.push(para_with_run("cover-subtitle", sub_run, Some("CoverSubtitle")));
    }
    out.push(blank_paragraph("cover-spacer-1"));
    out.push(blank_paragraph("cover-spacer-2"));
    proof {
        assert(out.deep_view() =~= cover_title_v(*tokens, title@, match subtitle { Some(s) => Some(s@), None => None }));
    }
    out
}

/// The chapter title paragraph.
pub open spec fn chapter_title_v(t: DesignTokens, text: Seq<char>) -> WordParagraphV {
    para_runs_v(
        "chapter-title"@,
        seq![run_v(text, true, false, Some(t.palette.primary@), Some(t.fonts.h1_pt), None)],
        Some("ChapterTitle"@),
    )
}

/// A chapter title: one bold paragraph in the primary colour.
pub fn chapter_title(tokens: &DesignTokens, text: &str) -> (out: Vec<WordParagraph>)
    ensures
        out.deep_view() == seq![chapter_title_v(*tokens, text@)],
{
    let r = run(text, true, false, Some(tokens.palette.primary.as_str()), Some(tokens.fonts.h1_pt), None);
    let out = vec![para_with_run("chapter-title", r, Some("ChapterTitle"))];
    proof {
        assert(out.deep_view() =~= seq![chapter_title_v(*tokens, text@)]);
    }
    out
}

// ─── Headings ─────────────────────────────────────────────────────────────

/// The heading paragraph of a level; levels other than 1 and 2 render as level 3.
pub open spec fn heading_v(t: DesignTokens, level: u8, text: Seq<char>) -> WordParagraphV {
    let (size, color, style) = if level <= 1 {
        (t.fonts.h1_pt, t.palette.primary@, "ChapterTitle"@)
    } else if level == 2 {
        (t.fonts.h2_pt, t.palette.secondary@, "SectionTitle"@)
    } else {
        (t.fonts.h3_pt, t.palette.secondary@, "SubsectionTitle"@)
    };
    para_runs_v("heading-l"@ + dec(level as nat), seq![run_v(text, true, false, Some(color), Some(size), None)], Some(style))
}

/// A heading at `level`: 1 chapter, 2 section, 3 and above subsection;
/// level 0 falls back to level 1.
pub fn heading(tokens: &DesignTokens, level: u8, text: &str) -> (out: Vec<WordParagraph>)
    ensures
        out.deep_view() == seq![heading_v(*tokens, level, text@)],
{
    let (size_hp, color, style_id) = if level <= 1 {
        (tokens.fonts.h1_pt, tokens.palette.primary.as_str(), "ChapterTitle")
    } else if level == 2 {
        (tokens.fonts.h2_pt, tokens.palette.secondary.as_str(), "SectionTitle")
    } else {
        (tokens.fonts.h3_pt, tokens.palette.secondary.as_str(), "SubsectionTitle")
    };
    let r = run(text, true, false, Some(color), Some(size_hp), None);
    let mut id = owned("heading-l");
    push_dec(&mut id, level as u64);
    let out = vec![para_with_run(id.as_str(), r, Some(style_id))];
    proof {
        assert(out.deep_view() =~= seq![heading_v(*tokens, level, text@)]);
    }
    out
}

// ─── Body ───────────────────────────────────────────────────────────────────

/// A body paragraph: one run in body colour and size.
pub open spec fn body_paragraph_v(t: DesignTokens, id: Seq<char>, text: Seq<char>) -> WordParagraphV {
    para_runs_v(id, seq![run_v(text, false, false, Some(t.palette.text@), Some(t.fonts.body_pt), None)], Some("BodyParagraph"@))
}

/// A body paragraph.
pub fn body_paragraph(tokens: &DesignTokens, id: &str, text: &str) -> (out: Vec<WordParagraph>)
    ensures
        out.deep_view() == seq![body_paragraph_v(*tokens, id@, text@)],
{
    let r = run(text, false, false, Some(tokens.palette.text.as_str()), Some(tokens.fonts.body_pt), None);
    let out = vec![para_with_run(id, r, Some("BodyParagraph"))];
    proof {
        assert(out.deep_view() =~= seq![body_paragraph_v(*tokens, id@, text@)]);
    }
    out
}

/// The run of one `(text, bold, italic)` body segment.
pub open spec fn body_run_v(t: DesignTokens, text: Seq<char>, bold: bool, italic: bool) -> FontRunV {
    run_v(text, bold, italic, Some(t.palette.text@), Some(t.fonts.body_pt), None)
}

/// One body paragraph whose runs are the given `(text, bold, italic)` segments.
pub fn body_runs(tokens: &DesignTokens, id: &str, runs: &[(String, bool, bool)]) -> (out: Vec<WordParagraph>)
    ensures
        out.deep_view() == seq![para_runs_v(
            id@,
            Seq::new(runs@.len(), |i: int| body_run_v(*tokens, runs@[i].0@, runs@[i].1, runs@[i].2)),
            Some("BodyParagraph"@),
        )],
{
    let mut rs: Vec<FontRun> = Vec::new();
    let mut i: usize = 0;
    while i < runs.len()
        invariant
            i <= runs@.len(),
            rs.deep_view() =~= Seq::new(i as nat, |k: int| body_run_v(*tokens, runs@[k].0@, runs@[k].1, runs@[k].2)),
        decreases runs@.len() - i,
    {
        let (t, b, it) = &runs[i];
        let ghost old_rs = rs.deep_view();
        rs.push(FontRun {
            text: t.clone(),
            bold: *b,
            italic: *it,
            underline: false,
            strikethrough: false,
            font_size: Some(tokens.fonts.body_pt),
            color: Some(tokens.palette.text.clone()),
            font_name: None,
            highlight: None,
            vert_align: None,
            field: None,
            page_break: false,
            column_break: false,
        });
        proof {
            assert(rs.deep_view() =~= old_rs.push(body_run_v(*tokens, runs@[i as int].0@, runs@[i as int].1, runs@[i as int].2)));
        }
        i = i + 1;
    }
    let p = WordParagraph {
        id: owned(id),
        text: String::new(),
        style: Some(owned("BodyParagraph")),
        runs: Some(rs),
        numbering: None,
        alignment: None,
        text_direction: None,
        page_break: None,
    };
    let out = vec![p];
    proof {
        assert(out.deep_view() =~= seq![para_runs_v(
            id@,
            Seq::new(runs@.len(), |i: int| body_run_v(*tokens, runs@[i].0@, runs@[i].1, runs@[i].2)),
            Some("BodyParagraph"@),
        )]);
    }
    out
}

// ─── Lists ──────────────────────────────────────────────────────────────────

/// The `i`-th item of a list with the given style and list instance.
pub open spec fn list_item_v(t: DesignTokens, prefix: Seq<char>, i: int, text: Seq<char>, style: Seq<char>, num_id: u32) -> WordParagraphV {
    WordParagraphV {
        id: item_id(prefix, i),
        text: Seq::empty(),
        style: Some(style),
        runs: Some(seq![run_v(text, false, false, Some(t.palette.text@), Some(t.fonts.body_pt), None)]),
        numbering: Some(NumberingRefV { num_id, level: 0 }),
        alignment: None,
        text_direction: None,
        page_break: None,
    }
}

fn list_items(tokens: &DesignTokens, id_prefix: &str, items: &[&str], style: &str, num_id: u32) -> (out: Vec<WordParagraph>)
    ensures
        out.deep_view() == Seq::new(items@.len(), |i: int| list_item_v(*tokens, id_prefix@, i, items@[i]@, style@, num_id)),
{
    let mut out: Vec<WordParagraph> = Vec::new();
    let mut i: usize = 0;
    while i < items.len()
        invariant
            i <= items@.len(),
            out.deep_view() =~= Seq::new(i as nat, |k: int| list_item_v(*tokens, id_prefix@, k, items@[k]@, style@, num_id)),
        decreases items@.len() - i,
    {
        let r = run(items[i], false, false, Some(tokens.palette.text.as_str()), Some(tokens.fonts.body_pt), None);
        let rs = vec![r];
        let p = WordParagraph {
            id: item_id_string(id_prefix, i),
            text: String::new(),
            style: Some(owned(style)),
            runs: Some(rs),
            numbering: Some(NumberingRef { num_id, level: 0 }),
            alignment: None,
            text_direction: None,
            page_break: None,
        };
        proof {
            assert(rs.deep_view() =~= seq![r@]);
        }
        let ghost old_out = out.deep_view();
        out.push(p);
        proof {
            assert(out.deep_view() =~= old_out.push(list_item_v(*tokens, id_prefix@, i as int, items@[i as int]@, style@, num_id)));
        }
        i = i + 1;
    }
    out
}

/// A bulleted list: one `ListBullet` paragraph per item, list instance 1.
pub fn bulleted_list(tokens: &DesignTokens, id_prefix: &str, items: &[&str]) -> (out: Vec<WordParagraph>)
    ensures
        out.deep_view() == Seq::new(items@.len(), |i: int| list_item_v(*tokens, id_prefix@, i, items@[i]@, "ListBullet"@, 1)),
{
    list_items(tokens, id_prefix, items, "ListBullet", 1)
}

/// An ordered list: one `ListNumber` paragraph per item, list instance 2.
pub fn ordered_list(tokens: &DesignTokens, id_prefix: &str, items: &[&str]) -> (out: Vec<WordParagraph>)
    ensures
        out.deep_view() == Seq::new(items@.len(), |i: int| list_item_v(*tokens, id_prefix@, i, items@[i]@, "ListNumber"@, 2)),
{
    list_items(tokens, id_prefix, items, "ListNumber", 2)
}

// ─── Tables ─────────────────────────────────────────────────────────────────

impl TableCell {
    /// A cell holding `text` with no merging.
    pub fn plain(text: &str) -> (c: TableCell)
        ensures
            c@ == (TableCellV { text: text@, col_span: 1, row_span: 1 }),
    {
        TableCell { text: owned(text), col_span: 1, row_span: 1 }
    }
}

/// Brand-level look of a styled table.
pub struct TableStyle {
    pub header_fill: Option<String>,
    pub zebra_fill: Option<String>,
    pub border_color: Option<String>,
    pub header_text_color: Option<String>,
    pub repeat_header: bool,
    pub zebra: bool,
}

/// Model of a [`TableStyle`].
pub struct TableStyleV {
    pub header_fill: Option<Seq<char>>,
    pub zebra_fill: Option<Seq<char>>,
    pub border_color: Option<Seq<char>>,
    pub header_text_color: Option<Seq<char>>,
    pub repeat_header: bool,
    pub zebra: bool,
}

impl View for TableStyle {
    type V = TableStyleV;

    open spec fn view(&self) -> TableStyleV {
        TableStyleV {
            header_fill: self.header_fill.deep_view(),
            zebra_fill: self.zebra_fill.deep_view(),
            border_color: self.border_color.deep_view(),
            header_text_color: self.header_text_color.deep_view(),
            repeat_header: self.repeat_header,
            zebra: self.zebra,
        }
    }
}

impl Default for TableStyle {
    fn default() -> (r: Self)
        ensures
            r@ == (TableStyleV {
                header_fill: None,
                zebra_fill: None,
                border_color: None,
                header_text_color: None,
                repeat_header: false,
                zebra: false,
            }),
    {
        TableStyle {
            header_fill: None,
            zebra_fill: None,
            border_color: None,
            header_text_color: None,
            repeat_header: false,
            zebra: false,
        }
    }
}

impl Clone for TableStyle {
    fn clone(&self) -> (r: Self)
        ensures
            r@ == self@,
    {
        TableStyle {
            header_fill: self.header_fill.clone(),
            zebra_fill: self.zebra_fill.clone(),
            border_color: self.border_color.clone(),
            header_text_color: self.header_text_color.clone(),
            repeat_header: self.repeat_header,
            zebra: self.zebra,
        }
    }
}

/// The text of an optional value, empty when absent.
pub open spec fn or_empty(o: Option<Seq<char>>) -> Seq<char> {
    match o {
        Some(s) => s,
        None => Seq::empty(),
    }
}

/// `"1"` for true, `"0"` for false.
pub open spec fn flag(b: bool) -> Seq<char> {
    if b { "1"@ } else { "0"@ }
}

/// The marker cell text that carries a table style:
/// `__STYLE__|fill|zebra|border|repeat|zebra_on|header_text`.
pub open spec fn style_marker(s: TableStyleV, header_text_color: Seq<char>) -> Seq<char> {
    "__STYLE__"@ + seq!['|'] + or_empty(s.header_fill) + seq!['|'] + or_empty(s.zebra_fill) + seq!['|']
        + or_empty(s.border_color) + seq!['|'] + flag(s.repeat_header) + seq!['|'] + flag(s.zebra)
        + seq!['|'] + header_text_color
}

fn push_opt(s: &mut String, o: &Option<String>)
    ensures
        final(s)@ == old(s)@ + or_empty(o.deep_view()),
{
    match o {
        Some(v) => s.append(v.as_str()),
        None => {},
    }
}

fn push_flag(s: &mut String, b: bool)
    ensures
        final(s)@ == old(s)@ + flag(b),
{
    if b {
        s.append("1");
    } else {
        s.append("0");
    }
}

/// The single-cell marker row that carries `style` through the table model.
pub fn encode_style_to_row(style: &TableStyle, header_text_color: &str) -> (r: Vec<TableCell>)
    ensures
        r.deep_view() == seq![TableCellV { text: style_marker(style@, header_text_color@), col_span: 1, row_span: 1 }],
{
    let mut payload = owned("__STYLE__");
    push_char(&mut payload, '|');
    push_opt(&mut payload, &style.header_fill);
    push_char(&mut payload, '|');
    push_opt(&mut payload, &style.zebra_fill);
    push_char(&mut payload, '|');
    push_opt(&mut payload, &style.border_color);
    push_char(&mut payload, '|');
    push_flag(&mut payload, style.repeat_header);
    push_char(&mut payload, '|');
    push_flag(&mut payload, style.zebra);
    push_char(&mut payload, '|');
    payload.append(header_text_color);
    let r = vec![TableCell { text: payload, col_span: 1, row_span: 1 }];
    proof {
        assert(payload@ =~= style_marker(style@, header_text_color@));
        assert(r.deep_view() =~= seq![TableCellV { text: style_marker(style@, header_text_color@), col_span: 1, row_span: 1 }]);
    }
    r
}

/// A row of unmerged cells holding `texts`.
pub open spec fn plain_row_v(texts: Seq<Seq<char>>) -> TableRowV {
    TableRowV { cells: Seq::new(texts.len(), |i: int| TableCellV { text: texts[i], col_span: 1, row_span: 1 }) }
}

/// The header text colour a styled table records: the style's, else the palette's.
pub open spec fn styled_header_color(t: DesignTokens, style: TableStyleV) -> Seq<char> {
    match style.header_text_color {
        Some(c) => c,
        None => t.palette.text_on_primary@,
    }
}

/// The rows of a styled table: style marker row, header row, body rows.
pub open spec fn styled_table_rows_v(t: DesignTokens, headers: Seq<Seq<char>>, rows: Seq<Seq<Seq<char>>>, style: TableStyleV) -> Seq<TableRowV> {
    seq![TableRowV { cells: seq![TableCellV { text: style_marker(style, styled_header_color(t, style)), col_span: 1, row_span: 1 }] }]
        + seq![plain_row_v(headers)]
        + Seq::new(rows.len(), |i: int| plain_row_v(rows[i]))
}

fn plain_row(texts: &[String]) -> (r: TableRow)
    ensures
        r@ == plain_row_v(texts.deep_view()),
{
    let mut cells: Vec<TableCell> = Vec::new();
    let mut i: usize = 0;
    while i < texts.len()
        invariant
            i <= texts@.len(),
            cells.deep_view() =~= Seq::new(i as nat, |k: int| TableCellV { text: texts@[k]@, col_span: 1, row_span: 1 }),
        decreases texts@.len() - i,
    {
        let ghost old_c = cells.deep_view();
        cells.push(TableCell::plain(texts[i].as_str()));
        proof {
            assert(cells.deep_view() =~= old_c.push(TableCellV { text: texts@[i as int]@, col_span: 1, row_span: 1 }));
        }
        i = i + 1;
    }
    let r = TableRow { cells };
    proof {
        assert(r@.cells =~= plain_row_v(texts.deep_view()).cells);
    }
    r
}

/// A styled table: a style marker row, the header row, then the body rows.
pub fn styled_table(
    tokens: &DesignTokens,
    id: &str,
    headers: &[&str],
    rows: &[Vec<String>],
    style: &TableStyle,
) -> (t: WordTable)
    ensures
        t@ == (WordTableV {
            id: id@,
            rows: styled_table_rows_v(
                *tokens,
                Seq::new(headers@.len(), |i: int| headers@[i]@),
                Seq::new(rows@.len(), |i: int| rows@[i].deep_view()),
                style@,
            ),
            cell_paragraphs: Seq::empty(),
        }),
{
    let header_color = match &style.header_text_color {
        Some(c) => c.clone(),
        None => tokens.palette.text_on_primary.clone(),
    };
    let mut header_cells: Vec<TableCell> = Vec::new();
    let mut i: usize = 0;
    while i < headers.len()
        invariant
            i <= headers@.len(),
            header_cells.deep_view() =~= Seq::new(i as nat, |k: int| TableCellV { text: headers@[k]@, col_span: 1, row_span: 1 }),
        decreases headers@.len() - i,
    {
        let ghost old_c = header_cells.deep_view();
        header_cells.push(TableCell::plain(headers[i]));
        proof {
            assert(header_cells.deep_view() =~= old_c.push(TableCellV { text: headers@[i as int]@, col_span: 1, row_span: 1 }));
        }
        i = i + 1;
    }
    let marker = TableRow { cells: encode_style_to_row(style, header_color.as_str()) };
    let mut table_rows: Vec<TableRow> = vec![marker, TableRow { cells: header_cells }];
    let ghost hv = Seq::new(headers@.len(), |i: int| headers@[i]@);
    let ghost rv = Seq::new(rows@.len(), |i: int| rows@[i].deep_view());
    proof {
        assert(table_rows@[1]@.cells =~= plain_row_v(hv).cells);
    }
    let mut j: usize = 0;
    while j < rows.len()
        invariant
            j <= rows@.len(),
            rv == Seq::new(rows@.len(), |i: int| rows@[i].deep_view()),
            table_rows.deep_view() =~= styled_table_rows_v(*tokens, hv, rv, style@).take(2 + j),
        decreases rows@.len() - j,
    {
        let row = plain_row(rows[j].as_slice());
        let ghost old_t = table_rows.deep_view();
        table_rows.push(row);
        proof {
            assert(rows@[j as int]@.map_values(|s: String| s.deep_view()) =~= rows@[j as int].deep_view());
            assert(table_rows.deep_view() =~= old_t.push(row@));
            assert(styled_table_rows_v(*tokens, hv, rv, style@).take(2 + j + 1) =~= styled_table_rows_v(*tokens, hv, rv, style@).take(2 + j).push(plain_row_v(rv[j as int])));
        }
        j = j + 1;
    }
    let t = WordTable { id: owned(id), rows: table_rows, cell_paragraphs: Vec::new() };
    proof {
        assert(styled_table_rows_v(*tokens, hv, rv, style@).take(2 + rows@.len() as int) =~= styled_table_rows_v(*tokens, hv, rv, style@));
        assert(t@.cell_paragraphs =~= Seq::<WordParagraphV>::empty());
    }
    t
}

/// `None` for an empty piece, else the piece.
pub open spec fn empty_to_none_v(s: Seq<char>) -> Option<Seq<char>> {
    if s.len() == 0 { None } else { Some(s) }
}

/// `None` for an empty string, else the string.
pub fn empty_to_none(s: &str) -> (r: Option<String>)
    ensures
        r.deep_view() == empty_to_none_v(s@),
{
    let v = chars_of(s);
    if v.len() == 0 {
        None
    } else {
        Some(owned(s))
    }
}

/// What the style marker row of `rows` decodes to, if it carries one.
pub open spec fn decode_table_style_v(rows: Seq<TableRowV>) -> Option<(TableStyleV, Seq<char>)> {
    if rows.len() == 0 || rows[0].cells.len() == 0 {
        None
    } else {
        let text = rows[0].cells[0].text;
        if !"__STYLE__|"@.is_prefix_of(text) {
            None
        } else {
            let parts = spec_split(text, '|');
            if parts.len() < 7 {
                None
            } else {
                Some((
                    TableStyleV {
                        header_fill: empty_to_none_v(parts[1]),
                        zebra_fill: empty_to_none_v(parts[2]),
                        border_color: empty_to_none_v(parts[3]),
                        header_text_color: empty_to_none_v(parts[6]),
                        repeat_header: parts[4] == "1"@,
                        zebra: parts[5] == "1"@,
                    },
                    parts[6],
                ))
            }
        }
    }
}

/// Decodes the style marker row that [`styled_table`] injects.
pub fn decode_table_style(rows: &[TableRow]) -> (r: Option<(TableStyle, String)>)
    ensures
        match r {
            Some((s, c)) => decode_table_style_v(rows.deep_view()) == Some((s@, c@)),
            None => decode_table_style_v(rows.deep_view()) is None,
        },
{
    if rows.len() == 0 || rows[0].cells.len() == 0 {
        return None;
    }
    let text = rows[0].cells[0].text.as_str();
    proof {
        assert(rows.deep_view()[0].cells[0].text == text@);
    }
    if !starts_with(text, "__STYLE__|") {
        return None;
    }
    let parts = split_char(text, '|');
    if parts.len() < 7 {
        return None;
    }
    let style = TableStyle {
        header_fill: empty_to_none(parts[1].as_str()),
        zebra_fill: empty_to_none(parts[2].as_str()),
        border_color: empty_to_none(parts[3].as_str()),
        header_text_color: empty_to_none(parts[6].as_str()),
        repeat_header: str_eq(parts[4].as_str(), "1"),
        zebra: str_eq(parts[5].as_str(), "1"),
    };
    Some((style, parts[6].clone()))
}

// ─── Callouts ───────────────────────────────────────────────────────────────

/// The four callout flavours.
#[derive(Clone, Copy, PartialEq, Eq, Structural)]
pub enum CalloutLevel {
    Info,
    Warning,
    Important,
    Tip,
}

/// Background, accent colour and label of a callout level.
pub open spec fn level_meta_v(level: CalloutLevel, t: DesignTokens) -> (Seq<char>, Seq<char>, Seq<char>) {
    match level {
        CalloutLevel::Info => (t.palette.callout_info_bg@, t.palette.secondary@, "💡 Info"@),
        CalloutLevel::Warning => (t.palette.callout_warning_bg@, t.palette.accent@, "⚠ Warning"@),
        CalloutLevel::Important => (t.palette.callout_important_bg@, "C0504D"@, "❗ Important"@),
        CalloutLevel::Tip => (t.palette.callout_tip_bg@, t.palette.primary@, "✓ Tip"@),
    }
}

/// Background, accent colour and label of a callout level.
pub fn level_meta(level: CalloutLevel, t: &DesignTokens) -> (r: (String, String, &'static str))
    ensures
        (r.0@, r.1@, r.2@) == level_meta_v(level, *t),
{
    match level {
        CalloutLevel::Info => (t.palette.callout_info_bg.clone(), t.palette.secondary.clone(), "💡 Info"),
        CalloutLevel::Warning => (t.palette.callout_warning_bg.clone(), t.palette.accent.clone(), "⚠ Warning"),
        CalloutLevel::Important => (t.palette.callout_important_bg.clone(), owned("C0504D"), "❗ Important"),
        CalloutLevel::Tip => (t.palette.callout_tip_bg.clone(), t.palette.primary.clone(), "✓ Tip"),
    }
}

/// A rendered callout: inner paragraphs plus its container's id and colours.
pub struct CalloutRender {
    pub paragraphs: Vec<WordParagraph>,
    pub table_id: String,
    pub bg: String,
    pub accent: String,
}

/// The bold title paragraph of a callout: `<label> <title>` in the accent colour.
pub open spec fn callout_title_v(t: DesignTokens, id: Seq<char>, level: CalloutLevel, title: Seq<char>) -> WordParagraphV {
    let (bg, accent, label) = level_meta_v(level, t);
    para_runs_v(
        id + "-title"@,
        seq![run_v(label + " "@ + title, true, false, Some(accent), Some(t.fonts.body_strong_pt), None)],
        Some("CalloutBody"@),
    )
}

/// A callout body paragraph.
pub open spec fn callout_line_v(t: DesignTokens, id: Seq<char>, text: Seq<char>) -> WordParagraphV {
    para_runs_v(id, seq![run_v(text, false, false, Some(t.palette.text@), Some(t.fonts.body_pt), None)], Some("CalloutBody"@))
}

fn callout_title(tokens: &DesignTokens, id: &str, accent: &str, label: &str, title: &str) -> (p: WordParagraph)
    ensures
        p@ == para_runs_v(
            id@ + "-title"@,
            seq![run_v(label@ + " "@ + title@, true, false, Some(accent@), Some(tokens.fonts.body_strong_pt), None)],
            Some("CalloutBody"@),
        ),
{
    let mut text = owned(label);
    text.append(" ");
    text.append(title);
    let r = run(text.as_str(), true, false, Some(accent), Some(tokens.fonts.body_strong_pt), None);
    let mut pid = owned(id);
    pid.append("-title");
    para_with_run(pid.as_str(), r, Some("CalloutBody"))
}

/// A single-line callout: title paragraph and body paragraph.
pub fn callout_block(tokens: &DesignTokens, id: &str, level: CalloutLevel, title: &str, body: &str) -> (r: CalloutRender)
    ensures
        r.paragraphs.deep_view() == seq![
            callout_title_v(*tokens, id@, level, title@),
            callout_line_v(*tokens, id@ + "-body"@, body@),
        ],
        r.table_id@ == id@ + "-box"@,
        r.bg@ == level_meta_v(level, *tokens).0,
        r.accent@ == level_meta_v(level, *tokens).1,
{
    let (bg, accent, label) = level_meta(level, tokens);
    let p_title = callout_title(tokens, id, accent.as_str(), label, title);
    let body_run = run(body, false, false, Some(tokens.palette.text.as_str()), Some(tokens.fonts.body_pt), None);
    let mut bid = owned(id);
    bid.append("-body");
    let p_body = para_with_run(bid.as_str(), body_run, Some("CalloutBody"));
    let mut table_id = owned(id);
    table_id.append("-box");
    let paragraphs = vec![p_title, p_body];
    proof {
        assert(paragraphs.deep_view() =~= seq![
            callout_title_v(*tokens, id@, level, title@),
            callout_line_v(*tokens, id@ + "-body"@, body@),
        ]);
    }
    CalloutRender { paragraphs, table_id, bg, accent }
}

/// A multi-line callout: title paragraph then one paragraph per line.
pub fn callout_multiline(
    tokens: &DesignTokens,
    id: &str,
    level: CalloutLevel,
    title: &str,
    body_lines: &[&str],
) -> (r: CalloutRender)
    ensures
        r.paragraphs.deep_view() == seq![callout_title_v(*tokens, id@, level, title@)] + Seq::new(
            body_lines@.len(),
            |i: int| callout_line_v(*tokens, item_id(id@ + "-body"@, i), body_lines@[i]@),
        ),
        r.table_id@ == id@ + "-box"@,
        r.bg@ == level_meta_v(level, *tokens).0,
        r.accent@ == level_meta_v(level, *tokens).1,
{
    let (bg, accent, label) = level_meta(level, tokens);
    let p_title = callout_title(tokens, id, accent.as_str(), label, title);
    let mut paragraphs = vec![p_title];
    let mut body_prefix = owned(id);
    body_prefix.append("-body");
    let mut i: usize = 0;
    while i < body_lines.len()
        invariant
            i <= body_lines@.len(),
            body_prefix@ == id@ + "-body"@,
            paragraphs.deep_view() =~= seq![callout_title_v(*tokens, id@, level, title@)] + Seq::new(
                i as nat,
                |k: int| callout_line_v(*tokens, item_id(id@ + "-body"@, k), body_lines@[k]@),
            ),
        decreases body_lines@.len() - i,
    {
        let r = run(body_lines[i], false, false, Some(tokens.palette.text.as_str()), Some(tokens.fonts.body_pt), None);
        let pid = item_id_string(body_prefix.as_str(), i);
        let ghost old_p = paragraphs.deep_view();
        paragraphs.push(para_with_run(pid.as_str(), r, Some("CalloutBody")));
        proof {
            assert(paragraphs.deep_view() =~= old_p.push(callout_line_v(*tokens, item_id(id@ + "-body"@, i as int), body_lines@[i as int]@)));
        }
        i = i + 1;
    }
    let mut table_id = owned(id);
    table_id.append("-box");
    CalloutRender { paragraphs, table_id, bg, accent }
}

// ─── Code block ─────────────────────────────────────────────────────────────

/// A rendered code block: one paragraph per line plus its container's id and fill.
pub struct CodeBlockRender {
    pub paragraphs: Vec<WordParagraph>,
    pub table_id: String,
    pub bg: String,
}

/// One code line paragraph, in the monospace fallback chain.
pub open spec fn code_line_v(t: DesignTokens, id: Seq<char>, i: int, line: Seq<char>) -> WordParagraphV {
    para_runs_v(
        item_id(id, i),
        seq![run_v(line, false, false, Some(t.palette.text@), Some(t.fonts.body_pt), Some("Consolas, Menlo, 'DejaVu Sans Mono', monospace"@))],
        Some("CodeBlock"@),
    )
}

/// A code block: one `CodeBlock` paragraph per line, shaded with the code fill.
pub fn code_block(tokens: &DesignTokens, id: &str, lines: &[&str]) -> (r: CodeBlockRender)
    ensures
        r.paragraphs.deep_view() == Seq::new(lines@.len(), |i: int| code_line_v(*tokens, id@, i, lines@[i]@)),
        r.table_id@ == id@ + "-box"@,
        r.bg@ == tokens.palette.code_bg@,
{
    let mut paragraphs: Vec<WordParagraph> = Vec::new();
    let mut i: usize = 0;
    while i < lines.len()
        invariant
            i <= lines@.len(),
            paragraphs.deep_view() =~= Seq::new(i as nat, |k: int| code_line_v(*tokens, id@, k, lines@[k]@)),
        decreases lines@.len() - i,
    {
        let r = run(
            lines[i],
            false,
            false,
            Some(tokens.palette.text.as_str()),
            Some(tokens.fonts.body_pt),
            Some("Consolas, Menlo, 'DejaVu Sans Mono', monospace"),
        );
        let pid = item_id_string(id, i);
        let ghost old_p = paragraphs.deep_view();
        paragraphs.push(para_with_run(pid.as_str(), r, Some("CodeBlock")));
        proof {
            assert(paragraphs.deep_view() =~= old_p.push(code_line_v(*tokens, id@, i as int, lines@[i as int]@)));
        }
        i = i + 1;
    }
    let mut table_id = owned(id);
    table_id.append("-box");
    CodeBlockRender { paragraphs, table_id, bg: tokens.palette.code_bg.clone() }
}

// ─── Page break ─────────────────────────────────────────────────────────────

/// The paragraph of a hard page break: one empty run marked as a page break.
pub open spec fn page_break_v(id: Seq<char>) -> WordParagraphV {
    para_runs_v(
        id,
        seq![FontRunV {
            text: Seq::empty(),
            bold: false,
            italic: false,
            underline: false,
            strikethrough: false,
            font_size: None,
            color: None,
            font_name: None,
            highlight: None,
            vert_align: None,
            field: None,
            page_break: true,
            column_break: false,
        }],
        None,
    )
}

/// A paragraph carrying a hard page break.
pub fn page_break(id: &str) -> (out: Vec<WordParagraph>)
    ensures
        out.deep_view() == seq![page_break_v(id@)],
{
    let r = FontRun {
        text: String::new(),
        bold: false,
        italic: false,
        underline: false,
        strikethrough: false,
        font_size: None,
        color: None,
        font_name: None,
        highlight: None,
        vert_align: None,
        field: None,
        page_break: true,
        column_break: false,
    };
    let out = vec![para_with_run(id, r, None)];
    proof {
        assert(out.deep_view() =~= seq![page_break_v(id@)]);
    }
    out
}

} // verus!
