//! The renderer: turns structured content blocks into the paragraphs and
//! tables the writer emits, applying the design tokens through the
//! component builders.

use vstd::prelude::*;
use crate::components::{
    body_paragraph, body_paragraph_v, body_run_v, body_runs, bulleted_list, callout_block,
    callout_line_v, callout_multiline, callout_title_v, chapter_title, chapter_title_v, code_block,
    code_line_v, cover_title, cover_title_v, heading, heading_v, item_id, level_meta_v,
    list_item_v, ordered_list, page_break, page_break_v, para_runs_v, run_v, styled_table,
    styled_table_rows_v, CalloutLevel, CalloutRender, CodeBlockRender, TableStyle, TableStyleV,
};
use crate::design_tokens::{is_default_tokens, DesignTokens};
use crate::model::{
    FontRun, TableCell, TableRow, TableRowV, TableCellV, WordImage, WordImageV, WordParagraph,
    WordParagraphV, WordTable, WordTableV, FieldRef, FieldRefV,
};
use crate::text::owned;

verus! {

/// Callout level names as content blocks spell them.
#[derive(Clone, Copy, PartialEq, Eq, Structural)]
pub enum CalloutLevelName {
    Info,
    Warning,
    Important,
    Tip,
}

/// The component-level callout flavour of a level name.
pub open spec fn level_of(n: CalloutLevelName) -> CalloutLevel {
    match n {
        CalloutLevelName::Info => CalloutLevel::Info,
        CalloutLevelName::Warning => CalloutLevel::Warning,
        CalloutLevelName::Important => CalloutLevel::Important,
        CalloutLevelName::Tip => CalloutLevel::Tip,
    }
}

impl CalloutLevelName {
    /// The component-level callout flavour.
    pub fn into_level(self) -> (r: CalloutLevel)
        ensures
            r == level_of(self),
    {
        match self {
            CalloutLevelName::Info => CalloutLevel::Info,
            CalloutLevelName::Warning => CalloutLevel::Warning,
            CalloutLevelName::Important => CalloutLevel::Important,
            CalloutLevelName::Tip => CalloutLevel::Tip,
        }
    }
}

impl From<CalloutLevelName> for CalloutLevel {
    fn from(level: CalloutLevelName) -> (r: Self) {
        level.into_level()
    }
}

impl vstd::std_specs::convert::FromSpecImpl<CalloutLevelName> for CalloutLevel {
    open spec fn obeys_from_spec() -> bool {
        true
    }

    open spec fn from_spec(level: CalloutLevelName) -> CalloutLevel {
        level_of(level)
    }
}

/// Rich run input of a body block.
pub struct RichRun {
    pub text: String,
    pub bold: bool,
    pub italic: bool,
    pub underline: bool,
    pub strikethrough: bool,
    pub font_size: Option<u32>,
    pub color: Option<String>,
    pub font_name: Option<String>,
    pub highlight: Option<String>,
    pub vert_align: Option<String>,
    pub field: Option<FieldRef>,
}

/// Model of a [`RichRun`]: the parts a body block renders.
pub struct RichRunV {
    pub text: Seq<char>,
    pub bold: bool,
    pub italic: bool,
}

impl View for RichRun {
    type V = RichRunV;

    open spec fn view(&self) -> RichRunV {
        RichRunV { text: self.text@, bold: self.bold, italic: self.italic }
    }
}

impl DeepView for RichRun {
    type V = RichRunV;

    open spec fn deep_view(&self) -> RichRunV {
        self@
    }
}

impl Default for RichRun {
    fn default() -> (r: Self)
        ensures
            r.text@ == Seq::<char>::empty(),
            !r.bold && !r.italic && !r.underline && !r.strikethrough,
            r.font_size is None && r.color is None && r.font_name is None,
            r.highlight is None && r.vert_align is None && r.field is None,
    {
        RichRun {
            text: String::new(),
            bold: false,
            italic: false,
            underline: false,
            strikethrough: false,
            font_size: None,
            color: None,
            font_name: None,
            highlight: None,
            vert_align: None,
            field: None,
        }
    }
}

/// Table style inputs of a styled-table block.
pub struct ContentTableStyle {
    pub header_fill: Option<String>,
    pub zebra_fill: Option<String>,
    pub border_color: Option<String>,
    pub header_text_color: Option<String>,
    pub repeat_header: bool,
    pub zebra: bool,
}

/// The table style a content style resolves to: each absent colour falls
/// back to the palette (border to `DDDDDD`).
pub open spec fn resolve_style_v(s: Option<TableStyleV>, t: DesignTokens) -> TableStyleV {
    let (hf, zf, bc, htc, rh, z) = match s {
        Some(v) => (v.header_fill, v.zebra_fill, v.border_color, v.header_text_color, v.repeat_header, v.zebra),
        None => (None, None, None, None, false, false),
    };
    TableStyleV {
        header_fill: Some(match hf { Some(c) => c, None => t.palette.primary@ }),
        zebra_fill: Some(match zf { Some(c) => c, None => t.palette.zebra@ }),
        border_color: Some(match bc { Some(c) => c, None => "DDDDDD"@ }),
        header_text_color: Some(match htc { Some(c) => c, None => t.palette.text_on_primary@ }),
        repeat_header: rh,
        zebra: z,
    }
}

impl ContentTableStyle {
    /// Model of the content style as a table style.
    pub open spec fn view_style(&self) -> TableStyleV {
        TableStyleV {
            header_fill: self.header_fill.deep_view(),
            zebra_fill: self.zebra_fill.deep_view(),
            border_color: self.border_color.deep_view(),
            header_text_color: self.header_text_color.deep_view(),
            repeat_header: self.repeat_header,
            zebra: self.zebra,
        }
    }

    /// Resolves absent colours against the tokens.
    pub fn into_table_style(self, tokens: &DesignTokens) -> (r: TableStyle)
        ensures
            r@ == resolve_style_v(Some(self.view_style()), *tokens),
    {
        TableStyle {
            header_fill: Some(match self.header_fill { Some(c) => c, None => tokens.palette.primary.clone() }),
            zebra_fill: Some(match self.zebra_fill { Some(c) => c, None => tokens.palette.zebra.clone() }),
            border_color: Some(match self.border_color { Some(c) => c, None => owned("DDDDDD") }),
            header_text_color: Some(match self.header_text_color {
                Some(c) => c,
                None => tokens.palette.text_on_primary.clone(),
            }),
            repeat_header: self.repeat_header,
            zebra: self.zebra,
        }
    }
}

impl Clone for ContentTableStyle {
    fn clone(&self) -> (r: Self)
        ensures
            r.view_style() == self.view_style(),
    {
        ContentTableStyle {
            header_fill: self.header_fill.clone(),
            zebra_fill: self.zebra_fill.clone(),
            border_color: self.border_color.clone(),
            header_text_color: self.header_text_color.clone(),
            repeat_header: self.repeat_header,
            zebra: self.zebra,
        }
    }
}

/// One block of document content.
pub enum ContentBlock {
    Cover { id: String, title: String, subtitle: Option<String> },
    Chapter { id: String, title: String },
    Heading { id: String, level: u8, text: String },
    Body { id: String, text: Option<String>, runs: Option<Vec<RichRun>> },
    BulletList { id_prefix: String, items: Vec<String> },
    OrderedList { id_prefix: String, items: Vec<String> },
    Table { id: String, headers: Vec<String>, rows: Vec<Vec<String>>, style: Option<ContentTableStyle> },
    Callout {
        id: String,
        level: CalloutLevelName,
        title: String,
        body: Option<String>,
        body_lines: Option<Vec<String>>,
    },
    Code { id: String, lines: Vec<String>, language: Option<String> },
    PageBreak { id: String },
}

/// Model of a [`ContentBlock`].
pub enum ContentBlockV {
    Cover { id: Seq<char>, title: Seq<char>, subtitle: Option<Seq<char>> },
    Chapter { id: Seq<char>, title: Seq<char> },
    Heading { id: Seq<char>, level: u8, text: Seq<char> },
    Body { id: Seq<char>, text: Option<Seq<char>>, runs: Option<Seq<RichRunV>> },
    BulletList { id_prefix: Seq<char>, items: Seq<Seq<char>> },
    OrderedList { id_prefix: Seq<char>, items: Seq<Seq<char>> },
    Table { id: Seq<char>, headers: Seq<Seq<char>>, rows: Seq<Seq<Seq<char>>>, style: Option<TableStyleV> },
    Callout {
        id: Seq<char>,
        level: CalloutLevelName,
        title: Seq<char>,
        body: Option<Seq<char>>,
        body_lines: Option<Seq<Seq<char>>>,
    },
    Code { id: Seq<char>, lines: Seq<Seq<char>>, language: Option<Seq<char>> },
    PageBreak { id: Seq<char> },
}

impl View for ContentBlock {
    type V = ContentBlockV;

    open spec fn view(&self) -> ContentBlockV {
        match self {
            ContentBlock::Cover { id, title, subtitle } =>
                ContentBlockV::Cover { id: id@, title: title@, subtitle: subtitle.deep_view() },
            ContentBlock::Chapter { id, title } => ContentBlockV::Chapter { id: id@, title: title@ },
            ContentBlock::Heading { id, level, text } =>
                ContentBlockV::Heading { id: id@, level: *level, text: text@ },
            ContentBlock::Body { id, text, runs } =>
                ContentBlockV::Body { id: id@, text: text.deep_view(), runs: runs.deep_view() },
            ContentBlock::BulletList { id_prefix, items } =>
                ContentBlockV::BulletList { id_prefix: id_prefix@, items: items.deep_view() },
            ContentBlock::OrderedList { id_prefix, items } =>
                ContentBlockV::OrderedList { id_prefix: id_prefix@, items: items.deep_view() },
            ContentBlock::Table { id, headers, rows, style } => ContentBlockV::Table {
                id: id@,
                headers: headers.deep_view(),
                rows: rows.deep_view(),
                style: match style { Some(s) => Some(s.view_style()), None => None },
            },
            ContentBlock::Callout { id, level, title, body, body_lines } => ContentBlockV::Callout {
                id: id@,
                level: *level,
                title: title@,
                body: body.deep_view(),
                body_lines: body_lines.deep_view(),
            },
            ContentBlock::Code { id, lines, language } =>
                ContentBlockV::Code { id: id@, lines: lines.deep_view(), language: language.deep_view() },
            ContentBlock::PageBreak { id } => ContentBlockV::PageBreak { id: id@ },
        }
    }
}

/// Parallel lists of paragraphs, tables and images.
pub struct RenderedDocument {
    pub paragraphs: Vec<WordParagraph>,
    pub tables: Vec<WordTable>,
    pub images: Vec<WordImage>,
}

/// Model of a rendered document.
pub struct RenderedV {
    pub paragraphs: Seq<WordParagraphV>,
    pub tables: Seq<WordTableV>,
    pub images: Seq<WordImageV>,
}

impl View for RenderedDocument {
    type V = RenderedV;

    open spec fn view(&self) -> RenderedV {
        RenderedV {
            paragraphs: self.paragraphs.deep_view(),
            tables: self.tables.deep_view(),
            images: self.images.deep_view(),
        }
    }
}

impl Default for RenderedDocument {
    fn default() -> (r: Self)
        ensures
            r@ == (RenderedV { paragraphs: Seq::empty(), tables: Seq::empty(), images: Seq::empty() }),
    {
        let r = RenderedDocument { paragraphs: Vec::new(), tables: Vec::new(), images: Vec::new() };
        proof {
            assert(r@.paragraphs =~= Seq::<WordParagraphV>::empty());
            assert(r@.tables =~= Seq::<WordTableV>::empty());
            assert(r@.images =~= Seq::<WordImageV>::empty());
        }
        r
    }
}

/// The position-marker paragraph that anchors table `table_id` in body order.
pub open spec fn table_marker_v(table_id: Seq<char>) -> WordParagraphV {
    WordParagraphV {
        id: "__tbl_pos_"@ + table_id + "__"@,
        text: "<__tbl_pos_"@ + table_id + "__>"@,
        style: None,
        runs: None,
        numbering: None,
        alignment: None,
        text_direction: None,
        page_break: None,
    }
}

/// A one-cell container table whose cell text is `marker` and whose
/// inner paragraphs are `paras`.
pub open spec fn container_v(table_id: Seq<char>, marker: Seq<char>, paras: Seq<WordParagraphV>) -> WordTableV {
    WordTableV {
        id: table_id,
        rows: seq![TableRowV { cells: seq![TableCellV { text: marker, col_span: 1, row_span: 1 }] }],
        cell_paragraphs: paras,
    }
}

/// `p` with an absent style replaced by `CalloutBody`.
pub open spec fn callout_styled(p: WordParagraphV) -> WordParagraphV {
    if p.style is None {
        WordParagraphV { style: Some("CalloutBody"@), ..p }
    } else {
        p
    }
}

/// What a rendered document becomes after a block's paragraphs and tables
/// are appended.
pub open spec fn append_v(d: RenderedV, paras: Seq<WordParagraphV>, tables: Seq<WordTableV>) -> RenderedV {
    RenderedV { paragraphs: d.paragraphs + paras, tables: d.tables + tables, images: d.images }
}

/// The paragraphs of a rendered callout block (or `None` when it has no body).
pub open spec fn callout_paras_v(
    t: DesignTokens,
    id: Seq<char>,
    level: CalloutLevelName,
    title: Seq<char>,
    body: Option<Seq<char>>,
    body_lines: Option<Seq<Seq<char>>>,
) -> Option<Seq<WordParagraphV>> {
    let lv = level_of(level);
    match body_lines {
        Some(lines) => Some(seq![callout_title_v(t, id, lv, title)] + Seq::new(
            lines.len(),
            |i: int| callout_line_v(t, item_id(id + "-body"@, i), lines[i]),
        )),
        None => match body {
            Some(b) => Some(seq![callout_title_v(t, id, lv, title), callout_line_v(t, id + "-body"@, b)]),
            None => None,
        },
    }
}

/// The language label paragraph of a code block.
pub open spec fn lang_para_v(t: DesignTokens, id: Seq<char>, lang: Seq<char>) -> WordParagraphV {
    WordParagraphV {
        id: id + "-lang"@,
        text: Seq::empty(),
        style: Some("CodeBlock"@),
        runs: Some(seq![run_v(lang, true, false, Some(t.palette.text_muted@), Some(t.fonts.caption_pt / 2), None)]),
        numbering: None,
        alignment: Some("right"@),
        text_direction: None,
        page_break: None,
    }
}

/// The inner paragraphs of a rendered code block.
pub open spec fn code_paras_v(t: DesignTokens, id: Seq<char>, lines: Seq<Seq<char>>, language: Option<Seq<char>>) -> Seq<WordParagraphV> {
    let body = Seq::new(lines.len(), |i: int| code_line_v(t, id, i, lines[i]));
    match language {
        Some(l) => seq![lang_para_v(t, id, l)] + body,
        None => body,
    }
}

/// The effect of rendering one block.
pub open spec fn render_one_v(b: ContentBlockV, t: DesignTokens, d: RenderedV) -> RenderedV {
    match b {
        ContentBlockV::Cover { id, title, subtitle } => append_v(d, cover_title_v(t, title, subtitle), Seq::empty()),
        ContentBlockV::Chapter { id, title } => append_v(d, seq![chapter_title_v(t, title)], Seq::empty()),
        ContentBlockV::Heading { id, level, text } => append_v(d, seq![heading_v(t, level, text)], Seq::empty()),
        ContentBlockV::Body { id, text, runs } => match runs {
            Some(rs) => append_v(
                d,
                seq![para_runs_v(id, Seq::new(rs.len(), |i: int| body_run_v(t, rs[i].text, rs[i].bold, rs[i].italic)), Some("BodyParagraph"@))],
                Seq::empty(),
            ),
            None => match text {
                Some(x) => append_v(d, seq![body_paragraph_v(t, id, x)], Seq::empty()),
                None => d,
            },
        },
        ContentBlockV::BulletList { id_prefix, items } => append_v(
            d,
            Seq::new(items.len(), |i: int| list_item_v(t, id_prefix, i, items[i], "ListBullet"@, 1)),
            Seq::empty(),
        ),
        ContentBlockV::OrderedList { id_prefix, items } => append_v(
            d,
            Seq::new(items.len(), |i: int| list_item_v(t, id_prefix, i, items[i], "ListNumber"@, 2)),
            Seq::empty(),
        ),
        ContentBlockV::Table { id, headers, rows, style } => append_v(
            d,
            Seq::empty(),
            seq![WordTableV { id, rows: styled_table_rows_v(t, headers, rows, resolve_style_v(style, t)), cell_paragraphs: Seq::empty() }],
        ),
        ContentBlockV::Callout { id, level, title, body, body_lines } => match callout_paras_v(t, id, level, title, body, body_lines) {
            Some(ps) => {
                let (bg, accent, label) = level_meta_v(level_of(level), t);
                let styled = ps.map_values(|p: WordParagraphV| callout_styled(p));
                append_v(
                    d,
                    seq![table_marker_v(id + "-box"@)] + styled,
                    seq![container_v(id + "-box"@, "__CALLOUT__|"@ + bg + "|"@ + accent, styled)],
                )
            },
            None => d,
        },
        ContentBlockV::Code { id, lines, language } => {
            let ps = code_paras_v(t, id, lines, language);
            append_v(
                d,
                seq![table_marker_v(id + "-box"@)] + ps,
                seq![container_v(id + "-box"@, "__CODE__|"@ + t.palette.code_bg@, ps)],
            )
        },
        ContentBlockV::PageBreak { id } => append_v(d, seq![page_break_v(id)], Seq::empty()),
    }
}

/// The effect of rendering a list of blocks in order.
pub open spec fn render_blocks_v(bs: Seq<ContentBlockV>, t: DesignTokens) -> RenderedV
    decreases bs.len(),
{
    if bs.len() == 0 {
        RenderedV { paragraphs: Seq::empty(), tables: Seq::empty(), images: Seq::empty() }
    } else {
        render_one_v(bs.last(), t, render_blocks_v(bs.drop_last(), t))
    }
}

/// The string slices of `v`.
fn strs_of(v: &Vec<String>) -> (r: Vec<&str>)
    ensures
        Seq::new(r@.len(), |i: int| r@[i]@) == v.deep_view(),
{
    let mut r: Vec<&str> = Vec::new();
    let mut i: usize = 0;
    while i < v.len()
        invariant
            i <= v@.len(),
            Seq::new(r@.len(), |k: int| r@[k]@) =~= v.deep_view().take(i as int),
        decreases v@.len() - i,
    {
        r.push(v[i].as_str());
        proof {
            assert(v.deep_view().take(i + 1) =~= v.deep_view().take(i as int).push(v@[i as int]@));
        }
        i = i + 1;
    }
    proof {
        assert(v.deep_view().take(v@.len() as int) =~= v.deep_view());
    }
    r
}

/// The position-marker paragraph for table `table_id`.
pub fn table_marker(table_id: &str) -> (p: WordParagraph)
    ensures
        p@ == table_marker_v(table_id@),
{
    let mut id = owned("__tbl_pos_");
    id.append(table_id);
    id.append("__");
    let mut text = owned("<__tbl_pos_");
    text.append(table_id);
    text.append("__>");
    WordParagraph {
        id,
        text,
        style: None,
        runs: None,
        numbering: None,
        alignment: None,
        text_direction: None,
        page_break: None,
    }
}

fn container(table_id: &String, marker: String, paras: Vec<WordParagraph>) -> (t: WordTable)
    ensures
        t@ == container_v(table_id@, marker@, paras.deep_view()),
{
    let cell = TableCell { text: marker, col_span: 1, row_span: 1 };
    let row = TableRow { cells: vec![cell] };
    let t = WordTable { id: table_id.clone(), rows: vec![row], cell_paragraphs: paras };
    proof {
        assert(t@.rows[0].cells =~= seq![TableCellV { text: marker@, col_span: 1, row_span: 1 }]);
        assert(t@.rows =~= container_v(table_id@, marker@, paras.deep_view()).rows);
    }
    t
}

fn append_paragraphs(out: &mut Vec<WordParagraph>, more: &Vec<WordParagraph>)
    ensures
        final(out).deep_view() == old(out).deep_view() + more.deep_view(),
{
    let mut i: usize = 0;
    while i < more.len()
        invariant
            i <= more@.len(),
            out.deep_view() =~= old(out).deep_view() + more.deep_view().take(i as int),
        decreases more@.len() - i,
    {
        let ghost old_o = out.deep_view();
        out.push(more[i].clone());
        proof {
            assert(out.deep_view() =~= old_o.push(more@[i as int]@));
            assert(more.deep_view().take(i + 1) =~= more.deep_view().take(i as int).push(more@[i as int]@));
        }
        i = i + 1;
    }
    proof {
        assert(more.deep_view().take(more@.len() as int) =~= more.deep_view());
    }
}

/// Appends a callout: its marker paragraph, its inner paragraphs (style
/// defaulting to `CalloutBody`), and its container table.
pub fn push_callout(out: &mut RenderedDocument, r: &CalloutRender)
    ensures
        final(out)@ == append_v(
            old(out)@,
            seq![table_marker_v(r.table_id@)] + r.paragraphs.deep_view().map_values(|p: WordParagraphV| callout_styled(p)),
            seq![container_v(
                r.table_id@,
                "__CALLOUT__|"@ + r.bg@ + "|"@ + r.accent@,
                r.paragraphs.deep_view().map_values(|p: WordParagraphV| callout_styled(p)),
            )],
        ),
{
    let mut paragraphs: Vec<WordParagraph> = Vec::new();
    let mut i: usize = 0;
    while i < r.paragraphs.len()
        invariant
            i <= r.paragraphs@.len(),
            paragraphs.deep_view() =~= r.paragraphs.deep_view().take(i as int).map_values(|p: WordParagraphV| callout_styled(p)),
        decreases r.paragraphs@.len() - i,
    {
        let mut p = r.paragraphs[i].clone();
        if p.style.is_none() {
            p.style = Some(owned("CalloutBody"));
        }
        let ghost old_p = paragraphs.deep_view();
        paragraphs.push(p);
        proof {
            assert(paragraphs.deep_view() =~= old_p.push(callout_styled(r.paragraphs@[i as int]@)));
            assert(r.paragraphs.deep_view().take(i + 1) =~= r.paragraphs.deep_view().take(i as int).push(r.paragraphs@[i as int]@));
        }
        i = i + 1;
    }
    proof {
        assert(r.paragraphs.deep_view().take(r.paragraphs@.len() as int) =~= r.paragraphs.deep_view());
    }
    let mut marker = owned("__CALLOUT__|");
    marker.append(r.bg.as_str());
    marker.append("|");
    marker.append(r.accent.as_str());
    let table = container(&r.table_id, marker, paragraphs.clone());
    out.paragraphs.push(table_marker(r.table_id.as_str()));
    append_paragraphs(&mut out.paragraphs, &paragraphs);
    out.tables.push(table);
    proof {
        assert(out@.paragraphs =~= old(out)@.paragraphs + (seq![table_marker_v(r.table_id@)] + paragraphs.deep_view()));
        assert(out@.tables =~= old(out)@.tables + seq![table@]);
    }
}

/// Appends a code block: its marker paragraph, its inner paragraphs and its
/// container table.
pub fn push_code(out: &mut RenderedDocument, r: &CodeBlockRender)
    ensures
        final(out)@ == append_v(
            old(out)@,
            seq![table_marker_v(r.table_id@)] + r.paragraphs.deep_view(),
            seq![container_v(r.table_id@, "__CODE__|"@ + r.bg@, r.paragraphs.deep_view())],
        ),
{
    let mut marker = owned("__CODE__|");
    marker.append(r.bg.as_str());
    let table = container(&r.table_id, marker, r.paragraphs.clone());
    out.paragraphs.push(table_marker(r.table_id.as_str()));
    append_paragraphs(&mut out.paragraphs, &r.paragraphs);
    out.tables.push(table);
    proof {
        assert(out@.paragraphs =~= old(out)@.paragraphs + (seq![table_marker_v(r.table_id@)] + r.paragraphs.deep_view()));
        assert(out@.tables =~= old(out)@.tables + seq![table@]);
    }
}

/// Renders a callout block; nothing is rendered when it has no body.
pub fn render_callout(
    tokens: &DesignTokens,
    id: &str,
    level: CalloutLevel,
    title: &str,
    body: Option<&str>,
    body_lines: Option<&Vec<String>>,
    out: &mut RenderedDocument,
) ensures
    ({
        let name = match level {
            CalloutLevel::Info => CalloutLevelName::Info,
            CalloutLevel::Warning => CalloutLevelName::Warning,
            CalloutLevel::Important => CalloutLevelName::Important,
            CalloutLevel::Tip => CalloutLevelName::Tip,
        };
        final(out)@ == render_one_v(
            ContentBlockV::Callout {
                id: id@,
                level: name,
                title: title@,
                body: match body { Some(b) => Some(b@), None => None },
                body_lines: match body_lines { Some(l) => Some(l.deep_view()), None => None },
            },
            *tokens,
            old(out)@,
        )
    }),
{
    let ghost name = match level {
        CalloutLevel::Info => CalloutLevelName::Info,
        CalloutLevel::Warning => CalloutLevelName::Warning,
        CalloutLevel::Important => CalloutLevelName::Important,
        CalloutLevel::Tip => CalloutLevelName::Tip,
    };
    assert(level_of(name) == level);
    let rendered = if let Some(lines) = body_lines {
        let strs = strs_of(lines);
        let r = callout_multiline(tokens, id, level, title, strs.as_slice());
        proof {
            let ps = callout_paras_v(*tokens, id@, name, title@, match body { Some(b) => Some(b@), None => None }, Some(lines.deep_view()));
            assert(r.paragraphs.deep_view() =~= ps.unwrap());
        }
        r
    } else if let Some(b) = body {
        callout_block(tokens, id, level, title, b)
    } else {
        return;
    };
    push_callout(out, &rendered);
}

/// Renders a code block, with a right-aligned language label first when given.
pub fn render_code(tokens: &DesignTokens, id: &str, lines: &Vec<String>, language: Option<&str>, out: &mut RenderedDocument)
    ensures
        final(out)@ == render_one_v(
            ContentBlockV::Code {
                id: id@,
                lines: lines.deep_view(),
                language: match language { Some(l) => Some(l@), None => None },
            },
            *tokens,
            old(out)@,
        ),
{
    let strs = strs_of(lines);
    let mut rendered = code_block(tokens, id, strs.as_slice());
    proof {
        assert(rendered.paragraphs.deep_view() =~= Seq::new(lines.deep_view().len(), |i: int| code_line_v(*tokens, id@, i, lines.deep_view()[i])));
    }
    if let Some(lang) = language {
        let lang_run = FontRun {
            text: owned(lang),
            bold: true,
            italic: false,
            underline: false,
            strikethrough: false,
            font_size: Some(tokens.fonts.caption_pt / 2),
            color: Some(tokens.palette.text_muted.clone()),
            font_name: None,
            highlight: None,
            vert_align: None,
            field: None,
            page_break: false,
            column_break: false,
        };
        let mut pid = owned(id);
        pid.append("-lang");
        let runs = vec![lang_run];
        let lang_para = WordParagraph {
            id: pid,
            text: String::new(),
            style: Some(owned("CodeBlock")),
            runs: Some(runs),
            numbering: None,
            alignment: Some(owned("right")),
            text_direction: None,
            page_break: None,
        };
        proof {
            assert(runs.deep_view() =~= lang_para_v(*tokens, id@, lang@).runs.unwrap());
        }
        let ghost old_ps = rendered.paragraphs.deep_view();
        rendered.paragraphs.insert(0, lang_para);
        proof {
            assert(rendered.paragraphs.deep_view() =~= seq![lang_para@] + old_ps);
        }
    }
    proof {
        let l = match language { Some(l) => Some(l@), None => None::<Seq<char>> };
        assert(rendered.paragraphs.deep_view() =~= code_paras_v(*tokens, id@, lines.deep_view(), l));
    }
    push_code(out, &rendered);
}

impl Default for ContentTableStyle {
    fn default() -> (r: Self)
        ensures
            r.view_style() == (TableStyleV {
                header_fill: None,
                zebra_fill: None,
                border_color: None,
                header_text_color: None,
                repeat_header: false,
                zebra: false,
            }),
    {
        ContentTableStyle {
            header_fill: None,
            zebra_fill: None,
            border_color: None,
            header_text_color: None,
            repeat_header: false,
            zebra: false,
        }
    }
}

fn rich_tuples(rs: &Vec<RichRun>) -> (r: Vec<(String, bool, bool)>)
    ensures
        r@.len() == rs@.len(),
        forall|i: int| 0 <= i < rs@.len() ==> r@[i].0@ == rs@[i].text@ && r@[i].1 == rs@[i].bold && r@[i].2 == rs@[i].italic,
{
    let mut r: Vec<(String, bool, bool)> = Vec::new();
    let mut i: usize = 0;
    while i < rs.len()
        invariant
            i <= rs@.len(),
            r@.len() == i,
            forall|k: int| 0 <= k < i ==> r@[k].0@ == rs@[k].text@ && r@[k].1 == rs@[k].bold && r@[k].2 == rs@[k].italic,
        decreases rs@.len() - i,
    {
        r.push((rs[i].text.clone(), rs[i].bold, rs[i].italic));
        i = i + 1;
    }
    r
}

/// Renders one block into `out`.
pub fn render_one(block: &ContentBlock, tokens: &DesignTokens, out: &mut RenderedDocument)
    ensures
        final(out)@ == render_one_v(block@, *tokens, old(out)@),
{
    match block {
        ContentBlock::Cover { id, title, subtitle } => {
            let sub = match subtitle {
                Some(s) => Some(s.as_str()),
                None => None,
            };
            let ps = cover_title(tokens, title.as_str(), sub);
            append_paragraphs(&mut out.paragraphs, &ps);
        },
        ContentBlock::Chapter { id, title } => {
            let ps = chapter_title(tokens, title.as_str());
            append_paragraphs(&mut out.paragraphs, &ps);
        },
        ContentBlock::Heading { id, level, text } => {
            let ps = heading(tokens, *level, text.as_str());
            append_paragraphs(&mut out.paragraphs, &ps);
        },
        ContentBlock::Body { id, text, runs } => {
            if let Some(rs) = runs {
                let tuples = rich_tuples(rs);
                let ps = body_runs(tokens, id.as_str(), tuples.as_slice());
                proof {
                    let rv = rs.deep_view();
                    assert(Seq::new(tuples@.len(), |i: int| body_run_v(*tokens, tuples@[i].0@, tuples@[i].1, tuples@[i].2))
                        =~= Seq::new(rv.len(), |i: int| body_run_v(*tokens, rv[i].text, rv[i].bold, rv[i].italic)));
                }
                append_paragraphs(&mut out.paragraphs, &ps);
            } else if let Some(t) = text {
                let ps = body_paragraph(tokens, id.as_str(), t.as_str());
                append_paragraphs(&mut out.paragraphs, &ps);
            }
        },
        ContentBlock::BulletList { id_prefix, items } => {
            let strs = strs_of(items);
            let ps = bulleted_list(tokens, id_prefix.as_str(), strs.as_slice());
            proof {
                let iv = items.deep_view();
                assert(ps.deep_view() =~= Seq::new(iv.len(), |i: int| list_item_v(*tokens, id_prefix@, i, iv[i], "ListBullet"@, 1)));
            }
            append_paragraphs(&mut out.paragraphs, &ps);
        },
        ContentBlock::OrderedList { id_prefix, items } => {
            let strs = strs_of(items);
            let ps = ordered_list(tokens, id_prefix.as_str(), strs.as_slice());
            proof {
                let iv = items.deep_view();
                assert(ps.deep_view() =~= Seq::new(iv.len(), |i: int| list_item_v(*tokens, id_prefix@, i, iv[i], "ListNumber"@, 2)));
            }
            append_paragraphs(&mut out.paragraphs, &ps);
        },
        ContentBlock::Table { id, headers, rows, style } => {
            let cs = match style {
                Some(s) => s.clone(),
                None => ContentTableStyle::default(),
            };
            let ts = cs.into_table_style(tokens);
            let h = strs_of(headers);
            let table = styled_table(tokens, id.as_str(), h.as_slice(), rows.as_slice(), &ts);
            proof {
                let sv = match style { Some(s) => Some(s.view_style()), None => None::<TableStyleV> };
                assert(ts@ == resolve_style_v(sv, *tokens));
                assert(Seq::new(rows@.len(), |i: int| rows@[i].deep_view()) =~= rows.deep_view());
                assert(Seq::new(h@.len(), |i: int| h@[i]@) =~= headers.deep_view());
            }
            let ghost old_t = out.tables.deep_view();
            out.tables.push(table);
            proof {
                assert(out.tables.deep_view() =~= old_t + seq![table@]);
            }
        },
        ContentBlock::Callout { id, level, title, body, body_lines } => {
            let b = match body {
                Some(x) => Some(x.as_str()),
                None => None,
            };
            let bl = match body_lines {
                Some(x) => Some(x),
                None => None,
            };
            render_callout(tokens, id.as_str(), level.into_level(), title.as_str(), b, bl, out);
        },
        ContentBlock::Code { id, lines, language } => {
            let l = match language {
                Some(x) => Some(x.as_str()),
                None => None,
            };
            render_code(tokens, id.as_str(), lines, l, out);
        },
        ContentBlock::PageBreak { id } => {
            let ps = page_break(id.as_str());
            append_paragraphs(&mut out.paragraphs, &ps);
        },
    }
}

/// Renders every block in order.
pub fn render_blocks(blocks: &[ContentBlock], tokens: &DesignTokens) -> (r: RenderedDocument)
    ensures
        r@ == render_blocks_v(blocks@.map_values(|b: ContentBlock| b@), *tokens),
{
    let mut out = RenderedDocument::default();
    let mut i: usize = 0;
    while i < blocks.len()
        invariant
            i <= blocks@.len(),
            out@ == render_blocks_v(blocks@.map_values(|b: ContentBlock| b@).take(i as int), *tokens),
        decreases blocks@.len() - i,
    {
        render_one(&blocks[i], tokens, &mut out);
        proof {
            let bs = blocks@.map_values(|b: ContentBlock| b@);
            assert(bs.take(i + 1).drop_last() =~= bs.take(i as int));
        }
        i = i + 1;
    }
    proof {
        let bs = blocks@.map_values(|b: ContentBlock| b@);
        assert(bs.take(blocks@.len() as int) =~= bs);
    }
    out
}

/// Top-level document content: optional title plus blocks.
pub struct DocumentContent {
    pub title: Option<String>,
    pub blocks: Vec<ContentBlock>,
}

impl DocumentContent {
    /// Content with no title.
    pub fn new(blocks: Vec<ContentBlock>) -> (r: Self)
        ensures
            r.title is None,
            r.blocks@ == blocks@,
    {
        DocumentContent { title: None, blocks }
    }
}

/// Renders a document's blocks with the default design tokens.
pub fn render_document(content: &DocumentContent) -> (r: RenderedDocument)
    ensures
        exists|t: DesignTokens| is_default_tokens(t) && r@ == render_blocks_v(content.blocks@.map_values(|b: ContentBlock| b@), t),
{
    let tokens = DesignTokens::default();
    render_blocks(content.blocks.as_slice(), &tokens)
}

} // verus!
