//! Styled table, callout and code-block container XML builders, and the
//! marker-row classification that routes a table to one of them.

use vstd::prelude::*;
use crate::components::{decode_table_style, decode_table_style_v, TableStyle, TableStyleV};
use crate::model::{TableRow, TableRowV, TableCellV};
use crate::text::{chars_of, dec, escape_xml, owned, push_dec, seq_starts_with, spec_escape_xml, spec_split, split_char, string_of_range};

verus! {

/// Marker prefix of style metadata rows.
pub const STYLE_MARKER_PREFIX: &'static str = "__STYLE__|";
/// Marker prefix of callout container tables.
pub const CALLOUT_MARKER_PREFIX: &'static str = "__CALLOUT__|";
/// Marker prefix of code-block container tables.
pub const CODE_MARKER_PREFIX: &'static str = "__CODE__|";

/// Which builder renders a table.
pub enum TableKind {
    /// Brand-styled table.
    Styled(Box<TableStyle>),
    /// Callout container: `bg` fill, `accent` left border.
    Callout { bg: String, accent: String },
    /// Code-block container: uniform `bg` fill.
    Code { bg: String },
    /// No recognised marker.
    Plain,
}

/// Model of a [`TableKind`].
pub enum TableKindV {
    Styled(TableStyleV),
    Callout { bg: Seq<char>, accent: Seq<char> },
    Code { bg: Seq<char> },
    Plain,
}

impl View for TableKind {
    type V = TableKindV;

    open spec fn view(&self) -> TableKindV {
        match self {
            TableKind::Styled(s) => TableKindV::Styled(s@),
            TableKind::Callout { bg, accent } => TableKindV::Callout { bg: bg@, accent: accent@ },
            TableKind::Code { bg } => TableKindV::Code { bg: bg@ },
            TableKind::Plain => TableKindV::Plain,
        }
    }
}

/// `s` with every leading occurrence of `p` removed (`trim_start_matches`).
pub open spec fn trim_start_v(s: Seq<char>, p: Seq<char>) -> Seq<char>
    decreases s.len(),
{
    if p.len() > 0 && p.is_prefix_of(s) {
        trim_start_v(s.subrange(p.len() as int, s.len() as int), p)
    } else {
        s
    }
}

/// Removes every leading occurrence of `p` from `s`.
pub fn trim_start_matches(s: &str, p: &str) -> (r: String)
    ensures
        r@ == trim_start_v(s@, p@),
{
    let v = chars_of(s);
    let pv = chars_of(p);
    let mut at: usize = 0;
    assert(v@.subrange(0, v@.len() as int) =~= v@);
    if pv.len() > 0 {
        while seq_starts_with(v.as_slice(), at, pv.as_slice())
            invariant
                pv@.len() > 0,
                pv@.len() == pv.len(),
                v@.len() == v.len(),
                at <= v@.len(),
                trim_start_v(v@.subrange(at as int, v@.len() as int), pv@) == trim_start_v(v@, pv@),
            decreases v@.len() - at,
        {
            proof {
                let rest = v@.subrange(at as int, v@.len() as int);
                assert(pv@.is_prefix_of(rest));
                assert(pv@.len() <= rest.len());
                assert(rest.subrange(pv@.len() as int, rest.len() as int)
                    =~= v@.subrange(at + pv@.len(), v@.len() as int));
            }
            at = at + pv.len();
        }
    } else {
        assert(v@.subrange(0, v@.len() as int) =~= v@);
    }
    let r = string_of_range(v.as_slice(), at, v.len());
    proof {
        if pv@.len() == 0 {
            assert(v@.subrange(0, v@.len() as int) =~= v@);
        }
    }
    r
}

/// How a table's rows classify, and the rows left once the marker row is stripped.
pub open spec fn classify_v(rows: Seq<TableRowV>) -> (TableKindV, Seq<TableRowV>) {
    if rows.len() > 0 && rows[0].cells.len() > 0 {
        let text = rows[0].cells[0].text;
        if "__STYLE__|"@.is_prefix_of(text) {
            match decode_table_style_v(rows) {
                Some((s, c)) => (TableKindV::Styled(s), rows.subrange(1, rows.len() as int)),
                None => (TableKindV::Plain, rows),
            }
        } else if "__CALLOUT__|"@.is_prefix_of(text) {
            let parts = spec_split(trim_start_v(text, "__CALLOUT__|"@), '|');
            (
                TableKindV::Callout { bg: parts[0], accent: if parts.len() > 1 { parts[1] } else { Seq::empty() } },
                rows.subrange(1, rows.len() as int),
            )
        } else if "__CODE__|"@.is_prefix_of(text) {
            (TableKindV::Code { bg: trim_start_v(text, "__CODE__|"@) }, rows.subrange(1, rows.len() as int))
        } else {
            (TableKindV::Plain, rows)
        }
    } else {
        (TableKindV::Plain, rows)
    }
}

fn rows_from(rows: &[TableRow], from: usize) -> (r: Vec<TableRow>)
    requires
        from <= rows@.len(),
    ensures
        r.deep_view() == rows.deep_view().subrange(from as int, rows@.len() as int),
{
    let mut r: Vec<TableRow> = Vec::new();
    let mut i = from;
    while i < rows.len()
        invariant
            from <= i <= rows@.len(),
            r.deep_view() =~= rows.deep_view().subrange(from as int, i as int),
        decreases rows@.len() - i,
    {
        let ghost old_r = r.deep_view();
        r.push(rows[i].clone());
        proof {
            assert(r.deep_view() =~= old_r.push(rows@[i as int]@));
        }
        i = i + 1;
    }
    r
}

/// Classifies `rows` by the marker in their first cell and strips the marker row.
pub fn classify_and_strip(rows: &[TableRow]) -> (r: (TableKind, Vec<TableRow>))
    ensures
        (r.0@, r.1.deep_view()) == classify_v(rows.deep_view()),
{
    if rows.len() > 0 && rows[0].cells.len() > 0 {
        let text = rows[0].cells[0].text.as_str();
        proof {
            assert(rows.deep_view()[0].cells[0].text == text@);
        }
        let tv = chars_of(text);
        let sp = chars_of(STYLE_MARKER_PREFIX);
        let cp = chars_of(CALLOUT_MARKER_PREFIX);
        let dp = chars_of(CODE_MARKER_PREFIX);
        proof {
            assert(tv@.subrange(0, tv@.len() as int) =~= tv@);
        }
        if seq_starts_with(tv.as_slice(), 0, sp.as_slice()) {
            match decode_table_style(rows) {
                Some((style, _header_color)) => {
                    return (TableKind::Styled(Box::new(style)), rows_from(rows, 1));
                },
                None => {},
            }
        } else if seq_starts_with(tv.as_slice(), 0, cp.as_slice()) {
            let rest = rows_from(rows, 1);
            let payload = trim_start_matches(text, CALLOUT_MARKER_PREFIX);
            let parts = split_char(payload.as_str(), '|');
            proof {
                crate::text::lemma_split_nonempty(payload@, '|');
            }
            let bg = parts[0].clone();
            let accent = if parts.len() > 1 { parts[1].clone() } else { String::new() };
            return (TableKind::Callout { bg, accent }, rest);
        } else if seq_starts_with(tv.as_slice(), 0, dp.as_slice()) {
            let rest = rows_from(rows, 1);
            let bg = trim_start_matches(text, CODE_MARKER_PREFIX);
            return (TableKind::Code { bg }, rest);
        }
    }
    let all = rows_from(rows, 0);
    proof {
        assert(rows.deep_view().subrange(0, rows@.len() as int) =~= rows.deep_view());
    }
    (TableKind::Plain, all)
}

// ─── XML fragments ─────────────────────────────────────────────────────────

/// `<w:TAG w:val="single" w:sz="SZ" w:space="0" w:color="COLOR"/>`.
pub open spec fn border_v(tag: Seq<char>, sz: Seq<char>, color: Seq<char>) -> Seq<char> {
    "<w:"@ + tag + " w:val=\"single\" w:sz=\""@ + sz + "\" w:space=\"0\" w:color=\""@ + color + "\"/>"@
}

/// Appends one border element.
pub fn push_border(out: &mut String, tag: &str, sz: &str, color: &str)
    ensures
        final(out)@ == old(out)@ + border_v(tag@, sz@, color@),
{
    out.append("<w:");
    out.append(tag);
    out.append(" w:val=\"single\" w:sz=\"");
    out.append(sz);
    out.append("\" w:space=\"0\" w:color=\"");
    out.append(color);
    out.append("\"/>");
    assert(out@ =~= old(out)@ + border_v(tag@, sz@, color@));
}

/// Top, left, bottom and right borders.
pub open spec fn borders4_v(sz: Seq<char>, color: Seq<char>) -> Seq<char> {
    border_v("top"@, sz, color) + border_v("left"@, sz, color) + border_v("bottom"@, sz, color) + border_v("right"@, sz, color)
}

/// The four outer borders plus the two inner ones.
pub open spec fn borders6_v(sz: Seq<char>, color: Seq<char>) -> Seq<char> {
    borders4_v(sz, color) + border_v("insideH"@, sz, color) + border_v("insideV"@, sz, color)
}

/// Appends the four outer borders.
pub fn push_borders4(out: &mut String, sz: &str, color: &str)
    ensures
        final(out)@ == old(out)@ + borders4_v(sz@, color@),
{
    push_border(out, "top", sz, color);
    push_border(out, "left", sz, color);
    push_border(out, "bottom", sz, color);
    push_border(out, "right", sz, color);
    assert(out@ =~= old(out)@ + borders4_v(sz@, color@));
}

/// Appends the six table borders.
pub fn push_borders6(out: &mut String, sz: &str, color: &str)
    ensures
        final(out)@ == old(out)@ + borders6_v(sz@, color@),
{
    push_borders4(out, sz, color);
    push_border(out, "insideH", sz, color);
    push_border(out, "insideV", sz, color);
    assert(out@ =~= old(out)@ + borders6_v(sz@, color@));
}

/// `"1"` when set, `"0"` otherwise.
pub open spec fn bit(b: bool) -> Seq<char> {
    if b { "1"@ } else { "0"@ }
}

fn push_bit(out: &mut String, b: bool)
    ensures
        final(out)@ == old(out)@ + bit(b),
{
    if b { out.append("1") } else { out.append("0") }
}

/// A cell shading element with fill `fill`.
pub open spec fn shd_v(fill: Seq<char>) -> Seq<char> {
    "<w:shd w:val=\"clear\" w:color=\"auto\" w:fill=\""@ + fill + "\"/>"@
}

fn push_shd(out: &mut String, fill: &str)
    ensures
        final(out)@ == old(out)@ + shd_v(fill@),
{
    out.append("<w:shd w:val=\"clear\" w:color=\"auto\" w:fill=\"");
    out.append(fill);
    out.append("\"/>");
    assert(out@ =~= old(out)@ + shd_v(fill@));
}

// ─── Styled tables ──────────────────────────────────────────────────────────

/// Whether body rows are zebra-striped.
pub open spec fn has_zebra_v(s: TableStyleV) -> bool {
    s.zebra && s.zebra_fill is Some
}

/// The border colour of a styled table (`DDDDDD` by default).
pub open spec fn border_color_v(s: TableStyleV) -> Seq<char> {
    match s.border_color {
        Some(c) => c,
        None => "DDDDDD"@,
    }
}

/// Table-level properties of a styled table.
pub open spec fn styled_head_v(s: TableStyleV) -> Seq<char> {
    "\n    <w:tbl>\n      <w:tblPr><w:tblStyle w:val=\"BrandTable\"/><w:tblW w:type=\"dxa\" w:w=\"9360\"/><w:tblInd w:type=\"dxa\" w:w=\"120\"/><w:tblLayout w:type=\"fixed\"/><w:tblLook w:firstColumn=\""@
        + bit(has_zebra_v(s)) + "\" w:firstRow=\"1\" w:lastColumn=\"0\" w:lastRow=\"0\" w:noHBand=\""@
        + bit(!has_zebra_v(s)) + "\" w:noVBand=\"1\" w:val=\"04A0\"/><w:tblBorders>"@
        + borders6_v("5"@, border_color_v(s))
        + "</w:tblBorders><w:tblCellMar><w:top w:w=\"100\" w:type=\"dxa\"/><w:left w:w=\"140\" w:type=\"dxa\"/><w:bottom w:w=\"100\" w:type=\"dxa\"/><w:right w:w=\"140\" w:type=\"dxa\"/></w:tblCellMar></w:tblPr>"@
}

/// Width of grid column `i` of an `n`-column styled table.
pub open spec fn grid_width(n: nat, i: int) -> nat {
    if n == 2 {
        if i == 0 { 2304 } else { 7056 }
    } else if n == 3 {
        if i == 0 { 2304 } else if i == 1 { 3024 } else { 4032 }
    } else {
        9360nat / n
    }
}

/// The first `k` `<w:gridCol>` elements of an `n`-column styled table.
pub open spec fn grid_cols_v(n: nat, k: nat) -> Seq<char>
    decreases k,
{
    if k == 0 {
        Seq::empty()
    } else {
        grid_cols_v(n, (k - 1) as nat) + "<w:gridCol w:w=\""@ + dec(grid_width(n, k - 1)) + "\"/>"@
    }
}

/// The `<w:tblGrid>` of an `n`-column styled table (nothing for zero columns).
pub open spec fn styled_grid_v(n: nat) -> Seq<char> {
    if n == 0 {
        Seq::empty()
    } else {
        "\n      <w:tblGrid>"@ + grid_cols_v(n, n) + "</w:tblGrid>"@
    }
}

fn grid_width_exec(n: usize, i: usize) -> (w: u32)
    requires
        n > 0,
    ensures
        w as nat == grid_width(n as nat, i as int),
{
    if n == 2 {
        if i == 0 { 2304 } else { 7056 }
    } else if n == 3 {
        if i == 0 { 2304 } else if i == 1 { 3024 } else { 4032 }
    } else {
        (9360 / n) as u32
    }
}

/// Width of cell `ci` of a row of an `n`-column styled table, before spanning.
pub open spec fn cell_width(n: nat, ci: int) -> nat {
    if n == 2 {
        if ci == 0 { 2304 } else { 7056 }
    } else if n == 3 {
        if ci == 0 { 2304 } else if ci == 1 { 3024 } else { 4032 }
    } else if n == 0 {
        9360
    } else {
        9360nat / n
    }
}

/// `x` or 1, whichever is larger.
pub open spec fn at_least_one(x: usize) -> usize {
    if x < 1 { 1 } else { x }
}

/// The fill of row `idx`: header fill, zebra fill on even body rows, else none.
pub open spec fn row_fill_v(s: TableStyleV, idx: int) -> Option<Seq<char>> {
    if idx == 0 {
        s.header_fill
    } else if has_zebra_v(s) && idx % 2 == 0 {
        s.zebra_fill
    } else {
        None
    }
}

/// The runs of one line of styled cell text.
pub open spec fn cell_line_v(line: Seq<char>, i: int, is_header: bool, s: TableStyleV) -> Seq<char> {
    let color = if is_header {
        match s.header_text_color { Some(c) => c, None => "FFFFFF"@ }
    } else {
        "2A2A2A"@
    };
    (if i > 0 { "<w:r><w:br/></w:r>"@ } else { Seq::empty() }) + (if line.len() == 0 {
        Seq::empty()
    } else {
        "<w:r><w:rPr>"@ + (if is_header { "<w:b/>"@ } else { Seq::empty() }) + "<w:color w:val=\""@ + color
            + "\"/><w:sz w:val=\"18\"/><w:szCs w:val=\"18\"/></w:rPr><w:t xml:space=\"preserve\">"@
            + spec_escape_xml(line) + "</w:t></w:r>"@
    })
}

/// The runs of the first `k` lines.
pub open spec fn cell_lines_v(lines: Seq<Seq<char>>, k: nat, is_header: bool, s: TableStyleV) -> Seq<char>
    decreases k,
{
    if k == 0 {
        Seq::empty()
    } else {
        cell_lines_v(lines, (k - 1) as nat, is_header, s) + cell_line_v(lines[k - 1], k - 1, is_header, s)
    }
}

/// The runs of a styled cell's text: one per line, separated by line breaks.
pub open spec fn cell_text_v(text: Seq<char>, is_header: bool, s: TableStyleV) -> Seq<char> {
    let lines = spec_split(text, '\n');
    cell_lines_v(lines, lines.len(), is_header, s)
}

/// Renders styled cell text (bold white header text or dark body text).
pub fn render_cell_text(xml: &mut String, text: &str, is_header: bool, style: &TableStyle)
    ensures
        final(xml)@ == old(xml)@ + cell_text_v(text@, is_header, style@),
{
    let color = if is_header {
        match &style.header_text_color {
            Some(c) => c.clone(),
            None => owned("FFFFFF"),
        }
    } else {
        owned("2A2A2A")
    };
    let lines = split_char(text, '\n');
    let ghost lv = spec_split(text@, '\n');
    let mut i: usize = 0;
    while i < lines.len()
        invariant
            i <= lines@.len(),
            lines.deep_view() == lv,
            color@ == (if is_header {
                match style@.header_text_color { Some(c) => c, None => "FFFFFF"@ }
            } else {
                "2A2A2A"@
            }),
            xml@ == old(xml)@ + cell_lines_v(lv, i as nat, is_header, style@),
        decreases lines@.len() - i,
    {
        let ghost before = xml@;
        if i > 0 {
            xml.append("<w:r><w:br/></w:r>");
        }
        let line = lines[i].as_str();
        let lc = chars_of(line);
        if lc.len() != 0 {
            xml.append("<w:r><w:rPr>");
            if is_header {
                xml.append("<w:b/>");
            }
            xml.append("<w:color w:val=\"");
            xml.append(color.as_str());
            xml.append("\"/><w:sz w:val=\"18\"/><w:szCs w:val=\"18\"/></w:rPr><w:t xml:space=\"preserve\">");
            let esc = escape_xml(line);
            xml.append(esc.as_str());
            xml.append("</w:t></w:r>");
        }
        proof {
            assert(lv[i as int] == line@);
            assert(xml@ =~= before + cell_line_v(lv[i as int], i as int, is_header, style@));
        }
        i = i + 1;
    }
}

/// The opening of a styled cell: span, merge, width, margins and alignment.
pub open spec fn styled_cell_head_v(c: TableCellV, ci: int, n: nat) -> Seq<char> {
    let cs = at_least_one(c.col_span);
    let rs = at_least_one(c.row_span);
    "<w:tc><w:tcPr>"@
        + (if cs > 1 { "<w:gridSpan w:val=\""@ + dec(cs as nat) + "\"/>"@ } else { Seq::empty() })
        + (if rs > 1 { "<w:vMerge w:val=\"restart\"/>"@ } else { Seq::empty() })
        + "<w:tcW w:type=\"dxa\" w:w=\""@ + dec(cell_width(n, ci) * ((cs as u32) as nat))
        + "\"/><w:tcMar><w:top w:w=\"100\" w:type=\"dxa\"/><w:left w:w=\"120\" w:type=\"dxa\"/><w:bottom w:w=\"100\" w:type=\"dxa\"/><w:right w:w=\"120\" w:type=\"dxa\"/></w:tcMar><w:vAlign w:val=\"center\"/>"@
}

/// The fill and borders of a styled cell.
pub open spec fn styled_cell_frame_v(fill: Option<Seq<char>>, n: nat, bc: Seq<char>) -> Seq<char> {
    (match fill { Some(f) => shd_v(f), None => Seq::empty() })
        + "<w:tcBorders>"@ + borders4_v("5"@, bc)
        + (if n > 1 { border_v("insideH"@, "5"@, bc) + border_v("insideV"@, "5"@, bc) } else { Seq::empty() })
        + "</w:tcBorders></w:tcPr><w:p>"@
}

/// One cell of a styled table.
#[verifier::opaque]
pub open spec fn styled_cell_v(c: TableCellV, ci: int, is_header: bool, fill: Option<Seq<char>>, n: nat, s: TableStyleV) -> Seq<char> {
    styled_cell_head_v(c, ci, n) + styled_cell_frame_v(fill, n, border_color_v(s)) + cell_text_v(c.text, is_header, s) + "</w:p></w:tc>"@
}

/// The first `k` cells of a styled row.
pub open spec fn styled_cells_v(cells: Seq<TableCellV>, k: nat, is_header: bool, fill: Option<Seq<char>>, n: nat, s: TableStyleV) -> Seq<char>
    decreases k,
{
    if k == 0 {
        Seq::empty()
    } else {
        styled_cells_v(cells, (k - 1) as nat, is_header, fill, n, s) + styled_cell_v(cells[k - 1], k - 1, is_header, fill, n, s)
    }
}

/// Row `idx` of a styled table.
pub open spec fn styled_row_v(row: TableRowV, idx: int, n: nat, s: TableStyleV) -> Seq<char> {
    let is_header = idx == 0;
    let header_repeat = is_header && s.repeat_header;
    "\n        <w:tr>"@
        + (if header_repeat || has_zebra_v(s) {
            "<w:trPr>"@ + (if header_repeat { "<w:tblHeader/>"@ } else { Seq::empty() }) + "</w:trPr>"@
        } else {
            Seq::empty()
        })
        + styled_cells_v(row.cells, row.cells.len(), is_header, row_fill_v(s, idx), n, s)
        + "</w:tr>"@
}

/// The first `k` rows of a styled table.
pub open spec fn styled_rows_v(rows: Seq<TableRowV>, k: nat, n: nat, s: TableStyleV) -> Seq<char>
    decreases k,
{
    if k == 0 {
        Seq::empty()
    } else {
        styled_rows_v(rows, (k - 1) as nat, n, s) + styled_row_v(rows[k - 1], k - 1, n, s)
    }
}

/// The column count of a table: the cell count of its first row.
pub open spec fn col_count_v(rows: Seq<TableRowV>) -> nat {
    if rows.len() == 0 { 0 } else { rows[0].cells.len() }
}

/// The XML of a styled table.
pub open spec fn styled_table_xml_v(rows: Seq<TableRowV>, s: TableStyleV) -> Seq<char> {
    let n = col_count_v(rows);
    styled_head_v(s) + styled_grid_v(n) + styled_rows_v(rows, rows.len(), n, s) + "\n    </w:tbl>"@
}

/// The cell widths of a styled table fit in `u32`.
pub open spec fn styled_widths_fit(rows: Seq<TableRowV>) -> bool {
    forall|r: int, c: int|
        0 <= r < rows.len() && 0 <= c < rows[r].cells.len() ==>
            cell_width(col_count_v(rows), c) * ((at_least_one(#[trigger] rows[r].cells[c].col_span) as u32) as nat) <= u32::MAX
}

fn styled_cell_total(col_span_raw: usize, ci: usize, n: usize) -> (total: u32)
    requires
        cell_width(n as nat, ci as int) * ((at_least_one(col_span_raw) as u32) as nat) <= u32::MAX,
    ensures
        total as nat == cell_width(n as nat, ci as int) * ((at_least_one(col_span_raw) as u32) as nat),
{
    let col_span = if col_span_raw < 1 { 1 } else { col_span_raw };
    let cw: u32 = if n == 2 {
        if ci == 0 { 2304 } else { 7056 }
    } else if n == 3 {
        if ci == 0 { 2304 } else if ci == 1 { 3024 } else { 4032 }
    } else if n == 0 {
        9360
    } else {
        (9360 / n) as u32
    };
    assert(cw as nat == cell_width(n as nat, ci as int));
    assert(col_span == at_least_one(col_span_raw));
    let cs32 = col_span as u32;
    assert(cw as nat * cs32 as nat <= u32::MAX);
    cw * cs32
}

fn styled_cell_head(xml: &mut String, col_span_raw: usize, row_span_raw: usize, ci: usize, n: usize)
    requires
        cell_width(n as nat, ci as int) * ((at_least_one(col_span_raw) as u32) as nat) <= u32::MAX,
    ensures
        final(xml)@ == old(xml)@ + styled_cell_head_v(TableCellV { text: Seq::empty(), col_span: col_span_raw, row_span: row_span_raw }, ci as int, n as nat),
{
    let total = styled_cell_total(col_span_raw, ci, n);
    let col_span = if col_span_raw < 1 { 1 } else { col_span_raw };
    let row_span = if row_span_raw < 1 { 1 } else { row_span_raw };
    let ghost o0 = xml@;
    xml.append("<w:tc><w:tcPr>");
    if col_span > 1 {
        xml.append("<w:gridSpan w:val=\"");
        push_dec(xml, col_span as u64);
        xml.append("\"/>");
    }
    if row_span > 1 {
        xml.append("<w:vMerge w:val=\"restart\"/>");
    }
    xml.append("<w:tcW w:type=\"dxa\" w:w=\"");
    push_dec(xml, total as u64);
    xml.append("\"/><w:tcMar><w:top w:w=\"100\" w:type=\"dxa\"/><w:left w:w=\"120\" w:type=\"dxa\"/><w:bottom w:w=\"100\" w:type=\"dxa\"/><w:right w:w=\"120\" w:type=\"dxa\"/></w:tcMar><w:vAlign w:val=\"center\"/>");
    assert(xml@ =~= o0 + styled_cell_head_v(TableCellV { text: Seq::empty(), col_span: col_span_raw, row_span: row_span_raw }, ci as int, n as nat));
}

fn styled_cell_frame(xml: &mut String, fill: &Option<String>, n: usize, bc: &str)
    ensures
        final(xml)@ == old(xml)@ + styled_cell_frame_v(fill.deep_view(), n as nat, bc@),
{
    match fill {
        Some(f) => push_shd(xml, f.as_str()),
        None => {},
    }
    xml.append("<w:tcBorders>");
    push_borders4(xml, "5", bc);
    if n > 1 {
        push_border(xml, "insideH", "5", bc);
        push_border(xml, "insideV", "5", bc);
    }
    xml.append("</w:tcBorders></w:tcPr><w:p>");
    assert(xml@ =~= old(xml)@ + styled_cell_frame_v(fill.deep_view(), n as nat, bc@));
}

fn styled_cell(xml: &mut String, cell: &crate::model::TableCell, ci: usize, is_header: bool, fill: &Option<String>, n: usize, style: &TableStyle, bc: &str)
    requires
        cell_width(n as nat, ci as int) * ((at_least_one(cell.col_span) as u32) as nat) <= u32::MAX,
        bc@ == border_color_v(style@),
    ensures
        final(xml)@ == old(xml)@ + styled_cell_v(cell@, ci as int, is_header, fill.deep_view(), n as nat, style@),
{
    styled_cell_head(xml, cell.col_span, cell.row_span, ci, n);
    styled_cell_frame(xml, fill, n, bc);
    render_cell_text(xml, cell.text.as_str(), is_header, style);
    xml.append("</w:p></w:tc>");
    assert(styled_cell_head_v(TableCellV { text: Seq::empty(), col_span: cell.col_span, row_span: cell.row_span }, ci as int, n as nat)
        == styled_cell_head_v(cell@, ci as int, n as nat));
    reveal(styled_cell_v);
    assert(xml@ =~= old(xml)@ + styled_cell_v(cell@, ci as int, is_header, fill.deep_view(), n as nat, style@));
}

fn styled_row(xml: &mut String, row: &TableRow, idx: usize, n: usize, style: &TableStyle, bc: &str, has_zebra: bool)
    requires
        forall|c: int| 0 <= c < row@.cells.len() ==>
            cell_width(n as nat, c) * ((at_least_one(#[trigger] row@.cells[c].col_span) as u32) as nat) <= u32::MAX,
        bc@ == border_color_v(style@),
        has_zebra == has_zebra_v(style@),
    ensures
        final(xml)@ == old(xml)@ + styled_row_v(row@, idx as int, n as nat, style@),
{
    let is_header = idx == 0;
    let header_repeat = is_header && style.repeat_header;
    let fill: Option<String> = if is_header {
        style.header_fill.clone()
    } else if has_zebra && idx % 2 == 0 {
        style.zebra_fill.clone()
    } else {
        None
    };
    xml.append("\n        <w:tr>");
    if header_repeat || has_zebra {
        xml.append("<w:trPr>");
        if header_repeat {
            xml.append("<w:tblHeader/>");
        }
        xml.append("</w:trPr>");
    }
    let ghost mid = xml@;
    let mut ci: usize = 0;
    while ci < row.cells.len()
        invariant
            ci <= row.cells@.len(),
            forall|c: int| 0 <= c < row@.cells.len() ==>
                cell_width(n as nat, c) * ((at_least_one(#[trigger] row@.cells[c].col_span) as u32) as nat) <= u32::MAX,
            bc@ == border_color_v(style@),
            fill.deep_view() == row_fill_v(style@, idx as int),
            xml@ == mid + styled_cells_v(row@.cells, ci as nat, is_header, fill.deep_view(), n as nat, style@),
        decreases row.cells@.len() - ci,
    {
        proof {
            assert(row@.cells[ci as int] == row.cells@[ci as int]@);
            assert(cell_width(n as nat, ci as int) * ((at_least_one(row@.cells[ci as int].col_span) as u32) as nat) <= u32::MAX);
        }
        styled_cell(xml, &row.cells[ci], ci, is_header, &fill, n, style, bc);
        ci = ci + 1;
    }
    xml.append("</w:tr>");
    proof {
        assert(xml@ =~= old(xml)@ + styled_row_v(row@, idx as int, n as nat, style@));
    }
}

/// Renders a styled table: brand table properties, grid, per-row fills,
/// optional repeating header row.
pub fn build_styled_table_xml(table_id: &str, rows: &[TableRow], style: &TableStyle) -> (xml: String)
    requires
        styled_widths_fit(rows.deep_view()),
    ensures
        xml@ == styled_table_xml_v(rows.deep_view(), style@),
{
    let ghost rv = rows.deep_view();
    let mut xml = String::new();
    let has_zebra = style.zebra && style.zebra_fill.is_some();
    let bc = match &style.border_color {
        Some(c) => c.clone(),
        None => owned("DDDDDD"),
    };
    xml.append("\n    <w:tbl>\n      <w:tblPr><w:tblStyle w:val=\"BrandTable\"/><w:tblW w:type=\"dxa\" w:w=\"9360\"/><w:tblInd w:type=\"dxa\" w:w=\"120\"/><w:tblLayout w:type=\"fixed\"/><w:tblLook w:firstColumn=\"");
    push_bit(&mut xml, has_zebra);
    xml.append("\" w:firstRow=\"1\" w:lastColumn=\"0\" w:lastRow=\"0\" w:noHBand=\"");
    push_bit(&mut xml, !has_zebra);
    xml.append("\" w:noVBand=\"1\" w:val=\"04A0\"/><w:tblBorders>");
    push_borders6(&mut xml, "5", bc.as_str());
    xml.append("</w:tblBorders><w:tblCellMar><w:top w:w=\"100\" w:type=\"dxa\"/><w:left w:w=\"140\" w:type=\"dxa\"/><w:bottom w:w=\"100\" w:type=\"dxa\"/><w:right w:w=\"140\" w:type=\"dxa\"/></w:tblCellMar></w:tblPr>");
    proof {
        assert(xml@ =~= styled_head_v(style@));
    }
    let n: usize = if rows.len() == 0 { 0 } else { rows[0].cells.len() };
    proof {
        assert(n as nat == col_count_v(rv));
    }
    if n > 0 {
        xml.append("\n      <w:tblGrid>");
        let mut i: usize = 0;
        while i < n
            invariant
                n > 0,
                i <= n,
                xml@ == styled_head_v(style@) + "\n      <w:tblGrid>"@ + grid_cols_v(n as nat, i as nat),
            decreases n - i,
        {
            xml.append("<w:gridCol w:w=\"");
            push_dec(&mut xml, grid_width_exec(n, i) as u64);
            xml.append("\"/>");
            proof {
                assert(xml@ =~= styled_head_v(style@) + "\n      <w:tblGrid>"@ + grid_cols_v(n as nat, (i + 1) as nat));
            }
            i = i + 1;
        }
        xml.append("</w:tblGrid>");
    }
    proof {
        assert(xml@ =~= styled_head_v(style@) + styled_grid_v(n as nat));
    }
    let ghost head = xml@;
    let mut idx: usize = 0;
    while idx < rows.len()
        invariant
            idx <= rows@.len(),
            rv == rows.deep_view(),
            n as nat == col_count_v(rv),
            styled_widths_fit(rv),
            bc@ == border_color_v(style@),
            has_zebra == has_zebra_v(style@),
            xml@ == head + styled_rows_v(rv, idx as nat, n as nat, style@),
        decreases rows@.len() - idx,
    {
        proof {
            assert forall|c: int| 0 <= c < rows@[idx as int]@.cells.len() implies
                cell_width(n as nat, c) * ((at_least_one(#[trigger] rows@[idx as int]@.cells[c].col_span) as u32) as nat) <= u32::MAX by {
                assert(rv[idx as int].cells[c] == rows@[idx as int]@.cells[c]);
            }
        }
        styled_row(&mut xml, &rows[idx], idx, n, style, bc.as_str(), has_zebra);
        idx = idx + 1;
    }
    xml.append("\n    </w:tbl>");
    proof {
        assert(xml@ =~= styled_table_xml_v(rv, style@));
    }
    xml
}

// ─── Callout and code-block containers ──────────────────────────────────────

/// Opening of a callout container: full-width one-cell table with `bg`
/// fill, thin `bg` borders and a thick `accent` left border.
pub open spec fn callout_container_v(bg: Seq<char>, accent: Seq<char>) -> Seq<char> {
    "<w:tbl><w:tblPr><w:tblW w:type=\"pct\" w:w=\"5000\"/><w:tblInd w:type=\"dxa\" w:w=\"0\"/><w:tblLayout w:type=\"fixed\"/><w:tblBorders>"@
        + border_v("top"@, "4"@, bg) + border_v("left"@, "24"@, accent) + border_v("bottom"@, "4"@, bg) + border_v("right"@, "4"@, bg)
        + "</w:tblBorders><w:tblCellMar><w:top w:w=\"200\" w:type=\"dxa\"/><w:left w:w=\"280\" w:type=\"dxa\"/><w:bottom w:w=\"200\" w:type=\"dxa\"/><w:right w:w=\"240\" w:type=\"dxa\"/></w:tblCellMar></w:tblPr><w:tblGrid><w:gridCol w:w=\"9360\"/></w:tblGrid><w:tr><w:tc><w:tcPr><w:tcW w:type=\"dxa\" w:w=\"9360\"/><w:tcMar><w:top w:w=\"200\" w:type=\"dxa\"/><w:left w:w=\"280\" w:type=\"dxa\"/><w:bottom w:w=\"200\" w:type=\"dxa\"/><w:right w:w=\"240\" w:type=\"dxa\"/></w:tcMar>"@
        + shd_v(bg) + "</w:tcPr>"@
}

/// Opens a callout container cell; the caller emits the inner paragraphs.
pub fn build_callout_container_xml(bg: &str, accent: &str) -> (xml: String)
    ensures
        xml@ == callout_container_v(bg@, accent@),
{
    let mut xml = String::new();
    xml.append("<w:tbl><w:tblPr><w:tblW w:type=\"pct\" w:w=\"5000\"/><w:tblInd w:type=\"dxa\" w:w=\"0\"/><w:tblLayout w:type=\"fixed\"/><w:tblBorders>");
    push_border(&mut xml, "top", "4", bg);
    push_border(&mut xml, "left", "24", accent);
    push_border(&mut xml, "bottom", "4", bg);
    push_border(&mut xml, "right", "4", bg);
    xml.append("</w:tblBorders><w:tblCellMar><w:top w:w=\"200\" w:type=\"dxa\"/><w:left w:w=\"280\" w:type=\"dxa\"/><w:bottom w:w=\"200\" w:type=\"dxa\"/><w:right w:w=\"240\" w:type=\"dxa\"/></w:tblCellMar></w:tblPr><w:tblGrid><w:gridCol w:w=\"9360\"/></w:tblGrid><w:tr><w:tc><w:tcPr><w:tcW w:type=\"dxa\" w:w=\"9360\"/><w:tcMar><w:top w:w=\"200\" w:type=\"dxa\"/><w:left w:w=\"280\" w:type=\"dxa\"/><w:bottom w:w=\"200\" w:type=\"dxa\"/><w:right w:w=\"240\" w:type=\"dxa\"/></w:tcMar>");
    push_shd(&mut xml, bg);
    xml.append("</w:tcPr>");
    assert(xml@ =~= callout_container_v(bg@, accent@));
    xml
}

/// Closing tags of a callout / code-block container cell.
pub fn build_callout_close_xml() -> (xml: String)
    ensures
        xml@ == "</w:tc></w:tr></w:tbl>"@,
{
    owned("</w:tc></w:tr></w:tbl>")
}

/// Opening of a code-block container: like a callout, uniformly `bg`.
pub open spec fn code_container_v(bg: Seq<char>) -> Seq<char> {
    "<w:tbl><w:tblPr><w:tblW w:type=\"pct\" w:w=\"5000\"/><w:tblInd w:type=\"dxa\" w:w=\"0\"/><w:tblLayout w:type=\"fixed\"/><w:tblBorders>"@
        + borders4_v("4"@, bg)
        + "</w:tblBorders><w:tblCellMar><w:top w:w=\"240\" w:type=\"dxa\"/><w:left w:w=\"280\" w:type=\"dxa\"/><w:bottom w:w=\"240\" w:type=\"dxa\"/><w:right w:w=\"280\" w:type=\"dxa\"/></w:tblCellMar></w:tblPr><w:tblGrid><w:gridCol w:w=\"9360\"/></w:tblGrid><w:tr><w:tc><w:tcPr><w:tcW w:type=\"dxa\" w:w=\"9360\"/><w:tcMar><w:top w:w=\"240\" w:type=\"dxa\"/><w:left w:w=\"280\" w:type=\"dxa\"/><w:bottom w:w=\"240\" w:type=\"dxa\"/><w:right w:w=\"280\" w:type=\"dxa\"/></w:tcMar>"@
        + shd_v(bg) + "</w:tcPr>"@
}

/// Opens a code-block container cell; the caller emits the inner paragraphs.
pub fn build_code_block_container_xml(bg: &str) -> (xml: String)
    ensures
        xml@ == code_container_v(bg@),
{
    let mut xml = String::new();
    xml.append("<w:tbl><w:tblPr><w:tblW w:type=\"pct\" w:w=\"5000\"/><w:tblInd w:type=\"dxa\" w:w=\"0\"/><w:tblLayout w:type=\"fixed\"/><w:tblBorders>");
    push_borders4(&mut xml, "4", bg);
    xml.append("</w:tblBorders><w:tblCellMar><w:top w:w=\"240\" w:type=\"dxa\"/><w:left w:w=\"280\" w:type=\"dxa\"/><w:bottom w:w=\"240\" w:type=\"dxa\"/><w:right w:w=\"280\" w:type=\"dxa\"/></w:tblCellMar></w:tblPr><w:tblGrid><w:gridCol w:w=\"9360\"/></w:tblGrid><w:tr><w:tc><w:tcPr><w:tcW w:type=\"dxa\" w:w=\"9360\"/><w:tcMar><w:top w:w=\"240\" w:type=\"dxa\"/><w:left w:w=\"280\" w:type=\"dxa\"/><w:bottom w:w=\"240\" w:type=\"dxa\"/><w:right w:w=\"280\" w:type=\"dxa\"/></w:tcMar>");
    push_shd(&mut xml, bg);
    xml.append("</w:tcPr>");
    assert(xml@ =~= code_container_v(bg@));
    xml
}

/// A run holding a hard page break.
pub fn page_break_run_xml() -> (xml: String)
    ensures
        xml@ == "<w:r><w:br w:type=\"page\"/></w:r>"@,
{
    owned("<w:r><w:br w:type=\"page\"/></w:r>")
}

} // verus!
