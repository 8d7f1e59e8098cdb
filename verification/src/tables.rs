//! Reading the tables of `word/document.xml`: cell text, column spans and
//! vertical merges, resolved into row spans.

use vstd::prelude::*;
use crate::cellparse::last_attr_v;
use crate::cellparse::last_attr;
use crate::docparse::{next_of_v, opt_event_v};
use crate::error::{OfficeError, OfficeErrorV};
use crate::model::{TableCell, TableCellV, TableRow, TableRowV, WordParagraphV, WordTable, WordTableV};
use crate::text::{chars_of, dec, dec_string, owned, parse_uint, parse_uint_v, str_eq, trim, trim_v};
use crate::xml::{local_name, local_v, xml_events, xml_events_v, XmlAttr, XmlAttrV, XmlEvent, XmlEventV};

verus! {

/// The vertical merge mark of a cell.
#[derive(PartialEq, Eq, Structural, Clone, Copy)]
pub enum VMergeKind {
    /// The first cell of a merged region.
    Restart,
    /// A cell merged into the one above.
    Continue,
}

/// A cell as read, before merges are resolved.
pub struct RawCell {
    pub text: String,
    pub col_span: usize,
    pub vmerge: Option<VMergeKind>,
}

/// Model of a [`RawCell`].
pub struct RawCellV {
    pub text: Seq<char>,
    pub col_span: usize,
    pub vmerge: Option<VMergeKind>,
}

impl DeepView for RawCell {
    type V = RawCellV;

    open spec fn deep_view(&self) -> RawCellV {
        RawCellV { text: self.text@, col_span: self.col_span, vmerge: self.vmerge }
    }
}

/// A table as read, before merges are resolved.
pub struct RawTable {
    pub id: String,
    pub rows: Vec<Vec<RawCell>>,
}

/// Model of a [`RawTable`].
pub struct RawTableV {
    pub id: Seq<char>,
    pub rows: Seq<Seq<RawCellV>>,
}

impl DeepView for RawTable {
    type V = RawTableV;

    open spec fn deep_view(&self) -> RawTableV {
        RawTableV { id: self.id@, rows: self.rows.deep_view() }
    }
}

/// The merge mark a `<w:vMerge>` gives: `restart` when its last `val` says
/// so, `continue` otherwise.
pub open spec fn vmerge_kind_v(attrs: Seq<XmlAttrV>) -> VMergeKind {
    match last_attr_v(attrs, "val"@) {
        Some(v) => if v == "restart"@ { VMergeKind::Restart } else { VMergeKind::Continue },
        None => VMergeKind::Continue,
    }
}

fn vmerge_kind(attrs: &Vec<XmlAttr>) -> (r: VMergeKind)
    ensures
        r == vmerge_kind_v(attrs.deep_view()),
{
    match last_attr(attrs, "val") {
        Some(v) => if str_eq(v.as_str(), "restart") { VMergeKind::Restart } else { VMergeKind::Continue },
        None => VMergeKind::Continue,
    }
}

/// The last attribute named `name` whose value is a decimal `usize`.
pub open spec fn last_usize_attr_v(attrs: Seq<XmlAttrV>, name: Seq<char>) -> Option<usize>
    decreases attrs.len(),
{
    if attrs.len() == 0 {
        None
    } else if local_v(attrs.last().key) == name && parse_uint_v(attrs.last().value, usize::MAX as nat) is Some {
        Some(parse_uint_v(attrs.last().value, usize::MAX as nat).unwrap() as usize)
    } else {
        last_usize_attr_v(attrs.drop_last(), name)
    }
}

fn last_usize_attr(attrs: &Vec<XmlAttr>, name: &str) -> (r: Option<usize>)
    ensures
        r == last_usize_attr_v(attrs.deep_view(), name@),
{
    let ghost av = attrs.deep_view();
    let mut i: usize = attrs.len();
    assert(av.take(i as int) =~= av);
    while i > 0
        invariant
            i <= av.len(),
            av == attrs.deep_view(),
            last_usize_attr_v(av, name@) == last_usize_attr_v(av.take(i as int), name@),
        decreases i,
    {
        let a = &attrs[i - 1];
        assert(av.take(i as int).last() == a.deep_view());
        let l = local_name(a.key.as_str());
        if str_eq(l.as_str(), name) {
            if let Some(n) = parse_uint(a.value.as_str(), usize::MAX as u64) {
                return Some(n as usize);
            }
        }
        assert(av.take(i as int).drop_last() =~= av.take(i - 1));
        i = i - 1;
    }
    None
}

/// The state of the table reader between events.
pub struct TableScanV {
    pub tables: Seq<RawTableV>,
    pub table: Option<RawTableV>,
    pub row: Option<Seq<RawCellV>>,
    pub text: Seq<char>,
    pub col_span: usize,
    pub vmerge: Option<VMergeKind>,
    pub table_depth: int,
    pub row_depth: int,
    pub cell_depth: int,
    pub counter: usize,
}

/// The state before the first event.
pub open spec fn table_scan_init_v() -> TableScanV {
    TableScanV {
        tables: Seq::empty(),
        table: None,
        row: None,
        text: Seq::empty(),
        col_span: 1,
        vmerge: None,
        table_depth: 0,
        row_depth: 0,
        cell_depth: 0,
        counter: 0,
    }
}

/// The state at a start tag (the text of a `<w:t>` aside): a `<w:tbl>`
/// opens table `t<N>`, a `<w:tr>` a row, a `<w:tc>` a cell; a `<w:vMerge>`
/// in a cell marks it.
pub open spec fn table_start_v(s: TableScanV, name: Seq<char>, attrs: Seq<XmlAttrV>) -> TableScanV {
    if name == "tbl"@ {
        TableScanV {
            table_depth: s.table_depth + 1,
            table: Some(RawTableV { id: "t"@ + dec(s.counter as nat), rows: Seq::empty() }),
            counter: (s.counter + 1) as usize,
            ..s
        }
    } else if name == "tr"@ {
        TableScanV { row_depth: s.row_depth + 1, row: Some(Seq::empty()), ..s }
    } else if name == "tc"@ {
        TableScanV { cell_depth: s.cell_depth + 1, text: Seq::empty(), col_span: 1, vmerge: None, ..s }
    } else if name == "vMerge"@ && s.cell_depth > 0 {
        TableScanV { vmerge: Some(vmerge_kind_v(attrs)), ..s }
    } else {
        s
    }
}

/// The state at a self-closing tag: a `<w:gridSpan>` in a cell sets its
/// column span, a `<w:vMerge>` marks it.
pub open spec fn table_empty_v(s: TableScanV, name: Seq<char>, attrs: Seq<XmlAttrV>) -> TableScanV {
    if name == "gridSpan"@ && s.cell_depth > 0 {
        match last_usize_attr_v(attrs, "val"@) {
            Some(n) => TableScanV { col_span: n, ..s },
            None => s,
        }
    } else if name == "vMerge"@ && s.cell_depth > 0 {
        TableScanV { vmerge: Some(vmerge_kind_v(attrs)), ..s }
    } else {
        s
    }
}

/// The state at an end tag: a closed outermost cell joins the row (text
/// trimmed), a closed outermost row joins the table, a closed outermost
/// table with rows joins the tables.
pub open spec fn table_end_v(s: TableScanV, name: Seq<char>) -> TableScanV {
    if name == "tc"@ {
        let d = s.cell_depth - 1;
        if d == 0 {
            TableScanV {
                cell_depth: d,
                row: match s.row {
                    Some(r) => Some(r.push(RawCellV { text: trim_v(s.text), col_span: s.col_span, vmerge: s.vmerge })),
                    None => None,
                },
                ..s
            }
        } else {
            TableScanV { cell_depth: d, ..s }
        }
    } else if name == "tr"@ {
        let d = s.row_depth - 1;
        if d == 0 {
            match s.row {
                Some(r) => TableScanV {
                    row_depth: d,
                    row: None,
                    table: match s.table {
                        Some(t) => Some(RawTableV { rows: t.rows.push(r), ..t }),
                        None => None,
                    },
                    ..s
                },
                None => TableScanV { row_depth: d, ..s },
            }
        } else {
            TableScanV { row_depth: d, ..s }
        }
    } else if name == "tbl"@ {
        let d = s.table_depth - 1;
        if d == 0 {
            match s.table {
                Some(t) => TableScanV {
                    table_depth: d,
                    table: None,
                    tables: if t.rows.len() > 0 { s.tables.push(t) } else { s.tables },
                    ..s
                },
                None => TableScanV { table_depth: d, ..s },
            }
        } else {
            TableScanV { table_depth: d, ..s }
        }
    } else {
        s
    }
}

/// The table reader's state after the events from `i` on, or the message
/// of the first syntax error. The event after a `<w:t>` in a cell is taken
/// as its text.
pub open spec fn table_scan_from_v(evs: Seq<XmlEventV>, i: int, s: TableScanV) -> Result<TableScanV, Seq<char>>
    decreases evs.len() - i,
{
    if i < 0 || i >= evs.len() {
        Ok(s)
    } else {
        match evs[i] {
            XmlEventV::Error { msg } => Err(msg),
            XmlEventV::Start { name, attrs } => if name == "t"@ && s.cell_depth > 0 {
                let s1 = match next_of_v(evs, i) {
                    Some(XmlEventV::Text { text }) => TableScanV { text: s.text + text, ..s },
                    _ => s,
                };
                table_scan_from_v(evs, if i + 1 < evs.len() { i + 2 } else { i + 1 }, s1)
            } else {
                table_scan_from_v(evs, i + 1, table_start_v(s, name, attrs))
            },
            XmlEventV::Empty { name, attrs } => table_scan_from_v(evs, i + 1, table_empty_v(s, name, attrs)),
            XmlEventV::End { name } => table_scan_from_v(evs, i + 1, table_end_v(s, name)),
            _ => table_scan_from_v(evs, i + 1, s),
        }
    }
}

/// The tables of a part as read, in document order, or the syntax error
/// that stops the reading.
pub open spec fn raw_tables_v(content: Seq<char>) -> Result<Seq<RawTableV>, Seq<char>> {
    raw_table_events_v(xml_events_v(content))
}

/// The tables a stream of XML events holds, merges unresolved, or the
/// syntax error that stops the reading.
pub open spec fn raw_table_events_v(evs: Seq<XmlEventV>) -> Result<Seq<RawTableV>, Seq<char>> {
    match table_scan_from_v(evs, 0, table_scan_init_v()) {
        Ok(s) => Ok(s.tables),
        Err(m) => Err("XML parse error: "@ + m),
    }
}

/// The table reader's state.
struct TableScan {
    tables: Vec<RawTable>,
    table: Option<RawTable>,
    row: Option<Vec<RawCell>>,
    text: String,
    col_span: usize,
    vmerge: Option<VMergeKind>,
    table_depth: i128,
    row_depth: i128,
    cell_depth: i128,
    counter: usize,
}

impl View for TableScan {
    type V = TableScanV;

    closed spec fn view(&self) -> TableScanV {
        TableScanV {
            tables: self.tables.deep_view(),
            table: self.table.deep_view(),
            row: self.row.deep_view(),
            text: self.text@,
            col_span: self.col_span,
            vmerge: self.vmerge,
            table_depth: self.table_depth as int,
            row_depth: self.row_depth as int,
            cell_depth: self.cell_depth as int,
            counter: self.counter,
        }
    }
}

impl TableScan {
    /// The depths and the counter stay within `n` steps of the start.
    closed spec fn bounded(&self, n: int) -> bool {
        &&& -n <= self.table_depth <= n
        &&& -n <= self.row_depth <= n
        &&& -n <= self.cell_depth <= n
        &&& self.counter <= n
    }

    fn new() -> (r: TableScan)
        ensures
            r@ == table_scan_init_v(),
            r.bounded(0),
    {
        let r = TableScan {
            tables: Vec::new(),
            table: None,
            row: None,
            text: String::new(),
            col_span: 1,
            vmerge: None,
            table_depth: 0,
            row_depth: 0,
            cell_depth: 0,
            counter: 0,
        };
        assert(r.tables.deep_view() =~= Seq::<RawTableV>::empty());
        assert(r.text@ =~= Seq::<char>::empty());
        r
    }

    fn start(&mut self, name: &str, attrs: &Vec<XmlAttr>, n: Ghost<int>)
        requires
            old(self).bounded(n@),
            0 <= n@ < usize::MAX,
        ensures
            final(self)@ == table_start_v(old(self)@, name@, attrs.deep_view()),
            final(self).bounded(n@ + 1),
    {
        if str_eq(name, "tbl") {
            self.table_depth = self.table_depth + 1;
            let mut id = owned("t");
            let d = dec_string(self.counter as u64);
            id.append(d.as_str());
            let t = RawTable { id, rows: Vec::new() };
            assert(t.rows.deep_view() =~= Seq::<Seq<RawCellV>>::empty());
            self.table = Some(t);
            self.counter = self.counter + 1;
        } else if str_eq(name, "tr") {
            self.row_depth = self.row_depth + 1;
            let r: Vec<RawCell> = Vec::new();
            assert(r.deep_view() =~= Seq::<RawCellV>::empty());
            self.row = Some(r);
        } else if str_eq(name, "tc") {
            self.cell_depth = self.cell_depth + 1;
            self.text = String::new();
            self.col_span = 1;
            self.vmerge = None;
            assert(self.text@ =~= Seq::<char>::empty());
        } else if str_eq(name, "vMerge") && self.cell_depth > 0 {
            self.vmerge = Some(vmerge_kind(attrs));
        }
    }

    fn empty(&mut self, name: &str, attrs: &Vec<XmlAttr>)
        ensures
            final(self)@ == table_empty_v(old(self)@, name@, attrs.deep_view()),
            forall|n: int| old(self).bounded(n) ==> final(self).bounded(n),
    {
        if str_eq(name, "gridSpan") && self.cell_depth > 0 {
            if let Some(k) = last_usize_attr(attrs, "val") {
                self.col_span = k;
            }
        } else if str_eq(name, "vMerge") && self.cell_depth > 0 {
            self.vmerge = Some(vmerge_kind(attrs));
        }
    }

    fn end(&mut self, name: &str, n: Ghost<int>)
        requires
            old(self).bounded(n@),
            0 <= n@ < usize::MAX,
        ensures
            final(self)@ == table_end_v(old(self)@, name@),
            final(self).bounded(n@ + 1),
    {
        if str_eq(name, "tc") {
            self.cell_depth = self.cell_depth - 1;
            if self.cell_depth == 0 {
                let taken = self.row.take();
                if let Some(mut r) = taken {
                    let ghost r0 = r.deep_view();
                    let c = RawCell { text: trim(self.text.as_str()), col_span: self.col_span, vmerge: self.vmerge };
                    r.push(c);
                    assert(r.deep_view() =~= r0.push(c.deep_view()));
                    self.row = Some(r);
                }
            }
        } else if str_eq(name, "tr") {
            self.row_depth = self.row_depth - 1;
            if self.row_depth == 0 {
                let taken = self.row.take();
                if let Some(r) = taken {
                    let tt = self.table.take();
                    if let Some(mut t) = tt {
                        let ghost t0 = t.rows.deep_view();
                        let ghost rv = r.deep_view();
                        t.rows.push(r);
                        assert(t.rows.deep_view() =~= t0.push(rv));
                        self.table = Some(t);
                    }
                }
            }
        } else if str_eq(name, "tbl") {
            self.table_depth = self.table_depth - 1;
            if self.table_depth == 0 {
                let taken = self.table.take();
                if let Some(t) = taken {
                    if t.rows.len() > 0 {
                        let ghost t0 = self.tables.deep_view();
                        let ghost tv = t.deep_view();
                        self.tables.push(t);
                        assert(self.tables.deep_view() =~= t0.push(tv));
                    }
                }
            }
        }
    }
}

/// Reads the tables of a part, merges unresolved.
pub fn read_raw_tables(content: &str) -> (r: Result<Vec<RawTable>, OfficeError>)
    ensures
        match raw_tables_v(content@) {
            Ok(v) => r matches Ok(x) && x.deep_view() == v,
            Err(m) => r matches Err(e) && e.deep_view() == OfficeErrorV::Xml(m),
        },
{
    let evs = xml_events(content);
    read_raw_table_events(&evs)
}

/// Reads the tables a stream of XML events holds, merges unresolved.
pub fn read_raw_table_events(evs: &Vec<XmlEvent>) -> (r: Result<Vec<RawTable>, OfficeError>)
    ensures
        match raw_table_events_v(evs.deep_view()) {
            Ok(v) => r matches Ok(x) && x.deep_view() == v,
            Err(m) => r matches Err(e) && e.deep_view() == OfficeErrorV::Xml(m),
        },
{
    let ghost ev = evs.deep_view();
    let mut st = TableScan::new();
    let mut i: usize = 0;
    while i < evs.len()
        invariant
            ev == evs.deep_view(),
            i <= ev.len(),
            st.bounded(i as int),
            table_scan_from_v(ev, i as int, st@) == table_scan_from_v(ev, 0, table_scan_init_v()),
        decreases ev.len() - i,
    {
        assert(ev[i as int] == evs@[i as int].deep_view());
        match &evs[i] {
            XmlEvent::Error { msg } => {
                let mut m = owned("XML parse error: ");
                m.append(msg.as_str());
                return Err(OfficeError::Xml(m));
            },
            XmlEvent::Start { name, attrs } => {
                if str_eq(name.as_str(), "t") && st.cell_depth > 0 {
                    if i + 1 < evs.len() {
                        assert(ev[i + 1] == evs@[i + 1].deep_view());
                        if let XmlEvent::Text { text } = &evs[i + 1] {
                            st.text.append(text.as_str());
                        }
                        i = i + 2;
                    } else {
                        i = i + 1;
                    }
                } else {
                    st.start(name.as_str(), attrs, Ghost(i as int));
                    i = i + 1;
                }
            },
            XmlEvent::Empty { name, attrs } => {
                st.empty(name.as_str(), attrs);
                i = i + 1;
            },
            XmlEvent::End { name } => {
                st.end(name.as_str(), Ghost(i as int));
                i = i + 1;
            },
            _ => {
                i = i + 1;
            },
        }
    }
    Ok(st.tables)
}

/// The number of grid columns a cell covers: its span, at least one.
pub open spec fn cell_width_v(c: RawCellV) -> nat {
    if c.col_span == 0 { 1 } else { c.col_span as nat }
}

/// The first grid column of cell `k` of a row.
pub open spec fn offset_v(row: Seq<RawCellV>, k: int) -> nat
    decreases k,
{
    if k <= 0 {
        0
    } else {
        offset_v(row, k - 1) + cell_width_v(row[k - 1])
    }
}

/// The first cell from `k` on that covers grid column `col`.
pub open spec fn cell_at_from_v(row: Seq<RawCellV>, k: int, col: int) -> Option<RawCellV>
    decreases row.len() - k,
{
    if k < 0 || k >= row.len() {
        None
    } else if offset_v(row, k) <= col < offset_v(row, k) + cell_width_v(row[k]) {
        Some(row[k])
    } else {
        cell_at_from_v(row, k + 1, col)
    }
}

/// The cell of a row that covers grid column `col`, if the row reaches it.
pub open spec fn cell_at_v(row: Seq<RawCellV>, col: int) -> Option<RawCellV> {
    cell_at_from_v(row, 0, col)
}

/// Whether the cell of `row` at grid column `col` continues a merge.
pub open spec fn continues_at_v(row: Seq<RawCellV>, col: int) -> bool {
    cell_at_v(row, col) matches Some(c) && c.vmerge == Some(VMergeKind::Continue)
}

/// How many rows from `j` on continue the merge in grid column `col`.
pub open spec fn continue_run_v(rows: Seq<Seq<RawCellV>>, col: int, j: int) -> nat
    decreases rows.len() - j,
{
    if j < 0 || j >= rows.len() {
        0
    } else if continues_at_v(rows[j], col) {
        1 + continue_run_v(rows, col, j + 1)
    } else {
        0
    }
}

/// Cell `k` of row `r`, resolved: a cell that starts a merge spans itself
/// and the rows below that continue it in its first grid column.
pub open spec fn resolved_cell_v(rows: Seq<Seq<RawCellV>>, r: int, k: int) -> TableCellV {
    let c = rows[r][k];
    TableCellV {
        text: c.text,
        col_span: c.col_span,
        row_span: if c.vmerge == Some(VMergeKind::Restart) {
            (1 + continue_run_v(rows, offset_v(rows[r], k) as int, r + 1)) as usize
        } else {
            1
        },
    }
}

/// A table with its merges resolved.
pub open spec fn resolve_table_v(t: RawTableV) -> WordTableV {
    WordTableV {
        id: t.id,
        rows: Seq::new(
            t.rows.len(),
            |r: int| TableRowV { cells: Seq::new(t.rows[r].len(), |k: int| resolved_cell_v(t.rows, r, k)) },
        ),
        cell_paragraphs: Seq::empty(),
    }
}

proof fn lemma_offset_bound(row: Seq<RawCellV>, k: int)
    requires
        0 <= k <= row.len(),
    ensures
        offset_v(row, k) <= k * (usize::MAX as int),
    decreases k,
{
    if k > 0 {
        lemma_offset_bound(row, k - 1);
        assert((k - 1) * (usize::MAX as int) + (usize::MAX as int) == k * (usize::MAX as int)) by (nonlinear_arith);
    }
}

proof fn lemma_cursor_fits(row: Seq<RawCellV>, k: int)
    requires
        0 <= k < row.len(),
        row.len() <= usize::MAX,
    ensures
        offset_v(row, k) + cell_width_v(row[k]) <= u128::MAX,
{
    lemma_offset_bound(row, k);
    let m = usize::MAX as int;
    assert(k * m + m <= m * m + m) by (nonlinear_arith)
        requires
            0 <= k < m,
            m > 0,
    ;
    assert(m * m + m <= u128::MAX) by (nonlinear_arith)
        requires
            0 < m <= 0xffff_ffff_ffff_ffff,
    ;
}

fn width_of(c: &RawCell) -> (w: usize)
    ensures
        w == cell_width_v(c.deep_view()),
{
    if c.col_span == 0 { 1 } else { c.col_span }
}

/// The cell of a row that covers grid column `col`.
fn cell_at(cells: &Vec<RawCell>, col: u128) -> (r: Option<&RawCell>)
    ensures
        match cell_at_v(cells.deep_view(), col as int) {
            Some(c) => r matches Some(x) && x.deep_view() == c,
            None => r is None,
        },
{
    let ghost row = cells.deep_view();
    let mut cursor: u128 = 0;
    let mut k: usize = 0;
    while k < cells.len()
        invariant
            k <= row.len(),
            row == cells.deep_view(),
            cursor == offset_v(row, k as int),
            cell_at_v(row, col as int) == cell_at_from_v(row, k as int, col as int),
        decreases row.len() - k,
    {
        assert(row[k as int] == cells@[k as int].deep_view());
        proof {
            lemma_cursor_fits(row, k as int);
        }
        let w = width_of(&cells[k]) as u128;
        if col >= cursor && col < cursor + w {
            return Some(&cells[k]);
        }
        cursor = cursor + w;
        k = k + 1;
    }
    None
}

/// How many rows from `j` on continue the merge in grid column `col`.
fn continue_run(rows: &Vec<Vec<RawCell>>, col: u128, j: usize) -> (n: usize)
    requires
        j <= rows.len(),
    ensures
        n == continue_run_v(rows.deep_view(), col as int, j as int),
        n <= rows.len() - j,
{
    let ghost rv = rows.deep_view();
    let mut k: usize = j;
    let mut n: usize = 0;
    while k < rows.len()
        invariant
            j <= k <= rv.len(),
            rv == rows.deep_view(),
            n == k - j,
            continue_run_v(rv, col as int, j as int) == n + continue_run_v(rv, col as int, k as int),
        decreases rv.len() - k,
    {
        assert(rv[k as int] == rows@[k as int].deep_view());
        let cont = match cell_at(&rows[k], col) {
            Some(c) => c.vmerge == Some(VMergeKind::Continue),
            None => false,
        };
        if !cont {
            return n;
        }
        n = n + 1;
        k = k + 1;
    }
    n
}

/// Resolves the merge marks of one table into row spans.
fn resolve_table(raw: &RawTable) -> (t: WordTable)
    ensures
        t.deep_view() == resolve_table_v(raw.deep_view()),
{
    let ghost rv = raw.rows.deep_view();
    let mut rows: Vec<TableRow> = Vec::new();
    let mut r: usize = 0;
    while r < raw.rows.len()
        invariant
            r <= rv.len(),
            rv == raw.rows.deep_view(),
            rows.deep_view() == resolve_table_v(raw.deep_view()).rows.take(r as int),
        decreases rv.len() - r,
    {
        let row = &raw.rows[r];
        let ghost cv = row.deep_view();
        assert(cv == rv[r as int]);
        let mut cells: Vec<TableCell> = Vec::new();
        let mut cursor: u128 = 0;
        let mut k: usize = 0;
        while k < row.len()
            invariant
                k <= cv.len(),
                r < rv.len(),
                rv.len() == raw.rows.len(),
                cv == row.deep_view(),
                cv == rv[r as int],
                rv == raw.rows.deep_view(),
                cursor == offset_v(cv, k as int),
                cells.deep_view() == Seq::new(k as nat, |q: int| resolved_cell_v(rv, r as int, q)),
            decreases cv.len() - k,
        {
            let c = &row[k];
            assert(cv[k as int] == c.deep_view());
            proof {
                lemma_cursor_fits(cv, k as int);
            }
            let row_span = if c.vmerge == Some(VMergeKind::Restart) {
                1 + continue_run(&raw.rows, cursor, r + 1)
            } else {
                1
            };
            let cell = TableCell { text: c.text.clone(), col_span: c.col_span, row_span };
            let ghost before = cells.deep_view();
            cells.push(cell);
            assert(cells.deep_view() =~= before.push(cell.deep_view()));
            assert(cells.deep_view() =~= Seq::new((k + 1) as nat, |q: int| resolved_cell_v(rv, r as int, q)));
            cursor = cursor + width_of(c) as u128;
            k = k + 1;
        }
        let tr = TableRow { cells };
        let ghost before = rows.deep_view();
        rows.push(tr);
        assert(rows.deep_view() =~= before.push(tr.deep_view()));
        assert(rows.deep_view() =~= resolve_table_v(raw.deep_view()).rows.take(r + 1));
        r = r + 1;
    }
    assert(resolve_table_v(raw.deep_view()).rows.take(r as int) =~= resolve_table_v(raw.deep_view()).rows);
    let t = WordTable { id: raw.id.clone(), rows, cell_paragraphs: Vec::new() };
    assert(t.cell_paragraphs.deep_view() =~= Seq::<WordParagraphV>::empty());
    t
}

/// Resolves the merge marks of each table into row spans: a cell marked
/// `restart` spans the rows below it whose cell in the same grid column is
/// marked `continue`, up to the first that is not.
pub fn resolve_vmerge(raw_tables: Vec<RawTable>) -> (r: Vec<WordTable>)
    ensures
        r.deep_view() == raw_tables.deep_view().map_values(|t: RawTableV| resolve_table_v(t)),
{
    let ghost tv = raw_tables.deep_view();
    let mut out: Vec<WordTable> = Vec::new();
    let mut i: usize = 0;
    while i < raw_tables.len()
        invariant
            i <= tv.len(),
            tv == raw_tables.deep_view(),
            out.deep_view() == tv.map_values(|t: RawTableV| resolve_table_v(t)).take(i as int),
        decreases tv.len() - i,
    {
        assert(tv[i as int] == raw_tables@[i as int].deep_view());
        let t = resolve_table(&raw_tables[i]);
        let ghost before = out.deep_view();
        out.push(t);
        assert(out.deep_view() =~= before.push(t.deep_view()));
        assert(out.deep_view() =~= tv.map_values(|t: RawTableV| resolve_table_v(t)).take(i + 1));
        i = i + 1;
    }
    assert(tv.map_values(|t: RawTableV| resolve_table_v(t)).take(i as int) =~= tv.map_values(|t: RawTableV| resolve_table_v(t)));
    out
}

/// The tables of a part with merges resolved, or the syntax error that
/// stops the reading.
pub open spec fn tables_v(content: Seq<char>) -> Result<Seq<WordTableV>, Seq<char>> {
    table_events_v(xml_events_v(content))
}

/// The tables a stream of XML events holds with merges resolved, or the
/// syntax error that stops the reading.
pub open spec fn table_events_v(evs: Seq<XmlEventV>) -> Result<Seq<WordTableV>, Seq<char>> {
    match raw_table_events_v(evs) {
        Ok(ts) => Ok(ts.map_values(|t: RawTableV| resolve_table_v(t))),
        Err(m) => Err(m),
    }
}

/// Reads the tables of `word/document.xml`: ids `t0`, `t1`, … in the order
/// their tags open, cell text trimmed, spans resolved; tables without rows
/// are left out.
pub fn parse_table_xml(content: &str) -> (r: Result<Vec<WordTable>, OfficeError>)
    ensures
        match tables_v(content@) {
            Ok(v) => r matches Ok(x) && x.deep_view() == v,
            Err(m) => r matches Err(e) && e.deep_view() == OfficeErrorV::Xml(m),
        },
{
    let evs = xml_events(content);
    parse_table_events(&evs)
}

/// Reads the tables a stream of XML events holds: ids `t0`, `t1`, … in the
/// order their tags open, cell text trimmed, spans resolved; tables without
/// rows are left out.
pub fn parse_table_events(evs: &Vec<XmlEvent>) -> (r: Result<Vec<WordTable>, OfficeError>)
    ensures
        match table_events_v(evs.deep_view()) {
            Ok(v) => r matches Ok(x) && x.deep_view() == v,
            Err(m) => r matches Err(e) && e.deep_view() == OfficeErrorV::Xml(m),
        },
{
    let raw = read_raw_table_events(evs)?;
    Ok(resolve_vmerge(raw))
}

} // verus!
