//! A markdown-flavoured plain-text rendering of a document.

use vstd::prelude::*;
use crate::model::{FontRun, FontRunV, TableRow, TableRowV, WordDocument, WordDocumentV, WordParagraph, WordParagraphV, WordTable, WordTableV};
use crate::text::{chars_of, owned, trim, trim_v};

verus! {

/// A run in markdown: `*italic*`, inside `**bold**`, inside `__underline__`.
pub open spec fn run_md_v(r: FontRunV) -> Seq<char> {
    let a = if r.italic { "*"@ + r.text + "*"@ } else { r.text };
    let b = if r.bold { "**"@ + a + "**"@ } else { a };
    if r.underline { "__"@ + b + "__"@ } else { b }
}

/// The runs of a paragraph in markdown, in order.
pub open spec fn runs_md_v(rs: Seq<FontRunV>) -> Seq<char>
    decreases rs.len(),
{
    if rs.len() == 0 { Seq::empty() } else { runs_md_v(rs.drop_last()) + run_md_v(rs.last()) }
}

/// A paragraph's text: its runs in markdown when it has some, else its text.
pub open spec fn para_md_v(p: WordParagraphV) -> Seq<char> {
    match p.runs {
        Some(rs) => if rs.len() > 0 { runs_md_v(rs) } else { p.text },
        None => p.text,
    }
}

/// A paragraph as a text block: `[style] ` when styled, its text, a blank line.
pub open spec fn para_block_v(p: WordParagraphV) -> Seq<char> {
    (match p.style {
        Some(s) => "["@ + s + "] "@,
        None => Seq::empty(),
    }) + para_md_v(p) + "\n\n"@
}

/// The strings of `ss` joined by `sep`.
pub open spec fn join_v(ss: Seq<Seq<char>>, sep: Seq<char>) -> Seq<char>
    decreases ss.len(),
{
    if ss.len() == 0 {
        Seq::empty()
    } else if ss.len() == 1 {
        ss[0]
    } else {
        join_v(ss.drop_last(), sep) + sep + ss.last()
    }
}

/// A table row as `| a | b | c` and a newline.
pub open spec fn row_md_v(r: TableRowV) -> Seq<char> {
    "| "@ + join_v(r.cells.map_values(|c: crate::model::TableCellV| c.text), " | "@) + "\n"@
}

/// The rows of a table, then a blank line.
pub open spec fn rows_md_v(rs: Seq<TableRowV>) -> Seq<char>
    decreases rs.len(),
{
    if rs.len() == 0 { Seq::empty() } else { rows_md_v(rs.drop_last()) + row_md_v(rs.last()) }
}

/// All tables, one after the other.
pub open spec fn tables_md_v(ts: Seq<WordTableV>) -> Seq<char>
    decreases ts.len(),
{
    if ts.len() == 0 {
        Seq::empty()
    } else {
        tables_md_v(ts.drop_last()) + rows_md_v(ts.last().rows) + "\n"@
    }
}

/// The UTF-8 length of a paragraph's text, as `str::len` gives it.
pub open spec fn text_bytes_v(p: WordParagraphV) -> nat {
    (vstd::utf8::encode_utf8(p.text).len() as usize) as nat
}

/// The UTF-8 lengths of the paragraphs in `lo..hi` whose text is not blank.
pub open spec fn nonblank_lens_v(ps: Seq<WordParagraphV>, lo: int, hi: int) -> Seq<nat>
    decreases hi - lo,
{
    if hi <= lo {
        Seq::empty()
    } else {
        nonblank_lens_v(ps, lo, hi - 1) + if trim_v(ps[hi - 1].text).len() > 0 {
            seq![text_bytes_v(ps[hi - 1])]
        } else {
            Seq::empty()
        }
    }
}

/// Whether entries `j` and `j + 1` of `l` differ by less than 30.
pub open spec fn close_pair_v(l: Seq<nat>, j: int) -> bool {
    -30 < l[j] - l[j + 1] < 30
}

/// Whether non-blank paragraph lengths look like flattened table cells: at
/// least two, all shorter than 100 bytes, neighbours within 30 bytes.
pub open spec fn tabular_lens_v(l: Seq<nat>) -> bool {
    &&& l.len() >= 2
    &&& forall|j: int| 0 <= j < l.len() ==> l[j] < 100
    &&& forall|j: int| 0 <= j < l.len() - 1 ==> #[trigger] close_pair_v(l, j)
}

/// The end of the five-paragraph window starting at `i`.
pub open spec fn window_end_v(n: nat, i: int) -> int {
    if i + 5 < n { i + 5 } else { n as int }
}

/// Whether the paragraphs from `i` on look like flattened table cells,
/// judged on the non-blank ones among the next five.
pub open spec fn looks_tabular_v(ps: Seq<WordParagraphV>, i: int) -> bool {
    tabular_lens_v(nonblank_lens_v(ps, i, window_end_v(ps.len(), i)))
}

/// The text after the first `k` paragraphs of a document with tables, the
/// number of paragraphs still to skip, and whether a table block is open.
pub open spec fn text_state_v(d: WordDocumentV, k: int) -> (Seq<char>, nat, bool)
    decreases k,
{
    if k <= 0 {
        (Seq::empty(), 0, false)
    } else {
        let st = text_state_v(d, k - 1);
        let p = d.paragraphs[k - 1];
        if st.1 > 0 {
            let r = (st.1 - 1) as nat;
            (st.0, r, if r == 0 { false } else { st.2 })
        } else if !st.2 && text_bytes_v(p) < 80 && looks_tabular_v(d.paragraphs, k - 1) {
            (st.0 + "--- Tables ---\n"@ + tables_md_v(d.tables), d.tables.last().rows.len(), true)
        } else if !st.2 {
            (st.0 + para_block_v(p), 0, false)
        } else {
            st
        }
    }
}

/// The blocks of the first `k` paragraphs of a document without tables.
pub open spec fn plain_text_v(ps: Seq<WordParagraphV>, k: int) -> Seq<char>
    decreases k,
{
    if k <= 0 { Seq::empty() } else { plain_text_v(ps, k - 1) + para_block_v(ps[k - 1]) }
}

/// The text rendering of a document: each paragraph as a block; with
/// tables, the first run of paragraphs that looks like flattened cells is
/// replaced by all tables, row by row. Trimmed.
pub open spec fn document_text_v(d: WordDocumentV) -> Seq<char> {
    if d.tables.len() == 0 {
        trim_v(plain_text_v(d.paragraphs, d.paragraphs.len() as int))
    } else {
        trim_v(text_state_v(d, d.paragraphs.len() as int).0)
    }
}

fn push_run_md(out: &mut String, r: &FontRun)
    ensures
        final(out)@ == old(out)@ + run_md_v(r@),
{
    let ghost before = out@;
    if r.underline {
        out.append("__");
    }
    if r.bold {
        out.append("**");
    }
    if r.italic {
        out.append("*");
    }
    out.append(r.text.as_str());
    if r.italic {
        out.append("*");
    }
    if r.bold {
        out.append("**");
    }
    if r.underline {
        out.append("__");
    }
    assert(out@ =~= before + run_md_v(r@));
}

fn push_para_block(out: &mut String, p: &WordParagraph)
    ensures
        final(out)@ == old(out)@ + para_block_v(p@),
{
    let ghost o0 = out@;
    if let Some(s) = &p.style {
        out.append("[");
        out.append(s.as_str());
        out.append("] ");
    }
    let ghost o1 = out@;
    let mut used_runs = false;
    if let Some(runs) = &p.runs {
        if runs.len() > 0 {
            let ghost rv = runs.deep_view();
            let mut i: usize = 0;
            while i < runs.len()
                invariant
                    i <= rv.len(),
                    rv == runs.deep_view(),
                    out@ == o1 + runs_md_v(rv.take(i as int)),
                decreases rv.len() - i,
            {
                let r = &runs[i];
                push_run_md(out, r);
                proof {
                    assert(rv[i as int] == r@);
                    assert(rv.take(i + 1).drop_last() =~= rv.take(i as int));
                }
                i = i + 1;
            }
            assert(rv.take(rv.len() as int) =~= rv);
            used_runs = true;
        }
    }
    if !used_runs {
        out.append(p.text.as_str());
    }
    out.append("\n\n");
    assert(out@ =~= o0 + para_block_v(p@));
}

fn push_row(out: &mut String, r: &TableRow)
    ensures
        final(out)@ == old(out)@ + row_md_v(r@),
{
    let ghost o0 = out@;
    let ghost texts = r@.cells.map_values(|c: crate::model::TableCellV| c.text);
    out.append("| ");
    let ghost o1 = out@;
    let mut i: usize = 0;
    while i < r.cells.len()
        invariant
            i <= r.cells@.len(),
            texts == r@.cells.map_values(|c: crate::model::TableCellV| c.text),
            out@ == o1 + join_v(texts.take(i as int), " | "@),
        decreases r.cells@.len() - i,
    {
        let ghost before = out@;
        if i > 0 {
            out.append(" | ");
        }
        out.append(r.cells[i].text.as_str());
        proof {
            assert(texts[i as int] == r.cells@[i as int].text@);
            let t = texts.take(i + 1);
            assert(t.drop_last() =~= texts.take(i as int));
            if i == 0 {
                assert(t =~= seq![texts[0]]);
            }
        }
        i = i + 1;
    }
    assert(texts.take(r.cells@.len() as int) =~= texts);
    out.append("\n");
}

fn push_tables(out: &mut String, ts: &Vec<WordTable>)
    ensures
        final(out)@ == old(out)@ + tables_md_v(ts.deep_view()),
{
    let ghost tv = ts.deep_view();
    let mut k: usize = 0;
    while k < ts.len()
        invariant
            k <= tv.len(),
            tv == ts.deep_view(),
            out@ == old(out)@ + tables_md_v(tv.take(k as int)),
        decreases tv.len() - k,
    {
        let ghost before = out@;
        let t = &ts[k];
        let ghost rv = t@.rows;
        let mut j: usize = 0;
        while j < t.rows.len()
            invariant
                j <= rv.len(),
                rv == t@.rows,
                out@ == before + rows_md_v(rv.take(j as int)),
            decreases rv.len() - j,
        {
            push_row(out, &t.rows[j]);
            assert(rv.take(j + 1).drop_last() =~= rv.take(j as int));
            j = j + 1;
        }
        assert(rv.take(rv.len() as int) =~= rv);
        out.append("\n");
        assert(tv.take(k + 1).drop_last() =~= tv.take(k as int));
        assert(tv[k as int] == t@);
        k = k + 1;
    }
    assert(tv.take(tv.len() as int) =~= tv);
}

fn looks_tabular(ps: &Vec<WordParagraph>, i: usize) -> (r: bool)
    requires
        i < ps@.len(),
        forall|j: int| 0 <= j < ps@.len() ==> text_bytes_v(#[trigger] ps.deep_view()[j]) <= i32::MAX,
    ensures
        r == looks_tabular_v(ps.deep_view(), i as int),
{
    let ghost pv = ps.deep_view();
    let n = ps.len();
    let hi: usize = if n - i > 5 { i + 5 } else { n };
    assert(hi as int == window_end_v(pv.len(), i as int));
    let mut lens: Vec<usize> = Vec::new();
    let mut j: usize = i;
    while j < hi
        invariant
            i <= j <= hi <= n,
            n == pv.len(),
            pv == ps.deep_view(),
            lens@.len() == nonblank_lens_v(pv, i as int, j as int).len(),
            forall|q: int| 0 <= q < lens@.len() ==> lens@[q] as nat == #[trigger] nonblank_lens_v(pv, i as int, j as int)[q],
            forall|q: int| 0 <= q < lens@.len() ==> lens@[q] <= i32::MAX,
            forall|q: int| 0 <= q < pv.len() ==> text_bytes_v(#[trigger] pv[q]) <= i32::MAX,
        decreases hi - j,
    {
        let p = &ps[j];
        assert(pv[j as int] == p@);
        let t = trim(p.text.as_str());
        let ghost l0 = lens@;
        if chars_of(t.as_str()).len() > 0 {
            lens.push(p.text.as_str().len());
            assert(lens@ =~= l0.push(text_bytes_v(pv[j as int]) as usize));
        }
        assert(pv.subrange(0, 0).len() == 0);
        j = j + 1;
    }
    let ghost lv = nonblank_lens_v(pv, i as int, hi as int);
    if lens.len() < 2 {
        return false;
    }
    let mut all_short = true;
    let mut similar = true;
    let mut q: usize = 0;
    while q < lens.len()
        invariant
            q <= lens@.len(),
            lens@.len() >= 2,
            forall|z: int| 0 <= z < lens@.len() ==> lens@[z] <= i32::MAX,
            all_short == (forall|z: int| 0 <= z < q ==> #[trigger] lv[z] < 100),
            similar == (forall|z: int| 0 <= z < q && z < lens@.len() - 1 ==> #[trigger] close_pair_v(lv, z)),
            lv == nonblank_lens_v(pv, i as int, hi as int),
            lens@.len() == lv.len(),
            forall|z: int| 0 <= z < lens@.len() ==> lens@[z] as nat == #[trigger] lv[z],
        decreases lens@.len() - q,
    {
        assert(lens@[q as int] as nat == lv[q as int]);
        if lens[q] >= 100 {
            all_short = false;
        }
        if q + 1 < lens.len() {
            let a = lens[q] as i32;
            let b = lens[q + 1] as i32;
            let diff = a - b;
            let ad = if diff < 0 { -diff } else { diff };
            assert(close_pair_v(lv, q as int) == (ad < 30));
            if ad >= 30 {
                similar = false;
            }
        }
        q = q + 1;
    }
    proof {
        let l = nonblank_lens_v(ps.deep_view(), i as int, hi as int);
        assert(l == lv);
        assert(all_short == (forall|j: int| 0 <= j < l.len() ==> l[j] < 100));
        assert(similar == (forall|j: int| 0 <= j < l.len() - 1 ==> #[trigger] close_pair_v(l, j)));
        assert(window_end_v(ps.deep_view().len(), i as int) == hi);
    }
    all_short && similar
}

/// Whether every paragraph's text is at most `i32::MAX` bytes long in
/// UTF-8, the lengths [`word_document_to_text`] compares.
pub fn text_lengths_fit(doc: &WordDocument) -> (r: bool)
    ensures
        r == (forall|j: int| 0 <= j < doc@.paragraphs.len() ==> text_bytes_v(#[trigger] doc@.paragraphs[j]) <= i32::MAX),
{
    let mut k: usize = 0;
    while k < doc.paragraphs.len()
        invariant
            k <= doc@.paragraphs.len(),
            forall|j: int| 0 <= j < k ==> text_bytes_v(#[trigger] doc@.paragraphs[j]) <= i32::MAX,
        decreases doc@.paragraphs.len() - k,
    {
        let p = &doc.paragraphs[k];
        assert(doc@.paragraphs[k as int] == p@);
        let l = p.text.as_str().len();
        assert(l == text_bytes_v(p@));
        if l > 2147483647 {
            return false;
        }
        k = k + 1;
    }
    true
}

/// Renders `doc` as markdown-flavoured text: `[style] text` blocks, with
/// bold, italic and underlined runs marked, and the tables as `| a | b`
/// rows in place of the first run of paragraphs that looks like flattened
/// table cells.
pub fn word_document_to_text(doc: &WordDocument) -> (r: String)
    requires
        doc@.tables.len() > 0 ==> forall|j: int| 0 <= j < doc@.paragraphs.len() ==> text_bytes_v(#[trigger] doc@.paragraphs[j]) <= i32::MAX,
    ensures
        r@ == document_text_v(doc@),
{
    let ghost d = doc@;
    let n = doc.paragraphs.len();
    let mut output = String::new();
    if doc.tables.len() == 0 {
        let mut k: usize = 0;
        while k < n
            invariant
                k <= n,
                n == d.paragraphs.len(),
                d == doc@,
                output@ == plain_text_v(d.paragraphs, k as int),
            decreases n - k,
        {
            assert(d.paragraphs[k as int] == doc.paragraphs@[k as int]@);
            push_para_block(&mut output, &doc.paragraphs[k]);
            k = k + 1;
        }
        return trim(output.as_str());
    }
    let mut rows_left: usize = 0;
    let mut in_block = false;
    let mut k: usize = 0;
    while k < n
        invariant
            k <= n,
            n == d.paragraphs.len(),
            d == doc@,
            d.tables.len() > 0,
            forall|j: int| 0 <= j < d.paragraphs.len() ==> text_bytes_v(#[trigger] d.paragraphs[j]) <= i32::MAX,
            (output@, rows_left as nat, in_block) == text_state_v(d, k as int),
        decreases n - k,
    {
        let p = &doc.paragraphs[k];
        assert(d.paragraphs[k as int] == p@);
        if rows_left > 0 {
            rows_left = rows_left - 1;
            if rows_left == 0 {
                in_block = false;
            }
        } else {
            let short = p.text.as_str().len() < 80;
            if !in_block && short && looks_tabular(&doc.paragraphs, k) {
                output.append("--- Tables ---\n");
                push_tables(&mut output, &doc.tables);
                let last = doc.tables.len() - 1;
                rows_left = doc.tables[last].rows.len();
                in_block = true;
                assert(d.tables.last() == doc.tables@[last as int]@);
            } else if !in_block {
                push_para_block(&mut output, p);
            }
        }
        k = k + 1;
    }
    trim(output.as_str())
}

} // verus!
