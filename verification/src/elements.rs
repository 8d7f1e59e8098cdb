//! The flat element view of a document (paragraphs, tables and pictures in
//! reading order) and the edits made through it.

use vstd::prelude::*;
use crate::document::{
    contains_id, find_image, find_table, img_marker_v, last_image_with_id, last_table_with_id,
    lemma_last_image_in_range, lemma_last_table_in_range, marker_id, tbl_marker_v,
};
use crate::model::{
    DocElement, DocElementV, ElementId, InsertElement, InsertElementV, TableCell, TableCellV, TableRow,
    TableRowV, WordDocument, WordDocumentV, WordImage, WordImageV, WordParagraph, WordParagraphV,
    WordTable, WordTableV,
};
use crate::text::{owned, str_eq};

verus! {

/// The element of an ordinary paragraph.
pub open spec fn para_elem_v(p: WordParagraphV) -> DocElementV {
    DocElementV::Paragraph {
        id: p.id,
        text: p.text,
        omit_text: false,
        style: p.style,
        runs: p.runs,
        numbering: p.numbering,
        alignment: p.alignment,
        text_direction: p.text_direction,
    }
}

/// The header cells of a table: those of its first row.
pub open spec fn table_header_v(t: WordTableV) -> Seq<TableCellV> {
    if t.rows.len() == 0 { Seq::empty() } else { t.rows[0].cells }
}

/// The body cells of a table: those of every row but the first.
pub open spec fn table_body_v(t: WordTableV) -> Seq<Seq<TableCellV>> {
    if t.rows.len() == 0 {
        Seq::empty()
    } else {
        t.rows.skip(1).map_values(|r: TableRowV| r.cells)
    }
}

/// The element of a table at element position `pos`.
pub open spec fn table_elem_v(t: WordTableV, pos: nat) -> DocElementV {
    DocElementV::Table { id: t.id, position: pos as usize, header: table_header_v(t), rows: table_body_v(t) }
}

/// The element of a picture at element position `pos`.
pub open spec fn image_elem_v(i: WordImageV, pos: nat) -> DocElementV {
    DocElementV::Image { id: i.id, position: pos as usize, path: i.path, width_emu: i.width_emu, height_emu: i.height_emu }
}

/// Splits a table into its header cells and its body rows' cells, keeping
/// spans.
pub fn split_table(tbl: &WordTable) -> (r: (Vec<TableCell>, Vec<Vec<TableCell>>))
    ensures
        r.0.deep_view() == table_header_v(tbl@),
        r.1.deep_view() == table_body_v(tbl@),
{
    if tbl.rows.len() == 0 {
        let h: Vec<TableCell> = Vec::new();
        let b: Vec<Vec<TableCell>> = Vec::new();
        assert(h.deep_view() =~= table_header_v(tbl@));
        assert(b.deep_view() =~= table_body_v(tbl@));
        return (h, b);
    }
    let header = tbl.rows[0].cells.clone();
    assert(header.deep_view() =~= tbl@.rows[0].cells);
    let mut rows: Vec<Vec<TableCell>> = Vec::new();
    let mut i: usize = 1;
    while i < tbl.rows.len()
        invariant
            1 <= i <= tbl.rows@.len(),
            rows.deep_view() =~= tbl@.rows.subrange(1, i as int).map_values(|r: TableRowV| r.cells),
        decreases tbl.rows@.len() - i,
    {
        let cells = tbl.rows[i].cells.clone();
        assert(cells.deep_view() =~= tbl@.rows[i as int].cells);
        let ghost old_rows = rows.deep_view();
        rows.push(cells);
        assert(rows.deep_view() =~= old_rows.push(tbl@.rows[i as int].cells));
        i = i + 1;
    }
    assert(tbl@.rows.subrange(1, tbl@.rows.len() as int) =~= tbl@.rows.skip(1));
    (header, rows)
}

/// The elements the body paragraphs give, in order, with the ids of the
/// tables and pictures their markers placed.
pub open spec fn para_pass_v(d: WordDocumentV, k: int) -> (Seq<DocElementV>, Seq<Seq<char>>, Seq<Seq<char>>)
    decreases k,
{
    if k <= 0 {
        (Seq::empty(), Seq::empty(), Seq::empty())
    } else {
        let acc = para_pass_v(d, k - 1);
        let p = d.paragraphs[k - 1];
        match tbl_marker_v(p.text) {
            Some(tid) => match last_table_with_id(d.tables, tid) {
                Some(ti) => (acc.0.push(table_elem_v(d.tables[ti], acc.0.len())), acc.1.push(d.tables[ti].id), acc.2),
                None => acc,
            },
            None => match img_marker_v(p.text) {
                Some(iid) => match last_image_with_id(d.images, iid) {
                    Some(ii) => (acc.0.push(image_elem_v(d.images[ii], acc.0.len())), acc.1, acc.2.push(d.images[ii].id)),
                    None => (acc.0.push(para_elem_v(p)), acc.1, acc.2),
                },
                None => (acc.0.push(para_elem_v(p)), acc.1, acc.2),
            },
        }
    }
}

/// `acc` followed by the first `k` tables that no marker placed.
pub open spec fn tables_pass_v(ts: Seq<WordTableV>, placed: Seq<Seq<char>>, acc: Seq<DocElementV>, k: int) -> Seq<DocElementV>
    decreases k,
{
    if k <= 0 {
        acc
    } else {
        let a = tables_pass_v(ts, placed, acc, k - 1);
        if placed.contains(ts[k - 1].id) { a } else { a.push(table_elem_v(ts[k - 1], a.len())) }
    }
}

/// `acc` followed by the first `k` pictures that no marker placed.
pub open spec fn images_pass_v(ims: Seq<WordImageV>, placed: Seq<Seq<char>>, acc: Seq<DocElementV>, k: int) -> Seq<DocElementV>
    decreases k,
{
    if k <= 0 {
        acc
    } else {
        let a = images_pass_v(ims, placed, acc, k - 1);
        if placed.contains(ims[k - 1].id) { a } else { a.push(image_elem_v(ims[k - 1], a.len())) }
    }
}

/// The element view of a document: paragraphs, with marker paragraphs
/// standing for the table or picture they place (a table marker naming no
/// table is dropped), then the tables and pictures no marker placed.
pub open spec fn elements_v(d: WordDocumentV) -> Seq<DocElementV> {
    let a = para_pass_v(d, d.paragraphs.len() as int);
    let b = tables_pass_v(d.tables, a.1, a.0, d.tables.len() as int);
    images_pass_v(d.images, a.2, b, d.images.len() as int)
}


fn para_element(p: &WordParagraph) -> (r: DocElement)
    ensures
        r@ == para_elem_v(p@),
{
    let r = DocElement::Paragraph {
        id: p.id.clone(),
        text: p.text.clone(),
        omit_text: false,
        style: p.style.clone(),
        runs: p.runs.clone(),
        numbering: p.numbering.clone(),
        alignment: p.alignment.clone(),
        text_direction: p.text_direction.clone(),
    };
    proof {
        if let DocElement::Paragraph { runs, .. } = &r {
            assert(runs.deep_view() =~= p.runs.deep_view());
        }
    }
    r
}

fn table_element(t: &WordTable, pos: usize) -> (r: DocElement)
    ensures
        r@ == table_elem_v(t@, pos as nat),
{
    let (header, rows) = split_table(t);
    DocElement::Table { id: t.id.clone(), position: pos, header, rows }
}

fn image_element(i: &WordImage, pos: usize) -> (r: DocElement)
    ensures
        r@ == image_elem_v(i@, pos as nat),
{
    DocElement::Image {
        id: i.id.clone(),
        position: pos,
        path: i.path.clone(),
        width_emu: i.width_emu,
        height_emu: i.height_emu,
    }
}

impl WordDocument {
    /// The flat element view of the document, in reading order.
    pub fn to_elements(&self) -> (r: Vec<DocElement>)
        ensures
            r.deep_view() == elements_v(self@),
    {
        let ghost d = self@;
        let mut elements: Vec<DocElement> = Vec::new();
        let mut tables_placed: Vec<String> = Vec::new();
        let mut images_placed: Vec<String> = Vec::new();
        let mut k: usize = 0;
        proof {
            assert(elements.deep_view() =~= Seq::<DocElementV>::empty());
            assert(tables_placed.deep_view() =~= Seq::<Seq<char>>::empty());
            assert(images_placed.deep_view() =~= Seq::<Seq<char>>::empty());
        }
        while k < self.paragraphs.len()
            invariant
                d == self@,
                k <= d.paragraphs.len(),
                (elements.deep_view(), tables_placed.deep_view(), images_placed.deep_view()) == para_pass_v(d, k as int),
            decreases d.paragraphs.len() - k,
        {
            let p = &self.paragraphs[k];
            assert(d.paragraphs[k as int] == p@);
            let ghost e0 = elements.deep_view();
            let ghost t0 = tables_placed.deep_view();
            let ghost i0 = images_placed.deep_view();
            let tm = marker_id(p.text.as_str(), "<__tbl_pos_");
            match tm {
                Some(tid) => {
                    assert(tbl_marker_v(p@.text) == Some(tid@));
                    match find_table(&self.tables, tid.as_str()) {
                        Some(ti) => {
                            proof {
                                lemma_last_table_in_range(d.tables, tid@);
                                assert(d.tables[ti as int] == self.tables@[ti as int]@);
                            }
                            let el = table_element(&self.tables[ti], elements.len());
                            elements.push(el);
                            tables_placed.push(self.tables[ti].id.clone());
                            assert(elements.deep_view() =~= e0.push(el@));
                            assert(tables_placed.deep_view() =~= t0.push(d.tables[ti as int].id));
                        },
                        None => {},
                    }
                },
                None => {
                    assert(tbl_marker_v(p@.text) is None);
                    let im = marker_id(p.text.as_str(), "<__img_pos_");
                    let mut done = false;
                    if let Some(iid) = &im {
                        assert(img_marker_v(p@.text) == Some(iid@));
                        if let Some(ii) = find_image(&self.images, iid.as_str()) {
                            proof {
                                lemma_last_image_in_range(d.images, iid@);
                                assert(d.images[ii as int] == self.images@[ii as int]@);
                            }
                            let el = image_element(&self.images[ii], elements.len());
                            elements.push(el);
                            images_placed.push(self.images[ii].id.clone());
                            assert(elements.deep_view() =~= e0.push(el@));
                            assert(images_placed.deep_view() =~= i0.push(d.images[ii as int].id));
                            done = true;
                        }
                    }
                    if !done {
                        let el = para_element(p);
                        elements.push(el);
                        assert(elements.deep_view() =~= e0.push(el@));
                    }
                },
            }
            k = k + 1;
        }
        let ghost a = para_pass_v(d, d.paragraphs.len() as int);
        let mut j: usize = 0;
        while j < self.tables.len()
            invariant
                d == self@,
                j <= d.tables.len(),
                tables_placed.deep_view() == a.1,
                elements.deep_view() == tables_pass_v(d.tables, a.1, a.0, j as int),
            decreases d.tables.len() - j,
        {
            let t = &self.tables[j];
            assert(d.tables[j as int] == t@);
            if !contains_id(&tables_placed, t.id.as_str()) {
                let ghost e0 = elements.deep_view();
                let el = table_element(t, elements.len());
                elements.push(el);
                assert(elements.deep_view() =~= e0.push(el@));
            }
            j = j + 1;
        }
        let ghost b = tables_pass_v(d.tables, a.1, a.0, d.tables.len() as int);
        let mut j: usize = 0;
        while j < self.images.len()
            invariant
                d == self@,
                j <= d.images.len(),
                images_placed.deep_view() == a.2,
                elements.deep_view() == images_pass_v(d.images, a.2, b, j as int),
            decreases d.images.len() - j,
        {
            let im = &self.images[j];
            assert(d.images[j as int] == im@);
            if !contains_id(&images_placed, im.id.as_str()) {
                let ghost e0 = elements.deep_view();
                let el = image_element(im, elements.len());
                elements.push(el);
                assert(elements.deep_view() =~= e0.push(el@));
            }
            j = j + 1;
        }
        elements
    }
}


/// The (table id, marker paragraph id) pairs of the first `k` paragraphs
/// that are table markers, in order.
pub open spec fn marker_pairs_v(ps: Seq<WordParagraphV>, k: int) -> Seq<(Seq<char>, Seq<char>)>
    decreases k,
{
    if k <= 0 {
        Seq::empty()
    } else {
        let a = marker_pairs_v(ps, k - 1);
        match tbl_marker_v(ps[k - 1].text) {
            Some(tid) => a.push((tid, ps[k - 1].id)),
            None => a,
        }
    }
}

/// The value of the last pair with key `key`: later pairs override earlier ones.
pub open spec fn lookup_pair_v(pairs: Seq<(Seq<char>, Seq<char>)>, key: Seq<char>) -> Option<Seq<char>>
    decreases pairs.len(),
{
    if pairs.len() == 0 {
        None
    } else if pairs.last().0 == key {
        Some(pairs.last().1)
    } else {
        lookup_pair_v(pairs.drop_last(), key)
    }
}

impl WordDocument {
    /// For each table marker paragraph, in order, the table id it names and
    /// the marker's own id; where a table id occurs twice the later pair
    /// counts.
    pub fn marker_to_table_map(&self) -> (r: Vec<(String, String)>)
        ensures
            r.deep_view() == marker_pairs_v(self@.paragraphs, self@.paragraphs.len() as int),
    {
        let ghost ps = self@.paragraphs;
        let mut map: Vec<(String, String)> = Vec::new();
        let mut k: usize = 0;
        assert(map.deep_view() =~= marker_pairs_v(ps, 0));
        while k < self.paragraphs.len()
            invariant
                ps == self@.paragraphs,
                k <= ps.len(),
                map.deep_view() == marker_pairs_v(ps, k as int),
            decreases ps.len() - k,
        {
            let p = &self.paragraphs[k];
            assert(ps[k as int] == p@);
            let tm = marker_id(p.text.as_str(), "<__tbl_pos_");
            if let Some(tid) = tm {
                let ghost m0 = map.deep_view();
                let pid = p.id.clone();
                map.push((tid, pid));
                assert(map.deep_view() =~= m0.push((tid@, p@.id)));
            }
            k = k + 1;
        }
        map
    }
}

pub(crate) fn lookup_pair(pairs: &Vec<(String, String)>, key: &str) -> (r: Option<String>)
    ensures
        r.deep_view() == lookup_pair_v(pairs.deep_view(), key@),
{
    let ghost pv = pairs.deep_view();
    let mut found: Option<String> = None;
    let mut i: usize = 0;
    while i < pairs.len()
        invariant
            i <= pv.len(),
            pv == pairs.deep_view(),
            found.deep_view() == lookup_pair_v(pv.take(i as int), key@),
        decreases pv.len() - i,
    {
        assert(pv.take(i + 1).drop_last() =~= pv.take(i as int));
        assert(pv.take(i + 1).last() == pairs@[i as int].deep_view());
        if str_eq(pairs[i].0.as_str(), key) {
            found = Some(pairs[i].1.clone());
        }
        i = i + 1;
    }
    assert(pv.take(pv.len() as int) =~= pv);
    found
}

/// The marker paragraph standing for table `id`.
pub open spec fn tbl_marker_para_v(id: Seq<char>) -> WordParagraphV {
    WordParagraphV {
        id: "__tbl_pos_"@ + id + "__"@,
        text: "<__tbl_pos_"@ + id + "__>"@,
        style: None,
        runs: None,
        numbering: None,
        alignment: None,
        text_direction: None,
        page_break: None,
    }
}

/// The marker paragraph standing for picture `id`.
pub open spec fn img_marker_para_v(id: Seq<char>) -> WordParagraphV {
    WordParagraphV {
        id: "__img_pos_"@ + id + "__"@,
        text: "<__img_pos_"@ + id + "__>"@,
        style: None,
        runs: None,
        numbering: None,
        alignment: None,
        text_direction: None,
        page_break: None,
    }
}

fn marker_para(prefix_id: &str, prefix_text: &str, id: &str) -> (r: WordParagraph)
    ensures
        r@ == (WordParagraphV {
            id: prefix_id@ + id@ + "__"@,
            text: prefix_text@ + id@ + "__>"@,
            style: None,
            runs: None,
            numbering: None,
            alignment: None,
            text_direction: None,
            page_break: None,
        }),
{
    let mut pid = owned(prefix_id);
    pid.append(id);
    pid.append("__");
    let mut text = owned(prefix_text);
    text.append(id);
    text.append("__>");
    WordParagraph {
        id: pid,
        text,
        style: None,
        runs: None,
        numbering: None,
        alignment: None,
        text_direction: None,
        page_break: None,
    }
}

/// The non-empty rows among the first `k` body rows, in order.
pub open spec fn nonempty_rows_v(rows: Seq<Seq<TableCellV>>, k: int) -> Seq<TableRowV>
    decreases k,
{
    if k <= 0 {
        Seq::empty()
    } else {
        let a = nonempty_rows_v(rows, k - 1);
        if rows[k - 1].len() > 0 { a.push(TableRowV { cells: rows[k - 1] }) } else { a }
    }
}

/// The table an element gives: its header row when non-empty, then its
/// non-empty body rows.
pub open spec fn elem_table_v(id: Seq<char>, header: Seq<TableCellV>, rows: Seq<Seq<TableCellV>>) -> WordTableV {
    WordTableV {
        id,
        rows: (if header.len() > 0 { seq![TableRowV { cells: header }] } else { Seq::empty() }) + nonempty_rows_v(
            rows,
            rows.len() as int,
        ),
        cell_paragraphs: Seq::empty(),
    }
}

fn elem_table(id: &String, header: &Vec<TableCell>, rows: &Vec<Vec<TableCell>>) -> (r: WordTable)
    ensures
        r@ == elem_table_v(id@, header.deep_view(), rows.deep_view()),
{
    let mut table_rows: Vec<TableRow> = Vec::new();
    if header.len() > 0 {
        let h = header.clone();
        assert(h.deep_view() =~= header.deep_view());
        table_rows.push(TableRow { cells: h });
    }
    let ghost r0 = table_rows.deep_view();
    assert(r0 =~= (if header.deep_view().len() > 0 { seq![TableRowV { cells: header.deep_view() }] } else { Seq::empty() }));
    let ghost rv = rows.deep_view();
    let mut i: usize = 0;
    while i < rows.len()
        invariant
            i <= rv.len(),
            rv == rows.deep_view(),
            table_rows.deep_view() == r0 + nonempty_rows_v(rv, i as int),
        decreases rv.len() - i,
    {
        assert(rv[i as int] == rows@[i as int].deep_view());
        if rows[i].len() > 0 {
            let ghost t0 = table_rows.deep_view();
            let c = rows[i].clone();
            assert(c.deep_view() =~= rv[i as int]);
            table_rows.push(TableRow { cells: c });
            assert(table_rows.deep_view() =~= t0.push(TableRowV { cells: rv[i as int] }));
        }
        i = i + 1;
    }
    let r = WordTable { id: id.clone(), rows: table_rows, cell_paragraphs: Vec::new() };
    assert(r@.cell_paragraphs =~= Seq::<WordParagraphV>::empty());
    r
}

/// The position of the last element with id `id`.
pub open spec fn last_elem_with_id(es: Seq<DocElementV>, id: Seq<char>) -> Option<int>
    decreases es.len(),
{
    if es.len() == 0 {
        None
    } else if es.last().id() == id {
        Some(es.len() - 1)
    } else {
        last_elem_with_id(es.drop_last(), id)
    }
}

/// The internal media path a rebuilt picture keeps: none when the picture
/// was replaced, else that of the original picture with its id, if any.
pub open spec fn kept_path_v(id: Seq<char>, orig: Seq<WordImageV>, replaced: bool) -> Option<Seq<char>> {
    if replaced {
        None
    } else {
        match last_image_with_id(orig, id) {
            Some(i) => orig[i].internal_path,
            None => None,
        }
    }
}

/// The paragraphs, tables and pictures the first `k` elements give: a
/// paragraph as itself, a table or picture as a marker paragraph plus the
/// table or picture.
pub open spec fn rebuild_v(es: Seq<DocElementV>, k: int, orig: Seq<WordImageV>, ms: Seq<DocElementV>) -> (
    Seq<WordParagraphV>,
    Seq<WordTableV>,
    Seq<WordImageV>,
)
    decreases k,
{
    if k <= 0 {
        (Seq::empty(), Seq::empty(), Seq::empty())
    } else {
        let a = rebuild_v(es, k - 1, orig, ms);
        match es[k - 1] {
            DocElementV::Paragraph { id, text, style, runs, numbering, alignment, text_direction, .. } => (
                a.0.push(WordParagraphV { id, text, style, runs, numbering, alignment, text_direction, page_break: None }),
                a.1,
                a.2,
            ),
            DocElementV::Table { id, header, rows, .. } => (
                a.0.push(tbl_marker_para_v(id)),
                a.1.push(elem_table_v(id, header, rows)),
                a.2,
            ),
            DocElementV::Image { id, path, width_emu, height_emu, .. } => (
                a.0.push(img_marker_para_v(id)),
                a.1,
                a.2.push(WordImageV {
                    id,
                    path,
                    width_emu,
                    height_emu,
                    internal_path: kept_path_v(id, orig, last_elem_with_id(ms, id) is Some),
                }),
            ),
        }
    }
}

/// The document that a list of elements gives, with no sections, headers
/// or footers.
pub open spec fn from_elements_v(es: Seq<DocElementV>) -> WordDocumentV {
    let r = rebuild_v(es, es.len() as int, Seq::empty(), Seq::empty());
    WordDocumentV {
        paragraphs: r.0,
        tables: r.1,
        images: r.2,
        sections: Seq::empty(),
        headers: Seq::empty(),
        footers: Seq::empty(),
    }
}

pub(crate) fn find_elem(es: &Vec<DocElement>, id: &str) -> (r: Option<usize>)
    ensures
        match last_elem_with_id(es.deep_view(), id@) {
            Some(i) => r matches Some(j) && j as int == i,
            None => r is None,
        },
        r matches Some(j) ==> j < es@.len() && es@[j as int]@.id() == id@,
{
    let ghost ev = es.deep_view();
    let mut found: Option<usize> = None;
    let mut i: usize = 0;
    while i < es.len()
        invariant
            i <= ev.len(),
            ev == es.deep_view(),
            match last_elem_with_id(ev.take(i as int), id@) {
                Some(j) => found matches Some(k) && k as int == j,
                None => found is None,
            },
            found matches Some(j) ==> j < i && ev[j as int].id() == id@,
        decreases ev.len() - i,
    {
        assert(ev.take(i + 1).drop_last() =~= ev.take(i as int));
        assert(ev.take(i + 1).last() == es@[i as int]@);
        if str_eq(es[i].id(), id) {
            found = Some(i);
        }
        i = i + 1;
    }
    assert(ev.take(ev.len() as int) =~= ev);
    found
}

fn kept_path(id: &String, orig: &Vec<WordImage>, replaced: bool) -> (r: Option<String>)
    ensures
        r.deep_view() == kept_path_v(id@, orig.deep_view(), replaced),
{
    if replaced {
        return None;
    }
    match find_image(orig, id.as_str()) {
        Some(i) => {
            proof {
                lemma_last_image_in_range(orig.deep_view(), id@);
                assert(orig.deep_view()[i as int] == orig@[i as int]@);
            }
            orig[i].internal_path.clone()
        },
        None => None,
    }
}

fn rebuild(es: &Vec<DocElement>, orig: &Vec<WordImage>, ms: &Vec<DocElement>) -> (r: (
    Vec<WordParagraph>,
    Vec<WordTable>,
    Vec<WordImage>,
))
    ensures
        (r.0.deep_view(), r.1.deep_view(), r.2.deep_view()) == rebuild_v(
            es.deep_view(),
            es@.len() as int,
            orig.deep_view(),
            ms.deep_view(),
        ),
{
    let ghost ev = es.deep_view();
    let mut paras: Vec<WordParagraph> = Vec::new();
    let mut tables: Vec<WordTable> = Vec::new();
    let mut images: Vec<WordImage> = Vec::new();
    let mut k: usize = 0;
    proof {
        assert(paras.deep_view() =~= Seq::<WordParagraphV>::empty());
        assert(tables.deep_view() =~= Seq::<WordTableV>::empty());
        assert(images.deep_view() =~= Seq::<WordImageV>::empty());
    }
    while k < es.len()
        invariant
            k <= ev.len(),
            ev == es.deep_view(),
            (paras.deep_view(), tables.deep_view(), images.deep_view()) == rebuild_v(
                ev,
                k as int,
                orig.deep_view(),
                ms.deep_view(),
            ),
        decreases ev.len() - k,
    {
        assert(ev[k as int] == es@[k as int]@);
        let ghost p0 = paras.deep_view();
        let ghost t0 = tables.deep_view();
        let ghost i0 = images.deep_view();
        match &es[k] {
            DocElement::Paragraph { id, text, style, runs, numbering, alignment, text_direction, .. } => {
                let p = WordParagraph {
                    id: id.clone(),
                    text: text.clone(),
                    style: style.clone(),
                    runs: runs.clone(),
                    numbering: numbering.clone(),
                    alignment: alignment.clone(),
                    text_direction: text_direction.clone(),
                    page_break: None,
                };
                assert(p.runs.deep_view() =~= runs.deep_view());
                paras.push(p);
                assert(paras.deep_view() =~= p0.push(p@));
            },
            DocElement::Table { id, header, rows, .. } => {
                let m = marker_para("__tbl_pos_", "<__tbl_pos_", id.as_str());
                paras.push(m);
                let t = elem_table(id, header, rows);
                tables.push(t);
                assert(paras.deep_view() =~= p0.push(m@));
                assert(tables.deep_view() =~= t0.push(t@));
            },
            DocElement::Image { id, path, width_emu, height_emu, .. } => {
                let m = marker_para("__img_pos_", "<__img_pos_", id.as_str());
                paras.push(m);
                let replaced = find_elem(ms, id.as_str()).is_some();
                let ip = kept_path(id, orig, replaced);
                let im = WordImage {
                    id: id.clone(),
                    path: path.clone(),
                    width_emu: *width_emu,
                    height_emu: *height_emu,
                    internal_path: ip,
                };
                images.push(im);
                assert(paras.deep_view() =~= p0.push(m@));
                assert(images.deep_view() =~= i0.push(im@));
            },
        }
        k = k + 1;
    }
    (paras, tables, images)
}

impl WordDocument {
    /// The document a list of elements gives: each table and picture behind
    /// a marker paragraph carrying its id, no sections, headers or footers.
    pub fn from_elements(elements: Vec<DocElement>) -> (r: Self)
        ensures
            r@ == from_elements_v(elements.deep_view()),
    {
        let none: Vec<WordImage> = Vec::new();
        let no_mods: Vec<DocElement> = Vec::new();
        assert(none.deep_view() =~= Seq::<WordImageV>::empty());
        assert(no_mods.deep_view() =~= Seq::<DocElementV>::empty());
        let (paragraphs, tables, images) = rebuild(&elements, &none, &no_mods);
        let r = WordDocument {
            paragraphs,
            tables,
            images,
            sections: Vec::new(),
            headers: Vec::new(),
            footers: Vec::new(),
        };
        assert(r@.sections =~= Seq::empty());
        assert(r@.headers =~= Seq::empty());
        assert(r@.footers =~= Seq::empty());
        r
    }
}


/// The ids to delete: the given ones, then, for each given table id that a
/// marker paragraph names, that marker's id.
pub open spec fn delete_list_v(dels: Seq<Seq<char>>, pairs: Seq<(Seq<char>, Seq<char>)>, k: int) -> Seq<Seq<char>>
    decreases k,
{
    if k <= 0 {
        dels
    } else {
        let a = delete_list_v(dels, pairs, k - 1);
        match lookup_pair_v(pairs, dels[k - 1]) {
            Some(m) => a.push(m),
            None => a,
        }
    }
}

/// `a` when present, else `b`.
pub open spec fn or_v<T>(a: Option<T>, b: Option<T>) -> Option<T> {
    match a {
        Some(x) => Some(x),
        None => b,
    }
}

/// A replacement merged over the element it replaces. For paragraphs: the
/// replacement's runs when given (with empty text), else its text when
/// given (without runs), else the original text and runs; style, numbering,
/// alignment and text direction fall back to the original's. Any other
/// replacement is taken as it is.
pub open spec fn merge_v(orig: DocElementV, repl: DocElementV) -> DocElementV {
    match (orig, repl) {
        (
            DocElementV::Paragraph { text: ot, style: os, runs: ors, numbering: on, alignment: oa, text_direction: otd, .. },
            DocElementV::Paragraph { id: ri, text: rt, omit_text, style: rs, runs: rr, numbering: rn, alignment: ra, text_direction: rtd },
        ) => {
            let tr: (Seq<char>, Option<Seq<crate::model::FontRunV>>) = if rr is Some {
                (Seq::empty(), rr)
            } else if !omit_text {
                (rt, None)
            } else {
                (ot, ors)
            };
            DocElementV::Paragraph {
                id: ri,
                text: tr.0,
                omit_text: false,
                style: or_v(rs, os),
                runs: tr.1,
                numbering: or_v(rn, on),
                alignment: or_v(ra, oa),
                text_direction: or_v(rtd, otd),
            }
        },
        (_, r) => r,
    }
}

/// The first `k` elements without the deleted ones, each replaced one
/// merged with its (last) replacement.
pub open spec fn kept_v(es: Seq<DocElementV>, dl: Seq<Seq<char>>, ms: Seq<DocElementV>, k: int) -> Seq<DocElementV>
    decreases k,
{
    if k <= 0 {
        Seq::empty()
    } else {
        let a = kept_v(es, dl, ms, k - 1);
        let e = es[k - 1];
        if dl.contains(e.id()) {
            a
        } else {
            match last_elem_with_id(ms, e.id()) {
                Some(j) => a.push(merge_v(e, ms[j])),
                None => a.push(e),
            }
        }
    }
}

/// The first position at or after `i` of an element with id `id`.
pub open spec fn first_elem_from(es: Seq<DocElementV>, id: Seq<char>, i: nat) -> Option<nat>
    decreases es.len() - i,
{
    if i >= es.len() {
        None
    } else if es[i as int].id() == id {
        Some(i)
    } else {
        first_elem_from(es, id, i + 1)
    }
}

/// `r` with one element inserted: right after (or, when asked, right
/// before) the first element with the anchor id; at the end when there is
/// no anchor or it is not found.
pub open spec fn insert_one_v(r: Seq<DocElementV>, ie: InsertElementV) -> Seq<DocElementV> {
    match ie.anchor_id {
        Some(aid) => match first_elem_from(r, aid, 0) {
            Some(i) => r.insert(if ie.position == Some("before"@) { i as int } else { i + 1int }, ie.element),
            None => r.push(ie.element),
        },
        None => r.push(ie.element),
    }
}

/// `r` after the first `k` insertions, skipping those whose element id is
/// among the replacements.
pub open spec fn insert_pass_v(r: Seq<DocElementV>, ms: Seq<DocElementV>, ins: Seq<InsertElementV>, k: int) -> Seq<DocElementV>
    decreases k,
{
    if k <= 0 {
        r
    } else {
        let a = insert_pass_v(r, ms, ins, k - 1);
        if last_elem_with_id(ms, ins[k - 1].element.id()) is Some { a } else { insert_one_v(a, ins[k - 1]) }
    }
}

/// The element view after an edit: deletions (a deleted table takes its
/// marker paragraph along), replacements, then insertions.
pub open spec fn modified_elements_v(
    d: WordDocumentV,
    ms: Seq<DocElementV>,
    dels: Seq<Seq<char>>,
    ins: Seq<InsertElementV>,
) -> Seq<DocElementV> {
    let pairs = marker_pairs_v(d.paragraphs, d.paragraphs.len() as int);
    let dl = delete_list_v(dels, pairs, dels.len() as int);
    let es = elements_v(d);
    insert_pass_v(kept_v(es, dl, ms, es.len() as int), ms, ins, ins.len() as int)
}

/// The document after an edit: its paragraphs, tables and pictures rebuilt
/// from the edited element view (unchanged pictures keep their internal
/// media path), its sections, headers and footers untouched.
pub open spec fn modify_v(
    d: WordDocumentV,
    ms: Seq<DocElementV>,
    dels: Seq<Seq<char>>,
    ins: Seq<InsertElementV>,
) -> WordDocumentV {
    let res = modified_elements_v(d, ms, dels, ins);
    let r = rebuild_v(res, res.len() as int, d.images, ms);
    WordDocumentV {
        paragraphs: r.0,
        tables: r.1,
        images: r.2,
        sections: d.sections,
        headers: d.headers,
        footers: d.footers,
    }
}

fn merge(orig: &DocElement, repl: &DocElement) -> (r: DocElement)
    ensures
        r@ == merge_v(orig@, repl@),
{
    match (orig, repl) {
        (
            DocElement::Paragraph { text: ot, style: os, runs: ors, numbering: on, alignment: oa, text_direction: otd, .. },
            DocElement::Paragraph { id: ri, text: rt, omit_text, style: rs, runs: rr, numbering: rn, alignment: ra, text_direction: rtd },
        ) => {
            let (text, runs) = if rr.is_some() {
                (String::new(), rr.clone())
            } else if !*omit_text {
                (rt.clone(), None)
            } else {
                (ot.clone(), ors.clone())
            };
            let style = if rs.is_some() { rs.clone() } else { os.clone() };
            let numbering = if rn.is_some() { rn.clone() } else { on.clone() };
            let alignment = if ra.is_some() { ra.clone() } else { oa.clone() };
            let text_direction = if rtd.is_some() { rtd.clone() } else { otd.clone() };
            let r = DocElement::Paragraph {
                id: ri.clone(),
                text,
                omit_text: false,
                style,
                runs,
                numbering,
                alignment,
                text_direction,
            };
            proof {
                if let DocElement::Paragraph { runs: r2, text: t2, .. } = &r {
                    if rr.is_some() {
                        assert(r2.deep_view() =~= rr.deep_view());
                        assert(t2@ =~= Seq::<char>::empty());
                    } else if !*omit_text {
                    } else {
                        assert(r2.deep_view() =~= ors.deep_view());
                    }
                }
            }
            r
        },
        (_, r) => r.clone(),
    }
}

fn position_is_before(p: &Option<String>) -> (r: bool)
    ensures
        r == (p.deep_view() == Some("before"@)),
{
    match p {
        Some(s) => str_eq(s.as_str(), "before"),
        None => false,
    }
}

fn first_elem(es: &Vec<DocElement>, id: &str) -> (r: Option<usize>)
    ensures
        match first_elem_from(es.deep_view(), id@, 0) {
            Some(i) => r matches Some(j) && j as nat == i,
            None => r is None,
        },
        r matches Some(j) ==> j < es@.len(),
{
    let ghost ev = es.deep_view();
    let mut i: usize = 0;
    while i < es.len()
        invariant
            i <= ev.len(),
            ev == es.deep_view(),
            first_elem_from(ev, id@, 0) == first_elem_from(ev, id@, i as nat),
        decreases ev.len() - i,
    {
        assert(ev[i as int] == es@[i as int]@);
        if str_eq(es[i].id(), id) {
            return Some(i);
        }
        i = i + 1;
    }
    None
}

fn insert_one(result: &mut Vec<DocElement>, ie: &InsertElement)
    ensures
        final(result).deep_view() == insert_one_v(old(result).deep_view(), ie@),
{
    let ghost r0 = result.deep_view();
    let n = result.len();
    let el = ie.element.clone();
    match &ie.anchor_id {
        Some(aid) => match first_elem(result, aid.as_str()) {
            Some(i) => {
                let at = if position_is_before(&ie.position) { i } else { i + 1 };
                result.insert(at, el);
                assert(result.deep_view() =~= r0.insert(at as int, el@));
            },
            None => {
                result.push(el);
                assert(result.deep_view() =~= r0.push(el@));
            },
        },
        None => {
            result.push(el);
            assert(result.deep_view() =~= r0.push(el@));
        },
    }
}

impl WordDocument {
    /// Edits the document through its element view: drops the elements
    /// whose id is in `deletes` (a deleted table takes its marker paragraph
    /// along), merges each element that has a replacement in `modifies`
    /// (the last one with its id), then places each of `insert_elements`
    /// whose id has no replacement after (or before) its anchor, or at the
    /// end. Pictures not replaced keep their internal media path; sections,
    /// headers and footers are kept.
    pub fn modify(&mut self, modifies: Vec<DocElement>, deletes: Vec<String>, insert_elements: Vec<InsertElement>)
        ensures
            final(self)@ == modify_v(old(self)@, modifies.deep_view(), deletes.deep_view(), insert_elements.deep_view()),
    {
        let ghost d = self@;
        let pairs = self.marker_to_table_map();
        let ghost pv = pairs.deep_view();
        let mut dl: Vec<String> = deletes.clone();
        assert(dl.deep_view() =~= deletes.deep_view());
        let mut k: usize = 0;
        while k < deletes.len()
            invariant
                k <= deletes@.len(),
                pv == pairs.deep_view(),
                dl.deep_view() == delete_list_v(deletes.deep_view(), pv, k as int),
            decreases deletes@.len() - k,
        {
            assert(deletes.deep_view()[k as int] == deletes@[k as int]@);
            if let Some(m) = lookup_pair(&pairs, deletes[k].as_str()) {
                let ghost d0 = dl.deep_view();
                dl.push(m);
                assert(dl.deep_view() =~= d0.push(m@));
            }
            k = k + 1;
        }
        let ghost dlv = dl.deep_view();
        let elements = self.to_elements();
        let ghost ev = elements.deep_view();
        let ghost msv = modifies.deep_view();
        let mut result: Vec<DocElement> = Vec::new();
        assert(result.deep_view() =~= kept_v(ev, dlv, msv, 0));
        let mut i: usize = 0;
        while i < elements.len()
            invariant
                i <= ev.len(),
                ev == elements.deep_view(),
                dlv == dl.deep_view(),
                msv == modifies.deep_view(),
                result.deep_view() == kept_v(ev, dlv, msv, i as int),
            decreases ev.len() - i,
        {
            let e = &elements[i];
            assert(ev[i as int] == e@);
            if !contains_id(&dl, e.id()) {
                let ghost r0 = result.deep_view();
                match find_elem(&modifies, e.id()) {
                    Some(j) => {
                        assert(msv[j as int] == modifies@[j as int]@);
                        let m = merge(e, &modifies[j]);
                        result.push(m);
                        assert(result.deep_view() =~= r0.push(m@));
                    },
                    None => {
                        let c = e.clone();
                        result.push(c);
                        assert(result.deep_view() =~= r0.push(c@));
                    },
                }
            }
            i = i + 1;
        }
        let ghost kept = result.deep_view();
        let ghost insv = insert_elements.deep_view();
        let mut k: usize = 0;
        while k < insert_elements.len()
            invariant
                k <= insv.len(),
                insv == insert_elements.deep_view(),
                msv == modifies.deep_view(),
                result.deep_view() == insert_pass_v(kept, msv, insv, k as int),
            decreases insv.len() - k,
        {
            let ie = &insert_elements[k];
            assert(insv[k as int] == ie@);
            if find_elem(&modifies, ie.element.id()).is_none() {
                insert_one(&mut result, ie);
            }
            k = k + 1;
        }
        let (paragraphs, tables, images) = rebuild(&result, &self.images, &modifies);
        self.paragraphs = paragraphs;
        self.tables = tables;
        self.images = images;
    }
}

} // verus!
