//! `word/numbering.xml` for a document: the built-in bullet and decimal
//! lists, and a decimal list registered for every other list instance
//! (`numId`) a paragraph refers to.

use vstd::prelude::*;
use crate::boilerplate::{NUMBERING_HEAD_XML, NUMBERING_NUMS_XML};
use crate::model::{WordDocument, WordParagraphV};
use crate::text::{dec, owned, push_dec};

verus! {

/// The list instances the paragraphs `0..k` refer to, each once, in the
/// order of their first reference.
pub open spec fn referenced_num_ids_v(ps: Seq<WordParagraphV>, k: int) -> Seq<u32>
    decreases k,
{
    if k <= 0 {
        Seq::empty()
    } else {
        let prev = referenced_num_ids_v(ps, k - 1);
        match ps[k - 1].numbering {
            Some(n) => if prev.contains(n.num_id) { prev } else { prev.push(n.num_id) },
            None => prev,
        }
    }
}

/// The list instances `doc`'s paragraphs refer to, each once, in the order
/// of their first reference.
pub fn collect_referenced_num_ids(doc: &WordDocument) -> (r: Vec<u32>)
    ensures
        r@ == referenced_num_ids_v(doc@.paragraphs, doc@.paragraphs.len() as int),
{
    let ghost ps = doc@.paragraphs;
    let mut out: Vec<u32> = Vec::new();
    let mut k: usize = 0;
    while k < doc.paragraphs.len()
        invariant
            k <= ps.len(),
            ps == doc@.paragraphs,
            out@ == referenced_num_ids_v(ps, k as int),
        decreases ps.len() - k,
    {
        assert(ps[k as int] == doc.paragraphs@[k as int]@);
        if let Some(n) = &doc.paragraphs[k].numbering {
            let id = n.num_id;
            let mut seen = false;
            let mut j: usize = 0;
            while j < out.len()
                invariant
                    j <= out@.len(),
                    seen == (exists|q: int| 0 <= q < j && out@[q] == id),
                decreases out@.len() - j,
            {
                if out[j] == id {
                    seen = true;
                }
                j = j + 1;
            }
            assert(seen == out@.contains(id));
            if !seen {
                out.push(id);
            }
        }
        k = k + 1;
    }
    out
}

/// A list instance that the built-in definitions do not hold: not the
/// bullet (1) or decimal (2) list, and not 0, which means "no list".
pub open spec fn is_extra_num_v(n: u32) -> bool {
    n != 0 && n != 1 && n != 2
}

/// The decimal list definition registered for list instance `n`, under
/// abstract id `n`.
pub open spec fn extra_abstract_v(n: u32) -> Seq<char> {
    "  <w:abstractNum w:abstractNumId=\""@ + dec(n as nat)
        + "\">\n    <w:lvl w:ilvl=\"0\">\n      <w:start w:val=\"1\"/>\n      <w:numFmt w:val=\"decimal\"/>\n      <w:lvlText w:val=\"%1.\"/>\n      <w:lvlJc w:val=\"left\"/>\n      <w:pPr><w:ind w:left=\"720\" w:hanging=\"360\"/></w:pPr>\n    </w:lvl>\n  </w:abstractNum>\n"@
}

/// The list instance `n`, bound to its registered definition.
pub open spec fn extra_num_v(n: u32) -> Seq<char> {
    "  <w:num w:numId=\""@ + dec(n as nat) + "\"><w:abstractNumId w:val=\""@ + dec(n as nat) + "\"/></w:num>\n"@
}

/// The registered definitions of the extra instances among `ids[0..k]`.
pub open spec fn extra_abstracts_v(ids: Seq<u32>, k: int) -> Seq<char>
    decreases k,
{
    if k <= 0 {
        Seq::empty()
    } else {
        extra_abstracts_v(ids, k - 1) + if is_extra_num_v(ids[k - 1]) { extra_abstract_v(ids[k - 1]) } else { Seq::empty() }
    }
}

/// The extra instances among `ids[0..k]`.
pub open spec fn extra_nums_v(ids: Seq<u32>, k: int) -> Seq<char>
    decreases k,
{
    if k <= 0 {
        Seq::empty()
    } else {
        extra_nums_v(ids, k - 1) + if is_extra_num_v(ids[k - 1]) { extra_num_v(ids[k - 1]) } else { Seq::empty() }
    }
}

/// `word/numbering.xml` for the list instances `ids`: the built-in
/// definitions and instances, with a decimal list registered for each
/// other instance (definitions first, then instances, as the schema asks).
pub open spec fn numbering_xml_v(ids: Seq<u32>) -> Seq<char> {
    NUMBERING_HEAD_XML@ + extra_abstracts_v(ids, ids.len() as int) + NUMBERING_NUMS_XML@ + extra_nums_v(ids, ids.len() as int)
        + "</w:numbering>"@
}

/// `word/numbering.xml` for the list instances `ids`.
pub fn build_dynamic_numbering_body(ids: &[u32]) -> (r: String)
    ensures
        r@ == numbering_xml_v(ids@),
{
    let mut out = owned(NUMBERING_HEAD_XML);
    let ghost head = out@;
    let mut k: usize = 0;
    while k < ids.len()
        invariant
            k <= ids@.len(),
            out@ == head + extra_abstracts_v(ids@, k as int),
        decreases ids@.len() - k,
    {
        let n = ids[k];
        if n != 0 && n != 1 && n != 2 {
            let ghost before = out@;
            out.append("  <w:abstractNum w:abstractNumId=\"");
            push_dec(&mut out, n as u64);
            out.append("\">\n    <w:lvl w:ilvl=\"0\">\n      <w:start w:val=\"1\"/>\n      <w:numFmt w:val=\"decimal\"/>\n      <w:lvlText w:val=\"%1.\"/>\n      <w:lvlJc w:val=\"left\"/>\n      <w:pPr><w:ind w:left=\"720\" w:hanging=\"360\"/></w:pPr>\n    </w:lvl>\n  </w:abstractNum>\n");
            assert(out@ =~= before + extra_abstract_v(n));
        } else {
            assert(out@ =~= out@ + Seq::<char>::empty());
        }
        k = k + 1;
    }
    out.append(NUMBERING_NUMS_XML);
    let ghost mid = out@;
    let mut k: usize = 0;
    while k < ids.len()
        invariant
            k <= ids@.len(),
            out@ == mid + extra_nums_v(ids@, k as int),
        decreases ids@.len() - k,
    {
        let n = ids[k];
        if n != 0 && n != 1 && n != 2 {
            let ghost before = out@;
            out.append("  <w:num w:numId=\"");
            push_dec(&mut out, n as u64);
            out.append("\"><w:abstractNumId w:val=\"");
            push_dec(&mut out, n as u64);
            out.append("\"/></w:num>\n");
            assert(out@ =~= before + extra_num_v(n));
        } else {
            assert(out@ =~= out@ + Seq::<char>::empty());
        }
        k = k + 1;
    }
    out.append("</w:numbering>");
    out
}

/// `word/numbering.xml` for `doc`: the list instances its paragraphs refer to.
pub open spec fn doc_numbering_xml_v(ps: Seq<WordParagraphV>) -> Seq<char> {
    numbering_xml_v(referenced_num_ids_v(ps, ps.len() as int))
}

/// `word/numbering.xml` for `doc`.
pub fn build_doc_numbering_xml(doc: &WordDocument) -> (r: String)
    ensures
        r@ == doc_numbering_xml_v(doc@.paragraphs),
{
    let ids = collect_referenced_num_ids(doc);
    build_dynamic_numbering_body(ids.as_slice())
}

} // verus!
