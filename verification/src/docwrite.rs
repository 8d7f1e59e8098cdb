//! Writing a `.docx` package: header and footer parts, the relationship
//! and content-type rows of pictures and header/footer parts, and the
//! placeholders of `document.xml` resolved to relationship ids.

use vstd::prelude::*;
use crate::model::{FontRunV, FooterPart, FooterPartV, HeaderPart, HeaderPartV, WordParagraph, WordParagraphV};
use crate::text::{chars_of, escape_xml, find, find_v, lemma_find_from_bound, owned, spec_escape_xml, starts_with, string_of_range};
use crate::writer::{build_run_xml, id_elem_v, push_runs, push_val_elem, runs_xml_v, style_elem_v, val_elem_v};
use crate::error::{OfficeError, OfficeErrorV};
use crate::model::{WordDocument, WordDocumentV, WordImage, WordImageV};
use crate::package::{result_v, zip_entry_named, zip_named_v};
use crate::paths::{after_last, after_last_v, ascii_lower, ascii_lower_v, extension, extension_v};
use crate::relscan::{hf_state_v, image_state_v, scan_preserved_hf_state, scan_preserved_zip_for_image_state, PreservedImageRef, PreservedImageRefV};
use crate::elements::{lookup_pair, lookup_pair_v};
use crate::numbering::{build_doc_numbering_xml, doc_numbering_xml_v};
use crate::boilerplate::{CONTENT_TYPES_XML, FONT_TABLE_XML, RELS_XML, SETTINGS_XML, STYLES_XML, THEME_XML, WORD_RELS_XML};
use crate::document::{build_document_xml, doc_fits_v, document_xml_v};
use crate::package::{encode_package, entries_writable_v, holds_entries_v, zip_count_v, zip_entry_at, zip_entry_count, zip_entry_v, PackageEntry, PackageEntryV};
use vstd::string::StrSliceExecFns;
use vstd::utf8::encode_utf8;
use crate::text::{dec, dec_string, str_eq, strip_prefix, strip_prefix_v};

verus! {

/// The last position of `p` in `s`.
pub open spec fn rfind_v(s: Seq<char>, p: Seq<char>) -> Option<nat>
    decreases s.len(),
{
    if p.len() <= s.len() && s.skip(s.len() - p.len()) == p {
        Some((s.len() - p.len()) as nat)
    } else if s.len() == 0 {
        None
    } else {
        rfind_v(s.drop_last(), p)
    }
}

proof fn lemma_rfind_bound(s: Seq<char>, p: Seq<char>)
    ensures
        rfind_v(s, p) matches Some(i) ==> i + p.len() <= s.len(),
    decreases s.len(),
{
    if !(p.len() <= s.len() && s.skip(s.len() - p.len()) == p) && s.len() > 0 {
        lemma_rfind_bound(s.drop_last(), p);
    }
}

/// The last position of `p` in `s`.
pub fn rfind(s: &str, p: &str) -> (r: Option<usize>)
    ensures
        match rfind_v(s@, p@) {
            Some(i) => r matches Some(j) && j as nat == i,
            None => r is None,
        },
        r matches Some(i) ==> i + p@.len() <= s@.len(),
{
    proof {
        lemma_rfind_bound(s@, p@);
    }
    let v = chars_of(s);
    let pv = chars_of(p);
    let mut n: usize = v.len();
    assert(s@.take(n as int) =~= s@);
    loop
        invariant
            n <= v@.len(),
            v@ == s@,
            pv@ == p@,
            rfind_v(s@, p@) == rfind_v(s@.take(n as int), p@),
        decreases n,
    {
        let ghost t = s@.take(n as int);
        if pv.len() <= n {
            let start = n - pv.len();
            let mut k: usize = 0;
            let mut same = true;
            while k < pv.len()
                invariant
                    k <= pv@.len(),
                    start + pv@.len() == n,
                    n <= v@.len(),
                    same == forall|q: int| 0 <= q < k ==> v@[start + q] == pv@[q],
                decreases pv@.len() - k,
            {
                if v[start + k] != pv[k] {
                    same = false;
                }
                k = k + 1;
            }
            if same {
                assert(t.skip(start as int) =~= p@);
                return Some(start);
            }
            assert(t.skip(t.len() - p@.len()) != p@) by {
                let q = choose|q: int| 0 <= q < pv@.len() && v@[start + q] != pv@[q];
                assert(t.skip(t.len() - p@.len())[q] == v@[start + q]);
            }
        }
        if n == 0 {
            return None;
        }
        assert(t.drop_last() =~= s@.take(n - 1));
        n = n - 1;
    }
}

/// `s` with each occurrence of `p` (from the left, not overlapping)
/// replaced by `r` (`str::replace`); `p` is not empty.
pub open spec fn replace_all_v(s: Seq<char>, p: Seq<char>, r: Seq<char>) -> Seq<char>
    decreases s.len(),
{
    if p.len() == 0 {
        s
    } else {
        match find_v(s, p) {
            Some(i) => {
                proof {
                    lemma_find_from_bound(s, p, 0);
                }
                s.take(i as int) + r + replace_all_v(s.skip((i + p.len()) as int), p, r)
            },
            None => s,
        }
    }
}

/// `s` with each occurrence of `p` replaced by `r`.
pub fn replace_all(s: &str, p: &str, r: &str) -> (out: String)
    requires
        p@.len() > 0,
    ensures
        out@ == replace_all_v(s@, p@, r@),
{
    let mut out = String::new();
    let mut rest = owned(s);
    assert(out@ + replace_all_v(rest@, p@, r@) =~= replace_all_v(s@, p@, r@));
    loop
        invariant
            p@.len() > 0,
            out@ + replace_all_v(rest@, p@, r@) == replace_all_v(s@, p@, r@),
        decreases rest@.len(),
    {
        proof {
            lemma_find_from_bound(rest@, p@, 0);
        }
        match find(rest.as_str(), p) {
            Some(i) => {
                let v = chars_of(rest.as_str());
                let pl = chars_of(p).len();
                let vl = v.len();
                assert(i + pl <= vl);
                let head = string_of_range(v.as_slice(), 0, i);
                let tail = string_of_range(v.as_slice(), i + pl, v.len());
                out.append(head.as_str());
                out.append(r);
                proof {
                    assert(head@ =~= rest@.take(i as int));
                    assert(tail@ =~= rest@.skip((i + p@.len()) as int));
                }
                rest = tail;
            },
            None => {
                out.append(rest.as_str());
                return out;
            },
        }
    }
}

/// The placeholder the document writer puts where a picture's relationship
/// id goes.
pub open spec fn img_placeholder_v() -> Seq<char> {
    "rIdImgPlaceholder"@
}

/// `doc_xml` with its picture placeholders replaced, in order, by the given
/// relationship ids; once the placeholders or the ids run out, the rest
/// is kept as it is.
pub open spec fn subst_images_v(doc_xml: Seq<char>, rids: Seq<Seq<char>>) -> Seq<char>
    decreases rids.len(),
{
    if rids.len() == 0 {
        doc_xml
    } else {
        match find_v(doc_xml, img_placeholder_v()) {
            Some(i) => {
                proof {
                    lemma_find_from_bound(doc_xml, img_placeholder_v(), 0);
                }
                doc_xml.take(i as int) + rids[0] + subst_images_v(
                    doc_xml.skip((i + img_placeholder_v().len()) as int),
                    rids.drop_first(),
                )
            },
            None => doc_xml,
        }
    }
}

/// One picture to write: its bytes, its entry path (`word/media/image1.png`)
/// and file name, its content type and its relationship id.
pub struct ImageWritePlan {
    pub bytes: Vec<u8>,
    pub internal_path: String,
    pub internal_basename: String,
    pub content_type: String,
    pub rid: String,
}

/// Model of an [`ImageWritePlan`].
pub struct ImageWritePlanV {
    pub bytes: Seq<u8>,
    pub internal_path: Seq<char>,
    pub internal_basename: Seq<char>,
    pub content_type: Seq<char>,
    pub rid: Seq<char>,
}

impl DeepView for ImageWritePlan {
    type V = ImageWritePlanV;

    open spec fn deep_view(&self) -> ImageWritePlanV {
        ImageWritePlanV {
            bytes: self.bytes@,
            internal_path: self.internal_path@,
            internal_basename: self.internal_basename@,
            content_type: self.content_type@,
            rid: self.rid@,
        }
    }
}

/// The relationship ids of the plans, in order.
pub open spec fn plan_rids_v(plans: Seq<ImageWritePlanV>) -> Seq<Seq<char>> {
    Seq::new(plans.len(), |k: int| plans[k].rid)
}

/// Replaces the picture placeholders of `doc_xml`, in order, with the
/// relationship ids of the plans.
pub fn substitute_image_placeholders(doc_xml: &str, image_writes: &Vec<ImageWritePlan>) -> (r: String)
    ensures
        r@ == subst_images_v(doc_xml@, plan_rids_v(image_writes.deep_view())),
{
    let ghost all = plan_rids_v(image_writes.deep_view());
    let mut out = String::new();
    let mut rest = owned(doc_xml);
    let mut k: usize = 0;
    assert(all.skip(0) =~= all);
    assert(out@ + subst_images_v(rest@, all.skip(0)) =~= subst_images_v(doc_xml@, all));
    while k < image_writes.len()
        invariant
            k <= image_writes@.len(),
            all == plan_rids_v(image_writes.deep_view()),
            out@ + subst_images_v(rest@, all.skip(k as int)) == subst_images_v(doc_xml@, all),
        decreases image_writes@.len() - k,
    {
        proof {
            lemma_find_from_bound(rest@, img_placeholder_v(), 0);
            reveal_strlit("rIdImgPlaceholder");
            assert(all.skip(k as int).drop_first() =~= all.skip(k + 1));
            assert(all.skip(k as int)[0] == image_writes@[k as int].rid@);
        }
        match find(rest.as_str(), "rIdImgPlaceholder") {
            Some(i) => {
                let v = chars_of(rest.as_str());
                let head = string_of_range(v.as_slice(), 0, i);
                let tail = string_of_range(v.as_slice(), i + 17, v.len());
                out.append(head.as_str());
                out.append(image_writes[k].rid.as_str());
                proof {
                    assert(head@ =~= rest@.take(i as int));
                    assert(tail@ =~= rest@.skip((i + img_placeholder_v().len()) as int));
                }
                rest = tail;
            },
            None => {
                out.append(rest.as_str());
                return out;
            },
        }
        k = k + 1;
    }
    assert(all.skip(k as int).len() == 0);
    out.append(rest.as_str());
    out
}

/// A header or a footer part to write.
pub enum HeaderFooterPart {
    Header(HeaderPart),
    Footer(FooterPart),
}

/// Model of a [`HeaderFooterPart`].
pub enum HeaderFooterPartV {
    Header(HeaderPartV),
    Footer(FooterPartV),
}

impl DeepView for HeaderFooterPart {
    type V = HeaderFooterPartV;

    open spec fn deep_view(&self) -> HeaderFooterPartV {
        match self {
            HeaderFooterPart::Header(h) => HeaderFooterPartV::Header(h.deep_view()),
            HeaderFooterPart::Footer(f) => HeaderFooterPartV::Footer(f.deep_view()),
        }
    }
}

/// One header or footer part to write: the part, its basename (`header1`),
/// entry path (`word/header1.xml`), relationship id, the part's own id, and
/// whether it is a header.
pub struct HeaderFooterWritePlan {
    pub part: HeaderFooterPart,
    pub basename: String,
    pub internal_path: String,
    pub rid: String,
    pub part_id: String,
    pub is_header: bool,
}

/// Model of a [`HeaderFooterWritePlan`].
pub struct HeaderFooterWritePlanV {
    pub part: HeaderFooterPartV,
    pub basename: Seq<char>,
    pub internal_path: Seq<char>,
    pub rid: Seq<char>,
    pub part_id: Seq<char>,
    pub is_header: bool,
}

impl DeepView for HeaderFooterWritePlan {
    type V = HeaderFooterWritePlanV;

    open spec fn deep_view(&self) -> HeaderFooterWritePlanV {
        HeaderFooterWritePlanV {
            part: self.part.deep_view(),
            basename: self.basename@,
            internal_path: self.internal_path@,
            rid: self.rid@,
            part_id: self.part_id@,
            is_header: self.is_header,
        }
    }
}

/// The placeholder the section writer puts for a plan's part.
pub open spec fn hf_placeholder_v(is_header: bool, part_id: Seq<char>) -> Seq<char> {
    (if is_header { "rIdHeaderPlaceholder_"@ } else { "rIdFooterPlaceholder_"@ }) + spec_escape_xml(part_id)
}

/// `doc_xml` with the placeholders of the first `n` plans replaced by their
/// relationship ids, plan after plan.
pub open spec fn subst_hf_v(doc_xml: Seq<char>, plans: Seq<HeaderFooterWritePlanV>, n: int) -> Seq<char>
    decreases n,
{
    if n <= 0 {
        doc_xml
    } else {
        let p = plans[n - 1];
        replace_all_v(subst_hf_v(doc_xml, plans, n - 1), hf_placeholder_v(p.is_header, p.part_id), p.rid)
    }
}

/// Replaces each plan's header or footer placeholder in `doc_xml` with its
/// relationship id.
pub fn substitute_hf_placeholders(doc_xml: &str, plans: &Vec<HeaderFooterWritePlan>) -> (r: String)
    ensures
        r@ == subst_hf_v(doc_xml@, plans.deep_view(), plans@.len() as int),
{
    let mut out = owned(doc_xml);
    let mut k: usize = 0;
    while k < plans.len()
        invariant
            k <= plans@.len(),
            out@ == subst_hf_v(doc_xml@, plans.deep_view(), k as int),
        decreases plans@.len() - k,
    {
        let plan = &plans[k];
        assert(plans.deep_view()[k as int] == plan.deep_view());
        let mut placeholder = if plan.is_header { owned("rIdHeaderPlaceholder_") } else { owned("rIdFooterPlaceholder_") };
        let esc = escape_xml(plan.part_id.as_str());
        placeholder.append(esc.as_str());
        proof {
            reveal_strlit("rIdHeaderPlaceholder_");
            reveal_strlit("rIdFooterPlaceholder_");
        }
        out = replace_all(out.as_str(), placeholder.as_str(), plan.rid.as_str());
        k = k + 1;
    }
    out
}

/// `base` with `rows` put before the last `close`; `base` when it has none.
pub open spec fn insert_before_last_v(base: Seq<char>, close: Seq<char>, rows: Seq<char>) -> Seq<char> {
    match rfind_v(base, close) {
        Some(pos) => base.take(pos as int) + rows + base.skip(pos as int),
        None => base,
    }
}

fn insert_before_last(base: &str, close: &str, rows: &str) -> (r: String)
    ensures
        r@ == insert_before_last_v(base@, close@, rows@),
{
    match rfind(base, close) {
        Some(pos) => {
            let v = chars_of(base);
            let mut out = string_of_range(v.as_slice(), 0, pos);
            out.append(rows);
            let tail = string_of_range(v.as_slice(), pos, v.len());
            out.append(tail.as_str());
            assert(out@ =~= base@.take(pos as int) + rows@ + base@.skip(pos as int));
            out
        },
        None => owned(base),
    }
}

/// The `<Override>` row of a picture.
pub open spec fn image_override_row_v(p: ImageWritePlanV) -> Seq<char> {
    "  <Override PartName=\"/word/media/"@ + spec_escape_xml(p.internal_basename) + "\" ContentType=\""@
        + spec_escape_xml(p.content_type) + "\"/>\n"@
}

/// Whether a plan before `k` has the file name of plan `k`.
pub open spec fn basename_seen_v(ps: Seq<ImageWritePlanV>, k: int) -> bool {
    exists|j: int| 0 <= j < k && ps[j].internal_basename == ps[k].internal_basename
}

/// Whether a plan before `k` has the relationship id of plan `k`.
pub open spec fn rid_seen_v(ps: Seq<ImageWritePlanV>, k: int) -> bool {
    exists|j: int| 0 <= j < k && ps[j].rid == ps[k].rid
}

/// The override rows of the first `n` plans, one per file name.
pub open spec fn image_override_rows_v(ps: Seq<ImageWritePlanV>, n: int) -> Seq<char>
    decreases n,
{
    if n <= 0 {
        Seq::empty()
    } else {
        image_override_rows_v(ps, n - 1) + if basename_seen_v(ps, n - 1) {
            Seq::empty()
        } else {
            image_override_row_v(ps[n - 1])
        }
    }
}

/// The relationship row of a picture.
pub open spec fn image_rel_row_v(p: ImageWritePlanV) -> Seq<char> {
    "  <Relationship Id=\""@ + spec_escape_xml(p.rid)
        + "\" Type=\"http://schemas.openxmlformats.org/officeDocument/2006/relationships/image\" Target=\"media/"@
        + spec_escape_xml(p.internal_basename) + "\"/>\n"@
}

/// The relationship rows of the first `n` plans, one per relationship id.
pub open spec fn image_rel_rows_v(ps: Seq<ImageWritePlanV>, n: int) -> Seq<char>
    decreases n,
{
    if n <= 0 {
        Seq::empty()
    } else {
        image_rel_rows_v(ps, n - 1) + if rid_seen_v(ps, n - 1) { Seq::empty() } else { image_rel_row_v(ps[n - 1]) }
    }
}

fn basename_seen(ps: &Vec<ImageWritePlan>, k: usize) -> (r: bool)
    requires
        k < ps@.len(),
    ensures
        r == basename_seen_v(ps.deep_view(), k as int),
{
    let mut j: usize = 0;
    while j < k
        invariant
            j <= k < ps@.len(),
            forall|q: int| 0 <= q < j ==> ps.deep_view()[q].internal_basename != ps.deep_view()[k as int].internal_basename,
        decreases k - j,
    {
        assert(ps.deep_view()[j as int] == ps@[j as int].deep_view());
        assert(ps.deep_view()[k as int] == ps@[k as int].deep_view());
        if crate::text::str_eq(ps[j].internal_basename.as_str(), ps[k].internal_basename.as_str()) {
            return true;
        }
        j = j + 1;
    }
    false
}

fn rid_seen(ps: &Vec<ImageWritePlan>, k: usize) -> (r: bool)
    requires
        k < ps@.len(),
    ensures
        r == rid_seen_v(ps.deep_view(), k as int),
{
    let mut j: usize = 0;
    while j < k
        invariant
            j <= k < ps@.len(),
            forall|q: int| 0 <= q < j ==> ps.deep_view()[q].rid != ps.deep_view()[k as int].rid,
        decreases k - j,
    {
        assert(ps.deep_view()[j as int] == ps@[j as int].deep_view());
        assert(ps.deep_view()[k as int] == ps@[k as int].deep_view());
        if crate::text::str_eq(ps[j].rid.as_str(), ps[k].rid.as_str()) {
            return true;
        }
        j = j + 1;
    }
    false
}

/// `[Content_Types].xml` with an `<Override>` row for each picture file
/// (once per file name) before its closing `</Types>`.
pub open spec fn with_image_overrides_v(base: Seq<char>, ps: Seq<ImageWritePlanV>) -> Seq<char> {
    if ps.len() == 0 {
        base
    } else {
        insert_before_last_v(base, "</Types>"@, image_override_rows_v(ps, ps.len() as int))
    }
}

/// Adds an `<Override>` row for each picture file to `[Content_Types].xml`.
pub fn append_image_overrides(base: &str, image_writes: &Vec<ImageWritePlan>) -> (r: String)
    ensures
        r@ == with_image_overrides_v(base@, image_writes.deep_view()),
{
    if image_writes.len() == 0 {
        return owned(base);
    }
    let ghost ps = image_writes.deep_view();
    let mut rows = String::new();
    let mut k: usize = 0;
    while k < image_writes.len()
        invariant
            k <= ps.len(),
            ps == image_writes.deep_view(),
            rows@ == image_override_rows_v(ps, k as int),
        decreases ps.len() - k,
    {
        let seen = basename_seen(image_writes, k);
        if !seen {
            let p = &image_writes[k];
            assert(ps[k as int] == p.deep_view());
            rows.append("  <Override PartName=\"/word/media/");
            let b = escape_xml(p.internal_basename.as_str());
            rows.append(b.as_str());
            rows.append("\" ContentType=\"");
            let c = escape_xml(p.content_type.as_str());
            rows.append(c.as_str());
            rows.append("\"/>\n");
        }
        k = k + 1;
    }
    insert_before_last(base, "</Types>", rows.as_str())
}

/// `word/_rels/document.xml.rels` with a relationship row for each picture
/// (once per relationship id) before its closing `</Relationships>`.
pub open spec fn with_image_rels_v(base: Seq<char>, ps: Seq<ImageWritePlanV>) -> Seq<char> {
    if ps.len() == 0 {
        base
    } else {
        insert_before_last_v(base, "</Relationships>"@, image_rel_rows_v(ps, ps.len() as int))
    }
}

/// Adds a relationship row for each picture to the document's rels part.
pub fn append_image_relationships(base: &str, image_writes: &Vec<ImageWritePlan>) -> (r: String)
    ensures
        r@ == with_image_rels_v(base@, image_writes.deep_view()),
{
    if image_writes.len() == 0 {
        return owned(base);
    }
    let ghost ps = image_writes.deep_view();
    let mut rows = String::new();
    let mut k: usize = 0;
    while k < image_writes.len()
        invariant
            k <= ps.len(),
            ps == image_writes.deep_view(),
            rows@ == image_rel_rows_v(ps, k as int),
        decreases ps.len() - k,
    {
        let seen = rid_seen(image_writes, k);
        if !seen {
            let p = &image_writes[k];
            assert(ps[k as int] == p.deep_view());
            rows.append("  <Relationship Id=\"");
            let r = escape_xml(p.rid.as_str());
            rows.append(r.as_str());
            rows.append("\" Type=\"http://schemas.openxmlformats.org/officeDocument/2006/relationships/image\" Target=\"media/");
            let b = escape_xml(p.internal_basename.as_str());
            rows.append(b.as_str());
            rows.append("\"/>\n");
        }
        k = k + 1;
    }
    insert_before_last(base, "</Relationships>", rows.as_str())
}

/// The `<Override>` row of a header or footer part.
pub open spec fn hf_override_row_v(p: HeaderFooterWritePlanV) -> Seq<char> {
    "  <Override PartName=\"/word/"@ + spec_escape_xml(p.basename)
        + ".xml\" ContentType=\"application/vnd.openxmlformats-officedocument.wordprocessingml."@
        + spec_escape_xml(if p.is_header { "header"@ } else { "footer"@ }) + "+xml\"/>\n"@
}

/// The override rows of the first `n` plans.
pub open spec fn hf_override_rows_v(ps: Seq<HeaderFooterWritePlanV>, n: int) -> Seq<char>
    decreases n,
{
    if n <= 0 { Seq::empty() } else { hf_override_rows_v(ps, n - 1) + hf_override_row_v(ps[n - 1]) }
}

/// The relationship row of a header or footer part.
pub open spec fn hf_rel_row_v(p: HeaderFooterWritePlanV) -> Seq<char> {
    "  <Relationship Id=\""@ + spec_escape_xml(p.rid) + "\" Type=\""@ + (if p.is_header {
        "http://schemas.openxmlformats.org/officeDocument/2006/relationships/header"@
    } else {
        "http://schemas.openxmlformats.org/officeDocument/2006/relationships/footer"@
    }) + "\" Target=\""@ + spec_escape_xml(p.basename) + ".xml\"/>\n"@
}

/// The relationship rows of the first `n` plans.
pub open spec fn hf_rel_rows_v(ps: Seq<HeaderFooterWritePlanV>, n: int) -> Seq<char>
    decreases n,
{
    if n <= 0 { Seq::empty() } else { hf_rel_rows_v(ps, n - 1) + hf_rel_row_v(ps[n - 1]) }
}

/// `[Content_Types].xml` with an `<Override>` row for each header and
/// footer part.
pub open spec fn with_hf_overrides_v(base: Seq<char>, ps: Seq<HeaderFooterWritePlanV>) -> Seq<char> {
    if ps.len() == 0 { base } else { insert_before_last_v(base, "</Types>"@, hf_override_rows_v(ps, ps.len() as int)) }
}

/// `word/_rels/document.xml.rels` with a relationship row for each header
/// and footer part.
pub open spec fn with_hf_rels_v(base: Seq<char>, ps: Seq<HeaderFooterWritePlanV>) -> Seq<char> {
    if ps.len() == 0 {
        base
    } else {
        insert_before_last_v(base, "</Relationships>"@, hf_rel_rows_v(ps, ps.len() as int))
    }
}

/// Adds an `<Override>` row for each header and footer part.
pub fn append_hf_overrides(base: &str, plans: &Vec<HeaderFooterWritePlan>) -> (r: String)
    ensures
        r@ == with_hf_overrides_v(base@, plans.deep_view()),
{
    if plans.len() == 0 {
        return owned(base);
    }
    let ghost ps = plans.deep_view();
    let mut rows = String::new();
    let mut k: usize = 0;
    while k < plans.len()
        invariant
            k <= ps.len(),
            ps == plans.deep_view(),
            rows@ == hf_override_rows_v(ps, k as int),
        decreases ps.len() - k,
    {
        let p = &plans[k];
        assert(ps[k as int] == p.deep_view());
        rows.append("  <Override PartName=\"/word/");
        let b = escape_xml(p.basename.as_str());
        rows.append(b.as_str());
        rows.append(".xml\" ContentType=\"application/vnd.openxmlformats-officedocument.wordprocessingml.");
        let t = escape_xml(if p.is_header { "header" } else { "footer" });
        rows.append(t.as_str());
        rows.append("+xml\"/>\n");
        k = k + 1;
    }
    insert_before_last(base, "</Types>", rows.as_str())
}

/// Adds a relationship row for each header and footer part.
pub fn append_hf_relationships(base: &str, plans: &Vec<HeaderFooterWritePlan>) -> (r: String)
    ensures
        r@ == with_hf_rels_v(base@, plans.deep_view()),
{
    if plans.len() == 0 {
        return owned(base);
    }
    let ghost ps = plans.deep_view();
    let mut rows = String::new();
    let mut k: usize = 0;
    while k < plans.len()
        invariant
            k <= ps.len(),
            ps == plans.deep_view(),
            rows@ == hf_rel_rows_v(ps, k as int),
        decreases ps.len() - k,
    {
        let p = &plans[k];
        assert(ps[k as int] == p.deep_view());
        rows.append("  <Relationship Id=\"");
        let r = escape_xml(p.rid.as_str());
        rows.append(r.as_str());
        rows.append("\" Type=\"");
        rows.append(
            if p.is_header {
                "http://schemas.openxmlformats.org/officeDocument/2006/relationships/header"
            } else {
                "http://schemas.openxmlformats.org/officeDocument/2006/relationships/footer"
            },
        );
        rows.append("\" Target=\"");
        let b = escape_xml(p.basename.as_str());
        rows.append(b.as_str());
        rows.append(".xml\"/>\n");
        k = k + 1;
    }
    insert_before_last(base, "</Relationships>", rows.as_str())
}

/// The XML of one paragraph of a header or footer part; table and picture
/// markers give none.
pub open spec fn hf_para_xml_v(p: WordParagraphV) -> Seq<char> {
    if "<__tbl_pos_"@.is_prefix_of(p.text) || "<__img_pos_"@.is_prefix_of(p.text) {
        Seq::empty()
    } else {
        "\n  <w:p>"@ + hf_ppr_v(p) + hf_runs_v(p) + "</w:p>"@
    }
}

/// The XML of the first `n` paragraphs of a part.
pub open spec fn hf_paras_xml_v(ps: Seq<WordParagraphV>, n: int) -> Seq<char>
    decreases n,
{
    if n <= 0 { Seq::empty() } else { hf_paras_xml_v(ps, n - 1) + hf_para_xml_v(ps[n - 1]) }
}

/// The opening of a header (`hdr`) or footer (`ftr`) part.
pub open spec fn hf_open_v(tag: Seq<char>) -> Seq<char> {
    "<?xml version=\"1.0\" encoding=\"UTF-8\" standalone=\"yes\"?>\n<w:"@ + tag + " xmlns:w=\"http://schemas.openxmlformats.org/wordprocessingml/2006/main\"\n             xmlns:r=\"http://schemas.openxmlformats.org/officeDocument/2006/relationships\"\n             xmlns:inkuo=\"http://inkuo.app/wordprocessingml/2026/main\">"@
}

/// The XML of a header or footer part: its root element with the part's
/// paragraphs inside.
pub open spec fn hf_xml_v(part: HeaderFooterPartV) -> Seq<char> {
    let (ps, tag) = match part {
        HeaderFooterPartV::Header(h) => (h.paragraphs, "hdr"@),
        HeaderFooterPartV::Footer(f) => (f.paragraphs, "ftr"@),
    };
    hf_open_v(tag) + hf_paras_xml_v(ps, ps.len() as int) + "\n</w:"@ + tag + ">"@
}

/// The paragraph properties of a header or footer paragraph.
pub open spec fn hf_ppr_v(p: WordParagraphV) -> Seq<char> {
    if p.style is Some || p.alignment is Some || p.id.len() > 0 {
        "<w:pPr>"@ + style_elem_v(p.style) + (match p.alignment {
            Some(a) => if a.len() > 0 { val_elem_v("jc"@, a) } else { Seq::empty() },
            None => Seq::empty(),
        }) + id_elem_v(p.id) + "</w:pPr>"@
    } else {
        Seq::empty()
    }
}

/// The runs of a header or footer paragraph.
pub open spec fn hf_runs_v(p: WordParagraphV) -> Seq<char> {
    match p.runs {
        Some(rs) => runs_xml_v(rs),
        None => if p.text.len() > 0 {
            "<w:r><w:t xml:space=\"preserve\">"@ + spec_escape_xml(p.text) + "</w:t></w:r>"@
        } else {
            Seq::empty()
        },
    }
}

fn push_hf_ppr(xml: &mut String, para: &WordParagraph)
    ensures
        final(xml)@ == old(xml)@ + hf_ppr_v(para.deep_view()),
{
    let has_id = chars_of(para.id.as_str()).len() > 0;
    if para.style.is_some() || para.alignment.is_some() || has_id {
        let ghost x0 = xml@;
        xml.append("<w:pPr>");
        if let Some(st) = &para.style {
            push_val_elem(xml, "pStyle", st.as_str());
        }
        let ghost x1 = xml@;
        if let Some(a) = &para.alignment {
            if chars_of(a.as_str()).len() > 0 {
                push_val_elem(xml, "jc", a.as_str());
            }
        }
        let ghost x2 = xml@;
        if has_id {
            xml.append("<inkuo:id w:val=\"");
            let e = escape_xml(para.id.as_str());
            xml.append(e.as_str());
            xml.append("\"/>");
        }
        let ghost x3 = xml@;
        xml.append("</w:pPr>");
        proof {
            reveal_strlit("<w:pPr>");
            reveal_strlit("</w:pPr>");
        }
    }
}

fn push_hf_runs(xml: &mut String, para: &WordParagraph)
    ensures
        final(xml)@ == old(xml)@ + hf_runs_v(para.deep_view()),
{
    match &para.runs {
        Some(rs) => push_runs(xml, rs),
        None => {
            if chars_of(para.text.as_str()).len() > 0 {
                xml.append("<w:r><w:t xml:space=\"preserve\">");
                let e = escape_xml(para.text.as_str());
                xml.append(e.as_str());
                xml.append("</w:t></w:r>");
            }
        },
    }
}

fn push_hf_para(xml: &mut String, para: &WordParagraph)
    ensures
        final(xml)@ == old(xml)@ + hf_para_xml_v(para.deep_view()),
{
    if starts_with(para.text.as_str(), "<__tbl_pos_") || starts_with(para.text.as_str(), "<__img_pos_") {
        return;
    }
    xml.append("\n  <w:p>");
    push_hf_ppr(xml, para);
    push_hf_runs(xml, para);
    xml.append("</w:p>");
}

/// Builds the XML of a header or footer part.
pub fn build_header_footer_xml(part: &HeaderFooterPart) -> (xml: String)
    ensures
        xml@ == hf_xml_v(part.deep_view()),
{
    let (paragraphs, tag) = match part {
        HeaderFooterPart::Header(h) => (&h.paragraphs, "hdr"),
        HeaderFooterPart::Footer(f) => (&f.paragraphs, "ftr"),
    };
    let mut xml = owned("<?xml version=\"1.0\" encoding=\"UTF-8\" standalone=\"yes\"?>\n<w:");
    xml.append(tag);
    xml.append(" xmlns:w=\"http://schemas.openxmlformats.org/wordprocessingml/2006/main\"\n             xmlns:r=\"http://schemas.openxmlformats.org/officeDocument/2006/relationships\"\n             xmlns:inkuo=\"http://inkuo.app/wordprocessingml/2026/main\">");
    let ghost ps = paragraphs.deep_view();
    let mut k: usize = 0;
    while k < paragraphs.len()
        invariant
            k <= ps.len(),
            ps == paragraphs.deep_view(),
            xml@ == hf_open_v(tag@) + hf_paras_xml_v(ps, k as int),
        decreases ps.len() - k,
    {
        assert(ps[k as int] == paragraphs@[k as int].deep_view());
        push_hf_para(&mut xml, &paragraphs[k]);
        k = k + 1;
    }
    xml.append("\n</w:");
    xml.append(tag);
    xml.append(">");
    xml
}

/// Whether some paragraph of the document is a list item.
pub open spec fn has_numbering_v(d: WordDocumentV) -> bool {
    exists|k: int| 0 <= k < d.paragraphs.len() && d.paragraphs[k].numbering is Some
}

/// Whether some paragraph of the document is a list item (and so needs
/// `word/numbering.xml`).
pub fn doc_has_numbering(doc: &WordDocument) -> (r: bool)
    ensures
        r == has_numbering_v(doc@),
{
    let mut k: usize = 0;
    while k < doc.paragraphs.len()
        invariant
            k <= doc@.paragraphs.len(),
            doc@.paragraphs.len() == doc.paragraphs@.len(),
            forall|j: int| 0 <= j < k ==> doc@.paragraphs[j].numbering is None,
        decreases doc.paragraphs@.len() - k,
    {
        assert(doc@.paragraphs[k as int] == doc.paragraphs@[k as int].deep_view());
        if doc.paragraphs[k].numbering.is_some() {
            return true;
        }
        k = k + 1;
    }
    false
}

/// An image extension as written in a package: `jpg` becomes `jpeg`.
pub open spec fn norm_ext_v(e: Seq<char>) -> Seq<char> {
    if e == "jpg"@ { "jpeg"@ } else { e }
}

/// The content type of a supported picture extension.
pub open spec fn content_type_v(e: Seq<char>) -> Option<Seq<char>> {
    if e == "png"@ {
        Some("image/png"@)
    } else if e == "jpeg"@ {
        Some("image/jpeg"@)
    } else if e == "gif"@ {
        Some("image/gif"@)
    } else {
        None
    }
}

fn norm_ext(e: String) -> (r: String)
    ensures
        r@ == norm_ext_v(e@),
{
    if str_eq(e.as_str(), "jpg") { owned("jpeg") } else { e }
}

fn content_type(e: &str) -> (r: Option<String>)
    ensures
        r.deep_view() == content_type_v(e@),
{
    if str_eq(e, "png") {
        Some(owned("image/png"))
    } else if str_eq(e, "jpeg") {
        Some(owned("image/jpeg"))
    } else if str_eq(e, "gif") {
        Some(owned("image/gif"))
    } else {
        None
    }
}

/// The preserved relationship whose target is `target` (the last one).
pub open spec fn lookup_ref_v(refs: Seq<PreservedImageRefV>, target: Seq<char>) -> Option<PreservedImageRefV>
    decreases refs.len(),
{
    if refs.len() == 0 {
        None
    } else if refs.last().target == target {
        Some(refs.last())
    } else {
        lookup_ref_v(refs.drop_last(), target)
    }
}

fn lookup_ref(refs: &Vec<PreservedImageRef>, target: &str) -> (r: Option<(String, String)>)
    ensures
        match lookup_ref_v(refs.deep_view(), target@) {
            Some(x) => r matches Some(y) && y.0@ == x.rid && y.1@ == x.target,
            None => r is None,
        },
{
    let ghost rv = refs.deep_view();
    let mut k: usize = refs.len();
    assert(rv.take(k as int) =~= rv);
    while k > 0
        invariant
            k <= rv.len(),
            rv == refs.deep_view(),
            lookup_ref_v(rv, target@) == lookup_ref_v(rv.take(k as int), target@),
        decreases k,
    {
        let r = &refs[k - 1];
        assert(rv.take(k as int).last() == r.deep_view());
        if str_eq(r.target.as_str(), target) {
            return Some((r.rid.clone(), r.target.clone()));
        }
        assert(rv.take(k as int).drop_last() =~= rv.take(k - 1));
        k = k - 1;
    }
    None
}

/// The bytes of entry `internal` of the preserved package, as far as they
/// could be read; none when there is no package or no such entry.
pub open spec fn preserved_bytes_v(preserve: Option<Seq<u8>>, internal: Seq<char>) -> Seq<u8> {
    match preserve {
        Some(pf) => match zip_named_v(pf, internal) {
            Ok(e) => e.data,
            Err(_) => Seq::empty(),
        },
        None => Seq::empty(),
    }
}

/// The plan of a picture read from the preserved package, when its entry
/// has a preserved relationship: the same entry, relationship id and name.
pub open spec fn preserved_plan_v(img: WordImageV, refs: Seq<PreservedImageRefV>, preserve: Option<Seq<u8>>) -> Option<ImageWritePlanV> {
    match img.internal_path {
        Some(internal) => {
            let target = match strip_prefix_v(internal, "word/"@) {
                Some(t) => t,
                None => internal,
            };
            match lookup_ref_v(refs, target) {
                Some(pr) => Some(
                    ImageWritePlanV {
                        bytes: preserved_bytes_v(preserve, internal),
                        internal_path: internal,
                        internal_basename: after_last_v(pr.target, '/'),
                        content_type: match content_type_v(norm_ext_v(after_last_v(pr.target, '.'))) {
                            Some(c) => c,
                            None => "image/png"@,
                        },
                        rid: pr.rid,
                    },
                ),
                None => None,
            }
        },
        None => None,
    }
}

/// The error for a picture whose path has no extension.
pub open spec fn no_ext_msg_v(path: Seq<char>) -> Seq<char> {
    "Image '"@ + path + "' has no extension; supported: png, jpeg, jpg, gif"@
}

/// Whether a picture file's extension is one the writer embeds: png, jpeg,
/// jpg or gif, in any case.
pub open spec fn picture_supported_v(path: Seq<char>) -> bool {
    match extension_v(path) {
        Some(e) => content_type_v(norm_ext_v(ascii_lower_v(e))) is Some,
        None => false,
    }
}

/// Whether the writer embeds a picture file with this path; the file of
/// any other picture is never read.
pub fn picture_file_supported(path: &str) -> (r: bool)
    ensures
        r == picture_supported_v(path@),
{
    match extension(path) {
        Some(e) => {
            let n = norm_ext(ascii_lower(e.as_str()));
            content_type(n.as_str()).is_some()
        },
        None => false,
    }
}

/// The error for a picture of an unsupported type.
pub open spec fn bad_ext_msg_v(ext: Seq<char>) -> Seq<char> {
    "Unsupported image extension '."@ + ext + "'; supported: png, jpeg, jpg, gif"@
}

/// The error for a picture whose file could not be read.
pub open spec fn read_fail_msg_v(path: Seq<char>, e: Seq<char>) -> Seq<char> {
    "Failed to read image source '"@ + path + "': "@ + e
}

/// The plan of a new picture, `image<media>.<ext>` with relationship
/// `rId<rid>`, or why it cannot be written.
pub open spec fn fresh_plan_v(img: WordImageV, source: Result<Seq<u8>, Seq<char>>, media: u32, rid: u32) -> Result<ImageWritePlanV, Seq<char>> {
    match extension_v(img.path) {
        None => Err(no_ext_msg_v(img.path)),
        Some(e) => {
            let n = norm_ext_v(ascii_lower_v(e));
            match content_type_v(n) {
                None => Err(bad_ext_msg_v(n)),
                Some(ct) => match source {
                    Err(m) => Err(read_fail_msg_v(img.path, m)),
                    Ok(bytes) => {
                        let base = "image"@ + dec(media as nat) + "."@ + n;
                        Ok(
                            ImageWritePlanV {
                                bytes,
                                internal_path: "word/media/"@ + base,
                                internal_basename: base,
                                content_type: ct,
                                rid: "rId"@ + dec(rid as nat),
                            },
                        )
                    },
                },
            }
        },
    }
}

/// The plans of the pictures from `k` on, with the next media number and
/// relationship id, or the first error; also the next relationship id.
pub open spec fn image_plans_from_v(
    imgs: Seq<WordImageV>,
    sources: Seq<Result<Seq<u8>, Seq<char>>>,
    refs: Seq<PreservedImageRefV>,
    preserve: Option<Seq<u8>>,
    k: int,
    media: u32,
    rid: u32,
    acc: Seq<ImageWritePlanV>,
) -> Result<(u32, Seq<ImageWritePlanV>), Seq<char>>
    decreases imgs.len() - k,
{
    if k < 0 || k >= imgs.len() {
        Ok((rid, acc))
    } else {
        match preserved_plan_v(imgs[k], refs, preserve) {
            Some(p) => image_plans_from_v(imgs, sources, refs, preserve, k + 1, media, rid, acc.push(p)),
            None => match fresh_plan_v(imgs[k], sources[k], media, rid) {
                Err(m) => Err(m),
                Ok(p) => image_plans_from_v(
                    imgs,
                    sources,
                    refs,
                    preserve,
                    k + 1,
                    media.wrapping_add(1),
                    rid.wrapping_add(1),
                    acc.push(p),
                ),
            },
        }
    }
}

/// The picture plans of a document and the relationship id after them:
/// preserved pictures keep their entry and relationship, new ones are
/// numbered after the preserved package's highest media number and
/// relationship id. Without pictures: `(5, [])`.
pub open spec fn image_plans_v(
    imgs: Seq<WordImageV>,
    preserve: Option<Seq<u8>>,
    sources: Seq<Result<Seq<u8>, Seq<char>>>,
) -> Result<(u32, Seq<ImageWritePlanV>), OfficeErrorV> {
    if imgs.len() == 0 {
        Ok((5, Seq::empty()))
    } else {
        match image_state_v(preserve) {
            Err(e) => Err(e),
            Ok((mm, mr, refs)) => match image_plans_from_v(
                imgs,
                sources,
                refs,
                preserve,
                0,
                mm.wrapping_add(1),
                mr.wrapping_add(1),
                Seq::empty(),
            ) {
                Ok(v) => Ok(v),
                Err(m) => Err(OfficeErrorV::Xml(m)),
            },
        }
    }
}

/// Model of the picture sources.
pub open spec fn sources_v(sources: Seq<Result<Vec<u8>, String>>) -> Seq<Result<Seq<u8>, Seq<char>>> {
    Seq::new(
        sources.len(),
        |k: int| match sources[k] {
            Ok(b) => Ok(b@),
            Err(e) => Err(e@),
        },
    )
}

/// Model of an optional borrowed package.
pub open spec fn opt_bytes_v(p: Option<&[u8]>) -> Option<Seq<u8>> {
    match p {
        Some(b) => Some(b@),
        None => None,
    }
}

fn preserved_plan(img: &WordImage, refs: &Vec<PreservedImageRef>, preserve_from: Option<&[u8]>) -> (r: Option<ImageWritePlan>)
    ensures
        match preserved_plan_v(img.deep_view(), refs.deep_view(), opt_bytes_v(preserve_from)) {
            Some(p) => r matches Some(x) && x.deep_view() == p,
            None => r is None,
        },
{
    let internal = match &img.internal_path {
        Some(i) => i,
        None => {
            return None;
        },
    };
    let target = match strip_prefix(internal.as_str(), "word/") {
        Some(t) => t,
        None => internal.clone(),
    };
    let (rid, ptarget) = match lookup_ref(refs, target.as_str()) {
        Some(x) => x,
        None => {
            return None;
        },
    };
    let bytes = match preserve_from {
        Some(pf) => match zip_entry_named(pf, internal.as_str()) {
            Ok(e) => e.data,
            Err(_) => Vec::new(),
        },
        None => Vec::new(),
    };
    let ext = norm_ext(after_last(ptarget.as_str(), '.'));
    let ct = match content_type(ext.as_str()) {
        Some(c) => c,
        None => owned("image/png"),
    };
    let basename = after_last(ptarget.as_str(), '/');
    Some(ImageWritePlan { bytes, internal_path: internal.clone(), internal_basename: basename, content_type: ct, rid })
}

fn fresh_plan(img: &WordImage, source: &Result<Vec<u8>, String>, media: u32, rid: u32) -> (r: Result<ImageWritePlan, String>)
    ensures
        match fresh_plan_v(
            img.deep_view(),
            match source { Ok(b) => Ok(b@), Err(e) => Err(e@) },
            media,
            rid,
        ) {
            Ok(p) => r matches Ok(x) && x.deep_view() == p,
            Err(m) => r matches Err(x) && x@ == m,
        },
{
    let e = match extension(img.path.as_str()) {
        Some(e) => e,
        None => {
            let mut m = owned("Image '");
            m.append(img.path.as_str());
            m.append("' has no extension; supported: png, jpeg, jpg, gif");
            return Err(m);
        },
    };
    let lower = ascii_lower(e.as_str());
    let n = norm_ext(lower);
    let ct = match content_type(n.as_str()) {
        Some(c) => c,
        None => {
            let mut m = owned("Unsupported image extension '.");
            m.append(n.as_str());
            m.append("'; supported: png, jpeg, jpg, gif");
            return Err(m);
        },
    };
    let bytes = match source {
        Ok(b) => b.clone(),
        Err(msg) => {
            let mut m = owned("Failed to read image source '");
            m.append(img.path.as_str());
            m.append("': ");
            m.append(msg.as_str());
            return Err(m);
        },
    };
    let mut base = owned("image");
    let d = dec_string(media as u64);
    base.append(d.as_str());
    base.append(".");
    base.append(n.as_str());
    let mut path = owned("word/media/");
    path.append(base.as_str());
    let mut r = owned("rId");
    let d2 = dec_string(rid as u64);
    r.append(d2.as_str());
    Ok(ImageWritePlan { bytes, internal_path: path, internal_basename: base, content_type: ct, rid: r })
}

/// Plans the pictures of a document: which entry, name, content type and
/// relationship id each gets, and the relationship id that follows.
/// `image_sources` holds, for each picture, the bytes of its file (read
/// by the caller) or why they could not be read.
pub fn plan_images(doc: &WordDocument, preserve_from: Option<&[u8]>, image_sources: &Vec<Result<Vec<u8>, String>>) -> (r: Result<(u32, Vec<ImageWritePlan>), OfficeError>)
    requires
        image_sources@.len() == doc@.images.len(),
    ensures
        match image_plans_v(doc@.images, opt_bytes_v(preserve_from), sources_v(image_sources@)) {
            Ok(v) => r matches Ok(x) && x.0 == v.0 && x.1.deep_view() == v.1,
            Err(e) => r matches Err(x) && x.deep_view() == e,
        },
{
    let ghost imgs = doc@.images;
    let ghost srcs = sources_v(image_sources@);
    let mut plans: Vec<ImageWritePlan> = Vec::new();
    assert(plans.deep_view() =~= Seq::<ImageWritePlanV>::empty());
    if doc.images.len() == 0 {
        return Ok((5, plans));
    }
    let (mm, mr, refs) = scan_preserved_zip_for_image_state(preserve_from)?;
    let mut media = mm.wrapping_add(1);
    let mut rid = mr.wrapping_add(1);
    let mut k: usize = 0;
    while k < doc.images.len()
        invariant
            k <= imgs.len(),
            imgs == doc@.images,
            imgs.len() == doc.images@.len(),
            imgs.len() > 0,
            image_state_v(opt_bytes_v(preserve_from)) matches Ok(v) && v.0 == mm && v.1 == mr && v.2 == refs.deep_view(),
            srcs == sources_v(image_sources@),
            image_sources@.len() == imgs.len(),
            image_plans_from_v(imgs, srcs, refs.deep_view(), opt_bytes_v(preserve_from), k as int, media, rid, plans.deep_view())
                == image_plans_from_v(imgs, srcs, refs.deep_view(), opt_bytes_v(preserve_from), 0, mm.wrapping_add(1), mr.wrapping_add(1), Seq::empty()),
        decreases imgs.len() - k,
    {
        let img = &doc.images[k];
        assert(imgs[k as int] == img.deep_view());
        let ghost before = plans.deep_view();
        match preserved_plan(img, &refs, preserve_from) {
            Some(p) => {
                plans.push(p);
                assert(plans.deep_view() =~= before.push(p.deep_view()));
            },
            None => {
                assert(srcs[k as int] == match image_sources@[k as int] { Ok(b) => Ok(b@), Err(e) => Err(e@) });
                match fresh_plan(img, &image_sources[k], media, rid) {
                    Ok(p) => {
                        plans.push(p);
                        assert(plans.deep_view() =~= before.push(p.deep_view()));
                        media = media.wrapping_add(1);
                        rid = rid.wrapping_add(1);
                    },
                    Err(m) => {
                        return Err(OfficeError::Xml(m));
                    },
                }
            },
        }
        k = k + 1;
    }
    Ok((rid, plans))
}

/// The larger of two counters.
pub open spec fn max_u32_v(a: u32, b: u32) -> u32 {
    if a >= b { a } else { b }
}

/// The relationship id of a part: its preserved one, or `rId<rid>` (and
/// the counter moves on).
pub open spec fn part_rid_v(pres: Seq<(Seq<char>, Seq<char>)>, id: Seq<char>, rid: u32) -> (Seq<char>, u32) {
    match lookup_pair_v(pres, id) {
        Some(x) => (x, rid),
        None => ("rId"@ + dec(rid as nat), rid.wrapping_add(1)),
    }
}

/// The basename of a part: its own id when preserved, or `<kind><n>` (and
/// the counter moves on).
pub open spec fn part_base_v(pres: Seq<(Seq<char>, Seq<char>)>, id: Seq<char>, kind: Seq<char>, n: u32) -> (Seq<char>, u32) {
    if lookup_pair_v(pres, id) is Some {
        (id, n)
    } else {
        (kind + dec(n as nat), n.wrapping_add(1))
    }
}

/// The plans of the header parts from `k` on.
pub open spec fn header_plans_from_v(
    hs: Seq<HeaderPartV>,
    pres: Seq<(Seq<char>, Seq<char>)>,
    k: int,
    rid: u32,
    n: u32,
    acc: Seq<HeaderFooterWritePlanV>,
) -> (u32, Seq<HeaderFooterWritePlanV>)
    decreases hs.len() - k,
{
    if k < 0 || k >= hs.len() {
        (rid, acc)
    } else {
        let h = hs[k];
        let r = part_rid_v(pres, h.id, rid);
        let b = part_base_v(pres, h.id, "header"@, n);
        header_plans_from_v(
            hs,
            pres,
            k + 1,
            r.1,
            b.1,
            acc.push(
                HeaderFooterWritePlanV {
                    part: HeaderFooterPartV::Header(h),
                    basename: b.0,
                    internal_path: "word/"@ + b.0 + ".xml"@,
                    rid: r.0,
                    part_id: h.id,
                    is_header: true,
                },
            ),
        )
    }
}

/// The plans of the footer parts from `k` on.
pub open spec fn footer_plans_from_v(
    fs: Seq<FooterPartV>,
    pres: Seq<(Seq<char>, Seq<char>)>,
    k: int,
    rid: u32,
    n: u32,
    acc: Seq<HeaderFooterWritePlanV>,
) -> Seq<HeaderFooterWritePlanV>
    decreases fs.len() - k,
{
    if k < 0 || k >= fs.len() {
        acc
    } else {
        let f = fs[k];
        let r = part_rid_v(pres, f.id, rid);
        let b = part_base_v(pres, f.id, "footer"@, n);
        footer_plans_from_v(
            fs,
            pres,
            k + 1,
            r.1,
            b.1,
            acc.push(
                HeaderFooterWritePlanV {
                    part: HeaderFooterPartV::Footer(f),
                    basename: b.0,
                    internal_path: "word/"@ + b.0 + ".xml"@,
                    rid: r.0,
                    part_id: f.id,
                    is_header: false,
                },
            ),
        )
    }
}

/// The header and footer plans of a document: relationship ids after both
/// `next_rid` and the preserved package's highest, basenames after its
/// highest header and footer numbers (a failing scan counts as none).
pub open spec fn hf_plans_v(
    hs: Seq<HeaderPartV>,
    fs: Seq<FooterPartV>,
    preserve: Option<Seq<u8>>,
    next_rid: u32,
) -> Seq<HeaderFooterWritePlanV> {
    let st = match hf_state_v(preserve) {
        Ok(v) => v,
        Err(_) => (5u32, 0u32, 0u32, Seq::empty()),
    };
    let rid0 = max_u32_v(next_rid, st.0).wrapping_add(1);
    let h = header_plans_from_v(hs, st.3, 0, rid0, max_u32_v(1, st.1.wrapping_add(1)), Seq::empty());
    footer_plans_from_v(fs, st.3, 0, h.0, max_u32_v(1, st.2.wrapping_add(1)), h.1)
}

fn part_rid(pres: &Vec<(String, String)>, id: &String, rid: u32) -> (r: (String, u32))
    ensures
        r.0@ == part_rid_v(pres.deep_view(), id@, rid).0,
        r.1 == part_rid_v(pres.deep_view(), id@, rid).1,
{
    match lookup_pair(pres, id.as_str()) {
        Some(x) => (x, rid),
        None => {
            let mut s = owned("rId");
            let d = dec_string(rid as u64);
            s.append(d.as_str());
            (s, rid.wrapping_add(1))
        },
    }
}

fn part_base(pres: &Vec<(String, String)>, id: &String, kind: &str, n: u32) -> (r: (String, u32))
    ensures
        r.0@ == part_base_v(pres.deep_view(), id@, kind@, n).0,
        r.1 == part_base_v(pres.deep_view(), id@, kind@, n).1,
{
    match lookup_pair(pres, id.as_str()) {
        Some(_) => (id.clone(), n),
        None => {
            let mut s = owned(kind);
            let d = dec_string(n as u64);
            s.append(d.as_str());
            (s, n.wrapping_add(1))
        },
    }
}

fn part_path(base: &String) -> (r: String)
    ensures
        r@ == "word/"@ + base@ + ".xml"@,
{
    let mut p = owned("word/");
    p.append(base.as_str());
    p.append(".xml");
    p
}

/// Plans the header and footer parts of a document.
pub fn plan_headers_footers(doc: &WordDocument, preserve_from: Option<&[u8]>, next_rid: u32) -> (r: Vec<HeaderFooterWritePlan>)
    ensures
        r.deep_view() == hf_plans_v(doc@.headers, doc@.footers, opt_bytes_v(preserve_from), next_rid),
{
    let (pr, ph, pf, pres) = match scan_preserved_hf_state(preserve_from) {
        Ok(v) => v,
        Err(_) => {
            let v: Vec<(String, String)> = Vec::new();
            assert(v.deep_view() =~= Seq::<(Seq<char>, Seq<char>)>::empty());
            (5, 0, 0, v)
        },
    };
    let mut rid = (if next_rid >= pr { next_rid } else { pr }).wrapping_add(1);
    let hw = ph.wrapping_add(1);
    let mut n = if 1 >= hw { 1 } else { hw };
    let mut plans: Vec<HeaderFooterWritePlan> = Vec::new();
    assert(plans.deep_view() =~= Seq::<HeaderFooterWritePlanV>::empty());
    let ghost hs = doc@.headers;
    let ghost fs = doc@.footers;
    let ghost h_init = (rid, n);
    let mut k: usize = 0;
    while k < doc.headers.len()
        invariant
            k <= hs.len(),
            hs == doc@.headers,
            hs.len() == doc.headers@.len(),
            header_plans_from_v(hs, pres.deep_view(), k as int, rid, n, plans.deep_view())
                == header_plans_from_v(hs, pres.deep_view(), 0, h_init.0, h_init.1, Seq::empty()),
        decreases hs.len() - k,
    {
        let h = &doc.headers[k];
        assert(hs[k as int] == h.deep_view());
        let (r, rid2) = part_rid(&pres, &h.id, rid);
        let (b, n2) = part_base(&pres, &h.id, "header", n);
        let path = part_path(&b);
        let plan = HeaderFooterWritePlan {
            part: HeaderFooterPart::Header(h.clone()),
            basename: b,
            internal_path: path,
            rid: r,
            part_id: h.id.clone(),
            is_header: true,
        };
        proof {
            reveal_strlit("header");
        }
        let ghost before = plans.deep_view();
        plans.push(plan);
        assert(plans.deep_view() =~= before.push(plan.deep_view()));
        rid = rid2;
        n = n2;
        k = k + 1;
    }
    let fw = pf.wrapping_add(1);
    let mut m = if 1 >= fw { 1 } else { fw };
    let ghost f_init = (rid, m, plans.deep_view());
    let mut k: usize = 0;
    while k < doc.footers.len()
        invariant
            k <= fs.len(),
            fs == doc@.footers,
            fs.len() == doc.footers@.len(),
            footer_plans_from_v(fs, pres.deep_view(), k as int, rid, m, plans.deep_view())
                == footer_plans_from_v(fs, pres.deep_view(), 0, f_init.0, f_init.1, f_init.2),
        decreases fs.len() - k,
    {
        let f = &doc.footers[k];
        assert(fs[k as int] == f.deep_view());
        let (r, rid2) = part_rid(&pres, &f.id, rid);
        let (b, m2) = part_base(&pres, &f.id, "footer", m);
        let path = part_path(&b);
        let plan = HeaderFooterWritePlan {
            part: HeaderFooterPart::Footer(f.clone()),
            basename: b,
            internal_path: path,
            rid: r,
            part_id: f.id.clone(),
            is_header: false,
        };
        proof {
            reveal_strlit("footer");
        }
        let ghost before = plans.deep_view();
        plans.push(plan);
        assert(plans.deep_view() =~= before.push(plan.deep_view()));
        rid = rid2;
        m = m2;
        k = k + 1;
    }
    plans
}

/// An entry holding `text` as UTF-8, deflated.
pub open spec fn text_entry_v(name: Seq<char>, text: Seq<char>) -> PackageEntryV {
    PackageEntryV { name, data: encode_utf8(text), deflated: true }
}

fn text_entry(name: &str, text: &str) -> (r: PackageEntry)
    ensures
        r.deep_view() == text_entry_v(name@, text@),
{
    PackageEntry { name: owned(name), data: text.as_bytes_vec(), deflated: true }
}

/// Whether an entry name is one the writer always generates.
pub open spec fn generated_name_v(name: Seq<char>) -> bool {
    name == "[Content_Types].xml"@ || name == "_rels/.rels"@ || name == "word/_rels/document.xml.rels"@ || name
        == "word/document.xml"@
}

/// Which of the style, settings, font table, theme and numbering parts
/// the entries from `i` on hold (added to `f`), or the first entry error.
pub open spec fn present_parts_v(bytes: Seq<u8>, n: usize, i: int, f: (bool, bool, bool, bool, bool)) -> Result<(bool, bool, bool, bool, bool), OfficeErrorV>
    decreases n - i,
{
    if i < 0 || i >= n {
        Ok(f)
    } else {
        match zip_entry_v(bytes, i as usize) {
            Err(m) => Err(OfficeErrorV::Zip(m)),
            Ok(e) => present_parts_v(
                bytes,
                n,
                i + 1,
                (
                    f.0 || e.name == "word/styles.xml"@,
                    f.1 || e.name == "word/settings.xml"@,
                    f.2 || e.name == "word/fontTable.xml"@,
                    f.3 || e.name == "word/theme/theme1.xml"@,
                    f.4 || e.name == "word/numbering.xml"@,
                ),
            ),
        }
    }
}

/// The entries from `i` on that are copied as they are: all but the
/// generated ones, the media and the header and footer parts rewritten.
pub open spec fn copied_from_v(bytes: Seq<u8>, n: usize, i: int, skip: Seq<Seq<char>>, acc: Seq<PackageEntryV>) -> Result<Seq<PackageEntryV>, OfficeErrorV>
    decreases n - i,
{
    if i < 0 || i >= n {
        Ok(acc)
    } else {
        match zip_entry_v(bytes, i as usize) {
            Err(m) => Err(OfficeErrorV::Zip(m)),
            Ok(e) => if generated_name_v(e.name) || "word/media/"@.is_prefix_of(e.name) || skip.contains(e.name) {
                copied_from_v(bytes, n, i + 1, skip, acc)
            } else {
                match e.read_error {
                    Some(m) => Err(OfficeErrorV::Io(m)),
                    None => copied_from_v(
                        bytes,
                        n,
                        i + 1,
                        skip,
                        acc.push(PackageEntryV { name: e.name, data: e.data, deflated: e.deflated }),
                    ),
                }
            },
        }
    }
}

/// The parts a preserved package lacks, with their fixed content.
pub open spec fn backfill_v(f: (bool, bool, bool, bool, bool), numbering: bool, nx: Seq<char>) -> Seq<PackageEntryV> {
    (if f.0 { Seq::empty() } else { seq![text_entry_v("word/styles.xml"@, STYLES_XML@)] }) + (if f.1 {
        Seq::empty()
    } else {
        seq![text_entry_v("word/settings.xml"@, SETTINGS_XML@)]
    }) + (if f.2 { Seq::empty() } else { seq![text_entry_v("word/fontTable.xml"@, FONT_TABLE_XML@)] }) + (if f.3 {
        Seq::empty()
    } else {
        seq![text_entry_v("word/theme/theme1.xml"@, THEME_XML@)]
    }) + (if !f.4 && numbering { seq![text_entry_v("word/numbering.xml"@, nx)] } else { Seq::empty() })
}

/// What a preserved package contributes: its copied entries, then the
/// parts it lacks.
pub open spec fn preserved_entries_v(preserve: Option<Seq<u8>>, skip: Seq<Seq<char>>, numbering: bool, nx: Seq<char>) -> Result<Seq<PackageEntryV>, OfficeErrorV> {
    match preserve {
        None => Ok(Seq::empty()),
        Some(bytes) => match zip_count_v(bytes) {
            Err(m) => Err(OfficeErrorV::Zip(m)),
            Ok(n) => match present_parts_v(bytes, n, 0, (false, false, false, false, false)) {
                Err(e) => Err(e),
                Ok(f) => match copied_from_v(bytes, n, 0, skip, Seq::empty()) {
                    Err(e) => Err(e),
                    Ok(c) => Ok(c + backfill_v(f, numbering, nx)),
                },
            },
        },
    }
}

/// The entries of the pictures.
pub open spec fn image_entries_v(ps: Seq<ImageWritePlanV>) -> Seq<PackageEntryV> {
    Seq::new(ps.len(), |k: int| PackageEntryV { name: ps[k].internal_path, data: ps[k].bytes, deflated: true })
}

/// The entries of the header and footer parts.
pub open spec fn hf_entries_v(ps: Seq<HeaderFooterWritePlanV>) -> Seq<PackageEntryV> {
    Seq::new(ps.len(), |k: int| text_entry_v(ps[k].internal_path, hf_xml_v(ps[k].part)))
}

/// The generated entries: content types, package relationships, document
/// relationships and the document itself with its placeholders resolved.
pub open spec fn generated_entries_v(d: WordDocumentV, imgs: Seq<ImageWritePlanV>, hfs: Seq<HeaderFooterWritePlanV>) -> Seq<PackageEntryV> {
    seq![
        text_entry_v("[Content_Types].xml"@, with_hf_overrides_v(with_image_overrides_v(CONTENT_TYPES_XML@, imgs), hfs)),
        text_entry_v("_rels/.rels"@, RELS_XML@),
        text_entry_v("word/_rels/document.xml.rels"@, with_hf_rels_v(with_image_rels_v(WORD_RELS_XML@, imgs), hfs)),
        text_entry_v("word/document.xml"@, subst_hf_v(subst_images_v(document_xml_v(d), plan_rids_v(imgs)), hfs, hfs.len() as int)),
    ]
}

/// The fixed parts of a package written from scratch.
pub open spec fn fresh_parts_v(numbering: bool, nx: Seq<char>) -> Seq<PackageEntryV> {
    seq![
        text_entry_v("word/styles.xml"@, STYLES_XML@),
        text_entry_v("word/settings.xml"@, SETTINGS_XML@),
        text_entry_v("word/fontTable.xml"@, FONT_TABLE_XML@),
        text_entry_v("word/theme/theme1.xml"@, THEME_XML@),
    ] + if numbering { seq![text_entry_v("word/numbering.xml"@, nx)] } else { Seq::empty() }
}

/// The entries of the package of a document, in the order they are
/// written: what a preserved package contributes, the pictures, the header
/// and footer parts, the generated parts, and (without a preserved
/// package) the fixed parts; or the first error.
pub open spec fn package_entries_v(
    d: WordDocumentV,
    preserve: Option<Seq<u8>>,
    sources: Seq<Result<Seq<u8>, Seq<char>>>,
) -> Result<Seq<PackageEntryV>, OfficeErrorV> {
    match image_plans_v(d.images, preserve, sources) {
        Err(e) => Err(e),
        Ok((next_rid, imgs)) => {
            let hfs = hf_plans_v(d.headers, d.footers, preserve, next_rid);
            let skip = Seq::new(hfs.len(), |k: int| hfs[k].internal_path);
            match preserved_entries_v(preserve, skip, has_numbering_v(d), doc_numbering_xml_v(d.paragraphs)) {
                Err(e) => Err(e),
                Ok(copied) => Ok(
                    copied + image_entries_v(imgs) + hf_entries_v(hfs) + generated_entries_v(d, imgs, hfs) + if preserve is None {
                        fresh_parts_v(has_numbering_v(d), doc_numbering_xml_v(d.paragraphs))
                    } else {
                        Seq::empty()
                    },
                ),
            }
        },
    }
}

fn path_skipped(plans: &Vec<HeaderFooterWritePlan>, name: &str) -> (r: bool)
    ensures
        r == Seq::new(plans@.len(), |k: int| plans.deep_view()[k].internal_path).contains(name@),
{
    let ghost skip = Seq::new(plans@.len(), |k: int| plans.deep_view()[k].internal_path);
    let mut k: usize = 0;
    while k < plans.len()
        invariant
            k <= plans@.len(),
            skip == Seq::new(plans@.len(), |k: int| plans.deep_view()[k].internal_path),
            forall|j: int| 0 <= j < k ==> skip[j] != name@,
        decreases plans@.len() - k,
    {
        assert(plans.deep_view()[k as int] == plans@[k as int].deep_view());
        if str_eq(plans[k].internal_path.as_str(), name) {
            assert(skip[k as int] == name@);
            return true;
        }
        k = k + 1;
    }
    false
}

fn push_entry(out: &mut Vec<PackageEntry>, e: PackageEntry)
    ensures
        final(out).deep_view() == old(out).deep_view().push(e.deep_view()),
{
    let ghost before = out.deep_view();
    out.push(e);
    assert(out.deep_view() =~= before.push(e.deep_view()));
}

fn preserved_entries(out: &mut Vec<PackageEntry>, bytes: &[u8], plans: &Vec<HeaderFooterWritePlan>, numbering: bool, nx: &str) -> (r: Result<(), OfficeError>)
    ensures
        match preserved_entries_v(Some(bytes@), Seq::new(plans@.len(), |k: int| plans.deep_view()[k].internal_path), numbering, nx@) {
            Ok(es) => r is Ok && final(out).deep_view() == old(out).deep_view() + es,
            Err(e) => r matches Err(x) && x.deep_view() == e,
        },
{
    let ghost skip = Seq::new(plans@.len(), |k: int| plans.deep_view()[k].internal_path);
    let ghost o0 = out.deep_view();
    let n = match zip_entry_count(bytes) {
        Ok(n) => n,
        Err(m) => {
            return Err(OfficeError::Zip(m));
        },
    };
    let mut f = (false, false, false, false, false);
    let mut i: usize = 0;
    while i < n
        invariant
            i <= n,
            zip_count_v(bytes@) == Ok::<usize, Seq<char>>(n),
            present_parts_v(bytes@, n, i as int, f) == present_parts_v(bytes@, n, 0, (false, false, false, false, false)),
        decreases n - i,
    {
        let e = match zip_entry_at(bytes, i) {
            Ok(e) => e,
            Err(m) => {
                return Err(OfficeError::Zip(m));
            },
        };
        let nm = e.name.as_str();
        f = (
            f.0 || str_eq(nm, "word/styles.xml"),
            f.1 || str_eq(nm, "word/settings.xml"),
            f.2 || str_eq(nm, "word/fontTable.xml"),
            f.3 || str_eq(nm, "word/theme/theme1.xml"),
            f.4 || str_eq(nm, "word/numbering.xml"),
        );
        i = i + 1;
    }
    let mut i: usize = 0;
    let ghost c0 = out.deep_view();
    assert(c0 + Seq::<PackageEntryV>::empty() =~= c0);
    assert(out.deep_view().skip(c0.len() as int) =~= Seq::<PackageEntryV>::empty());
    assert(out.deep_view().take(c0.len() as int) =~= c0);
    while i < n
        invariant
            i <= n,
            zip_count_v(bytes@) == Ok::<usize, Seq<char>>(n),
            present_parts_v(bytes@, n, 0, (false, false, false, false, false)) == Ok::<(bool, bool, bool, bool, bool), OfficeErrorV>(f),
            skip == Seq::new(plans@.len(), |k: int| plans.deep_view()[k].internal_path),
            out.deep_view().len() >= c0.len(),
            out.deep_view().take(c0.len() as int) == c0,
            c0 == o0,
            copied_from_v(bytes@, n, i as int, skip, out.deep_view().skip(c0.len() as int)) == copied_from_v(bytes@, n, 0, skip, Seq::empty()),
        decreases n - i,
    {
        let e = match zip_entry_at(bytes, i) {
            Ok(e) => e,
            Err(m) => {
                return Err(OfficeError::Zip(m));
            },
        };
        let skipped = str_eq(e.name.as_str(), "[Content_Types].xml") || str_eq(e.name.as_str(), "_rels/.rels") || str_eq(
            e.name.as_str(),
            "word/_rels/document.xml.rels",
        ) || str_eq(e.name.as_str(), "word/document.xml") || starts_with(e.name.as_str(), "word/media/") || path_skipped(
            plans,
            e.name.as_str(),
        );
        if !skipped {
            match e.read_error {
                Some(m) => {
                    return Err(OfficeError::Io(m));
                },
                None => {
                    let ghost before = out.deep_view();
                    let pe = PackageEntry { name: e.name, data: e.data, deflated: e.deflated };
                    push_entry(out, pe);
                    assert(out.deep_view().skip(c0.len() as int) =~= before.skip(c0.len() as int).push(pe.deep_view()));
                    assert(out.deep_view().take(c0.len() as int) =~= before.take(c0.len() as int));
                },
            }
        }
        i = i + 1;
    }
    let ghost copied = out.deep_view().skip(c0.len() as int);
    assert(out.deep_view() =~= c0 + copied);
    if !f.0 {
        push_entry(out, text_entry("word/styles.xml", STYLES_XML));
    }
    if !f.1 {
        push_entry(out, text_entry("word/settings.xml", SETTINGS_XML));
    }
    if !f.2 {
        push_entry(out, text_entry("word/fontTable.xml", FONT_TABLE_XML));
    }
    if !f.3 {
        push_entry(out, text_entry("word/theme/theme1.xml", THEME_XML));
    }
    if !f.4 && numbering {
        push_entry(out, text_entry("word/numbering.xml", nx));
    }
    assert(out.deep_view() =~= o0 + (copied + backfill_v(f, numbering, nx@)));
    Ok(())
}

fn push_image_entries(out: &mut Vec<PackageEntry>, image_writes: &Vec<ImageWritePlan>)
    ensures
        final(out).deep_view() == old(out).deep_view() + image_entries_v(image_writes.deep_view()),
{
    let ghost copied = out.deep_view();
    let ghost iv = image_writes.deep_view();
    let mut k: usize = 0;
    assert(copied + image_entries_v(iv).take(0) =~= copied);
    while k < image_writes.len()
        invariant
            k <= iv.len(),
            iv == image_writes.deep_view(),
            out.deep_view() == copied + image_entries_v(iv).take(k as int),
        decreases iv.len() - k,
    {
        let p = &image_writes[k];
        assert(iv[k as int] == p.deep_view());
        push_entry(out, PackageEntry { name: p.internal_path.clone(), data: p.bytes.clone(), deflated: true });
        assert(out.deep_view() =~= copied + image_entries_v(iv).take(k + 1));
        k = k + 1;
    }
    assert(image_entries_v(iv).take(k as int) =~= image_entries_v(iv));
}

fn push_hf_entries(out: &mut Vec<PackageEntry>, hf_writes: &Vec<HeaderFooterWritePlan>)
    ensures
        final(out).deep_view() == old(out).deep_view() + hf_entries_v(hf_writes.deep_view()),
{
    let ghost start = out.deep_view();
    let ghost hv = hf_writes.deep_view();
    let mut k: usize = 0;
    assert(start + hf_entries_v(hv).take(0) =~= start);
    while k < hf_writes.len()
        invariant
            k <= hv.len(),
            hv == hf_writes.deep_view(),
            out.deep_view() == start + hf_entries_v(hv).take(k as int),
        decreases hv.len() - k,
    {
        let p = &hf_writes[k];
        assert(hv[k as int] == p.deep_view());
        let xml = build_header_footer_xml(&p.part);
        push_entry(out, text_entry(p.internal_path.as_str(), xml.as_str()));
        assert(out.deep_view() =~= start + hf_entries_v(hv).take(k + 1));
        k = k + 1;
    }
    assert(hf_entries_v(hv).take(k as int) =~= hf_entries_v(hv));
}

fn push_generated(out: &mut Vec<PackageEntry>, doc: &WordDocument, image_writes: &Vec<ImageWritePlan>, hf_writes: &Vec<HeaderFooterWritePlan>)
    requires
        doc_fits_v(doc@),
    ensures
        final(out).deep_view() == old(out).deep_view() + generated_entries_v(
            doc@,
            image_writes.deep_view(),
            hf_writes.deep_view(),
        ),
{
    let doc_xml_raw = build_document_xml(doc);
    let doc_xml = substitute_image_placeholders(doc_xml_raw.as_str(), image_writes);
    let doc_xml = substitute_hf_placeholders(doc_xml.as_str(), hf_writes);
    let content_types = append_image_overrides(CONTENT_TYPES_XML, image_writes);
    let content_types = append_hf_overrides(content_types.as_str(), hf_writes);
    let word_rels = append_image_relationships(WORD_RELS_XML, image_writes);
    let word_rels = append_hf_relationships(word_rels.as_str(), hf_writes);
    let ghost start = out.deep_view();
    push_entry(out, text_entry("[Content_Types].xml", content_types.as_str()));
    push_entry(out, text_entry("_rels/.rels", RELS_XML));
    push_entry(out, text_entry("word/_rels/document.xml.rels", word_rels.as_str()));
    push_entry(out, text_entry("word/document.xml", doc_xml.as_str()));
    assert(out.deep_view() =~= start + generated_entries_v(doc@, image_writes.deep_view(), hf_writes.deep_view()));
}

fn push_fresh(out: &mut Vec<PackageEntry>, numbering: bool, nx: &str)
    ensures
        final(out).deep_view() == old(out).deep_view() + fresh_parts_v(numbering, nx@),
{
    let ghost start = out.deep_view();
    push_entry(out, text_entry("word/styles.xml", STYLES_XML));
    push_entry(out, text_entry("word/settings.xml", SETTINGS_XML));
    push_entry(out, text_entry("word/fontTable.xml", FONT_TABLE_XML));
    push_entry(out, text_entry("word/theme/theme1.xml", THEME_XML));
    if numbering {
        push_entry(out, text_entry("word/numbering.xml", nx));
    }
    assert(out.deep_view() =~= start + fresh_parts_v(numbering, nx@));
}

/// The entries of the package of `doc`, in the order they are written.
/// `preserve_from` is an earlier package whose other entries (styles,
/// settings, …) are kept; `image_sources` holds, for each picture, the
/// bytes of its file or why they could not be read.
pub fn word_package_entries(doc: &WordDocument, preserve_from: Option<&[u8]>, image_sources: &Vec<Result<Vec<u8>, String>>) -> (r: Result<Vec<PackageEntry>, OfficeError>)
    requires
        image_sources@.len() == doc@.images.len(),
        doc_fits_v(doc@),
    ensures
        match package_entries_v(doc@, opt_bytes_v(preserve_from), sources_v(image_sources@)) {
            Ok(es) => r matches Ok(x) && x.deep_view() == es,
            Err(e) => r matches Err(x) && x.deep_view() == e,
        },
{
    let (next_rid, image_writes) = plan_images(doc, preserve_from, image_sources)?;
    let hf_writes = plan_headers_footers(doc, preserve_from, next_rid);
    let numbering = doc_has_numbering(doc);
    let nx = build_doc_numbering_xml(doc);
    let mut out: Vec<PackageEntry> = Vec::new();
    assert(out.deep_view() =~= Seq::<PackageEntryV>::empty());
    match preserve_from {
        Some(bytes) => {
            preserved_entries(&mut out, bytes, &hf_writes, numbering, nx.as_str())?;
        },
        None => {},
    }
    let ghost copied = out.deep_view();
    push_image_entries(&mut out, &image_writes);
    push_hf_entries(&mut out, &hf_writes);
    push_generated(&mut out, doc, &image_writes, &hf_writes);
    let ghost after_generated = out.deep_view();
    if preserve_from.is_none() {
        push_fresh(&mut out, numbering, nx.as_str());
    } else {
        assert(out.deep_view() =~= after_generated + Seq::<PackageEntryV>::empty());
    }
    Ok(out)
}

/// Writes the package of `doc` and returns its bytes: the archive reads
/// back as the entries [`word_package_entries`] lists.
pub fn build_word_package(doc: &WordDocument, preserve_from: Option<&[u8]>, image_sources: &Vec<Result<Vec<u8>, String>>) -> (r: Result<Vec<u8>, OfficeError>)
    requires
        image_sources@.len() == doc@.images.len(),
        doc_fits_v(doc@),
    ensures
        package_entries_v(doc@, opt_bytes_v(preserve_from), sources_v(image_sources@)) matches Err(e) ==> r matches Err(
            x,
        ) && x.deep_view() == e,
        r matches Ok(b) ==> package_entries_v(doc@, opt_bytes_v(preserve_from), sources_v(image_sources@)) matches Ok(
            es,
        ) && holds_entries_v(b@, es),
        package_entries_v(doc@, opt_bytes_v(preserve_from), sources_v(image_sources@)) matches Ok(es)
            && entries_writable_v(es) ==> r is Ok,
{
    let entries = word_package_entries(doc, preserve_from, image_sources)?;
    encode_package(&entries)
}

} // verus!
