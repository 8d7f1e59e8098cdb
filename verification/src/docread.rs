//! Reading a `.docx` package into a [`WordDocument`]: the body, its tables
//! and pictures, the header and footer parts, and the sections' references
//! to them.

use vstd::prelude::*;
use vstd::utf8::{decode_utf8, valid_utf8};
use crate::cellparse::{cell_paragraphs_v, extract_container_cell_paragraphs, last_attr, last_attr_v};
use crate::docparse::{document_parse_v, parse_document_xml};
use crate::elements::{lookup_pair, lookup_pair_v};
use crate::error::{OfficeError, OfficeErrorV};
use crate::images::{contains_v, images_v, parse_image_xml};
use crate::model::{
    FooterPart, FooterPartRef, FooterPartRefV, FooterPartV, HeaderPart, HeaderPartRef, HeaderPartRefV, HeaderPartV,
    WordDocument, WordDocumentV, WordImageV, WordParagraph, WordParagraphV, WordSection, WordSectionV, WordTable,
    WordTableV,
};
use crate::package::{utf8_text, zip_count_v, zip_entry_at, zip_entry_count, zip_entry_named, zip_entry_v, zip_named_v, ZipEntryV};
use crate::paths::{file_stem, file_stem_v};
use crate::tables::{parse_table_xml, tables_v};
use crate::text::{chars_of, ends_with, find, owned, starts_with, str_eq};
use crate::xml::{xml_events, xml_events_v, XmlAttr, XmlAttrV, XmlEvent, XmlEventV};

verus! {

/// The message `read_to_string` gives for bytes that are not UTF-8.
pub open spec fn invalid_utf8_msg_v() -> Seq<char> {
    "stream did not contain valid UTF-8"@
}

/// The text of an entry read whole: an error when reading failed or the
/// bytes are not UTF-8.
pub open spec fn entry_text_v(e: ZipEntryV) -> Result<Seq<char>, OfficeErrorV> {
    match e.read_error {
        Some(m) => Err(OfficeErrorV::Io(m)),
        None => if valid_utf8(e.data) {
            Ok(decode_utf8(e.data))
        } else {
            Err(OfficeErrorV::Io(invalid_utf8_msg_v()))
        },
    }
}

/// What reading entry `name` of a package gives.
pub open spec fn zip_text_v(bytes: Seq<u8>, name: Seq<char>) -> Result<Seq<char>, OfficeErrorV> {
    match zip_named_v(bytes, name) {
        Ok(e) => entry_text_v(e),
        Err(m) => Err(OfficeErrorV::Zip(m)),
    }
}

/// Reads entry `name` of the package in `bytes` as text.
pub fn read_zip_entry(bytes: &[u8], name: &str) -> (r: Result<String, OfficeError>)
    ensures
        match zip_text_v(bytes@, name@) {
            Ok(t) => r matches Ok(s) && s@ == t,
            Err(e) => r matches Err(x) && x.deep_view() == e,
        },
{
    match zip_entry_named(bytes, name) {
        Ok(e) => {
            match e.read_error {
                Some(m) => Err(OfficeError::Io(m)),
                None => match utf8_text(e.data) {
                    Some(t) => Ok(t),
                    None => Err(OfficeError::Io(owned("stream did not contain valid UTF-8"))),
                },
            }
        },
        Err(m) => Err(OfficeError::Zip(m)),
    }
}

/// The first `limit` bytes read from an entry, as text when they are
/// UTF-8 and empty otherwise (`read_to_string` on a `take(limit)` reader,
/// errors ignored).
pub open spec fn prefix_text_v(data: Seq<u8>, limit: nat) -> Seq<char> {
    let d = if data.len() <= limit { data } else { data.take(limit as int) };
    if valid_utf8(d) { decode_utf8(d) } else { Seq::empty() }
}

/// The first `limit` bytes of `data` as text, or empty.
pub fn prefix_text(data: &Vec<u8>, limit: usize) -> (r: String)
    ensures
        r@ == prefix_text_v(data@, limit as nat),
{
    let mut d: Vec<u8> = Vec::new();
    let n = if data.len() <= limit { data.len() } else { limit };
    let mut i: usize = 0;
    while i < n
        invariant
            i <= n,
            n <= data@.len(),
            n == if data@.len() <= limit { data@.len() } else { limit as nat },
            d@ == data@.take(i as int),
        decreases n - i,
    {
        d.push(data[i]);
        assert(d@ =~= data@.take(i + 1));
        i = i + 1;
    }
    assert(d@ =~= (if data@.len() <= limit { data@ } else { data@.take(limit as int) }));
    match utf8_text(d) {
        Some(t) => t,
        None => String::new(),
    }
}

/// The header or footer part an entry of the package gives: one named
/// `word/header….xml` or `word/footer….xml`, read (8 MiB at most) and parsed
/// as a document body, identified by its file stem.
pub open spec fn hf_part_v(name: Seq<char>, data: Seq<u8>) -> Option<Result<(bool, Seq<char>, Seq<WordParagraphV>), Seq<char>>> {
    if !"word/header"@.is_prefix_of(name) && !"word/footer"@.is_prefix_of(name) {
        None
    } else if !".xml"@.is_suffix_of(name) {
        None
    } else {
        match document_parse_v(prefix_text_v(data, 8 * 1024 * 1024)) {
            Ok(v) => Some(
                Ok(
                    (
                        "word/header"@.is_prefix_of(name),
                        match file_stem_v(name) { Some(s) => s, None => "?"@ },
                        v.0 + v.1,
                    ),
                ),
            ),
            Err(m) => Some(Err("Failed to parse "@ + name + ": "@ + m)),
        }
    }
}

/// The header and footer parts of the entries from `i` on, added to
/// `(hs, fs)`, or the first error.
pub open spec fn hf_parts_from_v(
    bytes: Seq<u8>,
    n: usize,
    i: int,
    hs: Seq<HeaderPartV>,
    fs: Seq<FooterPartV>,
) -> Result<(Seq<HeaderPartV>, Seq<FooterPartV>), OfficeErrorV>
    decreases n - i,
{
    if i < 0 || i >= n {
        Ok((hs, fs))
    } else {
        match zip_entry_v(bytes, i as usize) {
            Err(m) => Err(OfficeErrorV::Zip(m)),
            Ok(e) => match hf_part_v(e.name, e.data) {
                None => hf_parts_from_v(bytes, n, i + 1, hs, fs),
                Some(Err(m)) => Err(OfficeErrorV::Xml(m)),
                Some(Ok((is_header, id, ps))) => if is_header {
                    hf_parts_from_v(
                        bytes,
                        n,
                        i + 1,
                        hs.push(HeaderPartV { id, paragraphs: ps, tables: Seq::empty(), images: Seq::empty() }),
                        fs,
                    )
                } else {
                    hf_parts_from_v(
                        bytes,
                        n,
                        i + 1,
                        hs,
                        fs.push(FooterPartV { id, paragraphs: ps, tables: Seq::empty(), images: Seq::empty() }),
                    )
                },
            },
        }
    }
}

/// The header and footer parts of a package, in entry order.
pub open spec fn hf_parts_v(bytes: Seq<u8>) -> Result<(Seq<HeaderPartV>, Seq<FooterPartV>), OfficeErrorV> {
    match zip_count_v(bytes) {
        Err(m) => Err(OfficeErrorV::Zip(m)),
        Ok(n) => hf_parts_from_v(bytes, n, 0, Seq::empty(), Seq::empty()),
    }
}

fn hf_part(name: &String, data: &Vec<u8>) -> (r: Option<Result<(bool, String, Vec<WordParagraph>), String>>)
    ensures
        match hf_part_v(name@, data@) {
            None => r is None,
            Some(Err(m)) => r matches Some(Err(x)) && x@ == m,
            Some(Ok(v)) => r matches Some(Ok(x)) && x.0 == v.0 && x.1@ == v.1 && x.2.deep_view() == v.2,
        },
{
    if !starts_with(name.as_str(), "word/header") && !starts_with(name.as_str(), "word/footer") {
        return None;
    }
    if !ends_with(name.as_str(), ".xml") {
        return None;
    }
    let content = prefix_text(data, 8 * 1024 * 1024);
    match parse_document_xml(content.as_str()) {
        Ok((paras, markers, _sects)) => {
            let id = match file_stem(name.as_str()) {
                Some(s) => s,
                None => owned("?"),
            };
            let mut all = paras;
            let ghost a0 = all.deep_view();
            let mut k: usize = 0;
            while k < markers.len()
                invariant
                    k <= markers@.len(),
                    all.deep_view() == a0 + markers.deep_view().take(k as int),
                decreases markers@.len() - k,
            {
                let c = markers[k].clone();
                let ghost before = all.deep_view();
                all.push(c);
                assert(all.deep_view() =~= before.push(c.deep_view()));
                assert(markers.deep_view()[k as int] == markers@[k as int].deep_view());
                assert(all.deep_view() =~= a0 + markers.deep_view().take(k + 1));
                k = k + 1;
            }
            assert(markers.deep_view().take(k as int) =~= markers.deep_view());
            Some(Ok((starts_with(name.as_str(), "word/header"), id, all)))
        },
        Err(OfficeError::Xml(m)) => {
            let mut msg = owned("Failed to parse ");
            msg.append(name.as_str());
            msg.append(": ");
            msg.append(m.as_str());
            Some(Err(msg))
        },
        Err(_) => Some(Err(String::new())),
    }
}

/// Reads every `word/header*.xml` and `word/footer*.xml` entry of the
/// package into a header or footer part named by its file stem
/// (`header2`, `footer1`).
pub fn parse_header_footer_parts(bytes: &[u8]) -> (r: Result<(Vec<HeaderPart>, Vec<FooterPart>), OfficeError>)
    ensures
        match hf_parts_v(bytes@) {
            Ok(v) => r matches Ok(x) && x.0.deep_view() == v.0 && x.1.deep_view() == v.1,
            Err(e) => r matches Err(x) && x.deep_view() == e,
        },
{
    let n = match zip_entry_count(bytes) {
        Ok(n) => n,
        Err(m) => {
            return Err(OfficeError::Zip(m));
        },
    };
    let mut headers: Vec<HeaderPart> = Vec::new();
    let mut footers: Vec<FooterPart> = Vec::new();
    let mut i: usize = 0;
    assert(headers.deep_view() =~= Seq::<HeaderPartV>::empty());
    assert(footers.deep_view() =~= Seq::<FooterPartV>::empty());
    while i < n
        invariant
            i <= n,
            zip_count_v(bytes@) == Ok::<usize, Seq<char>>(n),
            hf_parts_from_v(bytes@, n, i as int, headers.deep_view(), footers.deep_view()) == hf_parts_v(bytes@),
        decreases n - i,
    {
        let e = match zip_entry_at(bytes, i) {
            Ok(e) => e,
            Err(m) => {
                return Err(OfficeError::Zip(m));
            },
        };
        match hf_part(&e.name, &e.data) {
            None => {},
            Some(Err(m)) => {
                return Err(OfficeError::Xml(m));
            },
            Some(Ok((is_header, id, ps))) => {
                if is_header {
                    let h = HeaderPart { id, paragraphs: ps, tables: Vec::new(), images: Vec::new() };
                    assert(h.tables.deep_view() =~= Seq::<WordTableV>::empty());
                    assert(h.images.deep_view() =~= Seq::<WordImageV>::empty());
                    let ghost h0 = headers.deep_view();
                    headers.push(h);
                    assert(headers.deep_view() =~= h0.push(h.deep_view()));
                } else {
                    let f = FooterPart { id, paragraphs: ps, tables: Vec::new(), images: Vec::new() };
                    assert(f.tables.deep_view() =~= Seq::<WordTableV>::empty());
                    assert(f.images.deep_view() =~= Seq::<WordImageV>::empty());
                    let ghost f0 = footers.deep_view();
                    footers.push(f);
                    assert(footers.deep_view() =~= f0.push(f.deep_view()));
                }
            },
        }
        i = i + 1;
    }
    Ok((headers, footers))
}

/// The `(rId, target)` pair a `<Relationship>` gives when its type names a
/// header or a footer (the last `Id`, `Type` and `Target` attributes count).
pub open spec fn hf_rel_v(attrs: Seq<XmlAttrV>) -> Option<(Seq<char>, Seq<char>)> {
    let is_hf = match last_attr_v(attrs, "Type"@) {
        Some(t) => contains_v(t, "header"@) || contains_v(t, "footer"@),
        None => false,
    };
    match (last_attr_v(attrs, "Id"@), last_attr_v(attrs, "Target"@)) {
        (Some(r), Some(t)) => if is_hf { Some((r, t)) } else { None },
        _ => None,
    }
}

fn hf_rel(attrs: &Vec<XmlAttr>) -> (r: Option<(String, String)>)
    ensures
        r.deep_view() == hf_rel_v(attrs.deep_view()),
{
    let is_hf = match last_attr(attrs, "Type") {
        Some(t) => find(t.as_str(), "header").is_some() || find(t.as_str(), "footer").is_some(),
        None => false,
    };
    match (last_attr(attrs, "Id"), last_attr(attrs, "Target")) {
        (Some(r), Some(t)) => if is_hf { Some((r, t)) } else { None },
        _ => None,
    }
}

/// The header and footer relationships of the events from `i` on, added to
/// `acc`; reading stops at a syntax error.
pub open spec fn hf_rels_from_v(evs: Seq<XmlEventV>, i: int, acc: Seq<(Seq<char>, Seq<char>)>) -> Seq<(Seq<char>, Seq<char>)>
    decreases evs.len() - i,
{
    if i < 0 || i >= evs.len() {
        acc
    } else {
        match evs[i] {
            XmlEventV::Error { .. } => acc,
            XmlEventV::Start { name, attrs } => hf_rels_from_v(
                evs,
                i + 1,
                if name == "Relationship"@ && hf_rel_v(attrs) is Some { acc.push(hf_rel_v(attrs).unwrap()) } else { acc },
            ),
            XmlEventV::Empty { name, attrs } => hf_rels_from_v(
                evs,
                i + 1,
                if name == "Relationship"@ && hf_rel_v(attrs) is Some { acc.push(hf_rel_v(attrs).unwrap()) } else { acc },
            ),
            _ => hf_rels_from_v(evs, i + 1, acc),
        }
    }
}

/// The header and footer relationships of a rels part, in order; a later
/// pair for the same id takes precedence.
pub open spec fn hf_rels_v(rels: Seq<char>) -> Seq<(Seq<char>, Seq<char>)> {
    hf_rels_from_v(xml_events_v(rels), 0, Seq::empty())
}

fn parse_hf_rels(rels_content: &str) -> (r: Vec<(String, String)>)
    ensures
        r.deep_view() == hf_rels_v(rels_content@),
{
    let evs = xml_events(rels_content);
    let ghost ev = evs.deep_view();
    let mut out: Vec<(String, String)> = Vec::new();
    let mut i: usize = 0;
    assert(out.deep_view() =~= Seq::<(Seq<char>, Seq<char>)>::empty());
    while i < evs.len()
        invariant
            ev == evs.deep_view(),
            ev == xml_events_v(rels_content@),
            i <= ev.len(),
            hf_rels_from_v(ev, i as int, out.deep_view()) == hf_rels_from_v(ev, 0, Seq::empty()),
        decreases ev.len() - i,
    {
        assert(ev[i as int] == evs@[i as int].deep_view());
        match &evs[i] {
            XmlEvent::Error { .. } => {
                return out;
            },
            XmlEvent::Start { name, attrs } | XmlEvent::Empty { name, attrs } => {
                if str_eq(name.as_str(), "Relationship") {
                    if let Some(p) = hf_rel(attrs) {
                        let ghost before = out.deep_view();
                        let ghost pv = p.deep_view();
                        out.push(p);
                        assert(out.deep_view() =~= before.push(pv));
                    }
                }
            },
            _ => {},
        }
        i = i + 1;
    }
    out
}

/// A part reference renamed through the relationships: to the file stem
/// of its target when its id has one.
pub open spec fn renamed_v(map: Seq<(Seq<char>, Seq<char>)>, id: Seq<char>) -> Seq<char> {
    match lookup_pair_v(map, id) {
        Some(t) => match file_stem_v(t) {
            Some(stem) => stem,
            None => id,
        },
        None => id,
    }
}

fn renamed(map: &Vec<(String, String)>, id: &String) -> (r: String)
    ensures
        r@ == renamed_v(map.deep_view(), id@),
{
    match lookup_pair(map, id.as_str()) {
        Some(t) => match file_stem(t.as_str()) {
            Some(stem) => stem,
            None => id.clone(),
        },
        None => id.clone(),
    }
}

/// Whether some header part has id `id`.
pub open spec fn has_header_v(hs: Seq<HeaderPartV>, id: Seq<char>) -> bool {
    exists|k: int| 0 <= k < hs.len() && hs[k].id == id
}

/// Whether some footer part has id `id`.
pub open spec fn has_footer_v(fs: Seq<FooterPartV>, id: Seq<char>) -> bool {
    exists|k: int| 0 <= k < fs.len() && fs[k].id == id
}

/// A section's header references, renamed, keeping those that name a part.
pub open spec fn kept_header_refs_v(
    refs: Seq<HeaderPartRefV>,
    map: Seq<(Seq<char>, Seq<char>)>,
    hs: Seq<HeaderPartV>,
) -> Seq<HeaderPartRefV>
    decreases refs.len(),
{
    if refs.len() == 0 {
        Seq::empty()
    } else {
        let prev = kept_header_refs_v(refs.drop_last(), map, hs);
        let r = HeaderPartRefV { header_id: renamed_v(map, refs.last().header_id), ..refs.last() };
        if has_header_v(hs, r.header_id) { prev.push(r) } else { prev }
    }
}

/// A section's footer references, renamed, keeping those that name a part.
pub open spec fn kept_footer_refs_v(
    refs: Seq<FooterPartRefV>,
    map: Seq<(Seq<char>, Seq<char>)>,
    fs: Seq<FooterPartV>,
) -> Seq<FooterPartRefV>
    decreases refs.len(),
{
    if refs.len() == 0 {
        Seq::empty()
    } else {
        let prev = kept_footer_refs_v(refs.drop_last(), map, fs);
        let r = FooterPartRefV { footer_id: renamed_v(map, refs.last().footer_id), ..refs.last() };
        if has_footer_v(fs, r.footer_id) { prev.push(r) } else { prev }
    }
}

/// A section with its references resolved.
pub open spec fn resolved_section_v(
    s: WordSectionV,
    map: Seq<(Seq<char>, Seq<char>)>,
    hs: Seq<HeaderPartV>,
    fs: Seq<FooterPartV>,
) -> WordSectionV {
    WordSectionV {
        header_refs: kept_header_refs_v(s.header_refs, map, hs),
        footer_refs: kept_footer_refs_v(s.footer_refs, map, fs),
        ..s
    }
}

/// The sections with their references resolved through the rels part;
/// unchanged when there is no rels part.
pub open spec fn resolved_sections_v(
    ss: Seq<WordSectionV>,
    rels: Seq<char>,
    hs: Seq<HeaderPartV>,
    fs: Seq<FooterPartV>,
) -> Seq<WordSectionV> {
    if rels.len() == 0 {
        ss
    } else {
        Seq::new(ss.len(), |k: int| resolved_section_v(ss[k], hf_rels_v(rels), hs, fs))
    }
}

fn has_header(hs: &Vec<HeaderPart>, id: &String) -> (r: bool)
    ensures
        r == has_header_v(hs.deep_view(), id@),
{
    let mut k: usize = 0;
    while k < hs.len()
        invariant
            k <= hs@.len(),
            forall|j: int| 0 <= j < k ==> hs.deep_view()[j].id != id@,
        decreases hs@.len() - k,
    {
        assert(hs.deep_view()[k as int] == hs@[k as int].deep_view());
        if str_eq(hs[k].id.as_str(), id.as_str()) {
            return true;
        }
        k = k + 1;
    }
    false
}

fn has_footer(fs: &Vec<FooterPart>, id: &String) -> (r: bool)
    ensures
        r == has_footer_v(fs.deep_view(), id@),
{
    let mut k: usize = 0;
    while k < fs.len()
        invariant
            k <= fs@.len(),
            forall|j: int| 0 <= j < k ==> fs.deep_view()[j].id != id@,
        decreases fs@.len() - k,
    {
        assert(fs.deep_view()[k as int] == fs@[k as int].deep_view());
        if str_eq(fs[k].id.as_str(), id.as_str()) {
            return true;
        }
        k = k + 1;
    }
    false
}

fn kept_header_refs(refs: &Vec<HeaderPartRef>, map: &Vec<(String, String)>, hs: &Vec<HeaderPart>) -> (r: Vec<HeaderPartRef>)
    ensures
        r.deep_view() == kept_header_refs_v(refs.deep_view(), map.deep_view(), hs.deep_view()),
{
    let ghost rv = refs.deep_view();
    let mut out: Vec<HeaderPartRef> = Vec::new();
    let mut k: usize = 0;
    assert(rv.take(0) =~= Seq::<HeaderPartRefV>::empty());
    assert(out.deep_view() =~= Seq::<HeaderPartRefV>::empty());
    while k < refs.len()
        invariant
            k <= rv.len(),
            rv == refs.deep_view(),
            out.deep_view() == kept_header_refs_v(rv.take(k as int), map.deep_view(), hs.deep_view()),
        decreases rv.len() - k,
    {
        let r0 = &refs[k];
        assert(rv[k as int] == r0.deep_view());
        assert(rv.take(k + 1).drop_last() =~= rv.take(k as int));
        let id = renamed(map, &r0.header_id);
        if has_header(hs, &id) {
            let r = HeaderPartRef { header_id: id, kind: r0.kind.clone() };
            let ghost before = out.deep_view();
            out.push(r);
            assert(out.deep_view() =~= before.push(r.deep_view()));
        }
        k = k + 1;
    }
    assert(rv.take(k as int) =~= rv);
    out
}

fn kept_footer_refs(refs: &Vec<FooterPartRef>, map: &Vec<(String, String)>, fs: &Vec<FooterPart>) -> (r: Vec<FooterPartRef>)
    ensures
        r.deep_view() == kept_footer_refs_v(refs.deep_view(), map.deep_view(), fs.deep_view()),
{
    let ghost rv = refs.deep_view();
    let mut out: Vec<FooterPartRef> = Vec::new();
    let mut k: usize = 0;
    assert(rv.take(0) =~= Seq::<FooterPartRefV>::empty());
    assert(out.deep_view() =~= Seq::<FooterPartRefV>::empty());
    while k < refs.len()
        invariant
            k <= rv.len(),
            rv == refs.deep_view(),
            out.deep_view() == kept_footer_refs_v(rv.take(k as int), map.deep_view(), fs.deep_view()),
        decreases rv.len() - k,
    {
        let r0 = &refs[k];
        assert(rv[k as int] == r0.deep_view());
        assert(rv.take(k + 1).drop_last() =~= rv.take(k as int));
        let id = renamed(map, &r0.footer_id);
        if has_footer(fs, &id) {
            let r = FooterPartRef { footer_id: id, kind: r0.kind.clone() };
            let ghost before = out.deep_view();
            out.push(r);
            assert(out.deep_view() =~= before.push(r.deep_view()));
        }
        k = k + 1;
    }
    assert(rv.take(k as int) =~= rv);
    out
}

/// Resolves each section's header and footer references through the
/// relationships of `rels_content`: an id whose relationship is a header
/// or footer becomes the file stem of its target (`rId7` → `header2`);
/// references that then name no loaded part are dropped. Without a rels
/// part the sections stay as they are.
pub fn resolve_section_refs(sections: &mut Vec<WordSection>, rels_content: &str, headers: &Vec<HeaderPart>, footers: &Vec<FooterPart>)
    ensures
        final(sections).deep_view() == resolved_sections_v(
            old(sections).deep_view(),
            rels_content@,
            headers.deep_view(),
            footers.deep_view(),
        ),
{
    if chars_of(rels_content).len() == 0 {
        return;
    }
    let map = parse_hf_rels(rels_content);
    let ghost s0 = sections.deep_view();
    let ghost target = Seq::new(s0.len(), |k: int| resolved_section_v(s0[k], map.deep_view(), headers.deep_view(), footers.deep_view()));
    let mut k: usize = 0;
    while k < sections.len()
        invariant
            k <= sections@.len(),
            sections@.len() == s0.len(),
            target.len() == s0.len(),
            target == Seq::new(s0.len(), |k: int| resolved_section_v(s0[k], map.deep_view(), headers.deep_view(), footers.deep_view())),
            forall|j: int| 0 <= j < k ==> sections.deep_view()[j] == target[j],
            forall|j: int| k <= j < s0.len() ==> sections.deep_view()[j] == s0[j],
        decreases s0.len() - k,
    {
        assert(sections.deep_view()[k as int] == sections@[k as int].deep_view());
        let mut sect = sections[k].clone();
        let h = kept_header_refs(&sect.header_refs, &map, headers);
        let f = kept_footer_refs(&sect.footer_refs, &map, footers);
        sect.header_refs = h;
        sect.footer_refs = f;
        let ghost before = sections.deep_view();
        sections.set(k, sect);
        assert(sections.deep_view() =~= before.update(k as int, sect.deep_view()));
        k = k + 1;
    }
    assert(sections.deep_view() =~= target);
}

/// The sections of a document keeping only the header and footer
/// references that name one of its parts.
pub open spec fn sections_with_resolved_refs_v(d: WordDocumentV) -> Seq<WordSectionV> {
    Seq::new(d.sections.len(), |k: int| resolved_section_v(d.sections[k], Seq::empty(), d.headers, d.footers))
}

/// Drops every section reference to a header or footer part that `doc`
/// does not hold, so that no relationship points at a missing part.
pub fn drop_unresolved_header_footer_refs(doc: &mut WordDocument)
    ensures
        final(doc)@ == (WordDocumentV { sections: sections_with_resolved_refs_v(old(doc)@), ..old(doc)@ }),
{
    let ghost d0 = doc@;
    let map: Vec<(String, String)> = Vec::new();
    assert(map.deep_view() =~= Seq::<(Seq<char>, Seq<char>)>::empty());
    let ghost target = sections_with_resolved_refs_v(d0);
    let mut k: usize = 0;
    while k < doc.sections.len()
        invariant
            k <= doc@.sections.len(),
            doc@.sections.len() == d0.sections.len(),
            doc@.paragraphs == d0.paragraphs,
            doc@.tables == d0.tables,
            doc@.images == d0.images,
            doc@.headers == d0.headers,
            doc@.footers == d0.footers,
            map.deep_view() == Seq::<(Seq<char>, Seq<char>)>::empty(),
            target == sections_with_resolved_refs_v(d0),
            forall|j: int| 0 <= j < k ==> doc@.sections[j] == target[j],
            forall|j: int| k <= j < d0.sections.len() ==> doc@.sections[j] == d0.sections[j],
        decreases d0.sections.len() - k,
    {
        assert(doc@.sections[k as int] == doc.sections@[k as int].deep_view());
        let mut sect = doc.sections[k].clone();
        assert(doc.headers.deep_view() == d0.headers);
        assert(doc.footers.deep_view() == d0.footers);
        let h = kept_header_refs(&sect.header_refs, &map, &doc.headers);
        let f = kept_footer_refs(&sect.footer_refs, &map, &doc.footers);
        sect.header_refs = h;
        sect.footer_refs = f;
        let ghost before = doc@.sections;
        doc.sections.set(k, sect);
        assert(doc@.sections =~= before.update(k as int, sect.deep_view()));
        k = k + 1;
    }
    assert(doc@.sections =~= target);
}

/// What a package reads as.
pub open spec fn word_document_v(bytes: Seq<u8>) -> Result<WordDocumentV, OfficeErrorV> {
    match zip_text_v(bytes, "word/document.xml"@) {
        Err(e) => Err(e),
        Ok(doc) => {
            let rels = match zip_text_v(bytes, "word/_rels/document.xml.rels"@) {
                Ok(t) => t,
                Err(_) => Seq::empty(),
            };
            match document_parse_v(doc) {
                Err(m) => Err(OfficeErrorV::Xml(m)),
                Ok((paras, markers, sections)) => match tables_v(doc) {
                    Err(m) => Err(OfficeErrorV::Xml(m)),
                    Ok(tables) => match hf_parts_v(bytes) {
                        Err(e) => Err(e),
                        Ok((hs, fs)) => Ok(
                            WordDocumentV {
                                paragraphs: paras + markers,
                                tables: with_cell_paragraphs_v(tables, cell_paragraphs_v(doc)),
                                images: images_v(doc, rels),
                                sections: resolved_sections_v(sections, rels, hs, fs),
                                headers: hs,
                                footers: fs,
                            },
                        ),
                    },
                },
            }
        },
    }
}

/// The tables with the cell paragraphs of the container ones filled in,
/// pairing tables and buckets by position.
pub open spec fn with_cell_paragraphs_v(ts: Seq<WordTableV>, cps: Seq<Seq<WordParagraphV>>) -> Seq<WordTableV> {
    Seq::new(
        ts.len(),
        |k: int| if k < cps.len() && cps[k].len() > 0 { WordTableV { cell_paragraphs: cps[k], ..ts[k] } } else { ts[k] },
    )
}

fn fill_cell_paragraphs(tables: &mut Vec<WordTable>, cps: Vec<Vec<WordParagraph>>)
    ensures
        final(tables).deep_view() == with_cell_paragraphs_v(old(tables).deep_view(), cps.deep_view()),
{
    let ghost t0 = tables.deep_view();
    let ghost cv = cps.deep_view();
    let mut k: usize = 0;
    while k < tables.len() && k < cps.len()
        invariant
            k <= tables@.len(),
            tables@.len() == t0.len(),
            cv == cps.deep_view(),
            forall|j: int| 0 <= j < k ==> tables.deep_view()[j] == with_cell_paragraphs_v(t0, cv)[j],
            forall|j: int| k <= j < t0.len() ==> tables.deep_view()[j] == t0[j],
        decreases t0.len() - k,
    {
        assert(cv[k as int] == cps@[k as int].deep_view());
        if cps[k].len() > 0 {
            assert(tables.deep_view()[k as int] == tables@[k as int].deep_view());
            let mut t = tables[k].clone();
            t.cell_paragraphs = cps[k].clone();
            assert(t.cell_paragraphs.deep_view() =~= cv[k as int]);
            let ghost before = tables.deep_view();
            tables.set(k, t);
            assert(tables.deep_view() =~= before.update(k as int, t.deep_view()));
        }
        k = k + 1;
    }
    assert(tables.deep_view() =~= with_cell_paragraphs_v(t0, cv));
}

/// Reads a `.docx` package: the body paragraphs (picture markers last),
/// the tables with the cell paragraphs of container tables, the pictures,
/// the sections with resolved header and footer references, and the
/// header and footer parts.
pub fn read_word_document(bytes: &[u8]) -> (r: Result<WordDocument, OfficeError>)
    ensures
        match word_document_v(bytes@) {
            Ok(d) => r matches Ok(x) && x.deep_view() == d,
            Err(e) => r matches Err(x) && x.deep_view() == e,
        },
{
    let doc_content = read_zip_entry(bytes, "word/document.xml")?;
    let rels_content = match read_zip_entry(bytes, "word/_rels/document.xml.rels") {
        Ok(t) => t,
        Err(_) => String::new(),
    };
    let (mut paragraphs, image_markers, mut sections) = parse_document_xml(doc_content.as_str())?;
    let images = parse_image_xml(doc_content.as_str(), rels_content.as_str(), &image_markers);
    let ghost p0 = paragraphs.deep_view();
    let mut k: usize = 0;
    while k < image_markers.len()
        invariant
            k <= image_markers@.len(),
            paragraphs.deep_view() == p0 + image_markers.deep_view().take(k as int),
        decreases image_markers@.len() - k,
    {
        let c = image_markers[k].clone();
        let ghost before = paragraphs.deep_view();
        paragraphs.push(c);
        assert(paragraphs.deep_view() =~= before.push(c.deep_view()));
        assert(image_markers.deep_view()[k as int] == image_markers@[k as int].deep_view());
        assert(paragraphs.deep_view() =~= p0 + image_markers.deep_view().take(k + 1));
        k = k + 1;
    }
    assert(image_markers.deep_view().take(k as int) =~= image_markers.deep_view());
    let mut tables = parse_table_xml(doc_content.as_str())?;
    let cps = extract_container_cell_paragraphs(doc_content.as_str());
    fill_cell_paragraphs(&mut tables, cps);
    let (headers, footers) = parse_header_footer_parts(bytes)?;
    resolve_section_refs(&mut sections, rels_content.as_str(), &headers, &footers);
    Ok(WordDocument { paragraphs, tables, images, sections, headers, footers })
}

} // verus!
