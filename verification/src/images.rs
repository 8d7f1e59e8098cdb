//! Recovering the pictures a document already embeds: the image
//! relationships of `word/_rels/document.xml.rels` and the drawings of
//! `word/document.xml` that refer to them.

use vstd::prelude::*;
use crate::docparse::{nonempty_attr_v, parse_u32, parse_u32_v};
use crate::elements::{lookup_pair, lookup_pair_v};
use crate::model::{WordImage, WordImageV, WordParagraph};
use crate::styled_writer::{trim_start_matches, trim_start_v};
use crate::text::{chars_of, find, find_v, owned, starts_with, str_eq, strip_prefix, strip_prefix_v, strip_suffix, strip_suffix_v};
use crate::xml::{attr_value, attr_value_v, xml_events, xml_events_v, XmlAttr, XmlAttrV, XmlEvent, XmlEventV};

verus! {

/// Whether `p` occurs in `s`.
pub open spec fn contains_v(s: Seq<char>, p: Seq<char>) -> bool {
    find_v(s, p) is Some
}

/// A relationship's target relative to `word/`: leading slashes dropped,
/// then a `word/` prefix when there is one.
pub open spec fn rel_target_v(target: Seq<char>) -> Seq<char> {
    match strip_prefix_v(trim_start_v(target, "/"@), "word/"@) {
        Some(t) => t,
        None => target,
    }
}

/// The `(id, target)` pair a `<Relationship>` contributes to the image map:
/// one with an id and a target, of an image or chart type, whose target is
/// under `media/` or `/word/media/`.
pub open spec fn image_rel_v(attrs: Seq<XmlAttrV>) -> Option<(Seq<char>, Seq<char>)> {
    let id = match attr_value_v(attrs, "Id"@) { Some(v) => v, None => Seq::empty() };
    let target = match attr_value_v(attrs, "Target"@) { Some(v) => v, None => Seq::empty() };
    let ty = match attr_value_v(attrs, "Type"@) { Some(v) => v, None => Seq::empty() };
    if id.len() == 0 || target.len() == 0 {
        None
    } else if !contains_v(ty, "/image"@) && !contains_v(ty, "/chart"@) {
        None
    } else if !"media/"@.is_prefix_of(target) && !"/word/media/"@.is_prefix_of(target) {
        None
    } else {
        Some((id, rel_target_v(target)))
    }
}

fn image_rel(attrs: &Vec<XmlAttr>) -> (r: Option<(String, String)>)
    ensures
        r.deep_view() == image_rel_v(attrs.deep_view()),
{
    let id = match attr_value(attrs, "Id") { Some(v) => v, None => String::new() };
    let target = match attr_value(attrs, "Target") { Some(v) => v, None => String::new() };
    let ty = match attr_value(attrs, "Type") { Some(v) => v, None => String::new() };
    proof {
        reveal_strlit("");
    }
    if chars_of(id.as_str()).len() == 0 || chars_of(target.as_str()).len() == 0 {
        None
    } else if find(ty.as_str(), "/image").is_none() && find(ty.as_str(), "/chart").is_none() {
        None
    } else if !starts_with(target.as_str(), "media/") && !starts_with(target.as_str(), "/word/media/") {
        None
    } else {
        let trimmed = trim_start_matches(target.as_str(), "/");
        let norm = match strip_prefix(trimmed.as_str(), "word/") {
            Some(t) => t,
            None => target,
        };
        Some((id, norm))
    }
}

/// The pairs the image relationships of the events from `i` on add to
/// `acc`; reading stops at a syntax error.
pub open spec fn image_rels_from_v(evs: Seq<XmlEventV>, i: int, acc: Seq<(Seq<char>, Seq<char>)>) -> Seq<(Seq<char>, Seq<char>)>
    decreases evs.len() - i,
{
    if i < 0 || i >= evs.len() {
        acc
    } else {
        match evs[i] {
            XmlEventV::Error { .. } => acc,
            XmlEventV::Start { name, attrs } => image_rels_from_v(
                evs,
                i + 1,
                if name == "Relationship"@ && image_rel_v(attrs) is Some { acc.push(image_rel_v(attrs).unwrap()) } else { acc },
            ),
            XmlEventV::Empty { name, attrs } => image_rels_from_v(
                evs,
                i + 1,
                if name == "Relationship"@ && image_rel_v(attrs) is Some { acc.push(image_rel_v(attrs).unwrap()) } else { acc },
            ),
            _ => image_rels_from_v(evs, i + 1, acc),
        }
    }
}

/// The image relationships of a rels part, in order: `(rId, path under
/// word/)`; a later pair for the same id takes precedence.
pub open spec fn image_rels_v(rels: Seq<char>) -> Seq<(Seq<char>, Seq<char>)> {
    image_rels_from_v(xml_events_v(rels), 0, Seq::empty())
}

/// Reads the image and chart relationships of `word/_rels/document.xml.rels`
/// as `(rId, path under word/)` pairs, in order; where an id repeats, the
/// later pair is the one that counts.
pub fn parse_image_rels(rels_content: &str) -> (r: Vec<(String, String)>)
    ensures
        r.deep_view() == image_rels_v(rels_content@),
{
    let evs = xml_events(rels_content);
    let ghost ev = evs.deep_view();
    let mut out: Vec<(String, String)> = Vec::new();
    let mut i: usize = 0;
    assert(out.deep_view() =~= Seq::<(Seq<char>, Seq<char>)>::empty());
    while i < evs.len()
        invariant
            ev == evs.deep_view(),
            ev == xml_events_v(rels_content@),
            i <= ev.len(),
            image_rels_from_v(ev, i as int, out.deep_view()) == image_rels_from_v(ev, 0, Seq::empty()),
        decreases ev.len() - i,
    {
        assert(ev[i as int] == evs@[i as int].deep_view());
        match &evs[i] {
            XmlEvent::Error { .. } => {
                return out;
            },
            XmlEvent::Start { name, attrs } | XmlEvent::Empty { name, attrs } => {
                if str_eq(name.as_str(), "Relationship") {
                    if let Some(p) = image_rel(attrs) {
                        let ghost before = out.deep_view();
                        let ghost pv = p.deep_view();
                        out.push(p);
                        assert(out.deep_view() =~= before.push(pv));
                    }
                }
            },
            _ => {},
        }
        i = i + 1;
    }
    out
}

/// The id a recovered picture gets: the one its paragraph's marker
/// `__img_pos_<id>__` names, else `_recovered_<rId>`.
pub open spec fn recovered_id_v(para_id: Option<Seq<char>>, rid: Seq<char>) -> Seq<char> {
    match para_id {
        Some(p) => match strip_prefix_v(p, "__img_pos_"@) {
            Some(rest) => match strip_suffix_v(rest, "__"@) {
                Some(x) => x,
                None => "_recovered_"@ + rid,
            },
            None => "_recovered_"@ + rid,
        },
        None => "_recovered_"@ + rid,
    }
}

/// The picture a finished drawing gives: one whose relationship is an
/// image relationship, with its size and its package path.
pub open spec fn flushed_image_v(
    rid: Option<Seq<char>>,
    cx: u32,
    cy: u32,
    para_id: Option<Seq<char>>,
    rels: Seq<(Seq<char>, Seq<char>)>,
) -> Option<WordImageV> {
    match rid {
        Some(r) => match lookup_pair_v(rels, r) {
            Some(target) => Some(
                WordImageV {
                    id: recovered_id_v(para_id, r),
                    path: "word/"@ + target,
                    width_emu: cx,
                    height_emu: cy,
                    internal_path: Some("word/"@ + target),
                },
            ),
            None => None,
        },
        None => None,
    }
}

/// Adds the picture a finished drawing gives, if any.
pub fn flush_image(
    images: &mut Vec<WordImage>,
    blip_rid: &Option<String>,
    cx: u32,
    cy: u32,
    para_id: Option<&str>,
    rid_to_target: &Vec<(String, String)>,
)
    ensures
        final(images).deep_view() == match flushed_image_v(
            blip_rid.deep_view(),
            cx,
            cy,
            match para_id { Some(p) => Some(p@), None => None },
            rid_to_target.deep_view(),
        ) {
            Some(im) => old(images).deep_view().push(im),
            None => old(images).deep_view(),
        },
{
    let rid = match blip_rid {
        Some(r) => r,
        None => {
            return;
        },
    };
    let target = match lookup_pair(rid_to_target, rid.as_str()) {
        Some(t) => t,
        None => {
            return;
        },
    };
    let mut internal_path = owned("word/");
    internal_path.append(target.as_str());
    let mut fallback = owned("_recovered_");
    fallback.append(rid.as_str());
    let img_id = match para_id {
        Some(p) => match strip_prefix(p, "__img_pos_") {
            Some(rest) => match strip_suffix(rest.as_str(), "__") {
                Some(x) => x,
                None => fallback,
            },
            None => fallback,
        },
        None => fallback,
    };
    let im = WordImage {
        id: img_id,
        path: internal_path.clone(),
        width_emu: cx,
        height_emu: cy,
        internal_path: Some(internal_path),
    };
    let ghost before = images.deep_view();
    images.push(im);
    assert(images.deep_view() =~= before.push(im.deep_view()));
}

/// The state of the drawing reader between events.
pub struct DrawingScanV {
    pub in_drawing: bool,
    pub blip_rid: Option<Seq<char>>,
    pub cx: u32,
    pub cy: u32,
    pub para_id: Option<Seq<char>>,
    pub para_depth: nat,
    pub images: Seq<WordImageV>,
}

/// The state after a drawing is finished: its picture recorded, if any.
pub open spec fn drawing_flush_v(s: DrawingScanV, rels: Seq<(Seq<char>, Seq<char>)>) -> DrawingScanV {
    DrawingScanV {
        images: match flushed_image_v(s.blip_rid, s.cx, s.cy, s.para_id, rels) {
            Some(im) => s.images.push(im),
            None => s.images,
        },
        in_drawing: false,
        blip_rid: None,
        ..s
    }
}

/// The state at a start or self-closing tag (`empty` for the latter).
pub open spec fn drawing_tag_v(
    s: DrawingScanV,
    name: Seq<char>,
    attrs: Seq<XmlAttrV>,
    empty: bool,
    rels: Seq<(Seq<char>, Seq<char>)>,
) -> DrawingScanV {
    if name == "p"@ {
        DrawingScanV { para_depth: s.para_depth + 1, para_id: None, ..s }
    } else if name == "id"@ && s.para_depth > 0 {
        match nonempty_attr_v(attrs, "val"@) {
            Some(v) => DrawingScanV { para_id: Some(v), ..s },
            None => s,
        }
    } else if name == "drawing"@ {
        DrawingScanV { in_drawing: true, blip_rid: None, cx: 0, cy: 0, ..s }
    } else if s.in_drawing && name == "extent"@ {
        let cx = match attr_value_v(attrs, "cx"@) {
            Some(v) => match parse_u32_v(v) { Some(n) => n, None => s.cx },
            None => s.cx,
        };
        let cy = match attr_value_v(attrs, "cy"@) {
            Some(v) => match parse_u32_v(v) { Some(n) => n, None => s.cy },
            None => s.cy,
        };
        DrawingScanV { cx, cy, ..s }
    } else if s.in_drawing && name == "blip"@ {
        let s1 = match attr_value_v(attrs, "embed"@) {
            Some(v) => DrawingScanV { blip_rid: Some(v), ..s },
            None => s,
        };
        if empty { drawing_flush_v(s1, rels) } else { s1 }
    } else {
        s
    }
}

/// The state at an end tag.
pub open spec fn drawing_end_v(s: DrawingScanV, name: Seq<char>, rels: Seq<(Seq<char>, Seq<char>)>) -> DrawingScanV {
    if name == "drawing"@ {
        drawing_flush_v(s, rels)
    } else if name == "p"@ && s.para_depth > 0 {
        let d = (s.para_depth - 1) as nat;
        if d == 0 {
            DrawingScanV { para_depth: d, para_id: None, ..s }
        } else {
            DrawingScanV { para_depth: d, ..s }
        }
    } else {
        s
    }
}

/// The drawing reader's state after the events from `i` on; reading stops
/// at a syntax error.
pub open spec fn drawings_from_v(evs: Seq<XmlEventV>, i: int, s: DrawingScanV, rels: Seq<(Seq<char>, Seq<char>)>) -> DrawingScanV
    decreases evs.len() - i,
{
    if i < 0 || i >= evs.len() {
        s
    } else {
        match evs[i] {
            XmlEventV::Error { .. } => s,
            XmlEventV::Start { name, attrs } => drawings_from_v(evs, i + 1, drawing_tag_v(s, name, attrs, false, rels), rels),
            XmlEventV::Empty { name, attrs } => drawings_from_v(evs, i + 1, drawing_tag_v(s, name, attrs, true, rels), rels),
            XmlEventV::End { name } => drawings_from_v(evs, i + 1, drawing_end_v(s, name, rels), rels),
            _ => drawings_from_v(evs, i + 1, s, rels),
        }
    }
}

/// The pictures a document embeds, given its rels part.
pub open spec fn images_v(doc: Seq<char>, rels: Seq<char>) -> Seq<WordImageV> {
    image_events_v(xml_events_v(doc), image_rels_v(rels))
}

/// The pictures a stream of XML events embeds, given the image
/// relationships (id, target) of its part.
pub open spec fn image_events_v(evs: Seq<XmlEventV>, map: Seq<(Seq<char>, Seq<char>)>) -> Seq<WordImageV> {
    if map.len() == 0 {
        Seq::empty()
    } else {
        drawings_from_v(
            evs,
            0,
            DrawingScanV { in_drawing: false, blip_rid: None, cx: 0, cy: 0, para_id: None, para_depth: 0, images: Seq::empty() },
            map,
        ).images
    }
}

struct DrawingScan {
    in_drawing: bool,
    blip_rid: Option<String>,
    cx: u32,
    cy: u32,
    para_id: Option<String>,
    para_depth: usize,
    images: Vec<WordImage>,
}

impl View for DrawingScan {
    type V = DrawingScanV;

    closed spec fn view(&self) -> DrawingScanV {
        DrawingScanV {
            in_drawing: self.in_drawing,
            blip_rid: self.blip_rid.deep_view(),
            cx: self.cx,
            cy: self.cy,
            para_id: self.para_id.deep_view(),
            para_depth: self.para_depth as nat,
            images: self.images.deep_view(),
        }
    }
}

impl DrawingScan {
    fn flush(&mut self, rels: &Vec<(String, String)>)
        ensures
            final(self)@ == drawing_flush_v(old(self)@, rels.deep_view()),
            final(self).para_depth == old(self).para_depth,
    {
        let pid = match &self.para_id {
            Some(p) => Some(p.as_str()),
            None => None,
        };
        flush_image(&mut self.images, &self.blip_rid, self.cx, self.cy, pid, rels);
        self.in_drawing = false;
        self.blip_rid = None;
    }

    fn tag(&mut self, name: &str, attrs: &Vec<XmlAttr>, empty: bool, rels: &Vec<(String, String)>)
        requires
            old(self).para_depth < usize::MAX,
        ensures
            final(self)@ == drawing_tag_v(old(self)@, name@, attrs.deep_view(), empty, rels.deep_view()),
            final(self).para_depth <= old(self).para_depth + 1,
    {
        if str_eq(name, "p") {
            self.para_depth = self.para_depth + 1;
            self.para_id = None;
        } else if str_eq(name, "id") && self.para_depth > 0 {
            if let Some(v) = attr_value(attrs, "val") {
                if chars_of(v.as_str()).len() > 0 {
                    self.para_id = Some(v);
                }
            }
        } else if str_eq(name, "drawing") {
            self.in_drawing = true;
            self.blip_rid = None;
            self.cx = 0;
            self.cy = 0;
        } else if self.in_drawing && str_eq(name, "extent") {
            if let Some(v) = attr_value(attrs, "cx") {
                if let Some(n) = parse_u32(v.as_str()) {
                    self.cx = n;
                }
            }
            if let Some(v) = attr_value(attrs, "cy") {
                if let Some(n) = parse_u32(v.as_str()) {
                    self.cy = n;
                }
            }
        } else if self.in_drawing && str_eq(name, "blip") {
            if let Some(v) = attr_value(attrs, "embed") {
                self.blip_rid = Some(v);
            }
            if empty {
                self.flush(rels);
            }
        }
    }

    fn end(&mut self, name: &str, rels: &Vec<(String, String)>)
        ensures
            final(self)@ == drawing_end_v(old(self)@, name@, rels.deep_view()),
            final(self).para_depth <= old(self).para_depth,
    {
        if str_eq(name, "drawing") {
            self.flush(rels);
        } else if str_eq(name, "p") && self.para_depth > 0 {
            self.para_depth = self.para_depth - 1;
            if self.para_depth == 0 {
                self.para_id = None;
            }
        }
    }
}

/// Recovers the pictures `doc_content` embeds: each drawing whose
/// `<a:blip r:embed>` names an image relationship of `rels_content` gives
/// one, sized by its `<wp:extent>`, with the id its paragraph's marker
/// names and its package path.
pub fn parse_image_xml(doc_content: &str, rels_content: &str, _image_markers: &Vec<WordParagraph>) -> (r: Vec<WordImage>)
    ensures
        r.deep_view() == images_v(doc_content@, rels_content@),
{
    let rels = parse_image_rels(rels_content);
    if rels.len() == 0 {
        return Vec::new();
    }
    let evs = xml_events(doc_content);
    parse_image_events(&evs, &rels)
}

/// Recovers the pictures a stream of XML events embeds: each drawing whose
/// `<a:blip r:embed>` names one of the image relationships `rels` (id,
/// target) gives one, sized by its `<wp:extent>`, with the id its
/// paragraph's marker names and its package path.
pub fn parse_image_events(evs: &Vec<XmlEvent>, rels: &Vec<(String, String)>) -> (r: Vec<WordImage>)
    ensures
        r.deep_view() == image_events_v(evs.deep_view(), rels.deep_view()),
{
    if rels.len() == 0 {
        return Vec::new();
    }
    let ghost ev = evs.deep_view();
    let ghost map = rels.deep_view();
    let mut st = DrawingScan {
        in_drawing: false,
        blip_rid: None,
        cx: 0,
        cy: 0,
        para_id: None,
        para_depth: 0,
        images: Vec::new(),
    };
    assert(st.images.deep_view() =~= Seq::<WordImageV>::empty());
    let ghost init = st@;
    let mut i: usize = 0;
    while i < evs.len()
        invariant
            ev == evs.deep_view(),
            map == rels.deep_view(),
            map.len() > 0,
            init == (DrawingScanV { in_drawing: false, blip_rid: None, cx: 0, cy: 0, para_id: None, para_depth: 0, images: Seq::empty() }),
            i <= ev.len(),
            st.para_depth <= i,
            drawings_from_v(ev, i as int, st@, map) == drawings_from_v(ev, 0, init, map),
        decreases ev.len() - i,
    {
        assert(ev[i as int] == evs@[i as int].deep_view());
        match &evs[i] {
            XmlEvent::Error { .. } => {
                return st.images;
            },
            XmlEvent::Start { name, attrs } => {
                st.tag(name.as_str(), attrs, false, rels);
            },
            XmlEvent::Empty { name, attrs } => {
                st.tag(name.as_str(), attrs, true, rels);
            },
            XmlEvent::End { name } => {
                st.end(name.as_str(), rels);
            },
            _ => {},
        }
        i = i + 1;
    }
    st.images
}

} // verus!
