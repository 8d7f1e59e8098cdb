//! XML events of a part: quick-xml's tokens, with text runs and character
//! references joined into one text event each, and attribute lookups.

use vstd::prelude::*;
use quick_xml::events::Event;
use crate::text::{chars_of, find, find_v, owned, str_eq, string_of_range};

verus! {

/// One attribute as written: its qualified key and its raw (unescaped) value.
pub struct XmlAttr {
    pub key: String,
    pub value: String,
}

/// Model of an [`XmlAttr`].
pub struct XmlAttrV {
    pub key: Seq<char>,
    pub value: Seq<char>,
}

impl DeepView for XmlAttr {
    type V = XmlAttrV;

    open spec fn deep_view(&self) -> XmlAttrV {
        XmlAttrV { key: self.key@, value: self.value@ }
    }
}

impl Clone for XmlAttr {
    fn clone(&self) -> (r: Self)
        ensures
            r.deep_view() == self.deep_view(),
    {
        XmlAttr { key: self.key.clone(), value: self.value.clone() }
    }
}

/// Builds an attribute.
pub fn make_attr(key: &str, value: &str) -> (r: XmlAttr)
    ensures
        r.deep_view() == (XmlAttrV { key: key@, value: value@ }),
{
    XmlAttr { key: owned(key), value: owned(value) }
}

/// One token of quick-xml's reader.
pub enum XmlToken {
    /// A start tag: local name and attributes.
    Start { name: String, attrs: Vec<XmlAttr> },
    /// A self-closing tag: local name and attributes.
    Empty { name: String, attrs: Vec<XmlAttr> },
    /// An end tag: local name.
    End { name: String },
    /// Character data between tags, as written.
    Text { text: String },
    /// A character or entity reference: what stands between `&` and `;`.
    Ref { name: String },
    /// A declaration, comment, CDATA section, processing instruction or DTD.
    Other,
    /// A syntax error; no token follows.
    Error { msg: String },
}

/// Model of an [`XmlToken`].
pub enum XmlTokenV {
    Start { name: Seq<char>, attrs: Seq<XmlAttrV> },
    Empty { name: Seq<char>, attrs: Seq<XmlAttrV> },
    End { name: Seq<char> },
    Text { text: Seq<char> },
    Ref { name: Seq<char> },
    Other,
    Error { msg: Seq<char> },
}

impl DeepView for XmlToken {
    type V = XmlTokenV;

    open spec fn deep_view(&self) -> XmlTokenV {
        match self {
            XmlToken::Start { name, attrs } => XmlTokenV::Start { name: name@, attrs: attrs.deep_view() },
            XmlToken::Empty { name, attrs } => XmlTokenV::Empty { name: name@, attrs: attrs.deep_view() },
            XmlToken::End { name } => XmlTokenV::End { name: name@ },
            XmlToken::Text { text } => XmlTokenV::Text { text: text@ },
            XmlToken::Ref { name } => XmlTokenV::Ref { name: name@ },
            XmlToken::Other => XmlTokenV::Other,
            XmlToken::Error { msg } => XmlTokenV::Error { msg: msg@ },
        }
    }
}

/// The tokens quick-xml reads from `content` (text untrimmed), up to the end
/// of input.
pub uninterp spec fn xml_tokens_v(content: Seq<char>) -> Seq<XmlTokenV>;

/// A quick-xml `Reader` over a copy of a part, its event buffer, and the
/// event read last (owned), or the message of the error read last.
#[verifier::external_body]
pub struct XmlReader {
    r: quick_xml::Reader<std::io::Cursor<Vec<u8>>>,
    buf: Vec<u8>,
    cur: Option<Result<Event<'static>, String>>,
}

/// The tokens a reader has still to give, up to the end of input.
pub uninterp spec fn xml_pending_v(r: XmlReader) -> Seq<XmlTokenV>;

/// The token a reader gave last.
pub uninterp spec fn xml_current_v(r: XmlReader) -> Option<XmlTokenV>;

/// The kind of a token.
#[derive(PartialEq, Eq, Structural, Clone, Copy)]
pub enum XmlKind {
    Start,
    Empty,
    End,
    Text,
    Ref,
    Other,
    Error,
}

/// The kind of a token.
pub open spec fn kind_of_v(t: XmlTokenV) -> XmlKind {
    match t {
        XmlTokenV::Start { .. } => XmlKind::Start,
        XmlTokenV::Empty { .. } => XmlKind::Empty,
        XmlTokenV::End { .. } => XmlKind::End,
        XmlTokenV::Text { .. } => XmlKind::Text,
        XmlTokenV::Ref { .. } => XmlKind::Ref,
        XmlTokenV::Other => XmlKind::Other,
        XmlTokenV::Error { .. } => XmlKind::Error,
    }
}

/// Opens a quick-xml `Reader` (`Reader::from_reader`, `trim_text(false)`)
/// on the bytes of `content`; it has the tokens of `content` to give.
#[verifier::external_body]
pub(crate) fn xml_reader(content: &str) -> (r: XmlReader)
    ensures
        xml_pending_v(r) == xml_tokens_v(content@),
{
    let mut r = quick_xml::Reader::from_reader(std::io::Cursor::new(content.as_bytes().to_vec()));
    r.config_mut().trim_text(false);
    XmlReader { r, buf: Vec::new(), cur: None }
}

/// Reads the next event (`Reader::read_event_into`) and gives its kind;
/// `None` at the end of input. The event read is the first pending token;
/// unless it is an error, the others stay pending.
#[verifier::external_body]
pub(crate) fn xml_next(r: &mut XmlReader) -> (k: Option<XmlKind>)
    ensures
        xml_pending_v(*old(r)).len() == 0 ==> k is None,
        xml_pending_v(*old(r)).len() > 0 ==> k == Some(kind_of_v(xml_pending_v(*old(r))[0])) && xml_current_v(*final(r))
            == Some(xml_pending_v(*old(r))[0]),
        xml_pending_v(*old(r)).len() > 0 && !(xml_pending_v(*old(r))[0] is Error) ==> xml_pending_v(*final(r))
            == xml_pending_v(*old(r)).drop_first(),
{
    r.buf.clear();
    let ev = match r.r.read_event_into(&mut r.buf) { Ok(e) => Ok(e.into_owned()), Err(e) => Err(e.to_string()) };
    let k = match &ev {
        Ok(Event::Start(_)) => XmlKind::Start,
        Ok(Event::Empty(_)) => XmlKind::Empty,
        Ok(Event::End(_)) => XmlKind::End,
        Ok(Event::Text(_)) => XmlKind::Text,
        Ok(Event::GeneralRef(_)) => XmlKind::Ref,
        Ok(Event::Eof) => return None,
        Ok(_) => XmlKind::Other,
        Err(_) => XmlKind::Error,
    };
    r.cur = Some(ev);
    Some(k)
}

/// The local name of the tag read last (`local_name`).
#[verifier::external_body]
pub(crate) fn xml_name(r: &XmlReader) -> (s: String)
    ensures
        match xml_current_v(*r) {
            Some(XmlTokenV::Start { name, .. }) => s@ == name,
            Some(XmlTokenV::Empty { name, .. }) => s@ == name,
            Some(XmlTokenV::End { name }) => s@ == name,
            _ => true,
        },
{
    match &r.cur {
        Some(Ok(Event::Start(e))) | Some(Ok(Event::Empty(e))) => e.local_name().as_ref().to_string(),
        Some(Ok(Event::End(e))) => e.local_name().as_ref().to_string(),
        _ => String::new(),
    }
}

/// The attributes of the start tag read last (`attributes`, checks off),
/// with raw values.
#[verifier::external_body]
pub(crate) fn xml_attrs(r: &XmlReader) -> (v: Vec<XmlAttr>)
    ensures
        match xml_current_v(*r) {
            Some(XmlTokenV::Start { attrs, .. }) => v.deep_view() == attrs,
            Some(XmlTokenV::Empty { attrs, .. }) => v.deep_view() == attrs,
            _ => true,
        },
{
    match &r.cur {
        Some(Ok(Event::Start(e))) | Some(Ok(Event::Empty(e))) => e.attributes().with_checks(false).flatten().map(|a| make_attr(a.key.as_ref(), &a.value)).collect(),
        _ => Vec::new(),
    }
}

/// The text read last as written, the name of the reference read last, or
/// the message of the error read last.
#[verifier::external_body]
pub(crate) fn xml_text(r: &XmlReader) -> (s: String)
    ensures
        match xml_current_v(*r) {
            Some(XmlTokenV::Text { text }) => s@ == text,
            Some(XmlTokenV::Ref { name }) => s@ == name,
            Some(XmlTokenV::Error { msg }) => s@ == msg,
            _ => true,
        },
{
    match &r.cur {
        Some(Ok(Event::Text(e))) => String::from(&**e),
        Some(Ok(Event::GeneralRef(e))) => String::from(&**e),
        Some(Err(m)) => m.clone(),
        _ => String::new(),
    }
}

/// What the reference `&name;` stands for, as quick-xml resolves it.
pub uninterp spec fn resolved_ref_v(name: Seq<char>) -> Option<Seq<char>>;

/// Resolves the reference `&name;` with `quick_xml::escape::unescape`: the
/// predefined entities and character references; `None` for others.
#[verifier::external_body]
pub(crate) fn resolve_reference(name: &str) -> (r: Option<String>)
    ensures
        r.deep_view() == resolved_ref_v(name@),
{
    match quick_xml::escape::unescape(&format!("&{};", name)) {
        Ok(c) => Some(c.into_owned()),
        Err(_) => None,
    }
}

/// One event of a part as the parsers see it: a run of character data and
/// references is one text event.
pub enum XmlEvent {
    Start { name: String, attrs: Vec<XmlAttr> },
    Empty { name: String, attrs: Vec<XmlAttr> },
    End { name: String },
    /// The text with references resolved; empty when one could not be.
    Text { text: String },
    Other,
    Error { msg: String },
}

/// Model of an [`XmlEvent`].
pub enum XmlEventV {
    Start { name: Seq<char>, attrs: Seq<XmlAttrV> },
    Empty { name: Seq<char>, attrs: Seq<XmlAttrV> },
    End { name: Seq<char> },
    Text { text: Seq<char> },
    Other,
    Error { msg: Seq<char> },
}

impl DeepView for XmlEvent {
    type V = XmlEventV;

    open spec fn deep_view(&self) -> XmlEventV {
        match self {
            XmlEvent::Start { name, attrs } => XmlEventV::Start { name: name@, attrs: attrs.deep_view() },
            XmlEvent::Empty { name, attrs } => XmlEventV::Empty { name: name@, attrs: attrs.deep_view() },
            XmlEvent::End { name } => XmlEventV::End { name: name@ },
            XmlEvent::Text { text } => XmlEventV::Text { text: text@ },
            XmlEvent::Other => XmlEventV::Other,
            XmlEvent::Error { msg } => XmlEventV::Error { msg: msg@ },
        }
    }
}

/// A pending text run extended by `t` (`ok`: every reference so far resolved).
pub open spec fn add_text_v(p: Option<(Seq<char>, bool)>, t: Seq<char>, ok: bool) -> (Seq<char>, bool) {
    match p {
        Some(a) => (a.0 + t, a.1 && ok),
        None => (t, ok),
    }
}

/// The text event a pending run gives, if any.
pub open spec fn flush_v(p: Option<(Seq<char>, bool)>) -> Seq<XmlEventV> {
    match p {
        Some(a) => seq![XmlEventV::Text { text: if a.1 { a.0 } else { Seq::empty() } }],
        None => Seq::empty(),
    }
}

/// The event of a token that is not character data.
pub open spec fn token_event_v(t: XmlTokenV) -> XmlEventV {
    match t {
        XmlTokenV::Start { name, attrs } => XmlEventV::Start { name, attrs },
        XmlTokenV::Empty { name, attrs } => XmlEventV::Empty { name, attrs },
        XmlTokenV::End { name } => XmlEventV::End { name },
        XmlTokenV::Error { msg } => XmlEventV::Error { msg },
        _ => XmlEventV::Other,
    }
}

/// The events of the tokens from `i` on, with the pending text run `p`.
pub open spec fn merge_from_v(ts: Seq<XmlTokenV>, i: int, p: Option<(Seq<char>, bool)>) -> Seq<XmlEventV>
    decreases ts.len() - i,
{
    if i < 0 || i >= ts.len() {
        flush_v(p)
    } else {
        match ts[i] {
            XmlTokenV::Text { text } => merge_from_v(ts, i + 1, Some(add_text_v(p, text, true))),
            XmlTokenV::Ref { name } => merge_from_v(
                ts,
                i + 1,
                Some(
                    add_text_v(
                        p,
                        match resolved_ref_v(name) {
                            Some(r) => r,
                            None => Seq::empty(),
                        },
                        resolved_ref_v(name) is Some,
                    ),
                ),
            ),
            XmlTokenV::Error { .. } => flush_v(p) + seq![token_event_v(ts[i])],
            _ => flush_v(p) + seq![token_event_v(ts[i])] + merge_from_v(ts, i + 1, None),
        }
    }
}

/// The events of `content`.
pub open spec fn xml_events_v(content: Seq<char>) -> Seq<XmlEventV> {
    merge_from_v(xml_tokens_v(content), 0, None)
}

/// Reads the events of `content`.
pub fn xml_events(content: &str) -> (r: Vec<XmlEvent>)
    ensures
        r.deep_view() == xml_events_v(content@),
{
    let mut rd = xml_reader(content);
    let ghost tv = xml_tokens_v(content@);
    let mut out: Vec<XmlEvent> = Vec::new();
    let mut pending = String::new();
    let mut has_pending = false;
    let mut pending_ok = true;
    let ghost mut i: int = 0;
    assert(out.deep_view() =~= Seq::<XmlEventV>::empty());
    assert(tv.skip(0) =~= tv);
    loop
        invariant_except_break
            xml_pending_v(rd) == tv.skip(i),
        invariant
            0 <= i <= tv.len(),
            tv == xml_tokens_v(content@),
            out.deep_view() + merge_from_v(tv, i, if has_pending { Some((pending@, pending_ok)) } else { None })
                == xml_events_v(content@),
        ensures
            i == tv.len(),
        decreases tv.len() - i,
    {
        let ghost o = out.deep_view();
        let ghost p = if has_pending { Some((pending@, pending_ok)) } else { None };
        let kind = match xml_next(&mut rd) {
            Some(k) => k,
            None => {
                assert(i == tv.len());
                break;
            },
        };
        let tok = match kind {
            XmlKind::Start => XmlToken::Start { name: xml_name(&rd), attrs: xml_attrs(&rd) },
            XmlKind::Empty => XmlToken::Empty { name: xml_name(&rd), attrs: xml_attrs(&rd) },
            XmlKind::End => XmlToken::End { name: xml_name(&rd) },
            XmlKind::Text => XmlToken::Text { text: xml_text(&rd) },
            XmlKind::Ref => XmlToken::Ref { name: xml_text(&rd) },
            XmlKind::Other => XmlToken::Other,
            XmlKind::Error => XmlToken::Error { msg: xml_text(&rd) },
        };
        assert(tok.deep_view() == tv[i]);
        let mut stop = false;
        match tok {
            XmlToken::Text { text } => {
                if !has_pending {
                    pending = String::new();
                    pending_ok = true;
                }
                pending.append(text.as_str());
                has_pending = true;
                assert(pending@ =~= add_text_v(p, text@, true).0);
            },
            XmlToken::Ref { name } => {
                if !has_pending {
                    pending = String::new();
                    pending_ok = true;
                }
                let res = resolve_reference(name.as_str());
                match &res {
                    Some(x) => pending.append(x.as_str()),
                    None => pending_ok = false,
                }
                has_pending = true;
                assert(pending@ =~= add_text_v(
                    p,
                    match resolved_ref_v(name@) {
                        Some(x) => x,
                        None => Seq::empty(),
                    },
                    resolved_ref_v(name@) is Some,
                ).0);
            },
            other => {
                if has_pending {
                    let t = if pending_ok { pending.clone() } else { String::new() };
                    out.push(XmlEvent::Text { text: t });
                    has_pending = false;
                }
                let ev = match other {
                    XmlToken::Start { name, attrs } => XmlEvent::Start { name, attrs },
                    XmlToken::Empty { name, attrs } => XmlEvent::Empty { name, attrs },
                    XmlToken::End { name } => XmlEvent::End { name },
                    XmlToken::Error { msg } => {
                        stop = true;
                        XmlEvent::Error { msg }
                    },
                    _ => XmlEvent::Other,
                };
                out.push(ev);
                assert(out.deep_view() =~= o + flush_v(p) + seq![token_event_v(tv[i])]);
                assert(stop ==> out.deep_view() + Seq::<XmlEventV>::empty() =~= o + merge_from_v(tv, i, p));
            },
        }
        proof {
            assert(tv.skip(i).drop_first() =~= tv.skip(i + 1));
            i = i + 1;
        }
        if stop {
            assert(out.deep_view() =~= xml_events_v(content@));
            return out;
        }
    }
    if has_pending {
        let ghost o = out.deep_view();
        let t = if pending_ok { pending.clone() } else { String::new() };
        out.push(XmlEvent::Text { text: t });
        assert(out.deep_view() =~= o + flush_v(Some((pending@, pending_ok))));
    } else {
        assert(out.deep_view() =~= out.deep_view() + flush_v(None));
    }
    out
}

/// The local part of a qualified name: what follows its first `:`.
pub open spec fn local_v(key: Seq<char>) -> Seq<char> {
    match find_v(key, ":"@) {
        Some(i) => key.skip(i + 1int),
        None => key,
    }
}

/// The local part of a qualified name.
pub fn local_name(key: &str) -> (r: String)
    ensures
        r@ == local_v(key@),
{
    let v = chars_of(key);
    match find(key, ":") {
        Some(i) => {
            proof {
                reveal_strlit(":");
            }
            let vl = v.len();
            assert(i < vl);
            let r = string_of_range(v.as_slice(), i + 1, vl);
            assert(r@ =~= key@.skip(i + 1));
            r
        },
        None => owned(key),
    }
}

/// The raw value of the first attribute whose local name is `name`.
pub open spec fn attr_value_v(attrs: Seq<XmlAttrV>, name: Seq<char>) -> Option<Seq<char>>
    decreases attrs.len(),
{
    if attrs.len() == 0 {
        None
    } else if local_v(attrs[0].key) == name {
        Some(attrs[0].value)
    } else {
        attr_value_v(attrs.drop_first(), name)
    }
}

/// The raw value of the first attribute whose local name is `name`.
pub fn attr_value(attrs: &Vec<XmlAttr>, name: &str) -> (r: Option<String>)
    ensures
        r.deep_view() == attr_value_v(attrs.deep_view(), name@),
{
    let ghost av = attrs.deep_view();
    let mut i: usize = 0;
    assert(av.skip(0) =~= av);
    while i < attrs.len()
        invariant
            i <= av.len(),
            av == attrs.deep_view(),
            attr_value_v(av, name@) == attr_value_v(av.skip(i as int), name@),
        decreases av.len() - i,
    {
        let a = &attrs[i];
        assert(av.skip(i as int)[0] == a.deep_view());
        let l = local_name(a.key.as_str());
        if str_eq(l.as_str(), name) {
            return Some(a.value.clone());
        }
        assert(av.skip(i as int).drop_first() =~= av.skip(i + 1));
        i = i + 1;
    }
    None
}

} // verus!
