//! Run formatting read from `<w:rPr>` children and attributes.

use vstd::prelude::*;
use crate::styled_writer::{trim_start_matches, trim_start_v};
use crate::text::{chars_of, ends_with, owned, parse_uint, parse_uint_v, str_eq};
use crate::xml::{local_name, local_v, XmlAttr, XmlAttrV};

verus! {

/// The formatting of the run being read.
pub struct RunFormat {
    pub bold: bool,
    pub italic: bool,
    pub underline: bool,
    pub strikethrough: bool,
    pub font_size: Option<u32>,
    pub color: Option<String>,
    pub font_name: Option<String>,
    pub highlight: Option<String>,
}

/// Model of a [`RunFormat`].
pub struct RunFormatV {
    pub bold: bool,
    pub italic: bool,
    pub underline: bool,
    pub strikethrough: bool,
    pub font_size: Option<u32>,
    pub color: Option<Seq<char>>,
    pub font_name: Option<Seq<char>>,
    pub highlight: Option<Seq<char>>,
}

impl DeepView for RunFormat {
    type V = RunFormatV;

    open spec fn deep_view(&self) -> RunFormatV {
        RunFormatV {
            bold: self.bold,
            italic: self.italic,
            underline: self.underline,
            strikethrough: self.strikethrough,
            font_size: self.font_size,
            color: self.color.deep_view(),
            font_name: self.font_name.deep_view(),
            highlight: self.highlight.deep_view(),
        }
    }
}

/// No formatting.
pub open spec fn plain_format_v() -> RunFormatV {
    RunFormatV {
        bold: false,
        italic: false,
        underline: false,
        strikethrough: false,
        font_size: None,
        color: None,
        font_name: None,
        highlight: None,
    }
}

impl Default for RunFormat {
    fn default() -> (r: Self)
        ensures
            r.deep_view() == plain_format_v(),
    {
        RunFormat {
            bold: false,
            italic: false,
            underline: false,
            strikethrough: false,
            font_size: None,
            color: None,
            font_name: None,
            highlight: None,
        }
    }
}

/// `f` after one run-property element `tag` with value `val`: flags turn
/// on; highlight, colour (without leading `#`) and font take non-empty
/// values; sizes take values that parse as `u32`.
#[verifier::opaque]
pub open spec fn apply_run_attr_v(f: RunFormatV, tag: Seq<char>, val: Option<Seq<char>>) -> RunFormatV {
    if tag == "b"@ || tag == "bCs"@ {
        RunFormatV { bold: true, ..f }
    } else if tag == "i"@ || tag == "iCs"@ {
        RunFormatV { italic: true, ..f }
    } else if tag == "u"@ {
        RunFormatV { underline: true, ..f }
    } else if tag == "strike"@ {
        RunFormatV { strikethrough: true, ..f }
    } else if tag == "highlight"@ {
        match val {
            Some(v) => if v.len() > 0 { RunFormatV { highlight: Some(v), ..f } } else { f },
            None => f,
        }
    } else if tag == "color"@ {
        match val {
            Some(v) => if trim_start_v(v, "#"@).len() > 0 { RunFormatV { color: Some(trim_start_v(v, "#"@)), ..f } } else { f },
            None => f,
        }
    } else if tag == "sz"@ || tag == "szCs"@ {
        match val {
            Some(v) => match parse_uint_v(v, u32::MAX as nat) {
                Some(n) => RunFormatV { font_size: Some(n as u32), ..f },
                None => f,
            },
            None => f,
        }
    } else if tag == "rFonts"@ {
        match val {
            Some(v) => if v.len() > 0 { RunFormatV { font_name: Some(v), ..f } } else { f },
            None => f,
        }
    } else {
        f
    }
}

/// Applies one run-property element to `fmt`.
pub fn apply_run_attr(fmt: &mut RunFormat, tag: &str, attr_val: Option<&str>)
    ensures
        final(fmt).deep_view() == apply_run_attr_v(old(fmt).deep_view(), tag@, match attr_val { Some(v) => Some(v@), None => None }),
{
    reveal(apply_run_attr_v);
    if str_eq(tag, "b") || str_eq(tag, "bCs") {
        fmt.bold = true;
    } else if str_eq(tag, "i") || str_eq(tag, "iCs") {
        fmt.italic = true;
    } else if str_eq(tag, "u") {
        fmt.underline = true;
    } else if str_eq(tag, "strike") {
        fmt.strikethrough = true;
    } else if str_eq(tag, "highlight") {
        if let Some(v) = attr_val {
            if chars_of(v).len() > 0 {
                fmt.highlight = Some(owned(v));
            }
        }
    } else if str_eq(tag, "color") {
        if let Some(v) = attr_val {
            let s = trim_start_matches(v, "#");
            if chars_of(s.as_str()).len() > 0 {
                fmt.color = Some(s);
            }
        }
    } else if str_eq(tag, "sz") || str_eq(tag, "szCs") {
        if let Some(v) = attr_val {
            if let Some(n) = parse_uint(v, u32::MAX as u64) {
                fmt.font_size = Some(n as u32);
            }
        }
    } else if str_eq(tag, "rFonts") {
        if let Some(v) = attr_val {
            if chars_of(v).len() > 0 {
                fmt.font_name = Some(owned(v));
            }
        }
    }
}

/// `f` after the attributes of the first `k` attributes, each read as a
/// run-property element named by the attribute's local name.
pub open spec fn apply_attrs_v(f: RunFormatV, attrs: Seq<XmlAttrV>, k: int) -> RunFormatV
    decreases k,
{
    if k <= 0 {
        f
    } else {
        apply_run_attr_v(apply_attrs_v(f, attrs, k - 1), local_v(attrs[k - 1].key), Some(attrs[k - 1].value))
    }
}

/// Whether an attribute key is `val` or a qualified `…:val`.
pub open spec fn is_val_key_v(k: Seq<char>) -> bool {
    k == "val"@ || ":val"@.is_suffix_of(k)
}

/// The first attribute whose key is `val` or `…:val`.
pub open spec fn first_val_attr_v(attrs: Seq<XmlAttrV>) -> Option<XmlAttrV>
    decreases attrs.len(),
{
    if attrs.len() == 0 {
        None
    } else if is_val_key_v(attrs[0].key) {
        Some(attrs[0])
    } else {
        first_val_attr_v(attrs.drop_first())
    }
}

/// `f` with flag `tag` turned off.
pub open spec fn turn_off_v(f: RunFormatV, tag: Seq<char>) -> RunFormatV {
    if tag == "b"@ || tag == "bCs"@ {
        RunFormatV { bold: false, ..f }
    } else if tag == "i"@ || tag == "iCs"@ {
        RunFormatV { italic: false, ..f }
    } else if tag == "u"@ {
        RunFormatV { underline: false, ..f }
    } else if tag == "strike"@ {
        RunFormatV { strikethrough: false, ..f }
    } else {
        f
    }
}

/// Whether a `val` switches a flag off: `false`, `0` or `off`.
pub open spec fn is_off_v(v: Seq<char>) -> bool {
    v == "false"@ || v == "0"@ || v == "off"@
}

/// Whether `v` switches a flag off.
pub fn is_off(v: &str) -> (r: bool)
    ensures
        r == is_off_v(v@),
{
    str_eq(v, "false") || str_eq(v, "0") || str_eq(v, "off")
}

/// `f` after the compact attributes of element `tag`: each attribute
/// applied as an element; then a `val` of `false`, `0` or `off` turns the
/// element's own flag off.
pub open spec fn apply_attrs_from_event_v(f: RunFormatV, tag: Seq<char>, attrs: Seq<XmlAttrV>) -> RunFormatV {
    let f1 = apply_attrs_v(f, attrs, attrs.len() as int);
    match first_val_attr_v(attrs) {
        Some(a) => if is_off_v(a.value) {
            turn_off_v(f1, tag)
        } else {
            f1
        },
        None => f1,
    }
}

/// `f` with flag `tag` turned off.
pub fn turn_off(fmt: &mut RunFormat, tag: &str)
    ensures
        final(fmt).deep_view() == turn_off_v(old(fmt).deep_view(), tag@),
{
    if str_eq(tag, "b") || str_eq(tag, "bCs") {
        fmt.bold = false;
    } else if str_eq(tag, "i") || str_eq(tag, "iCs") {
        fmt.italic = false;
    } else if str_eq(tag, "u") {
        fmt.underline = false;
    } else if str_eq(tag, "strike") {
        fmt.strikethrough = false;
    }
}

/// Applies the compact attributes of element `tag` to `fmt`.
pub fn apply_run_attrs_from_event(fmt: &mut RunFormat, tag: &str, attrs: &Vec<XmlAttr>)
    ensures
        final(fmt).deep_view() == apply_attrs_from_event_v(old(fmt).deep_view(), tag@, attrs.deep_view()),
{
    let ghost av = attrs.deep_view();
    let ghost f0 = fmt.deep_view();
    let mut i: usize = 0;
    while i < attrs.len()
        invariant
            i <= av.len(),
            av == attrs.deep_view(),
            fmt.deep_view() == apply_attrs_v(f0, av, i as int),
            f0 == old(fmt).deep_view(),
        decreases av.len() - i,
    {
        let a = &attrs[i];
        assert(av[i as int] == a.deep_view());
        let l = local_name(a.key.as_str());
        apply_run_attr(fmt, l.as_str(), Some(a.value.as_str()));
        i = i + 1;
    }
    let mut j: usize = 0;
    assert(av.skip(0) =~= av);
    while j < attrs.len()
        invariant
            j <= av.len(),
            av == attrs.deep_view(),
            first_val_attr_v(av) == first_val_attr_v(av.skip(j as int)),
            fmt.deep_view() == apply_attrs_v(f0, av, av.len() as int),
            f0 == old(fmt).deep_view(),
        decreases av.len() - j,
    {
        let a = &attrs[j];
        assert(av.skip(j as int)[0] == a.deep_view());
        if str_eq(a.key.as_str(), "val") || ends_with(a.key.as_str(), ":val") {
            assert(first_val_attr_v(av.skip(j as int)) == Some(a.deep_view()));
            if is_off(a.value.as_str()) {
                turn_off(fmt, tag);
            }
            return;
        }
        assert(av.skip(j as int).drop_first() =~= av.skip(j + 1));
        j = j + 1;
    }
}

} // verus!
