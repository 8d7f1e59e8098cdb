//! Decisions of the page-rendering check: which files of the output
//! directory are rendered pages, the order and the names they get, and the
//! pixel size a PNG header records.

use vstd::prelude::*;
use vstd::relations::{sorted_by, total_ordering};
use vstd::seq_lib::lemma_sorted_unique;
use crate::text::{chars_of, dec, dec_string, ends_with, find, find_v, owned, push_char, push_str, starts_with};

verus! {

/// The PNG signature (`\x89PNG\r\n\x1a\n`) at the start of `b`, followed by
/// the type `IHDR` of the first chunk at bytes 12..16.
pub open spec fn has_png_header_v(b: Seq<u8>) -> bool {
    &&& b.len() >= 24
    &&& b[0] == 0x89 && b[1] == 0x50 && b[2] == 0x4e && b[3] == 0x47
    &&& b[4] == 0x0d && b[5] == 0x0a && b[6] == 0x1a && b[7] == 0x0a
    &&& b[12] == 0x49 && b[13] == 0x48 && b[14] == 0x44 && b[15] == 0x52
}

/// The big-endian 32-bit number in bytes `k..k+4` of `b`.
pub open spec fn be32_v(b: Seq<u8>, k: int) -> nat {
    (b[k] as nat) * 16777216 + (b[k + 1] as nat) * 65536 + (b[k + 2] as nat) * 256 + (b[k + 3] as nat)
}

/// Width and height of a PNG image, read from its IHDR chunk (bytes 16..20
/// and 20..24), or `None` when `b` is no PNG with an IHDR first.
pub open spec fn png_dimensions_v(b: Seq<u8>) -> Option<(nat, nat)> {
    if has_png_header_v(b) {
        Some((be32_v(b, 16), be32_v(b, 20)))
    } else {
        None
    }
}

fn be32(b: &[u8], k: usize) -> (r: u32)
    requires
        k + 4 <= b@.len(),
    ensures
        r as nat == be32_v(b@, k as int),
{
    let x0 = b[k] as u32;
    let x1 = b[k + 1] as u32;
    let x2 = b[k + 2] as u32;
    let x3 = b[k + 3] as u32;
    x0 * 16777216 + x1 * 65536 + x2 * 256 + x3
}

/// The pixel size recorded in a PNG file's header.
pub fn png_dimensions(bytes: &[u8]) -> (r: Option<(u32, u32)>)
    ensures
        match png_dimensions_v(bytes@) {
            Some((w, h)) => r matches Some((rw, rh)) && rw as nat == w && rh as nat == h,
            None => r is None,
        },
{
    if bytes.len() < 24 {
        return None;
    }
    let signature = bytes[0] == 0x89 && bytes[1] == 0x50 && bytes[2] == 0x4e && bytes[3] == 0x47
        && bytes[4] == 0x0d && bytes[5] == 0x0a && bytes[6] == 0x1a && bytes[7] == 0x0a;
    if !signature {
        return None;
    }
    if !(bytes[12] == 0x49 && bytes[13] == 0x48 && bytes[14] == 0x44 && bytes[15] == 0x52) {
        return None;
    }
    Some((be32(bytes, 16), be32(bytes, 20)))
}

/// A file name that `pdftoppm` gave a page: `page-…png`, without the `__`
/// that marks a name this check chose itself.
pub open spec fn is_page_png_v(name: Seq<char>) -> bool {
    &&& "page-"@.is_prefix_of(name)
    &&& ".png"@.is_suffix_of(name)
    &&& find_v(name, "__"@) is None
}

/// Whether `name` is the name of a rendered page.
pub fn is_page_png(name: &str) -> (r: bool)
    ensures
        r == is_page_png_v(name@),
{
    starts_with(name, "page-") && ends_with(name, ".png") && find(name, "__").is_none()
}

/// `d` left-padded with `0` to at least three characters (`{:03}`).
pub open spec fn pad3_v(d: Seq<char>) -> Seq<char> {
    if d.len() >= 3 {
        d
    } else {
        Seq::new((3 - d.len()) as nat, |i: int| '0') + d
    }
}

/// The file name of page `n`: `page-NNN.png`, zero-padded to three digits.
pub open spec fn page_png_name_v(n: nat) -> Seq<char> {
    "page-"@ + pad3_v(dec(n)) + ".png"@
}

/// The file name of page `n`, `page-NNN.png`, so that names sort in page order.
pub fn page_png_name(n: u32) -> (r: String)
    ensures
        r@ == page_png_name_v(n as nat),
{
    let d = dec_string(n as u64);
    let dl = chars_of(d.as_str()).len();
    let mut s = owned("page-");
    let ghost head = s@;
    let mut k: usize = dl;
    while k < 3
        invariant
            dl <= k <= 3 || (dl > 3 && k == dl),
            dl == d@.len(),
            s@ == head + Seq::new((k - dl) as nat, |i: int| '0'),
        decreases 3 - k,
    {
        push_char(&mut s, '0');
        assert(s@ =~= head + Seq::new((k + 1 - dl) as nat, |i: int| '0'));
        k = k + 1;
    }
    push_str(&mut s, d.as_str());
    push_str(&mut s, ".png");
    proof {
        if dl >= 3 {
            assert(Seq::new((k - dl) as nat, |i: int| '0') =~= Seq::<char>::empty());
            assert(s@ =~= page_png_name_v(n as nat));
        } else {
            assert(s@ =~= page_png_name_v(n as nat));
        }
    }
    s
}

/// Names ordered character by character, by code point; a proper prefix
/// comes first. For names held as UTF-8 this is the order of their bytes.
pub open spec fn name_le(a: Seq<char>, b: Seq<char>) -> bool
    decreases a.len(),
{
    if a.len() == 0 {
        true
    } else if b.len() == 0 {
        false
    } else if a[0] != b[0] {
        a[0] < b[0]
    } else {
        name_le(a.drop_first(), b.drop_first())
    }
}

/// [`name_le`] as a relation.
pub open spec fn name_order() -> spec_fn(Seq<char>, Seq<char>) -> bool {
    |a: Seq<char>, b: Seq<char>| name_le(a, b)
}

proof fn lemma_name_le_refl(a: Seq<char>)
    ensures
        name_le(a, a),
    decreases a.len(),
{
    if a.len() > 0 {
        lemma_name_le_refl(a.drop_first());
    }
}

proof fn lemma_name_le_antisym(a: Seq<char>, b: Seq<char>)
    requires
        name_le(a, b),
        name_le(b, a),
    ensures
        a == b,
    decreases a.len(),
{
    if a.len() > 0 && b.len() > 0 {
        assert(a[0] == b[0]);
        lemma_name_le_antisym(a.drop_first(), b.drop_first());
        assert(a.len() == b.len());
        assert(a =~= b) by {
            assert forall|i: int| 0 <= i < a.len() implies a[i] == b[i] by {
                if i > 0 {
                    assert(a[i] == a.drop_first()[i - 1]);
                    assert(b[i] == b.drop_first()[i - 1]);
                }
            }
        }
    }
}

proof fn lemma_name_le_trans(a: Seq<char>, b: Seq<char>, c: Seq<char>)
    requires
        name_le(a, b),
        name_le(b, c),
    ensures
        name_le(a, c),
    decreases a.len(),
{
    if a.len() > 0 && b.len() > 0 && c.len() > 0 && a[0] == b[0] && b[0] == c[0] {
        lemma_name_le_trans(a.drop_first(), b.drop_first(), c.drop_first());
    }
}

proof fn lemma_name_le_total(a: Seq<char>, b: Seq<char>)
    ensures
        name_le(a, b) || name_le(b, a),
    decreases a.len(),
{
    if a.len() > 0 && b.len() > 0 && a[0] == b[0] {
        lemma_name_le_total(a.drop_first(), b.drop_first());
    }
}

/// [`name_le`] is a total order.
pub proof fn lemma_name_order_total()
    ensures
        total_ordering(name_order()),
{
    let r = name_order();
    assert forall|x: Seq<char>| #[trigger] r(x, x) by {
        lemma_name_le_refl(x);
    }
    assert forall|x: Seq<char>, y: Seq<char>| #[trigger] r(x, y) && #[trigger] r(y, x) implies x == y by {
        lemma_name_le_antisym(x, y);
    }
    assert forall|x: Seq<char>, y: Seq<char>, z: Seq<char>| #[trigger] r(x, y) && #[trigger] r(y, z) implies r(x, z) by {
        lemma_name_le_trans(x, y, z);
    }
    assert forall|x: Seq<char>, y: Seq<char>| #[trigger] r(x, y) || #[trigger] r(y, x) by {
        lemma_name_le_total(x, y);
    }
}

fn chars_le(a: &[char], b: &[char]) -> (r: bool)
    ensures
        r == name_le(a@, b@),
{
    let mut i: usize = 0;
    assert(a@.skip(0) =~= a@);
    assert(b@.skip(0) =~= b@);
    while i < a.len() && i < b.len()
        invariant
            i <= a@.len(),
            i <= b@.len(),
            name_le(a@, b@) == name_le(a@.skip(i as int), b@.skip(i as int)),
        decreases a@.len() - i,
    {
        if a[i] != b[i] {
            return a[i] < b[i];
        }
        assert(a@.skip(i as int).drop_first() =~= a@.skip(i + 1));
        assert(b@.skip(i as int).drop_first() =~= b@.skip(i + 1));
        i = i + 1;
    }
    i == a.len()
}

fn entry_le(v: &Vec<String>, p: usize, x: &[char]) -> (r: bool)
    requires
        p < v@.len(),
    ensures
        r == name_le(v.deep_view()[p as int], x@),
{
    let c = chars_of(v[p].as_str());
    chars_le(c.as_slice(), x)
}

fn insert_sorted(v: &mut Vec<String>, x: String)
    requires
        sorted_by(old(v).deep_view(), name_order()),
    ensures
        sorted_by(final(v).deep_view(), name_order()),
        final(v).deep_view().to_multiset() == old(v).deep_view().to_multiset().insert(x@),
{
    broadcast use vstd::seq_lib::group_to_multiset_ensures, vstd::multiset::group_multiset_axioms;
    let ghost s = v.deep_view();
    let xc = chars_of(x.as_str());
    let mut p: usize = 0;
    let mut found = false;
    while !found
        invariant
            p <= v@.len(),
            v.deep_view() == s,
            xc@ == x@,
            forall|j: int| 0 <= j < p ==> name_le(#[trigger] s[j], x@),
            found ==> p == s.len() || !name_le(s[p as int], x@),
        decreases v@.len() - p + (if found { 0int } else { 1int }),
    {
        if p < v.len() && entry_le(v, p, xc.as_slice()) {
            p = p + 1;
        } else {
            found = true;
        }
    }
    proof {
        if p < s.len() {
            lemma_name_le_total(s[p as int], x@);
            assert forall|j: int| p <= j < s.len() implies name_le(x@, #[trigger] s[j]) by {
                if j > p {
                    assert(name_order()(s[p as int], s[j]));
                    lemma_name_le_trans(x@, s[p as int], s[j]);
                }
            }
        }
    }
    let ghost xv = x@;
    v.insert(p, x);
    let ghost t = s.insert(p as int, xv);
    assert(v.deep_view() =~= t) by {
        assert forall|k: int| 0 <= k < t.len() implies v.deep_view()[k] == t[k] by {
            if k < p {
            } else if k == p {
            } else {
            }
        }
    }
    assert forall|i: int, j: int| 0 <= i < j < t.len() implies #[trigger] name_order()(t[i], t[j]) by {
        if j < p {
            assert(name_order()(s[i], s[j]));
        } else if j == p {
        } else if i == p {
        } else if i < p {
            assert(name_order()(s[i], s[j - 1]));
        } else {
            assert(name_order()(s[i - 1], s[j - 1]));
        }
    }
    assert(t.remove(p as int) =~= s);
    assert(t[p as int] == xv);
    assert(t.to_multiset() =~= s.to_multiset().insert(xv)) by {
        assert(t.remove(p as int).to_multiset() =~= t.to_multiset().remove(xv));
        assert(t.contains(xv));
        assert(t.to_multiset().count(xv) > 0);
    }
}

/// [`is_page_png_v`] as a predicate.
pub open spec fn page_pred() -> spec_fn(Seq<char>) -> bool {
    |n: Seq<char>| is_page_png_v(n)
}

/// The pages among the names of a directory's files, ordered by name.
pub open spec fn page_files_v(names: Seq<Seq<char>>) -> Seq<Seq<char>> {
    names.filter(page_pred()).sort_by(name_order())
}

/// The names of rendered pages among `names`, in name order (which is page
/// order once the names are zero-padded).
pub fn page_files(names: &Vec<String>) -> (r: Vec<String>)
    ensures
        r.deep_view() == page_files_v(names.deep_view()),
{
    broadcast use vstd::seq_lib::group_to_multiset_ensures;
    let ghost nv = names.deep_view();
    let ghost pred = page_pred();
    let mut out: Vec<String> = Vec::new();
    let mut i: usize = 0;
    assert(nv.take(0).filter(pred) =~= Seq::<Seq<char>>::empty()) by {
        reveal(Seq::filter);
    }
    while i < names.len()
        invariant
            i <= nv.len(),
            nv == names.deep_view(),
            pred == page_pred(),
            sorted_by(out.deep_view(), name_order()),
            out.deep_view().to_multiset() == nv.take(i as int).filter(pred).to_multiset(),
        decreases nv.len() - i,
    {
        let ghost t = nv.take(i + 1);
        assert(t.drop_last() =~= nv.take(i as int));
        assert(t.last() == nv[i as int]);
        assert(nv[i as int] == names[i as int]@);
        assert(pred(nv[i as int]) == is_page_png_v(nv[i as int]));
        assert(t.filter(pred) == (if pred(t.last()) {
            t.drop_last().filter(pred).push(t.last())
        } else {
            t.drop_last().filter(pred)
        })) by {
            reveal(Seq::filter);
        }
        if is_page_png(names[i].as_str()) {
            let x = names[i].clone();
            assert(x@ == nv[i as int]);
            insert_sorted(&mut out, x);
            assert(nv.take(i + 1).filter(pred) == nv.take(i as int).filter(pred).push(nv[i as int]));
            proof { nv.take(i as int).filter(pred).to_multiset_ensures(); }
        } else {
            assert(nv.take(i + 1).filter(pred) == nv.take(i as int).filter(pred));
        }
        i = i + 1;
    }
    proof {
        let f = nv.filter(pred);
        assert(nv.take(nv.len() as int) =~= nv);
        lemma_name_order_total();
        f.lemma_sort_by_ensures(name_order());
        lemma_sorted_unique(out.deep_view(), f.sort_by(name_order()), name_order());
    }
    out
}

/// Whether a probed helper program answered: it exited successfully, or it
/// printed something on the stream it reports its version on.
pub fn tool_answered(exit_ok: bool, output: &[u8]) -> (r: bool)
    ensures
        r == (exit_ok || output@.len() > 0),
{
    exit_ok || output.len() > 0
}

/// The family of operating system the check runs on.
pub enum HostOs {
    MacOs,
    Windows,
    Other,
}

/// The name LibreOffice's program is looked up by on `PATH`.
pub open spec fn soffice_command_v(os: HostOs) -> Seq<char> {
    match os {
        HostOs::Windows => "soffice.exe"@,
        _ => "soffice"@,
    }
}

/// The name LibreOffice's program is looked up by on `PATH`.
pub fn soffice_command(os: &HostOs) -> (r: String)
    ensures
        r@ == soffice_command_v(*os),
{
    match os {
        HostOs::Windows => owned("soffice.exe"),
        _ => owned("soffice"),
    }
}

/// Where LibreOffice is looked for when `PATH` does not have it.
pub open spec fn soffice_fallbacks_v(os: HostOs) -> Seq<Seq<char>> {
    match os {
        HostOs::MacOs => seq!["/Applications/LibreOffice.app/Contents/MacOS/soffice"@],
        HostOs::Windows => seq![
            "C:\\Program Files\\LibreOffice\\program\\soffice.exe"@,
            "C:\\Program Files (x86)\\LibreOffice\\program\\soffice.exe"@,
        ],
        HostOs::Other => seq![
            "/usr/bin/soffice"@,
            "/usr/lib/libreoffice/program/soffice"@,
            "/snap/bin/libreoffice"@,
        ],
    }
}

/// Where LibreOffice is looked for when `PATH` does not have it, in order.
pub fn soffice_fallbacks(os: &HostOs) -> (r: Vec<String>)
    ensures
        r.deep_view() == soffice_fallbacks_v(*os),
{
    let mut r: Vec<String> = Vec::new();
    match os {
        HostOs::MacOs => {
            r.push(owned("/Applications/LibreOffice.app/Contents/MacOS/soffice"));
        },
        HostOs::Windows => {
            r.push(owned("C:\\Program Files\\LibreOffice\\program\\soffice.exe"));
            r.push(owned("C:\\Program Files (x86)\\LibreOffice\\program\\soffice.exe"));
        },
        HostOs::Other => {
            r.push(owned("/usr/bin/soffice"));
            r.push(owned("/usr/lib/libreoffice/program/soffice"));
            r.push(owned("/snap/bin/libreoffice"));
        },
    }
    assert(r.deep_view() =~= soffice_fallbacks_v(*os));
    r
}

/// The name Poppler's `pdftoppm` is looked up by on `PATH`.
pub open spec fn pdftoppm_command_v(os: HostOs) -> Seq<char> {
    match os {
        HostOs::Windows => "pdftoppm.exe"@,
        _ => "pdftoppm"@,
    }
}

/// The name Poppler's `pdftoppm` is looked up by on `PATH`.
pub fn pdftoppm_command(os: &HostOs) -> (r: String)
    ensures
        r@ == pdftoppm_command_v(*os),
{
    match os {
        HostOs::Windows => owned("pdftoppm.exe"),
        _ => owned("pdftoppm"),
    }
}

/// Where `pdftoppm` is looked for when `PATH` does not have it.
pub open spec fn pdftoppm_fallbacks_v(os: HostOs) -> Seq<Seq<char>> {
    match os {
        HostOs::Windows => seq![
            "C:\\Program Files\\poppler-23.11.0\\Library\\bin\\pdftoppm.exe"@,
            "C:\\Program Files\\poppler\\Library\\bin\\pdftoppm.exe"@,
        ],
        _ => Seq::empty(),
    }
}

/// Where `pdftoppm` is looked for when `PATH` does not have it, in order.
pub fn pdftoppm_fallbacks(os: &HostOs) -> (r: Vec<String>)
    ensures
        r.deep_view() == pdftoppm_fallbacks_v(*os),
{
    let mut r: Vec<String> = Vec::new();
    match os {
        HostOs::Windows => {
            r.push(owned("C:\\Program Files\\poppler-23.11.0\\Library\\bin\\pdftoppm.exe"));
            r.push(owned("C:\\Program Files\\poppler\\Library\\bin\\pdftoppm.exe"));
        },
        _ => {},
    }
    assert(r.deep_view() =~= pdftoppm_fallbacks_v(*os));
    r
}

} // verus!
