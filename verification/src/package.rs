//! The ZIP package of a document: reading its entries, and writing a new
//! package from a list of entries. The archive format is the `zip` crate's.

use vstd::prelude::*;
use vstd::utf8::{decode_utf8, encode_utf8, valid_utf8};

verus! {

/// One entry of a package as read: its name, the bytes read from it (up to
/// the first read error), that error if any, and whether it is deflated.
pub struct ZipEntry {
    pub name: String,
    pub data: Vec<u8>,
    pub read_error: Option<String>,
    pub deflated: bool,
}

/// Model of a [`ZipEntry`].
pub struct ZipEntryV {
    pub name: Seq<char>,
    pub data: Seq<u8>,
    pub read_error: Option<Seq<char>>,
    pub deflated: bool,
}

impl DeepView for ZipEntry {
    type V = ZipEntryV;

    open spec fn deep_view(&self) -> ZipEntryV {
        ZipEntryV { name: self.name@, data: self.data@, read_error: self.read_error.deep_view(), deflated: self.deflated }
    }
}

/// Model of a result whose error is a message.
pub open spec fn result_v<T: DeepView>(r: Result<T, String>) -> Result<T::V, Seq<char>> {
    match r {
        Ok(x) => Ok(x.deep_view()),
        Err(e) => Err(e@),
    }
}

/// The number of entries `zip::ZipArchive::new` finds in `bytes`, or the
/// message of the error it reports.
pub uninterp spec fn zip_count_v(bytes: Seq<u8>) -> Result<usize, Seq<char>>;

/// Entry `i` of the archive in `bytes` as `zip::ZipArchive::by_index` gives
/// it, or the message of the error opening the archive or the entry reports.
pub uninterp spec fn zip_entry_v(bytes: Seq<u8>, i: usize) -> Result<ZipEntryV, Seq<char>>;

/// The entry named `name` of the archive in `bytes` as
/// `zip::ZipArchive::by_name` gives it, or the error's message.
pub uninterp spec fn zip_named_v(bytes: Seq<u8>, name: Seq<char>) -> Result<ZipEntryV, Seq<char>>;

/// Opens the archive in `bytes` with `zip::ZipArchive::new` and counts its
/// entries (`ZipArchive::len`). The contract names the result, which is the
/// `zip` crate's.
#[verifier::external_body]
pub(crate) fn zip_entry_count(bytes: &[u8]) -> (r: Result<usize, String>)
    ensures
        result_v(r) == zip_count_v(bytes@),
{
    match zip::ZipArchive::new(std::io::Cursor::new(bytes)) {
        Ok(a) => Ok(a.len()),
        Err(e) => Err(e.to_string()),
    }
}

/// Reads entry `i` of the archive in `bytes` with `ZipArchive::by_index`:
/// its name, its bytes (`read_to_end`, keeping what was read before an
/// error), and whether it is deflated. The contract names the result.
#[verifier::external_body]
pub(crate) fn zip_entry_at(bytes: &[u8], i: usize) -> (r: Result<ZipEntry, String>)
    ensures
        result_v(r) == zip_entry_v(bytes@, i),
{
    let mut a = zip::ZipArchive::new(std::io::Cursor::new(bytes)).map_err(|e| e.to_string())?;
    let mut f = a.by_index(i).map_err(|e| e.to_string())?;
    let name = f.name().map_err(|e| e.to_string())?.to_string();
    let deflated = matches!(f.compression(), zip::CompressionMethod::Deflated);
    let mut data = Vec::new();
    let read_error = std::io::Read::read_to_end(&mut f, &mut data).err().map(|e| e.to_string());
    Ok(ZipEntry { name, data, read_error, deflated })
}

/// Reads the entry named `name` of the archive in `bytes` with
/// `ZipArchive::by_name`, as [`zip_entry_at`] reads an entry. The contract
/// names the result.
#[verifier::external_body]
pub(crate) fn zip_entry_named(bytes: &[u8], name: &str) -> (r: Result<ZipEntry, String>)
    ensures
        result_v(r) == zip_named_v(bytes@, name@),
{
    let mut a = zip::ZipArchive::new(std::io::Cursor::new(bytes)).map_err(|e| e.to_string())?;
    let mut f = a.by_name(name).map_err(|e| e.to_string())?;
    let n = f.name().map_err(|e| e.to_string())?.to_string();
    let deflated = matches!(f.compression(), zip::CompressionMethod::Deflated);
    let mut data = Vec::new();
    let read_error = std::io::Read::read_to_end(&mut f, &mut data).err().map(|e| e.to_string());
    Ok(ZipEntry { name: n, data, read_error, deflated })
}

/// Decodes UTF-8 with `String::from_utf8`: the text when the bytes are
/// valid UTF-8, `None` otherwise.
#[verifier::external_body]
pub(crate) fn utf8_text(bytes: Vec<u8>) -> (r: Option<String>)
    ensures
        match r {
            Some(s) => valid_utf8(bytes@) && s@ == decode_utf8(bytes@),
            None => !valid_utf8(bytes@),
        },
{
    String::from_utf8(bytes).ok()
}

/// An archive being written in memory: a `zip::ZipWriter` over a
/// `std::io::Cursor<Vec<u8>>`.
#[verifier::external_body]
pub struct ZipBuilder {
    w: zip::ZipWriter<std::io::Cursor<Vec<u8>>>,
}

/// The entries written so far to an archive in memory, in order: name,
/// bytes, and whether the entry is deflated.
pub uninterp spec fn zip_written_v(w: ZipBuilder) -> Seq<(Seq<char>, Seq<u8>, bool)>;

/// Whether an archive in memory has an entry open for writing.
pub uninterp spec fn zip_open_v(w: ZipBuilder) -> bool;

/// The bytes an entry may hold for the writer to finish it without the
/// large-file option: fewer than 2^31, so that even deflated they stay
/// under the 4 GiB limit of a plain entry.
pub open spec fn entry_data_fits_v(data: Seq<u8>) -> bool {
    data.len() < 0x8000_0000
}

/// A name the writer takes for a new entry: not the name of an earlier
/// entry, and short enough (in UTF-8) for a local header under 64 KiB.
pub open spec fn fresh_entry_name_v(written: Seq<(Seq<char>, Seq<u8>, bool)>, name: Seq<char>) -> bool {
    &&& encode_utf8(name).len() <= 65000
    &&& forall|j: int| 0 <= j < written.len() ==> (#[trigger] written[j]).0 != name
}

/// The entry being written, if any, can still be finished.
pub open spec fn open_entry_fits_v(w: ZipBuilder) -> bool {
    zip_open_v(w) ==> zip_written_v(w).len() > 0 && entry_data_fits_v(zip_written_v(w).last().1)
}

/// Starts an archive in memory (`zip::ZipWriter::new` over an empty
/// cursor); it holds no entry.
#[verifier::external_body]
pub(crate) fn zip_writer_new() -> (w: ZipBuilder)
    ensures
        zip_written_v(w) == Seq::<(Seq<char>, Seq<u8>, bool)>::empty(),
        !zip_open_v(w),
{
    ZipBuilder { w: zip::ZipWriter::new(std::io::Cursor::new(Vec::new())) }
}

/// Starts entry `name` (`ZipWriter::start_file`), deflated or stored, with
/// permissions 0o644, after finishing the entry being written. When it
/// succeeds the archive holds one more, empty, open entry, and no earlier
/// entry had that name (the writer refuses a duplicate name); the error
/// message otherwise. It succeeds when the name is new and short enough and
/// the entry being written, if any, can be finished: the writer's other
/// refusals concern options this call does not set.
#[verifier::external_body]
pub(crate) fn zip_start_file(w: &mut ZipBuilder, name: &str, deflated: bool) -> (r: Result<(), String>)
    ensures
        r is Ok ==> zip_written_v(*final(w)) == zip_written_v(*old(w)).push((name@, Seq::<u8>::empty(), deflated)),
        r is Ok ==> forall|j: int| 0 <= j < zip_written_v(*old(w)).len() ==> (#[trigger] zip_written_v(*old(w))[j]).0 != name@,
        r is Ok ==> zip_open_v(*final(w)),
        fresh_entry_name_v(zip_written_v(*old(w)), name@) && open_entry_fits_v(*old(w)) ==> r is Ok,
{
    let method = if deflated { zip::CompressionMethod::Deflated } else { zip::CompressionMethod::Stored };
    let opts = zip::write::SimpleFileOptions::default().compression_method(method).unix_permissions(0o644);
    match w.w.start_file(name, opts) {
        Ok(()) => Ok(()),
        Err(e) => Err(e.to_string()),
    }
}

/// Writes `data` to the entry being written (`Write::write_all`). When it
/// succeeds with some data, an entry was open and its bytes are extended by
/// `data`; empty data changes nothing (`write_all` returns at once). It
/// succeeds when an entry is open and its bytes stay under 2^31 (the writer
/// refuses only a write with no open entry, or past 4 GiB without the
/// large-file option).
#[verifier::external_body]
pub(crate) fn zip_write_all(w: &mut ZipBuilder, data: &[u8]) -> (r: Result<(), String>)
    ensures
        r is Ok && data@.len() == 0 ==> zip_written_v(*final(w)) == zip_written_v(*old(w)),
        r is Ok ==> zip_open_v(*final(w)) == zip_open_v(*old(w)),
        zip_open_v(*old(w)) && zip_written_v(*old(w)).len() > 0 && entry_data_fits_v(zip_written_v(*old(w)).last().1 + data@)
            ==> r is Ok,
        r is Ok && data@.len() > 0 ==> zip_written_v(*old(w)).len() > 0 && zip_written_v(*final(w)) == zip_written_v(*old(w)).update(
            zip_written_v(*old(w)).len() - 1,
            (
                zip_written_v(*old(w)).last().0,
                zip_written_v(*old(w)).last().1 + data@,
                zip_written_v(*old(w)).last().2,
            ),
        ),
{
    match std::io::Write::write_all(&mut w.w, data) {
        Ok(()) => Ok(()),
        Err(e) => Err(e.to_string()),
    }
}

/// No two of the written entries share a name.
pub open spec fn distinct_names_v(w: Seq<(Seq<char>, Seq<u8>, bool)>) -> bool {
    forall|j: int, k: int| 0 <= j < k < w.len() ==> (#[trigger] w[j]).0 != (#[trigger] w[k]).0
}

/// Finishes the archive (`ZipWriter::finish`) and hands out its bytes.
/// Read back with `ZipArchive`, they hold the written entries, in order,
/// with their names and bytes; when the names are distinct, `by_name`
/// finds each entry where `by_index` does, at its position. It succeeds
/// when the entry being written, if any, can be finished: the central
/// directory, in zip64 form where needed, goes to memory.
#[verifier::external_body]
pub(crate) fn zip_finish(w: ZipBuilder) -> (r: Result<Vec<u8>, String>)
    ensures
        r matches Ok(b) ==> zip_count_v(b@) matches Ok(n) && n == zip_written_v(w).len() && forall|i: int|
            0 <= i < zip_written_v(w).len() ==> ((#[trigger] zip_entry_v(b@, i as usize)) matches Ok(e) && e.name
                == zip_written_v(w)[i].0 && e.data == zip_written_v(w)[i].1 && e.read_error is None),
        r matches Ok(b) ==> (distinct_names_v(zip_written_v(w)) ==> forall|i: int|
            0 <= i < zip_written_v(w).len() ==> #[trigger] zip_named_v(b@, zip_written_v(w)[i].0) == zip_entry_v(
                b@,
                i as usize,
            )),
        open_entry_fits_v(w) ==> r is Ok,
{
    match w.w.finish() {
        Ok(c) => Ok(c.into_inner()),
        Err(e) => Err(e.to_string()),
    }
}

/// One entry to write: its name, its bytes, and whether to deflate it.
pub struct PackageEntry {
    pub name: String,
    pub data: Vec<u8>,
    pub deflated: bool,
}

/// Model of a [`PackageEntry`].
pub struct PackageEntryV {
    pub name: Seq<char>,
    pub data: Seq<u8>,
    pub deflated: bool,
}

impl DeepView for PackageEntry {
    type V = PackageEntryV;

    open spec fn deep_view(&self) -> PackageEntryV {
        PackageEntryV { name: self.name@, data: self.data@, deflated: self.deflated }
    }
}

/// The entries as the archive holds them.
pub open spec fn written_of_v(es: Seq<PackageEntryV>) -> Seq<(Seq<char>, Seq<u8>, bool)> {
    Seq::new(es.len(), |i: int| (es[i].name, es[i].data, es[i].deflated))
}

/// Whether `b` is an archive that reads back as `es`: the same number of
/// entries, each with its name and bytes, in order, and each found by its
/// name where it stands.
pub open spec fn holds_entries_v(b: Seq<u8>, es: Seq<PackageEntryV>) -> bool {
    &&& zip_count_v(b) matches Ok(n) && n == es.len()
    &&& forall|i: int|
        0 <= i < es.len() ==> ((#[trigger] zip_entry_v(b, i as usize)) matches Ok(e) && e.name == es[i].name && e.data
            == es[i].data && e.read_error is None)
    &&& forall|i: int| 0 <= i < es.len() ==> #[trigger] zip_named_v(b, es[i].name) == zip_entry_v(b, i as usize)
}

/// Entries the archive writer takes: distinct names, each short enough in
/// UTF-8 for its local header, and each entry's bytes under 2^31.
pub open spec fn entries_writable_v(es: Seq<PackageEntryV>) -> bool {
    &&& forall|i: int| 0 <= i < es.len() ==> encode_utf8((#[trigger] es[i]).name).len() <= 65000 && entry_data_fits_v(es[i].data)
    &&& forall|j: int, k: int| 0 <= j < k < es.len() ==> (#[trigger] es[j]).name != (#[trigger] es[k]).name
}

/// Writes the entries, in order, into a new archive and returns its bytes;
/// the archive reads back as the entries. A failure of the archive writer
/// is reported as its message.
pub fn encode_package(entries: &Vec<PackageEntry>) -> (r: Result<Vec<u8>, crate::error::OfficeError>)
    ensures
        r matches Ok(b) ==> holds_entries_v(b@, entries.deep_view()),
        entries_writable_v(entries.deep_view()) ==> r is Ok,
{
    let ghost es = entries.deep_view();
    let mut w = zip_writer_new();
    let mut k: usize = 0;
    assert(written_of_v(es.take(0)) =~= Seq::<(Seq<char>, Seq<u8>, bool)>::empty());
    while k < entries.len()
        invariant
            k <= es.len(),
            es == entries.deep_view(),
            zip_written_v(w) == written_of_v(es.take(k as int)),
            distinct_names_v(zip_written_v(w)),
            k == 0 ==> !zip_open_v(w),
            k > 0 ==> zip_open_v(w),
        decreases es.len() - k,
    {
        let e = &entries[k];
        assert(es[k as int] == e.deep_view());
        let ghost w0 = zip_written_v(w);
        proof {
            if entries_writable_v(es) {
                assert forall|j: int| 0 <= j < w0.len() implies (#[trigger] w0[j]).0 != es[k as int].name by {
                    assert(w0[j] == written_of_v(es.take(k as int))[j]);
                    assert(es.take(k as int)[j] == es[j]);
                }
                if k > 0 {
                    assert(w0.last() == written_of_v(es.take(k as int))[k - 1]);
                    assert(es.take(k as int)[k - 1] == es[k - 1]);
                    assert(entry_data_fits_v(es[k - 1].data));
                }
            }
        }
        match zip_start_file(&mut w, e.name.as_str(), e.deflated) {
            Ok(()) => {},
            Err(m) => {
                return Err(crate::error::OfficeError::Zip(m));
            },
        }
        let ghost w1 = zip_written_v(w);
        proof {
            if entries_writable_v(es) {
                assert(w1.last().1 + e.data@ =~= e.data@);
            }
        }
        match zip_write_all(&mut w, e.data.as_slice()) {
            Ok(()) => {},
            Err(m) => {
                return Err(crate::error::OfficeError::Io(m));
            },
        }
        assert(w1.last().1 + e.data@ =~= e.data@);
        assert(zip_written_v(w) =~= written_of_v(es.take(k + 1)));
        assert(distinct_names_v(zip_written_v(w))) by {
            assert forall|j: int, l: int| 0 <= j < l < w1.len() implies (#[trigger] zip_written_v(w)[j]).0 != (#[trigger] zip_written_v(w)[l]).0 by {
                if l == w1.len() - 1 {
                    assert(w0[j] == zip_written_v(w)[j]);
                } else {
                    assert(w0[j] == zip_written_v(w)[j]);
                    assert(w0[l] == zip_written_v(w)[l]);
                }
            }
        }
        k = k + 1;
    }
    assert(es.take(k as int) =~= es);
    proof {
        if entries_writable_v(es) && k > 0 {
            assert(zip_written_v(w).last() == written_of_v(es)[k - 1]);
        }
    }
    match zip_finish(w) {
        Ok(b) => {
            assert forall|i: int| 0 <= i < es.len() implies ((#[trigger] zip_entry_v(b@, i as usize)) matches Ok(x) && x.name
                == es[i].name && x.data == es[i].data && x.read_error is None) by {
                assert(written_of_v(es)[i] == (es[i].name, es[i].data, es[i].deflated));
            }
            assert forall|i: int| 0 <= i < es.len() implies #[trigger] zip_named_v(b@, es[i].name) == zip_entry_v(b@, i as usize) by {
                assert(written_of_v(es)[i] == (es[i].name, es[i].data, es[i].deflated));
            }
            Ok(b)
        },
        Err(m) => Err(crate::error::OfficeError::Zip(m)),
    }
}

} // verus!
