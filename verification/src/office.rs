//! Package-level entry points: blank documents, the element view of a
//! document, and the records of a rendering check.

use vstd::prelude::*;
use crate::elements::elements_v;
use crate::model::{empty_paragraph_v, DocElement, DocElementV, WordDocument, WordDocumentV, WordParagraphV};
use crate::error::{OfficeError, OfficeErrorV};
use crate::text::{owned, str_eq};

verus! {

/// `std::path::PathBuf`, carried through unread.
#[verifier::external_type_specification]
#[verifier::external_body]
pub struct ExPathBuf(std::path::PathBuf);

/// One sheet of a workbook: its name and visibility state.
pub struct XlsxSheet {
    pub name: String,
    pub state: String,
}

impl XlsxSheet {
    /// A visible sheet named `name`.
    pub fn new(name: String) -> (r: Self)
        ensures
            r.name@ == name@,
            r.state@ == "visible"@,
    {
        XlsxSheet { name, state: owned("visible") }
    }
}

/// A workbook: its sheets and its shared string table.
pub struct XlsxWorkbook {
    pub sheets: Vec<XlsxSheet>,
    pub shared_strings: Vec<String>,
}

/// An opened office file.
pub enum OfficeFileType {
    Word(WordDocument),
    Excel(XlsxWorkbook),
}

/// The formats an office file can be read or written in.
pub enum OfficeFileKind {
    Word,
    Excel,
}

/// `str::to_lowercase`: Unicode lower-casing, named.
pub uninterp spec fn lowercase_v(s: Seq<char>) -> Seq<char>;

/// Lower-cases `s` with `str::to_lowercase`. On ASCII text, where Unicode
/// lower-casing maps each capital to its ASCII small letter and leaves
/// every other character, the result is stated character by character.
#[verifier::external_body]
fn to_lowercase(s: &str) -> (r: String)
    ensures
        r@ == lowercase_v(s@),
        vstd::utf8::is_ascii_chars(s@) ==> r@ == crate::paths::ascii_lower_v(s@),
{
    s.to_lowercase()
}

/// The format named by an already lower-cased file extension: `docx` is a
/// Word document, `xlsx` a workbook; any other extension is refused with
/// itself as the message.
pub open spec fn office_kind_of_v(lowered: Seq<char>) -> Result<OfficeFileKind, OfficeErrorV> {
    if lowered == "docx"@ {
        Ok(OfficeFileKind::Word)
    } else if lowered == "xlsx"@ {
        Ok(OfficeFileKind::Excel)
    } else {
        Err(OfficeErrorV::UnsupportedFileType(lowered))
    }
}

/// The format named by the lower-cased extension `lowered`.
pub fn office_kind_of(lowered: String) -> (r: Result<OfficeFileKind, OfficeError>)
    ensures
        match office_kind_of_v(lowered@) {
            Ok(k) => r == Ok::<OfficeFileKind, OfficeError>(k),
            Err(e) => r matches Err(x) && x.deep_view() == e,
        },
{
    if str_eq(lowered.as_str(), "docx") {
        Ok(OfficeFileKind::Word)
    } else if str_eq(lowered.as_str(), "xlsx") {
        Ok(OfficeFileKind::Excel)
    } else {
        Err(OfficeError::UnsupportedFileType(lowered))
    }
}

/// The format of a file with extension `extension` (empty when the file has
/// none), compared without regard to case.
pub fn office_file_kind(extension: &str) -> (r: Result<OfficeFileKind, OfficeError>)
    ensures
        match office_kind_of_v(lowercase_v(extension@)) {
            Ok(k) => r == Ok::<OfficeFileKind, OfficeError>(k),
            Err(e) => r matches Err(x) && x.deep_view() == e,
        },
{
    office_kind_of(to_lowercase(extension))
}

/// The blank document: one empty `Normal` paragraph with id `blank-paragraph`.
pub open spec fn blank_word_document_v() -> WordDocumentV {
    WordDocumentV {
        paragraphs: seq![WordParagraphV { id: "blank-paragraph"@, style: Some("Normal"@), ..empty_paragraph_v() }],
        tables: Seq::empty(),
        images: Seq::empty(),
        sections: Seq::empty(),
        headers: Seq::empty(),
        footers: Seq::empty(),
    }
}

/// The canonical editable blank Word document: a single empty `Normal`
/// paragraph for the editor's caret.
pub fn blank_word_document() -> (r: WordDocument)
    ensures
        r@ == blank_word_document_v(),
{
    let mut document = WordDocument::default();
    let mut p = crate::model::WordParagraph::default();
    p.id = owned("blank-paragraph");
    p.style = Some(owned("Normal"));
    document.paragraphs.push(p);
    assert(document@.paragraphs =~= blank_word_document_v().paragraphs);
    document
}

/// The canonical editable blank workbook: one visible sheet `Sheet1`.
pub fn blank_excel_workbook() -> (r: XlsxWorkbook)
    ensures
        r.sheets@.len() == 1,
        r.sheets@[0].name@ == "Sheet1"@,
        r.sheets@[0].state@ == "visible"@,
        r.shared_strings@.len() == 0,
{
    let sheet = XlsxSheet::new(owned("Sheet1"));
    let mut sheets: Vec<XlsxSheet> = Vec::new();
    sheets.push(sheet);
    XlsxWorkbook { sheets, shared_strings: Vec::new() }
}

/// The element view of `doc`.
pub fn word_document_to_elements(doc: &WordDocument) -> (r: Vec<DocElement>)
    ensures
        r.deep_view() == elements_v(doc@),
{
    doc.to_elements()
}

/// One rendered page: its PNG on disk, 1-based number, pixel size and byte size.
pub struct RenderedPage {
    pub path: std::path::PathBuf,
    pub page_number: u32,
    pub width: u32,
    pub height: u32,
    pub byte_size: u64,
}

/// The outcome of a rendering check: where the pages went, the pages, the
/// page count and the time it took.
pub struct RenderCheckResult {
    pub output_dir: std::path::PathBuf,
    pub pages: Vec<RenderedPage>,
    pub page_count: u32,
    pub elapsed_ms: u128,
}

} // verus!
