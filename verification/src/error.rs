//! The error type of the office readers and writers.

use vstd::prelude::*;

verus! {

/// Why reading or writing an office file failed. Each variant carries the
/// underlying message.
#[derive(Debug)]
pub enum OfficeError {
    /// A file could not be read or written, or a helper program failed.
    Io(String),
    /// The file is not a readable ZIP package.
    Zip(String),
    /// A part of the package is not the XML the reader expects.
    Xml(String),
    /// A document given as JSON could not be decoded.
    Json(String),
    /// A workbook could not be decoded or written.
    Excel(String),
    /// The file extension names no supported format.
    UnsupportedFileType(String),
}

/// Model of an [`OfficeError`].
pub enum OfficeErrorV {
    Io(Seq<char>),
    Zip(Seq<char>),
    Xml(Seq<char>),
    Json(Seq<char>),
    Excel(Seq<char>),
    UnsupportedFileType(Seq<char>),
}

impl DeepView for OfficeError {
    type V = OfficeErrorV;

    open spec fn deep_view(&self) -> OfficeErrorV {
        match self {
            OfficeError::Io(m) => OfficeErrorV::Io(m@),
            OfficeError::Zip(m) => OfficeErrorV::Zip(m@),
            OfficeError::Xml(m) => OfficeErrorV::Xml(m@),
            OfficeError::Json(m) => OfficeErrorV::Json(m@),
            OfficeError::Excel(m) => OfficeErrorV::Excel(m@),
            OfficeError::UnsupportedFileType(m) => OfficeErrorV::UnsupportedFileType(m@),
        }
    }
}

} // verus!
