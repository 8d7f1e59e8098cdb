//! Word (.docx) document model, builders, parsers and writers.

pub mod text;
pub mod model;
pub mod design_tokens;
pub mod components;
pub mod renderer;
pub mod styled_writer;
pub mod writer;
pub mod document;
pub mod elements;
pub mod styles;
pub mod office;
pub mod reader;
pub mod xml;
pub mod fields;
pub mod runfmt;
pub mod docparse;
pub mod error;
pub mod cellparse;
pub mod tables;
pub mod images;
pub mod package;
pub mod paths;
pub mod docread;
pub mod relscan;
pub mod boilerplate;
pub mod docwrite;
pub mod laws;
pub mod pages;
pub mod numbering;
