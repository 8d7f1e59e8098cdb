use inkuo_office::document::{doc_fits, table_fits};
use inkuo_office::error::OfficeError;
use inkuo_office::model::{TableCell, TableRow, WordDocument, WordParagraph, WordTable};
use inkuo_office::reader::text_lengths_fit;
use inkuo_office::office::{office_file_kind, office_kind_of, OfficeFileKind};
use inkuo_office::pages::{
    is_page_png, page_files, page_png_name, pdftoppm_command, pdftoppm_fallbacks, png_dimensions,
    soffice_command, soffice_fallbacks, tool_answered, HostOs,
};

fn png_header(w: u32, h: u32) -> Vec<u8> {
    let mut b = vec![0x89, b'P', b'N', b'G', b'\r', b'\n', 0x1a, b'\n', 0, 0, 0, 13];
    b.extend_from_slice(b"IHDR");
    b.extend_from_slice(&w.to_be_bytes());
    b.extend_from_slice(&h.to_be_bytes());
    b.extend_from_slice(&[8, 6, 0, 0, 0]);
    b
}

#[test]
fn png_dimensions_reads_the_ihdr_chunk() {
    assert_eq!(png_dimensions(&png_header(1190, 1684)), Some((1190, 1684)));
    assert_eq!(png_dimensions(&png_header(0x01020304, 0xA0B0C0D0)), Some((0x01020304, 0xA0B0C0D0)));
}

#[test]
fn png_dimensions_refuses_short_or_foreign_bytes() {
    let full = png_header(10, 20);
    assert_eq!(png_dimensions(&full[..23]), None);
    let mut not_png = full.clone();
    not_png[1] = b'Q';
    assert_eq!(png_dimensions(&not_png), None);
    let mut no_ihdr = full.clone();
    no_ihdr[12] = b'X';
    assert_eq!(png_dimensions(&no_ihdr), None);
    assert_eq!(png_dimensions(&[]), None);
}

#[test]
fn page_png_names_are_zero_padded() {
    assert_eq!(page_png_name(1), "page-001.png");
    assert_eq!(page_png_name(42), "page-042.png");
    assert_eq!(page_png_name(999), "page-999.png");
    assert_eq!(page_png_name(1234), "page-1234.png");
    assert_eq!(page_png_name(0), "page-000.png");
}

#[test]
fn page_file_names_are_recognised() {
    assert!(is_page_png("page-1.png"));
    assert!(is_page_png("page-12.png"));
    assert!(!is_page_png("page__001.png"));
    assert!(!is_page_png("page-1.pdf"));
    assert!(!is_page_png("sample.pdf"));
    assert!(!is_page_png("Page-1.png"));
}

#[test]
fn page_files_are_filtered_and_sorted_by_name() {
    let names: Vec<String> = vec!["page-3.png", "sample.pdf", "page-1.png", "page-10.png", "page-2.png", "page__x.png"]
        .into_iter()
        .map(String::from)
        .collect();
    let got = page_files(&names);
    assert_eq!(got, vec!["page-1.png", "page-10.png", "page-2.png", "page-3.png"]);
    let mut expected: Vec<String> = names.iter().filter(|n| is_page_png(n)).cloned().collect();
    expected.sort();
    assert_eq!(got, expected);
    assert!(page_files(&Vec::new()).is_empty());
}

#[test]
fn helper_programs_are_looked_for_per_platform() {
    assert_eq!(soffice_command(&HostOs::Windows), "soffice.exe");
    assert_eq!(soffice_command(&HostOs::Other), "soffice");
    assert_eq!(soffice_fallbacks(&HostOs::MacOs), vec!["/Applications/LibreOffice.app/Contents/MacOS/soffice"]);
    assert_eq!(soffice_fallbacks(&HostOs::Other).len(), 3);
    assert_eq!(soffice_fallbacks(&HostOs::Other)[0], "/usr/bin/soffice");
    assert_eq!(pdftoppm_command(&HostOs::MacOs), "pdftoppm");
    assert_eq!(pdftoppm_command(&HostOs::Windows), "pdftoppm.exe");
    assert!(pdftoppm_fallbacks(&HostOs::Other).is_empty());
    assert_eq!(pdftoppm_fallbacks(&HostOs::Windows).len(), 2);
    assert!(tool_answered(true, b""));
    assert!(tool_answered(false, b"pdftoppm version 22"));
    assert!(!tool_answered(false, b""));
}

#[test]
fn office_file_kind_follows_the_extension_in_any_case() {
    assert!(matches!(office_file_kind("docx"), Ok(OfficeFileKind::Word)));
    assert!(matches!(office_file_kind("DOCX"), Ok(OfficeFileKind::Word)));
    assert!(matches!(office_file_kind("XlSx"), Ok(OfficeFileKind::Excel)));
    match office_file_kind("PDF") {
        Err(OfficeError::UnsupportedFileType(e)) => assert_eq!(e, "pdf"),
        _ => panic!("pdf is no office file"),
    }
    match office_file_kind("") {
        Err(OfficeError::UnsupportedFileType(e)) => assert_eq!(e, ""),
        _ => panic!("no extension is no office file"),
    }
    assert!(matches!(office_kind_of("docx".to_string()), Ok(OfficeFileKind::Word)));
    assert!(matches!(office_kind_of("Docx".to_string()), Err(OfficeError::UnsupportedFileType(_))));
}

fn plain_table(span: usize) -> WordTable {
    WordTable {
        id: "t".to_string(),
        rows: vec![TableRow { cells: vec![TableCell { text: "a".to_string(), col_span: span, row_span: 1 }] }],
        cell_paragraphs: Vec::new(),
    }
}

#[test]
fn cell_widths_fit_unless_a_span_overflows() {
    assert!(table_fits(&plain_table(1)));
    assert!(table_fits(&plain_table(0)));
    assert!(table_fits(&plain_table(2_982_616)));
    assert!(!table_fits(&plain_table(2_982_617)));
    let mut doc = WordDocument::default();
    assert!(doc_fits(&doc));
    doc.tables.push(plain_table(3));
    assert!(doc_fits(&doc));
    doc.tables.push(plain_table(3_000_000));
    assert!(!doc_fits(&doc));
}

#[test]
fn ordinary_paragraph_lengths_fit_the_text_rendering() {
    let mut doc = WordDocument::default();
    assert!(text_lengths_fit(&doc));
    doc.paragraphs.push(WordParagraph { id: "p".to_string(), text: "正文".repeat(1000), ..WordParagraph::default() });
    assert!(text_lengths_fit(&doc));
}

#[test]
fn drawing_ids_stay_within_the_positive_i32_range() {
    use_docpr_ids();
}

fn use_docpr_ids() {
    let empty = inkuo_office::writer::stable_id_to_docpr_id("");
    assert_eq!(empty, 2_166_136_261u32 % 0x8000_0000);
    for id in ["", "img-1", "図", "a-much-longer-stable-identifier"] {
        let d = inkuo_office::writer::stable_id_to_docpr_id(id);
        assert!(d >= 1 && d <= i32::MAX as u32);
        assert_eq!(d, inkuo_office::writer::stable_id_to_docpr_id(id));
    }
}
