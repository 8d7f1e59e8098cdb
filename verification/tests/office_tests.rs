use inkuo_office::office::{blank_excel_workbook, blank_word_document, word_document_to_elements};
use inkuo_office::model::DocElement;

#[test]
fn blank_excel_workbook_has_one_visible_sheet() {
    let workbook = blank_excel_workbook();
    assert_eq!(workbook.sheets.len(), 1);
    assert_eq!(workbook.sheets[0].name, "Sheet1");
    assert_eq!(workbook.sheets[0].state, "visible");
}

#[test]
fn blank_word_document_has_one_normal_paragraph() {
    let document = blank_word_document();
    assert_eq!(document.paragraphs.len(), 1);
    assert_eq!(document.paragraphs[0].id, "blank-paragraph");
    assert_eq!(document.paragraphs[0].style.as_deref(), Some("Normal"));
    let elements = word_document_to_elements(&document);
    assert_eq!(elements.len(), 1);
    assert!(matches!(&elements[0], DocElement::Paragraph { id, .. } if id == "blank-paragraph"));
}
