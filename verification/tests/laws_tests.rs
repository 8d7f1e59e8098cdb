use inkuo_office::components::{decode_table_style, encode_style_to_row, TableStyle};
use inkuo_office::model::TableRow;
use inkuo_office::docread::read_zip_entry;
use inkuo_office::document::build_document_xml;
use inkuo_office::docwrite::build_word_package;
use inkuo_office::model::WordParagraph;
use inkuo_office::fields::normalise_text_direction;
use inkuo_office::model::{DocElement, ElementId, PageMargins, PageSize, TableCell, WordDocument, WordSection};
use inkuo_office::tables::{resolve_vmerge, RawCell, RawTable, VMergeKind};
use inkuo_office::text::escape_xml;
use inkuo_office::writer::{build_sectpr_xml, emit_text_direction};

fn para(id: &str, text: &str) -> DocElement {
    DocElement::Paragraph {
        id: id.to_string(),
        text: text.to_string(),
        omit_text: false,
        style: None,
        runs: None,
        numbering: None,
        alignment: None,
        text_direction: None,
    }
}

fn cell(t: &str) -> TableCell {
    TableCell { text: t.to_string(), col_span: 1, row_span: 1 }
}

fn table(id: &str) -> DocElement {
    DocElement::Table { id: id.to_string(), position: 0, header: vec![cell("h")], rows: vec![vec![cell("v")]] }
}

fn image(id: &str) -> DocElement {
    DocElement::Image { id: id.to_string(), position: 0, path: "/tmp/a.png".to_string(), width_emu: 10, height_emu: 20 }
}

fn ids(doc: &WordDocument) -> Vec<String> {
    doc.to_elements().iter().map(|e| e.id().to_string()).collect()
}

#[test]
fn text_directions_read_back_as_written() {
    for v in ["horizontal", "vertical", "verticalRightToLeft", "verticalLeftToRight", "rotate90"] {
        assert_eq!(normalise_text_direction(emit_text_direction(v)), v);
    }
    for o in ["lrTb", "tbRl", "lrTbV", "tbRlV", "btLrV"] {
        assert_eq!(emit_text_direction(&normalise_text_direction(o)), o);
    }
    assert_eq!(normalise_text_direction(emit_text_direction("rotate270")), "horizontal");
}

#[test]
fn custom_section_still_emits_page_setup() {
    let mut s = WordSection::default();
    s.page_size_twips = Some(PageSize { width: 16838, height: 11906, orient: Some("landscape".to_string()) });
    s.margins = Some(PageMargins { top: 1, right: 2, bottom: 3, left: 4, header: None, footer: None, gutter: None });
    let xml = build_sectpr_xml(&s);
    assert!(xml.contains("<w:pgSz w:w=\"16838\" w:h=\"11906\" w:orient=\"landscape\"/>"));
    assert!(xml.contains("<w:pgMar w:top=\"1\" w:right=\"2\" w:bottom=\"3\" w:left=\"4\""));
}

#[test]
fn from_elements_puts_a_marker_where_each_table_and_picture_stands() {
    let doc = WordDocument::from_elements(vec![para("a", "x"), table("t9"), image("pic"), para("b", "y")]);
    let pids: Vec<&str> = doc.paragraphs.iter().map(|p| p.id.as_str()).collect();
    assert_eq!(pids, vec!["a", "__tbl_pos_t9__", "__img_pos_pic__", "b"]);
    assert_eq!(doc.paragraphs[1].text, "<__tbl_pos_t9__>");
    assert_eq!(doc.tables.len(), 1);
    assert_eq!(doc.images.len(), 1);
}

#[test]
fn modify_without_edits_keeps_the_elements() {
    let mut doc = WordDocument::from_elements(vec![para("a", "x"), table("t9"), image("pic"), para("b", "y")]);
    let before = ids(&doc);
    doc.modify(Vec::new(), Vec::new(), Vec::new());
    assert_eq!(ids(&doc), before);
}

#[test]
fn deleted_ids_are_gone_with_their_markers() {
    let mut doc = WordDocument::from_elements(vec![para("a", "x"), table("t9"), para("b", "y")]);
    doc.modify(Vec::new(), vec!["t9".to_string()], Vec::new());
    assert_eq!(ids(&doc), vec!["a".to_string(), "b".to_string()]);
    assert!(doc.paragraphs.iter().all(|p| p.id != "__tbl_pos_t9__"));
    assert!(doc.tables.is_empty());
}

#[test]
fn merges_resolve_into_row_spans_keeping_the_shape() {
    let raw = RawTable {
        id: "t0".to_string(),
        rows: vec![
            vec![RawCell { text: "a".to_string(), col_span: 0, vmerge: Some(VMergeKind::Restart) }],
            vec![RawCell { text: "".to_string(), col_span: 0, vmerge: Some(VMergeKind::Continue) }],
            vec![RawCell { text: "c".to_string(), col_span: 3, vmerge: None }],
        ],
    };
    let out = resolve_vmerge(vec![raw]);
    assert_eq!(out.len(), 1);
    assert_eq!(out[0].rows.len(), 3);
    assert_eq!(out[0].rows[0].cells[0].row_span, 2);
    assert_eq!(out[0].rows[0].cells[0].col_span, 0);
    assert_eq!(out[0].rows[1].cells[0].row_span, 1);
    assert_eq!(out[0].rows[2].cells[0].row_span, 1);
    assert_eq!(out[0].rows[2].cells[0].col_span, 3);
    assert!(out[0].cell_paragraphs.is_empty());
}

#[test]
fn escaped_text_holds_no_markup() {
    let e = escape_xml("<a href='x'>\"&\"</a>");
    assert_eq!(e, "&lt;a href=&apos;x&apos;&gt;&quot;&amp;&quot;&lt;/a&gt;");
    assert!(!e.contains('<') && !e.contains('>') && !e.contains('"') && !e.contains('\''));
}

#[test]
fn written_document_part_reads_back_as_the_built_xml() {
    let mut doc = WordDocument::default();
    doc.paragraphs.push(WordParagraph { id: "p1".to_string(), text: "甲 & <乙>".to_string(), ..WordParagraph::default() });
    let bytes = build_word_package(&doc, None, &Vec::new()).ok().expect("package");
    let part = read_zip_entry(&bytes, "word/document.xml").ok().expect("document part");
    assert_eq!(part, build_document_xml(&doc));
    let styles = read_zip_entry(&bytes, "word/styles.xml").ok().expect("styles part");
    assert!(styles.contains("<w:styles"));
}

#[test]
fn style_marker_row_decodes_to_the_written_style() {
    let style = TableStyle {
        header_fill: Some("213B32".to_string()),
        zebra_fill: Some("EAF0EC".to_string()),
        border_color: None,
        header_text_color: None,
        repeat_header: true,
        zebra: false,
    };
    let row = TableRow { cells: encode_style_to_row(&style, "FFFFFF") };
    let (back, color) = decode_table_style(&[row]).expect("marker decodes");
    assert_eq!(back.header_fill.as_deref(), Some("213B32"));
    assert_eq!(back.zebra_fill.as_deref(), Some("EAF0EC"));
    assert_eq!(back.border_color, None);
    assert_eq!(back.header_text_color.as_deref(), Some("FFFFFF"));
    assert!(back.repeat_header);
    assert!(!back.zebra);
    assert_eq!(color, "FFFFFF");
}
