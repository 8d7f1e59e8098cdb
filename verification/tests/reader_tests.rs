use inkuo_office::cellparse::extract_container_cell_paragraphs;
use inkuo_office::docparse::parse_document_xml;
use inkuo_office::docread::{read_word_document, resolve_section_refs};
use inkuo_office::docwrite::build_word_package;
use inkuo_office::error::OfficeError;
use inkuo_office::images::{parse_image_rels, parse_image_xml};
use inkuo_office::model::{FooterPart, HeaderPart, HeaderPartRef, WordDocument, WordParagraph, WordSection};
use inkuo_office::office::blank_word_document;
use inkuo_office::tables::parse_table_xml;

fn body(inner: &str) -> String {
    format!(
        "<?xml version=\"1.0\" encoding=\"UTF-8\"?><w:document xmlns:w=\"w\" xmlns:inkuo=\"i\"><w:body>{}</w:body></w:document>",
        inner
    )
}

#[test]
fn blank_word_document_is_a_parseable_package_with_an_editable_paragraph() {
    let document = blank_word_document();
    let bytes = build_word_package(&document, None, &Vec::new()).expect("write blank docx");
    let parsed = read_word_document(&bytes).expect("read blank docx");
    assert_eq!(parsed.paragraphs.len(), 1);
    assert_eq!(parsed.paragraphs[0].style.as_deref(), Some("Normal"));
}

#[test]
fn document_paragraphs_read_with_styles_runs_and_ids() {
    let xml = body(
        "<w:p><w:pPr><w:pStyle w:val=\"Heading1\"/><inkuo:id w:val=\"h1\"/></w:pPr><w:r><w:t>Title</w:t></w:r></w:p>\
         <w:p><w:r><w:rPr><w:b/></w:rPr><w:t xml:space=\"preserve\">Bold &amp; more</w:t></w:r></w:p>\
         <w:p/>",
    );
    let (paras, markers, sections) = parse_document_xml(&xml).expect("parses");
    assert!(markers.is_empty());
    assert!(sections.is_empty());
    assert_eq!(paras.len(), 2);
    assert_eq!(paras[0].id, "h1");
    assert_eq!(paras[0].text, "Title");
    assert_eq!(paras[0].style.as_deref(), Some("Heading1"));
    assert_eq!(paras[1].id, "p0");
    assert_eq!(paras[1].text, "Bold & more");
    let runs = paras[1].runs.as_ref().expect("formatted run kept");
    assert_eq!(runs.len(), 1);
    assert!(runs[0].bold);
    assert_eq!(runs[0].text, "Bold & more");
}

#[test]
fn document_sections_read_with_page_setup_and_references() {
    let xml = body(
        "<w:p><w:r><w:t>A</w:t></w:r></w:p>\
         <w:sectPr><w:headerReference w:type=\"default\" r:id=\"rId9\"/>\
         <w:pgSz w:w=\"16838\" w:h=\"11906\" w:orient=\"landscape\"/>\
         <w:pgMar w:top=\"720\" w:right=\"720\" w:bottom=\"720\" w:left=\"720\"/></w:sectPr>",
    );
    let (paras, _markers, sections) = parse_document_xml(&xml).expect("parses");
    assert_eq!(paras.len(), 1);
    assert_eq!(sections.len(), 1);
    let s = &sections[0];
    assert_eq!(s.id, "section-1");
    let size = s.page_size_twips.as_ref().expect("page size");
    assert_eq!(size.width, 16838);
    assert_eq!(size.height, 11906);
    assert_eq!(size.orient.as_deref(), Some("landscape"));
    assert_eq!(s.margins.as_ref().expect("margins").top, 720);
    assert_eq!(s.header_refs.len(), 1);
    assert_eq!(s.header_refs[0].header_id, "rId9");
}

#[test]
fn document_syntax_error_is_reported() {
    let r = parse_document_xml("<w:document><w:body></w:document>");
    match r {
        Err(OfficeError::Xml(m)) => assert!(m.starts_with("XML parse error: ")),
        _ => panic!("expected an XML error"),
    }
}

#[test]
fn image_marker_paragraphs_are_kept_apart() {
    let xml = body(
        "<w:p><w:pPr><inkuo:id w:val=\"__img_pos_pic1__\"/></w:pPr><w:r><w:t>x</w:t></w:r></w:p>\
         <w:p><w:r><w:t>after</w:t></w:r></w:p>",
    );
    let (paras, markers, _) = parse_document_xml(&xml).expect("parses");
    assert_eq!(markers.len(), 1);
    assert_eq!(markers[0].id, "__img_pos_pic1__");
    assert_eq!(markers[0].text, "<__img_pos_pic1__>");
    assert_eq!(paras.len(), 1);
    assert_eq!(paras[0].text, "after");
}

#[test]
fn tables_read_with_spans_and_merges() {
    let xml = body(
        "<w:tbl>\
         <w:tr><w:tc><w:tcPr><w:gridSpan w:val=\"2\"/></w:tcPr><w:p><w:r><w:t> Head </w:t></w:r></w:p></w:tc></w:tr>\
         <w:tr><w:tc><w:tcPr><w:vMerge w:val=\"restart\"/></w:tcPr><w:p><w:r><w:t>A</w:t></w:r></w:p></w:tc>\
         <w:tc><w:p><w:r><w:t>B</w:t></w:r></w:p></w:tc></w:tr>\
         <w:tr><w:tc><w:tcPr><w:vMerge/></w:tcPr><w:p/></w:tc><w:tc><w:p><w:r><w:t>C</w:t></w:r></w:p></w:tc></w:tr>\
         </w:tbl><w:tbl></w:tbl>",
    );
    let tables = parse_table_xml(&xml).expect("parses");
    assert_eq!(tables.len(), 1);
    let t = &tables[0];
    assert_eq!(t.id, "t0");
    assert_eq!(t.rows.len(), 3);
    assert_eq!(t.rows[0].cells[0].text, "Head");
    assert_eq!(t.rows[0].cells[0].col_span, 2);
    assert_eq!(t.rows[1].cells[0].row_span, 2);
    assert_eq!(t.rows[1].cells[1].row_span, 1);
    assert_eq!(t.rows[2].cells[0].row_span, 1);
    assert_eq!(t.rows[2].cells[1].text, "C");
}

#[test]
fn container_table_cell_paragraphs_are_bucketed_by_table() {
    let xml = body(
        "<w:tbl><w:tr><w:tc><w:p><w:pPr><w:pStyle w:val=\"Code\"/></w:pPr><w:r><w:t>let x = 1;</w:t></w:r></w:p></w:tc></w:tr></w:tbl>\
         <w:tbl><w:tr><w:tc><w:p><w:r><w:t>a</w:t></w:r></w:p></w:tc><w:tc><w:p><w:r><w:t>b</w:t></w:r></w:p></w:tc></w:tr></w:tbl>",
    );
    let buckets = extract_container_cell_paragraphs(&xml);
    assert_eq!(buckets.len(), 2);
    assert_eq!(buckets[0].len(), 1);
    assert_eq!(buckets[0][0].text, "let x = 1;");
    assert_eq!(buckets[0][0].style.as_deref(), Some("Code"));
    assert_eq!(buckets[0][0].id, "p0");
    assert!(buckets[1].is_empty());
}

#[test]
fn image_relationships_and_drawings_are_recovered() {
    let rels = "<Relationships>\
        <Relationship Id=\"rId7\" Type=\"http://x/relationships/image\" Target=\"media/image1.png\"/>\
        <Relationship Id=\"rId8\" Type=\"http://x/relationships/styles\" Target=\"styles.xml\"/>\
        <Relationship Id=\"rId9\" Type=\"http://x/relationships/image\" Target=\"/word/media/image2.gif\"/>\
        </Relationships>";
    let map = parse_image_rels(rels);
    assert_eq!(map, vec![("rId7".to_string(), "media/image1.png".to_string()), ("rId9".to_string(), "media/image2.gif".to_string())]);
    let doc = body(
        "<w:p><w:pPr><inkuo:id w:val=\"__img_pos_logo__\"/></w:pPr><w:r><w:drawing><wp:extent cx=\"100\" cy=\"200\"/>\
         <a:blip r:embed=\"rId7\"/></w:drawing></w:r></w:p>\
         <w:p><w:r><w:drawing><wp:extent cx=\"5\" cy=\"6\"/><a:blip r:embed=\"rId9\"></a:blip></w:drawing></w:r></w:p>",
    );
    let images = parse_image_xml(&doc, rels, &Vec::new());
    assert_eq!(images.len(), 2);
    assert_eq!(images[0].id, "logo");
    assert_eq!(images[0].path, "word/media/image1.png");
    assert_eq!(images[0].width_emu, 100);
    assert_eq!(images[0].height_emu, 200);
    assert_eq!(images[0].internal_path.as_deref(), Some("word/media/image1.png"));
    assert_eq!(images[1].id, "_recovered_rId9");
    assert_eq!(images[1].path, "word/media/image2.gif");
}

#[test]
fn section_references_resolve_to_part_stems() {
    let rels = "<Relationships>\
        <Relationship Id=\"rId9\" Type=\"http://x/relationships/header\" Target=\"header2.xml\"/>\
        <Relationship Id=\"rId10\" Type=\"http://x/relationships/header\" Target=\"header5.xml\"/>\
        </Relationships>";
    let mut sect = WordSection::default();
    sect.header_refs = vec![
        HeaderPartRef { header_id: "rId9".to_string(), kind: Some("default".to_string()) },
        HeaderPartRef { header_id: "rId10".to_string(), kind: Some("first".to_string()) },
    ];
    let mut sections = vec![sect];
    let headers = vec![HeaderPart { id: "header2".to_string(), paragraphs: Vec::new(), tables: Vec::new(), images: Vec::new() }];
    let footers: Vec<FooterPart> = Vec::new();
    resolve_section_refs(&mut sections, rels, &headers, &footers);
    assert_eq!(sections[0].header_refs.len(), 1);
    assert_eq!(sections[0].header_refs[0].header_id, "header2");
    assert_eq!(sections[0].header_refs[0].kind.as_deref(), Some("default"));
}

#[test]
fn written_package_reads_back_paragraphs_headers_and_sections() {
    let mut doc = WordDocument::default();
    let mut p = WordParagraph::default();
    p.id = "intro".to_string();
    p.text = "Hello & welcome".to_string();
    p.style = Some("Normal".to_string());
    doc.paragraphs.push(p);
    let mut hp = WordParagraph::default();
    hp.id = "hp".to_string();
    hp.text = "Running head".to_string();
    doc.headers.push(HeaderPart { id: "myhead".to_string(), paragraphs: vec![hp], tables: Vec::new(), images: Vec::new() });
    let mut sect = WordSection::default();
    sect.header_refs.push(HeaderPartRef { header_id: "myhead".to_string(), kind: None });
    doc.sections.push(sect);
    let bytes = build_word_package(&doc, None, &Vec::new()).expect("write");
    let back = read_word_document(&bytes).expect("read");
    assert_eq!(back.paragraphs.len(), 1);
    assert_eq!(back.paragraphs[0].id, "intro");
    assert_eq!(back.paragraphs[0].text, "Hello & welcome");
    assert_eq!(back.headers.len(), 1);
    assert_eq!(back.headers[0].id, "header1");
    assert_eq!(back.headers[0].paragraphs[0].text, "Running head");
    assert_eq!(back.sections.len(), 1);
    assert_eq!(back.sections[0].header_refs.len(), 1);
    assert_eq!(back.sections[0].header_refs[0].header_id, "header1");
}

#[test]
fn reading_garbage_is_a_zip_error() {
    match read_word_document(b"not a zip") {
        Err(OfficeError::Zip(_)) => {}
        _ => panic!("expected a ZIP error"),
    }
}

#[test]
fn switched_off_run_flags_are_read_off() {
    let xml = body("<w:p><w:r><w:rPr><w:b w:val=\"false\"/><w:i w:val=\"0\"/><w:u/></w:rPr><w:t>X</w:t></w:r></w:p>");
    let (paras, _, _) = parse_document_xml(&xml).ok().expect("parses");
    let run = &paras[0].runs.as_ref().expect("runs")[0];
    assert_eq!(run.text, "X");
    assert!(!run.bold);
    assert!(!run.italic);
    assert!(run.underline);
}

#[test]
fn container_cell_paragraph_keeps_its_numbering() {
    let xml = body(
        "<w:tbl><w:tr><w:tc><w:p><w:pPr><w:numPr><w:ilvl w:val=\"0\"/><w:numId w:val=\"3\"/></w:numPr></w:pPr><w:r><w:t>item</w:t></w:r></w:p></w:tc></w:tr></w:tbl>",
    );
    let buckets = extract_container_cell_paragraphs(&xml);
    assert_eq!(buckets[0].len(), 1);
    let n = buckets[0][0].numbering.as_ref().expect("numbering");
    assert_eq!((n.num_id, n.level), (3, 0));
}
