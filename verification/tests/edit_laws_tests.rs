use inkuo_office::cellparse::{find_container_tables, walk_container_paragraphs};
use inkuo_office::design_tokens::DesignTokens;
use inkuo_office::docparse::{parse_document_events, parse_document_xml};
use inkuo_office::docread::resolve_section_refs;
use inkuo_office::docwrite::word_package_entries;
use inkuo_office::error::OfficeError;
use inkuo_office::fields::{field_of_head, parse_field_instr};
use inkuo_office::images::{parse_image_events, parse_image_rels, parse_image_xml};
use inkuo_office::model::{
    DocElement, ElementId, FieldRef, FooterPart, FooterPartRef, HeaderPart, HeaderPartRef, TableCell, WordDocument, WordImage,
    WordSection,
};
use inkuo_office::renderer::{render_blocks, CalloutLevelName, ContentBlock};
use inkuo_office::tables::{parse_table_events, parse_table_xml};
use inkuo_office::writer::field_instr_text;
use inkuo_office::xml::{xml_events, XmlEvent};

fn para(id: &str, text: &str) -> DocElement {
    DocElement::Paragraph {
        id: id.to_string(),
        text: text.to_string(),
        omit_text: false,
        style: Some("Body".to_string()),
        runs: None,
        numbering: None,
        alignment: Some("left".to_string()),
        text_direction: None,
    }
}

fn cell(t: &str) -> TableCell {
    TableCell { text: t.to_string(), col_span: 1, row_span: 1 }
}

fn table(id: &str) -> DocElement {
    DocElement::Table { id: id.to_string(), position: 0, header: vec![cell("h")], rows: vec![vec![cell("v")]] }
}

fn image(id: &str) -> DocElement {
    DocElement::Image { id: id.to_string(), position: 0, path: "/tmp/a.png".to_string(), width_emu: 10, height_emu: 20 }
}

fn blocks_a() -> Vec<ContentBlock> {
    vec![
        ContentBlock::Chapter { id: "ch".into(), title: "One".into() },
        ContentBlock::Table { id: "t1".into(), headers: vec!["a".into()], rows: vec![vec!["1".into()]], style: None },
    ]
}

fn blocks_b() -> Vec<ContentBlock> {
    vec![
        ContentBlock::Body { id: "b1".into(), text: Some("Text.".into()), runs: None },
        ContentBlock::Code { id: "k".into(), lines: vec!["x".into()], language: None },
    ]
}

#[test]
fn rendering_blocks_back_to_back_appends_their_renderings() {
    let t = DesignTokens::default();
    let a = render_blocks(&blocks_a(), &t);
    let b = render_blocks(&blocks_b(), &t);
    let mut both = blocks_a();
    both.extend(blocks_b());
    let ab = render_blocks(&both, &t);
    let pids = |r: &inkuo_office::renderer::RenderedDocument| r.paragraphs.iter().map(|p| p.id.clone()).collect::<Vec<_>>();
    let tids = |r: &inkuo_office::renderer::RenderedDocument| r.tables.iter().map(|t| t.id.clone()).collect::<Vec<_>>();
    let mut expect_p = pids(&a);
    expect_p.extend(pids(&b));
    let mut expect_t = tids(&a);
    expect_t.extend(tids(&b));
    assert_eq!(pids(&ab), expect_p);
    assert_eq!(tids(&ab), expect_t);
}

#[test]
fn empty_body_and_callout_render_nothing() {
    let t = DesignTokens::default();
    let blocks = vec![
        ContentBlock::Body { id: "b".into(), text: None, runs: None },
        ContentBlock::Callout { id: "c".into(), level: CalloutLevelName::Warning, title: "T".into(), body: None, body_lines: None },
    ];
    let r = render_blocks(&blocks, &t);
    assert!(r.paragraphs.is_empty());
    assert!(r.tables.is_empty());
    assert!(r.images.is_empty());
}

#[test]
fn modifying_one_paragraph_merges_it_in_place() {
    let mut doc = WordDocument::from_elements(vec![para("a", "x"), table("t1"), para("b", "y")]);
    let repl = DocElement::Paragraph {
        id: "b".to_string(),
        text: "new".to_string(),
        omit_text: false,
        style: None,
        runs: None,
        numbering: None,
        alignment: Some("center".to_string()),
        text_direction: None,
    };
    doc.modify(vec![repl], Vec::new(), Vec::new());
    let es = doc.to_elements();
    assert_eq!(es.len(), 3);
    match &es[2] {
        DocElement::Paragraph { id, text, style, alignment, runs, .. } => {
            assert_eq!(id, "b");
            assert_eq!(text, "new");
            assert_eq!(style.as_deref(), Some("Body"));
            assert_eq!(alignment.as_deref(), Some("center"));
            assert!(runs.is_none());
        },
        _ => panic!("expected the paragraph in its place"),
    }
    match &es[0] {
        DocElement::Paragraph { id, text, .. } => {
            assert_eq!(id, "a");
            assert_eq!(text, "x");
        },
        _ => panic!("expected the first paragraph unchanged"),
    }
}

#[test]
fn omitted_text_keeps_the_old_text() {
    let mut doc = WordDocument::from_elements(vec![para("a", "x")]);
    let repl = DocElement::Paragraph {
        id: "a".to_string(),
        text: String::new(),
        omit_text: true,
        style: Some("Heading1".to_string()),
        runs: None,
        numbering: None,
        alignment: None,
        text_direction: None,
    };
    doc.modify(vec![repl], Vec::new(), Vec::new());
    match &doc.to_elements()[0] {
        DocElement::Paragraph { text, style, alignment, .. } => {
            assert_eq!(text, "x");
            assert_eq!(style.as_deref(), Some("Heading1"));
            assert_eq!(alignment.as_deref(), Some("left"));
        },
        _ => panic!("expected a paragraph"),
    }
}

#[test]
fn deleting_a_table_keeps_the_rest_in_order() {
    let mut doc = WordDocument::from_elements(vec![para("a", "x"), table("t1"), image("pic"), table("t2"), para("b", "y")]);
    doc.sections.push(WordSection::default());
    doc.modify(Vec::new(), vec!["t1".to_string()], Vec::new());
    let ids: Vec<String> = doc.to_elements().iter().map(|e| e.id().to_string()).collect();
    assert_eq!(ids, vec!["a", "pic", "t2", "b"]);
    assert!(doc.tables.iter().all(|t| t.id != "t1"));
    assert!(doc.paragraphs.iter().all(|p| p.id != "__tbl_pos_t1__"));
    assert_eq!(doc.sections.len(), 1);
}

#[test]
fn elements_convert_to_a_document_and_back() {
    let els = vec![para("a", "x"), table("t1"), image("pic"), para("b", "y")];
    let back = WordDocument::from_elements(els).to_elements();
    assert_eq!(back.len(), 4);
    match &back[1] {
        DocElement::Table { id, position, header, rows } => {
            assert_eq!(id, "t1");
            assert_eq!(*position, 1);
            assert_eq!(header[0].text, "h");
            assert_eq!(rows[0][0].text, "v");
        },
        _ => panic!("expected the table"),
    }
    match &back[2] {
        DocElement::Image { id, position, path, width_emu, height_emu } => {
            assert_eq!(id, "pic");
            assert_eq!(*position, 2);
            assert_eq!(path, "/tmp/a.png");
            assert_eq!((*width_emu, *height_emu), (10, 20));
        },
        _ => panic!("expected the picture"),
    }
    match &back[3] {
        DocElement::Paragraph { id, text, style, .. } => {
            assert_eq!(id, "b");
            assert_eq!(text, "y");
            assert_eq!(style.as_deref(), Some("Body"));
        },
        _ => panic!("expected the paragraph"),
    }
}

fn same_field(a: &FieldRef, b: &FieldRef) -> bool {
    match (a, b) {
        (FieldRef::Page, FieldRef::Page)
        | (FieldRef::NumPages, FieldRef::NumPages)
        | (FieldRef::SectionPages, FieldRef::SectionPages)
        | (FieldRef::Section, FieldRef::Section)
        | (FieldRef::Author, FieldRef::Author)
        | (FieldRef::Title, FieldRef::Title) => true,
        (FieldRef::Date { format: x }, FieldRef::Date { format: y }) => x == y,
        (FieldRef::Time { format: x }, FieldRef::Time { format: y }) => x == y,
        (FieldRef::Filename { with_ext: x }, FieldRef::Filename { with_ext: y }) => x == y,
        _ => false,
    }
}

#[test]
fn written_field_instructions_read_back() {
    let fields = vec![
        FieldRef::Page,
        FieldRef::NumPages,
        FieldRef::SectionPages,
        FieldRef::Section,
        FieldRef::Date { format: None },
        FieldRef::Date { format: Some("yyyy-MM-dd".to_string()) },
        FieldRef::Time { format: None },
        FieldRef::Time { format: Some("HH:mm".to_string()) },
        FieldRef::Author,
        FieldRef::Title,
        FieldRef::Filename { with_ext: true },
        FieldRef::Filename { with_ext: false },
    ];
    for f in &fields {
        let text = field_instr_text(f);
        let back = parse_field_instr(&text).expect("a field");
        assert!(same_field(f, &back), "{} did not read back", text);
    }
    assert_eq!(field_instr_text(&FieldRef::Date { format: Some("yyyy-MM-dd".to_string()) }), " DATE \\@ \"yyyy-MM-dd\" ");
}

#[test]
fn field_names_are_matched_after_upper_casing() {
    assert!(matches!(field_of_head("PAGE", ""), Some(FieldRef::Page)));
    assert!(field_of_head("page", "").is_some());
    assert!(matches!(field_of_head("page", ""), Some(FieldRef::Custom { .. })));
    match field_of_head("DATE", "\\@ \"d MMM\"") {
        Some(FieldRef::Date { format }) => assert_eq!(format.as_deref(), Some("d MMM")),
        _ => panic!("expected a date"),
    }
    assert!(matches!(field_of_head("FILENAME", "\\p"), Some(FieldRef::Filename { with_ext: false })));
    match field_of_head("XE", "entry") {
        Some(FieldRef::Custom { instr }) => assert_eq!(instr, "XE entry"),
        _ => panic!("expected a custom field"),
    }
    assert!(field_of_head("", "").is_none());
}

#[test]
fn unsupported_picture_fails_whatever_its_source() {
    let mut doc = WordDocument::default();
    doc.images.push(WordImage { id: "p".to_string(), path: "/tmp/a.tiff".to_string(), width_emu: 1, height_emu: 2, internal_path: None });
    for src in vec![Ok(vec![1, 2, 3]), Err("not read".to_string())] {
        match word_package_entries(&doc, None, &vec![src]) {
            Err(OfficeError::Xml(m)) => assert_eq!(m, "Unsupported image extension '.tiff'; supported: png, jpeg, jpg, gif"),
            _ => panic!("expected an error"),
        }
    }
}

#[test]
fn resolved_references_name_existing_parts_in_order() {
    let rels = "<Relationships>\
        <Relationship Id=\"rId1\" Type=\"http://x/relationships/footer\" Target=\"footer1.xml\"/>\
        <Relationship Id=\"rId2\" Type=\"http://x/relationships/footer\" Target=\"footer2.xml\"/>\
        <Relationship Id=\"rId3\" Type=\"http://x/relationships/footer\" Target=\"footer3.xml\"/>\
        </Relationships>";
    let mut sect = WordSection::default();
    sect.footer_refs = vec![
        FooterPartRef { footer_id: "rId2".to_string(), kind: Some("even".to_string()) },
        FooterPartRef { footer_id: "rId3".to_string(), kind: Some("first".to_string()) },
        FooterPartRef { footer_id: "rId1".to_string(), kind: Some("default".to_string()) },
    ];
    sect.header_refs = vec![HeaderPartRef { header_id: "rId9".to_string(), kind: None }];
    let mut sections = vec![sect];
    let headers: Vec<HeaderPart> = Vec::new();
    let footers = vec![
        FooterPart { id: "footer1".to_string(), paragraphs: Vec::new(), tables: Vec::new(), images: Vec::new() },
        FooterPart { id: "footer2".to_string(), paragraphs: Vec::new(), tables: Vec::new(), images: Vec::new() },
    ];
    resolve_section_refs(&mut sections, rels, &headers, &footers);
    let got: Vec<(String, Option<String>)> =
        sections[0].footer_refs.iter().map(|r| (r.footer_id.clone(), r.kind.clone())).collect();
    assert_eq!(got, vec![("footer2".to_string(), Some("even".to_string())), ("footer1".to_string(), Some("default".to_string()))]);
    assert!(sections[0].header_refs.is_empty());
}

const DOC: &str = "<w:document xmlns:w=\"w\"><w:body>\
    <w:p><w:r><w:t>Hello</w:t></w:r></w:p>\
    <w:tbl><w:tr><w:tc><w:p><w:r><w:t>in cell</w:t></w:r></w:p></w:tc></w:tr></w:tbl>\
    <w:p><w:r><w:drawing><wp:extent cx=\"5\" cy=\"6\"/><a:blip r:embed=\"rId4\"/></w:drawing></w:r></w:p>\
    </w:body></w:document>";

const RELS: &str = "<Relationships>\
    <Relationship Id=\"rId4\" Type=\"http://x/relationships/image\" Target=\"media/image1.png\"/>\
    </Relationships>";

#[test]
fn event_level_readers_agree_with_the_text_level_ones() {
    let evs = xml_events(DOC);
    let (ps, _, _) = parse_document_events(&evs).expect("document");
    let (ps2, _, _) = parse_document_xml(DOC).expect("document");
    assert_eq!(ps.len(), ps2.len());
    assert_eq!(ps[0].text, ps2[0].text);
    let ts = parse_table_events(&evs).expect("tables");
    let ts2 = parse_table_xml(DOC).expect("tables");
    assert_eq!(ts.len(), 1);
    assert_eq!(ts[0].rows[0].cells[0].text, ts2[0].rows[0].cells[0].text);
    let rels = parse_image_rels(RELS);
    let ims = parse_image_events(&evs, &rels);
    let ims2 = parse_image_xml(DOC, RELS, &Vec::new());
    assert_eq!(ims.len(), 1);
    assert_eq!(ims[0].path, ims2[0].path);
    assert_eq!((ims[0].width_emu, ims[0].height_emu), (5, 6));
    let flags = find_container_tables(&evs);
    assert_eq!(flags, vec![true]);
    let cells = walk_container_paragraphs(&evs, &flags);
    assert_eq!(cells.len(), 1);
    assert_eq!(cells[0][0].text, "in cell");
}

#[test]
fn tables_are_read_from_hand_made_events() {
    let s = |n: &str| XmlEvent::Start { name: n.to_string(), attrs: Vec::new() };
    let e = |n: &str| XmlEvent::End { name: n.to_string() };
    let evs = vec![
        s("tbl"), s("tr"), s("tc"), s("p"), s("t"),
        XmlEvent::Text { text: "x".to_string() },
        e("t"), e("p"), e("tc"), e("tr"), e("tbl"),
    ];
    let ts = parse_table_events(&evs).expect("tables");
    assert_eq!(ts.len(), 1);
    assert_eq!(ts[0].id, "t0");
    assert_eq!(ts[0].rows[0].cells[0].text, "x");
    let bad = vec![XmlEvent::Error { msg: "boom".to_string() }];
    match parse_table_events(&bad) {
        Err(OfficeError::Xml(m)) => assert_eq!(m, "XML parse error: boom"),
        _ => panic!("expected an error"),
    }
}

#[test]
fn first_refused_picture_is_named_after_good_ones() {
    let mut doc = WordDocument::default();
    doc.images.push(WordImage { id: "ok".to_string(), path: "/tmp/a.PNG".to_string(), width_emu: 1, height_emu: 2, internal_path: None });
    doc.images.push(WordImage { id: "bad".to_string(), path: "/tmp/noext".to_string(), width_emu: 1, height_emu: 2, internal_path: None });
    match word_package_entries(&doc, None, &vec![Ok(vec![1]), Ok(vec![2])]) {
        Err(OfficeError::Xml(m)) => assert_eq!(m, "Image '/tmp/noext' has no extension; supported: png, jpeg, jpg, gif"),
        _ => panic!("expected an error"),
    }
}
