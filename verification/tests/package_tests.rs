use inkuo_office::docwrite::{
    append_hf_overrides, append_hf_relationships, append_image_overrides, append_image_relationships,
    build_header_footer_xml, doc_has_numbering, replace_all, rfind, substitute_hf_placeholders,
    substitute_image_placeholders, word_package_entries, HeaderFooterPart, HeaderFooterWritePlan, ImageWritePlan,
};
use inkuo_office::error::OfficeError;
use inkuo_office::model::{HeaderPart, NumberingRef, WordDocument, WordImage, WordParagraph};
use inkuo_office::package::{encode_package, PackageEntry};
use inkuo_office::paths::{after_last, ascii_lower, extension, file_stem};
use inkuo_office::relscan::{
    extract_hf_target, extract_media_target, find_next_relationship_id, parse_hf_basename_index, scan_preserved_hf_state,
    scan_preserved_zip_for_image_state,
};

fn image_plan(basename: &str, rid: &str) -> ImageWritePlan {
    ImageWritePlan {
        bytes: vec![1, 2, 3],
        internal_path: format!("word/media/{}", basename),
        internal_basename: basename.to_string(),
        content_type: "image/png".to_string(),
        rid: rid.to_string(),
    }
}

fn header_plan(part_id: &str, basename: &str, rid: &str) -> HeaderFooterWritePlan {
    let mut p = WordParagraph::default();
    p.id = "h1".to_string();
    p.text = "Page header".to_string();
    HeaderFooterWritePlan {
        part: HeaderFooterPart::Header(HeaderPart { id: part_id.to_string(), paragraphs: vec![p], tables: Vec::new(), images: Vec::new() }),
        basename: basename.to_string(),
        internal_path: format!("word/{}.xml", basename),
        rid: rid.to_string(),
        part_id: part_id.to_string(),
        is_header: true,
    }
}

#[test]
fn image_placeholders_take_the_plans_ids_in_order() {
    let xml = "<a r:embed=\"rIdImgPlaceholder\"/><b r:embed=\"rIdImgPlaceholder\"/><c r:embed=\"rIdImgPlaceholder\"/>";
    let plans = vec![image_plan("image1.png", "rId6"), image_plan("image2.png", "rId7")];
    let out = substitute_image_placeholders(xml, &plans);
    assert_eq!(out, "<a r:embed=\"rId6\"/><b r:embed=\"rId7\"/><c r:embed=\"rIdImgPlaceholder\"/>");
}

#[test]
fn header_placeholders_take_the_plans_ids() {
    let xml = "<w:headerReference r:id=\"rIdHeaderPlaceholder_top\"/><x r:id=\"rIdHeaderPlaceholder_top\"/>";
    let plans = vec![header_plan("top", "header1", "rId8")];
    let out = substitute_hf_placeholders(xml, &plans);
    assert_eq!(out, "<w:headerReference r:id=\"rId8\"/><x r:id=\"rId8\"/>");
}

#[test]
fn replace_all_and_rfind_follow_str() {
    assert_eq!(replace_all("a-b-c", "-", "+"), "a+b+c");
    assert_eq!(replace_all("aaa", "aa", "b"), "ba");
    assert_eq!(rfind("x</T></T>", "</T>"), Some(5));
    assert_eq!(rfind("abc", "z"), None);
}

#[test]
fn image_rows_are_added_once_per_file_and_id() {
    let plans = vec![image_plan("image1.png", "rId6"), image_plan("image1.png", "rId6"), image_plan("image2.png", "rId7")];
    let ct = append_image_overrides("<Types>\n</Types>", &plans);
    assert_eq!(
        ct,
        "<Types>\n  <Override PartName=\"/word/media/image1.png\" ContentType=\"image/png\"/>\n  <Override PartName=\"/word/media/image2.png\" ContentType=\"image/png\"/>\n</Types>"
    );
    let rels = append_image_relationships("<Relationships></Relationships>", &plans);
    assert_eq!(rels.matches("<Relationship ").count(), 2);
    assert!(rels.contains("Id=\"rId7\" Type=\"http://schemas.openxmlformats.org/officeDocument/2006/relationships/image\" Target=\"media/image2.png\""));
    assert_eq!(append_image_overrides("<Types></Types>", &Vec::new()), "<Types></Types>");
    assert_eq!(append_image_overrides("no close", &plans), "no close");
}

#[test]
fn header_rows_name_the_part_with_its_extension() {
    let plans = vec![header_plan("top", "header1", "rId8")];
    let ct = append_hf_overrides("<Types></Types>", &plans);
    assert!(ct.contains("PartName=\"/word/header1.xml\" ContentType=\"application/vnd.openxmlformats-officedocument.wordprocessingml.header+xml\""));
    let rels = append_hf_relationships("<Relationships></Relationships>", &plans);
    assert!(rels.contains("<Relationship Id=\"rId8\" Type=\"http://schemas.openxmlformats.org/officeDocument/2006/relationships/header\" Target=\"header1.xml\"/>"));
}

#[test]
fn header_part_xml_holds_its_paragraphs_and_skips_markers() {
    let plan = header_plan("top", "header1", "rId8");
    let mut marker = WordParagraph::default();
    marker.text = "<__tbl_pos_t0__>".to_string();
    let part = match plan.part {
        HeaderFooterPart::Header(mut h) => {
            h.paragraphs.push(marker);
            HeaderFooterPart::Header(h)
        }
        other => other,
    };
    let xml = build_header_footer_xml(&part);
    assert!(xml.starts_with("<?xml version=\"1.0\" encoding=\"UTF-8\" standalone=\"yes\"?>\n<w:hdr "));
    assert!(xml.contains("<w:p><w:pPr><inkuo:id w:val=\"h1\"/></w:pPr><w:r><w:t xml:space=\"preserve\">Page header</w:t></w:r></w:p>"));
    assert!(!xml.contains("__tbl_pos_"));
    assert!(xml.ends_with("\n</w:hdr>"));
}

#[test]
fn numbering_is_needed_only_for_list_paragraphs() {
    let mut doc = WordDocument::default();
    doc.paragraphs.push(WordParagraph::default());
    assert!(!doc_has_numbering(&doc));
    let mut p = WordParagraph::default();
    p.numbering = Some(NumberingRef { num_id: 1, level: 0 });
    doc.paragraphs.push(p);
    assert!(doc_has_numbering(&doc));
}

#[test]
fn new_package_lists_generated_then_fixed_parts() {
    let doc = WordDocument::default();
    let entries = word_package_entries(&doc, None, &Vec::new()).expect("entries");
    let names: Vec<&str> = entries.iter().map(|e| e.name.as_str()).collect();
    assert_eq!(
        names,
        vec![
            "[Content_Types].xml",
            "_rels/.rels",
            "word/_rels/document.xml.rels",
            "word/document.xml",
            "word/styles.xml",
            "word/settings.xml",
            "word/fontTable.xml",
            "word/theme/theme1.xml",
        ]
    );
    assert!(entries.iter().all(|e| e.deflated));
}

#[test]
fn new_pictures_are_numbered_after_the_reserved_ids() {
    let mut doc = WordDocument::default();
    doc.images.push(WordImage { id: "p".to_string(), path: "/tmp/Photo.JPG".to_string(), width_emu: 1, height_emu: 2, internal_path: None });
    let entries = word_package_entries(&doc, None, &vec![Ok(vec![9, 9])]).expect("entries");
    assert_eq!(entries[0].name, "word/media/image1.jpeg");
    assert_eq!(entries[0].data, vec![9, 9]);
    let rels = String::from_utf8(entries.iter().find(|e| e.name == "word/_rels/document.xml.rels").unwrap().data.clone()).unwrap();
    assert!(rels.contains("Id=\"rId7\" Type=\"http://schemas.openxmlformats.org/officeDocument/2006/relationships/image\" Target=\"media/image1.jpeg\""));
}

#[test]
fn unsupported_or_unreadable_pictures_are_errors() {
    let mut doc = WordDocument::default();
    doc.images.push(WordImage { id: "p".to_string(), path: "/tmp/a.bmp".to_string(), width_emu: 1, height_emu: 2, internal_path: None });
    match word_package_entries(&doc, None, &vec![Ok(vec![])]) {
        Err(OfficeError::Xml(m)) => assert_eq!(m, "Unsupported image extension '.bmp'; supported: png, jpeg, jpg, gif"),
        _ => panic!("expected an error"),
    }
    doc.images[0].path = "/tmp/noext".to_string();
    match word_package_entries(&doc, None, &vec![Ok(vec![])]) {
        Err(OfficeError::Xml(m)) => assert_eq!(m, "Image '/tmp/noext' has no extension; supported: png, jpeg, jpg, gif"),
        _ => panic!("expected an error"),
    }
    doc.images[0].path = "/tmp/a.png".to_string();
    match word_package_entries(&doc, None, &vec![Err("gone".to_string())]) {
        Err(OfficeError::Xml(m)) => assert_eq!(m, "Failed to read image source '/tmp/a.png': gone"),
        _ => panic!("expected an error"),
    }
}

#[test]
fn preserved_package_keeps_its_other_parts() {
    let doc = WordDocument::default();
    let first = inkuo_office::docwrite::build_word_package(&doc, None, &Vec::new()).expect("first");
    let entries = word_package_entries(&doc, Some(&first), &Vec::new()).expect("entries");
    let names: Vec<&str> = entries.iter().map(|e| e.name.as_str()).collect();
    assert_eq!(
        names,
        vec![
            "word/styles.xml",
            "word/settings.xml",
            "word/fontTable.xml",
            "word/theme/theme1.xml",
            "[Content_Types].xml",
            "_rels/.rels",
            "word/_rels/document.xml.rels",
            "word/document.xml",
        ]
    );
}

#[test]
fn encoded_package_holds_its_entries() {
    let entries = vec![
        inkuo_office::package::PackageEntry { name: "a.txt".to_string(), data: b"alpha".to_vec(), deflated: true },
        inkuo_office::package::PackageEntry { name: "b/c.bin".to_string(), data: vec![0, 1, 2], deflated: false },
    ];
    let bytes = encode_package(&entries).expect("encodes");
    assert_eq!(inkuo_office::docread::read_zip_entry(&bytes, "a.txt").expect("a"), "alpha");
    match inkuo_office::docread::read_zip_entry(&bytes, "missing") {
        Err(OfficeError::Zip(m)) => assert_eq!(m, "specified file not found in archive"),
        _ => panic!("expected a ZIP error"),
    }
}

#[test]
fn relationship_scanners_read_ids_and_targets() {
    let rels = b"<R Id=\"rId3\" Target=\"media/image3.png\"/><R Id=\"rId4\" Target=\"styles.xml\"/>";
    assert_eq!(find_next_relationship_id(rels, 0), 3);
    assert_eq!(find_next_relationship_id(rels, 4), 43);
    assert_eq!(extract_media_target(b" Target=\"/word/media/image9.png\"/>"), Some("media/image9.png".to_string()));
    assert_eq!(extract_media_target(b" Target=\"styles.xml\"/>"), None);
    assert_eq!(
        extract_hf_target(b"Id=\"rId5\" Type=\"x/header\" Target=\"header1.xml\"/>"),
        Some(("rId5".to_string(), "header1.xml".to_string()))
    );
    assert_eq!(
        extract_hf_target(
            b" Id=\"rId7\" Type=\"http://schemas.openxmlformats.org/officeDocument/2006/relationships/header\" Target=\"header1.xml\"/>"
        ),
        Some(("rId7".to_string(), "header1.xml".to_string()))
    );
    assert_eq!(extract_hf_target(b"Id=\"rId2\" Type=\"x/styles\" Target=\"styles.xml\"/>"), None);
    assert_eq!(find_next_relationship_id(b"xId=\"", 0), 1);
    assert_eq!(find_next_relationship_id(b"a Id=\"rId1\" b Id=\"rId2\"", 3), 14);
    assert_eq!(parse_hf_basename_index("header3", true), Some(3));
    assert_eq!(parse_hf_basename_index("header3", false), None);
    assert_eq!(parse_hf_basename_index("footer12", false), Some(12));
}

#[test]
fn paths_split_like_std_path() {
    assert_eq!(file_stem("word/header2.xml"), Some("header2".to_string()));
    assert_eq!(file_stem(".hidden"), Some(".hidden".to_string()));
    assert_eq!(file_stem("a/.."), None);
    assert_eq!(extension("/tmp/Photo.JPG"), Some("JPG".to_string()));
    assert_eq!(extension("noext"), None);
    assert_eq!(ascii_lower("Photo.JPG"), "photo.jpg");
    assert_eq!(after_last("media/image1.png", '/'), "image1.png");
    assert_eq!(after_last("png", '.'), "png");
}

#[test]
fn fresh_image_state_and_preserved_header_relationships() {
    let (m, r, v) = scan_preserved_zip_for_image_state(None).ok().expect("state");
    assert_eq!((m, r, v.len()), (0, 6, 0));
    let rels = "<Relationships><Relationship Id=\"rId1\" Type=\"x/styles\" Target=\"styles.xml\"/><Relationship Id=\"rId8\" Type=\"http://schemas.openxmlformats.org/officeDocument/2006/relationships/header\" Target=\"header2.xml\"/><Relationship Id=\"rId9\" Type=\"http://schemas.openxmlformats.org/officeDocument/2006/relationships/footer\" Target=\"footer3.xml\"/></Relationships>";
    let pkg = encode_package(&vec![PackageEntry { name: "word/_rels/document.xml.rels".to_string(), data: rels.as_bytes().to_vec(), deflated: true }])
        .ok()
        .expect("package");
    let (max_rid, h, f, pres) = scan_preserved_hf_state(Some(&pkg)).ok().expect("scan");
    assert_eq!((max_rid, h, f), (9, 2, 3));
    assert_eq!(pres, vec![("rId8".to_string(), "header2".to_string()), ("rId9".to_string(), "footer3".to_string())]);
}

#[test]
fn supported_picture_files_are_recognised_by_extension() {
    use_picture_checks();
}

fn use_picture_checks() {
    use_fn(inkuo_office::docwrite::picture_file_supported);
}

fn use_fn(f: fn(&str) -> bool) {
    assert!(f("/tmp/a.PNG"));
    assert!(f("/tmp/a.jpg"));
    assert!(f("b.Gif"));
    assert!(!f("/tmp/a.bmp"));
    assert!(!f("/tmp/noext"));
}

#[test]
fn duplicate_entry_names_are_refused_by_the_archive_writer() {
    let e = |n: &str| PackageEntry { name: n.to_string(), data: vec![1], deflated: false };
    assert!(encode_package(&vec![e("a"), e("b")]).is_ok());
    assert!(encode_package(&vec![e("a"), e("a")]).is_err());
}
