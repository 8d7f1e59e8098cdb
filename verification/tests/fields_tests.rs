use inkuo_office::fields::{parse_date_format, parse_field_instr};
use inkuo_office::model::FieldRef;

#[test]
fn field_names_are_read_in_any_case() {
    assert!(matches!(parse_field_instr(" page "), Some(FieldRef::Page)));
    assert!(matches!(parse_field_instr("NumPages \\* MERGEFORMAT"), Some(FieldRef::NumPages)));
    assert!(matches!(parse_field_instr("SECTIONPAGES"), Some(FieldRef::SectionPages)));
    assert!(matches!(parse_field_instr("author"), Some(FieldRef::Author)));
    assert!(parse_field_instr("   ").is_none());
}

#[test]
fn date_and_filename_fields_keep_their_switches() {
    match parse_field_instr("date \\@ \"yyyy-MM-dd\"") {
        Some(FieldRef::Date { format }) => assert_eq!(format.as_deref(), Some("yyyy-MM-dd")),
        _ => panic!("a DATE field"),
    }
    match parse_field_instr("FILENAME \\p") {
        Some(FieldRef::Filename { with_ext }) => assert!(!with_ext),
        _ => panic!("a FILENAME field"),
    }
    match parse_field_instr("FILENAME") {
        Some(FieldRef::Filename { with_ext }) => assert!(with_ext),
        _ => panic!("a FILENAME field"),
    }
    assert_eq!(parse_date_format("\\@ \"HH:mm\""), Some("HH:mm".to_string()));
    assert_eq!(parse_date_format("\\@"), None);
}

#[test]
fn unknown_fields_are_kept_upper_cased() {
    match parse_field_instr("docproperty Department \\* MERGEFORMAT") {
        Some(FieldRef::Custom { instr }) => assert_eq!(instr, "DOCPROPERTY Department"),
        _ => panic!("a custom field"),
    }
}

#[test]
fn quoted_date_formats_are_taken_whole() {
    assert_eq!(parse_date_format("\\@ \"d MMMM yyyy\""), Some("d MMMM yyyy".to_string()));
    assert_eq!(parse_date_format("\\@ \"yyyy\" \\* MERGEFORMAT"), Some("yyyy".to_string()));
    assert_eq!(parse_date_format("\\@ yyyy-MM-dd"), Some("yyyy-MM-dd".to_string()));
    assert_eq!(parse_date_format(""), None);
}
