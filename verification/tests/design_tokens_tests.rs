use inkuo_office::design_tokens::{default_palette, DesignTokens};

#[test]
fn default_palette_matches_design_doc() {
    let p = default_palette();
    assert_eq!(p.primary, "213B32");
    assert_eq!(p.secondary, "2E7D5B");
    assert_eq!(p.accent, "B8893E");
    assert_eq!(p.text, "2A2A2A");
}

#[test]
fn font_size_lookup_is_consistent() {
    let t = DesignTokens::default();
    assert_eq!(t.font_size_hp("h1"), Some(40));
    assert_eq!(t.font_size_hp("body"), Some(20));
    assert!(t.font_size_hp("not_a_real_slot").is_none());
}
