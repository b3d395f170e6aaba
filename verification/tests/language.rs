use nlp_dispatch::lang::{resolve_translation_languages, str_eq, SupportedLanguage};

#[test]
fn unknown_code_falls_back_to_english() {
    assert_eq!(SupportedLanguage::resolve("xx"), SupportedLanguage::resolve("en"));
    assert_eq!(SupportedLanguage::resolve("xx"), SupportedLanguage::En);
    assert_eq!(SupportedLanguage::resolve(""), SupportedLanguage::En);
    assert_eq!(SupportedLanguage::resolve("french"), SupportedLanguage::En);
}

#[test]
fn known_codes_resolve_exactly() {
    assert_eq!(SupportedLanguage::resolve("fr"), SupportedLanguage::Fr);
    assert_eq!(SupportedLanguage::resolve("hi"), SupportedLanguage::Hi);
    assert_eq!(SupportedLanguage::resolve("pt"), SupportedLanguage::Pt);
    assert_eq!(SupportedLanguage::resolve("en"), SupportedLanguage::En);
    assert_eq!(SupportedLanguage::resolve("de"), SupportedLanguage::De);
    assert_eq!(SupportedLanguage::resolve("nl"), SupportedLanguage::Nl);
}

#[test]
fn parsing_reports_unknown_codes() {
    assert!(SupportedLanguage::from_str("fr").is_ok());
    assert!(SupportedLanguage::from_str("zz").is_err());
    assert!(SupportedLanguage::from_str("FR").is_err());
}

#[test]
fn absent_source_defaults_to_english_not_target() {
    let (target, source) = resolve_translation_languages("fr", &None);
    assert_eq!(target, SupportedLanguage::Fr);
    assert_eq!(source, SupportedLanguage::En);
}

#[test]
fn given_source_is_resolved_independently() {
    let (target, source) = resolve_translation_languages("de", &Some(String::from("pt")));
    assert_eq!(target, SupportedLanguage::De);
    assert_eq!(source, SupportedLanguage::Pt);
    let (target2, source2) = resolve_translation_languages("de", &Some(String::from("zz")));
    assert_eq!(target2, SupportedLanguage::De);
    assert_eq!(source2, SupportedLanguage::En);
}

#[test]
fn string_equality_is_by_characters() {
    assert!(str_eq("abc", "abc"));
    assert!(!str_eq("abc", "abd"));
    assert!(!str_eq("abc", "ab"));
    assert!(str_eq("", ""));
    assert!(str_eq("\u{e9}t\u{e9}", "\u{e9}t\u{e9}"));
}
