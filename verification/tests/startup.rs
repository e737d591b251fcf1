//! Startup behavior: resource loading, initialization failures, the
//! configured language preference, and settings access.

use termcraft::config::{get, AppConfig};
use termcraft::i18n::apply_language_preference;
use termcraft::i18n::loader::{get_available_languages, load_translations, LoadError, ResourceEntry};
use termcraft::i18n::translator::{InitError, Translator};
use termcraft::i18n::PreferenceOutcome;

fn entry(locale: &str, name: &str, text: &str) -> ResourceEntry {
    ResourceEntry { locale: locale.to_string(), name: name.to_string(), text: text.to_string() }
}

fn sample_resources() -> Vec<ResourceEntry> {
    vec![
        entry("en", "main.ftl", "hi = Hi\n"),
        entry("zh", "main.ftl", "hi = Ni hao\n"),
        entry("en", "extra.ftl", "bye = Bye\n"),
    ]
}

#[test]
fn available_languages_in_first_appearance_order() {
    let resources = sample_resources();
    assert_eq!(get_available_languages(&resources), vec!["en".to_string(), "zh".to_string()]);
}

#[test]
fn load_translations_keeps_file_order() {
    let resources = sample_resources();
    let files = load_translations(&resources, "en").expect("en exists");
    assert_eq!(files.len(), 2);
    assert_eq!(files[0].name, "main.ftl");
    assert_eq!(files[0].text, "hi = Hi\n");
    assert_eq!(files[1].name, "extra.ftl");
}

#[test]
fn load_translations_unknown_locale_fails() {
    let resources = sample_resources();
    let result = load_translations(&resources, "fr");
    assert_eq!(result.unwrap_err(), LoadError::LanguageNotFound);
}

#[test]
fn missing_default_locale_fails_init() {
    let resources = vec![entry("zh", "main.ftl", "hi = Ni hao\n")];
    match Translator::new(&resources, &Vec::new()) {
        Err(InitError::DefaultLocaleMissing) => {},
        _ => panic!("expected the missing default locale to fail initialization"),
    }
}

#[test]
fn unparsable_resource_fails_init_naming_the_file() {
    let resources = vec![
        entry("en", "good.ftl", "hi = Hi\n"),
        entry("en", "bad.ftl", "=broken\n"),
    ];
    match Translator::new(&resources, &Vec::new()) {
        Err(InitError::ResourceParse { locale, file, detail }) => {
            assert_eq!(locale, "en");
            assert_eq!(file, "bad.ftl");
            assert!(!detail.is_empty());
        },
        _ => panic!("expected the malformed resource to fail initialization"),
    }
}

#[test]
fn literal_selector_selection_is_rejected() {
    // A selection on a literal parses, but the formatter cannot write an
    // error notation for it; loading must reject it up front.
    let resources = vec![
        entry("en", "good.ftl", "hi = Hi\n"),
        entry("en", "bad.ftl", "bad = { \"x\" ->\n   *[other] y\n}\n"),
    ];
    match Translator::new(&resources, &Vec::new()) {
        Err(InitError::ResourceParse { locale, file, .. }) => {
            assert_eq!(locale, "en");
            assert_eq!(file, "bad.ftl");
        },
        _ => panic!("expected the literal-selector selection to fail initialization"),
    }
}

#[test]
fn nested_placeable_is_rejected() {
    let resources = vec![
        entry("en", "bad.ftl", "bad = { { \"x\" } }\n"),
        entry("en", "good.ftl", "hi = Hi\n"),
    ];
    match Translator::new(&resources, &Vec::new()) {
        Err(InitError::ResourceParse { locale, file, .. }) => {
            assert_eq!(locale, "en");
            assert_eq!(file, "bad.ftl");
        },
        _ => panic!("expected the nested placeable to fail initialization"),
    }
}

#[test]
fn unparsable_locale_names_are_skipped() {
    let resources = vec![
        entry("en", "main.ftl", "hi = Hi\n"),
        entry("not a tag!", "main.ftl", "hi = ???\n"),
    ];
    let t = Translator::new(&resources, &Vec::new()).expect("builds without the bad locale");
    assert_eq!(t.available.len(), 1);
    assert_eq!(t.available[0].full, "en");
}

#[test]
fn preference_sentinel_keeps_detected_locale() {
    let mut t = Translator::new(&sample_resources(), &Vec::new()).expect("builds");
    let outcome = apply_language_preference(&mut t, "default");
    assert_eq!(outcome, PreferenceOutcome::AutoDetected);
    assert_eq!(t.current_language().full, "en");
}

#[test]
fn preference_invalid_tag_is_reported() {
    let mut t = Translator::new(&sample_resources(), &Vec::new()).expect("builds");
    let outcome = apply_language_preference(&mut t, "not a tag!");
    assert_eq!(outcome, PreferenceOutcome::InvalidTag);
    assert_eq!(t.current_language().full, "en");
}

#[test]
fn preference_unavailable_tag_is_reported() {
    let mut t = Translator::new(&sample_resources(), &Vec::new()).expect("builds");
    let outcome = apply_language_preference(&mut t, "fr");
    assert_eq!(outcome, PreferenceOutcome::Unavailable);
    assert_eq!(t.current_language().full, "en");
}

#[test]
fn preference_available_tag_switches() {
    let mut t = Translator::new(&sample_resources(), &Vec::new()).expect("builds");
    let outcome = apply_language_preference(&mut t, "zh");
    assert_eq!(outcome, PreferenceOutcome::Switched);
    assert_eq!(t.current_language().full, "zh");
    assert_eq!(t.translate("hi", &Vec::new()), "Ni hao");
}

#[test]
fn preference_normalizes_the_tag() {
    let mut t = Translator::new(&sample_resources(), &Vec::new()).expect("builds");
    let outcome = apply_language_preference(&mut t, "ZH");
    assert_eq!(outcome, PreferenceOutcome::Switched);
    assert_eq!(t.current_language().full, "zh");
}

#[test]
fn settings_are_read_back() {
    let slot = Some(AppConfig { debug: true, language: "zh".to_string() });
    let config = get(&slot);
    assert!(config.debug);
    assert_eq!(config.language, "zh");
}
