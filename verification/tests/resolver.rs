//! Resolution behavior: fallback order, namespacing, substitution,
//! overriding, and locale switching.

use termcraft::i18n::loader::ResourceEntry;
use termcraft::i18n::tags::LangTag;
use termcraft::i18n::translator::Translator;
use termcraft::i18n::{switch_language, tr};

fn entry(locale: &str, name: &str, text: &str) -> ResourceEntry {
    ResourceEntry { locale: locale.to_string(), name: name.to_string(), text: text.to_string() }
}

fn tag(full: &str, language: &str) -> LangTag {
    LangTag { full: full.to_string(), language: language.to_string() }
}

fn base_resources() -> Vec<ResourceEntry> {
    vec![
        entry("en", "about.ftl", "about = About TermCraft\nversion-text = Version { $version }\n"),
        entry("en", "cli.ftl", "error-command = Unknown command\n"),
        entry(
            "en",
            "main.ftl",
            "hello = Hello, { $name }!\nonly-en = Only English\ngreet = Hi (en)\n",
        ),
        entry("zh", "main.ftl", "greet = Hi (zh)\n"),
        entry("zh-CN", "main.ftl", "regional = Hi (zh-CN)\n"),
    ]
}

fn no_args() -> Vec<(String, String)> {
    Vec::new()
}

fn args(pairs: &[(&str, &str)]) -> Vec<(String, String)> {
    pairs.iter().map(|(k, v)| (k.to_string(), v.to_string())).collect()
}

fn new_translator(signals: &[&str]) -> Translator {
    let resources = base_resources();
    let signal_values: Vec<String> = signals.iter().map(|s| s.to_string()).collect();
    Translator::new(&resources, &signal_values).expect("translator builds")
}

#[test]
fn unknown_key_is_echoed() {
    let t = new_translator(&[]);
    assert_eq!(t.translate("missing-key", &no_args()), "missing-key");
    assert_eq!(t.translate("nosuchfile:missing-key", &no_args()), "nosuchfile:missing-key");
}

#[test]
fn default_locale_fallback_renders_default() {
    let mut t = new_translator(&[]);
    switch_language(&mut t, &tag("zh", "zh")).expect("zh is available");
    assert_eq!(t.translate("only-en", &no_args()), "Only English");
}

#[test]
fn exact_locale_wins_over_language_only() {
    // The signal names zh-CN exactly, and zh is also available: detection
    // must pick zh-CN, and a miss there falls back to the default (en),
    // never to zh.
    let t = new_translator(&["zh_CN.UTF-8"]);
    assert_eq!(t.current_language().full, "zh-CN");
    assert_eq!(t.translate("regional", &no_args()), "Hi (zh-CN)");
    assert_eq!(t.translate("greet", &no_args()), "Hi (en)");
}

#[test]
fn language_only_match_when_exact_is_missing() {
    let t = new_translator(&["zh_TW.UTF-8"]);
    assert_eq!(t.current_language().full, "zh");
    assert_eq!(t.translate("greet", &no_args()), "Hi (zh)");
}

#[test]
fn detection_falls_back_to_default() {
    let t = new_translator(&["fr_FR.UTF-8"]);
    assert_eq!(t.current_language().full, "en");
    let empty = new_translator(&[]);
    assert_eq!(empty.current_language().full, "en");
    let skips_empty = new_translator(&["", "zh_CN.UTF-8"]);
    assert_eq!(skips_empty.current_language().full, "zh-CN");
}

#[test]
fn namespace_hint_restricts_then_falls_through() {
    let t = new_translator(&[]);
    // A file named "about…" defines the key.
    assert_eq!(t.translate("about:about", &no_args()), "About TermCraft");
    // No "about…" file defines it, but the flat index of the same locale does.
    assert_eq!(t.translate("about:error-command", &no_args()), "Unknown command");
    // No file matches the hint at all: still the flat index.
    assert_eq!(t.translate("nosuch:about", &no_args()), "About TermCraft");
}

#[test]
fn switch_to_unavailable_keeps_locale() {
    let mut t = new_translator(&[]);
    let before = t.current_language();
    let result = switch_language(&mut t, &tag("fr", "fr"));
    assert!(result.is_err());
    assert_eq!(t.current_language().full, before.full);
    assert_eq!(t.current_language().language, before.language);
}

#[test]
fn switch_to_available_changes_catalog() {
    let mut t = new_translator(&[]);
    assert_eq!(t.translate("greet", &no_args()), "Hi (en)");
    switch_language(&mut t, &tag("zh", "zh")).expect("zh is available");
    assert_eq!(t.current_language().full, "zh");
    assert_eq!(t.translate("greet", &no_args()), "Hi (zh)");
}

#[test]
fn argument_substitution() {
    let t = new_translator(&[]);
    assert_eq!(t.translate("hello", &args(&[("name", "Alice")])), "Hello, Alice!");
    // Without the argument, formatting fails and resolution falls back —
    // here all the way to the key itself.
    assert_eq!(t.translate("hello", &no_args()), "hello");
}

#[test]
fn later_file_wins_on_key_collision() {
    let resources = vec![
        entry("en", "a.ftl", "greeting = First\n"),
        entry("en", "b.ftl", "greeting = Second\n"),
    ];
    let t1 = Translator::new(&resources, &Vec::new()).expect("builds");
    assert_eq!(t1.translate("greeting", &no_args()), "Second");
    // A repeated load of the same resource set resolves identically.
    let t2 = Translator::new(&resources, &Vec::new()).expect("builds");
    assert_eq!(t2.translate("greeting", &no_args()), "Second");
    // With the file order reversed, the other file is the later one.
    let reversed = vec![
        entry("en", "b.ftl", "greeting = Second\n"),
        entry("en", "a.ftl", "greeting = First\n"),
    ];
    let t3 = Translator::new(&reversed, &Vec::new()).expect("builds");
    assert_eq!(t3.translate("greeting", &no_args()), "First");
}

#[test]
fn end_to_end_namespaced_default_fallback() {
    let resources = vec![
        entry("en", "termcraft.ftl", "about = TermCraft, a terminal toolbox\n"),
        entry("en", "main.ftl", "hi = Hi\n"),
        entry("zh", "main.ftl", "hi = Ni hao\n"),
    ];
    let mut t = Translator::new(&resources, &Vec::new()).expect("builds");
    switch_language(&mut t, &tag("zh", "zh")).expect("zh is available");
    assert_eq!(t.translate("termcraft:about", &no_args()), "TermCraft, a terminal toolbox");
}

#[test]
fn tr_with_and_without_args() {
    let t = new_translator(&[]);
    let named = args(&[("name", "Bob")]);
    assert_eq!(tr(&t, "hello", Some(&named)), "Hello, Bob!");
    assert_eq!(tr(&t, "only-en", None), "Only English");
    assert_eq!(tr(&t, "missing", None), "missing");
}

#[test]
fn selection_on_a_variable_picks_the_variant() {
    let resources = vec![entry(
        "en",
        "main.ftl",
        "items = { $count ->\n    [one] one item\n   *[other] many items\n}\n",
    )];
    let t = Translator::new(&resources, &Vec::new()).expect("builds");
    assert_eq!(t.translate("items", &args(&[("count", "one")])), "one item");
    assert_eq!(t.translate("items", &args(&[("count", "42")])), "many items");
}

#[test]
fn later_argument_overrides_earlier() {
    let t = new_translator(&[]);
    let doubled = args(&[("name", "Alice"), ("name", "Bob")]);
    assert_eq!(t.translate("hello", &doubled), "Hello, Bob!");
}
