//! Internationalization: locale tags, resource loading, per-locale
//! catalogs, and the translation resolver.

pub mod catalog;
pub mod laws;
pub mod loader;
pub mod tags;
pub mod translator;

use vstd::prelude::*;
use crate::i18n::catalog::args_model;
use crate::i18n::tags::{LangTag, parse_tag, tag_of};
use crate::i18n::translator::{SwitchError, Translator};

verus! {

/// Resolve a translation key, optionally `"file:key"`-shaped, with
/// optional arguments; a missing translation yields the key itself.
pub fn tr(t: &Translator, key: &str, args: Option<&Vec<(String, String)>>) -> (r: String)
    requires
        t.wf(),
    ensures
        r@ == t.spec_translate(
            key@,
            match args {
                Some(a) => args_model(a@),
                None => Map::empty(),
            },
        ),
{
    match args {
        Some(a) => t.translate(key, a),
        None => {
            let empty: Vec<(String, String)> = Vec::new();
            t.translate(key, &empty)
        },
    }
}

/// Switch the translator's current locale; fails, leaving everything
/// unchanged, exactly when the tag is not among the available locales.
pub fn switch_language(t: &mut Translator, lang: &LangTag) -> (r: Result<(), SwitchError>)
    ensures
        r is Ok <==> old(t).available.deep_view().contains(lang@),
        r is Ok ==> final(t).current_lang@ == lang@,
        final(t).catalogs == old(t).catalogs,
        final(t).available == old(t).available,
        final(t).default_lang == old(t).default_lang,
        r is Err ==> *final(t) == *old(t),
        old(t).wf() ==> final(t).wf(),
{
    t.set_language(lang)
}

/// How a configured language preference was applied at startup.
#[derive(PartialEq, Eq, Structural, Clone, Copy, Debug)]
pub enum PreferenceOutcome {
    /// The sentinel `"default"`: keep the detected locale.
    AutoDetected,
    /// The preference named an available locale, which is current now.
    Switched,
    /// The preference is not a well-formed locale tag.
    InvalidTag,
    /// The preference names a locale that is not available.
    Unavailable,
}

/// Apply the configured language preference: the sentinel `"default"`
/// keeps the detected locale; a malformed or unavailable tag is reported
/// and leaves the locale unchanged; an available tag becomes current.
pub fn apply_language_preference(t: &mut Translator, preference: &str) -> (r: PreferenceOutcome)
    ensures
        r is AutoDetected <==> preference@ == "default"@,
        r is InvalidTag <==> preference@ != "default"@ && tag_of(preference@) is None,
        r is Switched <==> preference@ != "default"@ && tag_of(preference@) is Some && old(
            t,
        ).available.deep_view().contains(tag_of(preference@)->Some_0),
        r is Unavailable <==> preference@ != "default"@ && tag_of(preference@) is Some && !old(
            t,
        ).available.deep_view().contains(tag_of(preference@)->Some_0),
        r is Switched ==> final(t).current_lang@ == tag_of(preference@)->Some_0,
        !(r is Switched) ==> *final(t) == *old(t),
        final(t).catalogs == old(t).catalogs,
        final(t).available == old(t).available,
        final(t).default_lang == old(t).default_lang,
        old(t).wf() ==> final(t).wf(),
{
    if crate::text::str_eq(preference, "default") {
        return PreferenceOutcome::AutoDetected;
    }
    match parse_tag(preference) {
        None => PreferenceOutcome::InvalidTag,
        Some(tag) => match t.set_language(&tag) {
            Ok(()) => PreferenceOutcome::Switched,
            Err(_) => PreferenceOutcome::Unavailable,
        },
    }
}

} // verus!
