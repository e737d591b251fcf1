//! Locale tags: a canonical language(-region) identifier and its
//! language-only projection, used for exact-then-language-only matching.

use vstd::prelude::*;

verus! {

/// Mathematical view of a locale tag: the whole canonical tag and its
/// language subtag alone.
pub ghost struct TagView {
    pub full: Seq<char>,
    pub language: Seq<char>,
}

/// A locale tag in canonical form, as the tag parser yields it: `full` is
/// the whole canonical tag (for example `"zh-CN"`), `language` its language
/// subtag alone (`"zh"`).  Equality of tags is equality of both parts.
pub struct LangTag {
    pub full: String,
    pub language: String,
}

impl View for LangTag {
    type V = TagView;

    open spec fn view(&self) -> TagView {
        TagView { full: self.full@, language: self.language@ }
    }
}

impl DeepView for LangTag {
    type V = TagView;

    open spec fn deep_view(&self) -> TagView {
        self@
    }
}

impl Clone for LangTag {
    fn clone(&self) -> (r: Self)
        ensures
            r@ == self@,
    {
        LangTag { full: self.full.clone(), language: self.language.clone() }
    }
}

/// The language-only projection of a tag: drop everything but the language
/// subtag, so `"zh-CN"` projects to `"zh"`.
pub open spec fn spec_language_only(t: TagView) -> TagView {
    TagView { full: t.language, language: t.language }
}

impl LangTag {
    /// Drop the region part: `"zh-CN"` projects to `"zh"`.
    pub fn language_only(&self) -> (r: LangTag)
        ensures
            r@ == spec_language_only(self@),
    {
        LangTag { full: self.language.clone(), language: self.language.clone() }
    }

    /// Exact-tag equality.
    pub fn same_tag(&self, other: &LangTag) -> (r: bool)
        ensures
            r == (self@ == other@),
    {
        self.full == other.full && self.language == other.language
    }
}

/// The default locale: English.
pub fn english() -> (r: LangTag)
    ensures
        r@.full == "en"@,
        r@.language == "en"@,
{
    LangTag { full: String::from_str("en"), language: String::from_str("en") }
}

/// What the tag parser yields on a given input: the canonical tag and its
/// language subtag for a well-formed tag, nothing otherwise.  The outcome
/// depends on the input characters alone.
pub uninterp spec fn tag_of(s: Seq<char>) -> Option<TagView>;

/// Relies on `unic_langid::LanguageIdentifier`: its `FromStr` either parses
/// and canonicalizes the tag or fails, depending on the input alone; its
/// serialization writes the canonical tag back out, starting with the
/// language subtag, and that canonical form parses back to the same tag.
#[verifier::external_body]
pub(crate) fn parse_tag(s: &str) -> (r: Option<LangTag>)
    ensures
        match r {
            Some(t) => tag_of(s@) == Some(t@) && tag_of(t@.full) == Some(t@),
            None => tag_of(s@) is None,
        },
{
    match s.parse::<unic_langid::LanguageIdentifier>() {
        Ok(id) => Some(
            LangTag { full: id.to_string(), language: id.language.as_str().to_string() },
        ),
        Err(_) => None,
    }
}

} // verus!
