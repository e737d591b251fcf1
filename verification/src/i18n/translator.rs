//! The translation resolver: per-locale catalogs, a default and a current
//! locale, locale detection, and key resolution with fallback.

use vstd::prelude::*;
use crate::i18n::tags::{LangTag, TagView, spec_language_only, tag_of, parse_tag, english};
use crate::i18n::catalog::{
    Catalog, build_catalog, args_model, all_parse, texts_of, ftl_messages,
};
use crate::i18n::loader::{
    ResourceEntry, FileView, locales_of, files_of, has_locale, get_available_languages,
    load_translations, lemma_locales_of_complete,
};
use crate::text::{has_char, first_index, find_char, push_char};

verus! {

/// The namespace hint of a lookup key: the part before the first `:`, when
/// there is one.
pub open spec fn spec_hint_of(key: Seq<char>) -> Option<Seq<char>> {
    if has_char(key, ':') {
        Some(key.take(first_index(key, ':')))
    } else {
        None
    }
}

/// The part of a lookup key that is looked up: what follows the first `:`,
/// or the whole key when there is none.
pub open spec fn spec_lookup_key_of(key: Seq<char>) -> Seq<char> {
    if has_char(key, ':') {
        key.skip(first_index(key, ':') + 1)
    } else {
        key
    }
}

/// The view of the English tag, the fixed default locale.
pub open spec fn spec_english() -> TagView {
    TagView { full: "en"@, language: "en"@ }
}

/// The translation resolver.  Catalogs are built once and never change;
/// the current locale is the only mutable part.
pub struct Translator {
    pub catalogs: Vec<Catalog>,
    pub available: Vec<LangTag>,
    pub default_lang: LangTag,
    pub current_lang: LangTag,
}

impl Translator {
    /// Is `t` the tag of one of the loaded catalogs?
    pub open spec fn has_tag(self, t: TagView) -> bool {
        exists|i: int| 0 <= i < self.catalogs@.len() && self.catalogs@[i].tag@ == t
    }

    /// The position of the catalog with tag `t`; meaningful only when
    /// `has_tag(t)` holds (and unique when the translator is well-formed).
    pub open spec fn idx_of(self, t: TagView) -> int {
        choose|i: int| 0 <= i < self.catalogs@.len() && self.catalogs@[i].tag@ == t
    }

    /// The catalog with tag `t`.
    pub open spec fn catalog_of(self, t: TagView) -> Catalog {
        self.catalogs@[self.idx_of(t)]
    }

    /// Well-formed: every catalog hangs together, catalog tags are
    /// distinct, `available` lists exactly the catalog tags, and the
    /// default and current locales are available.
    pub open spec fn wf(self) -> bool {
        &&& forall|i: int| 0 <= i < self.catalogs@.len() ==> (#[trigger] self.catalogs@[i]).wf()
        &&& forall|i: int, j: int|
            0 <= i < j < self.catalogs@.len() ==> (#[trigger] self.catalogs@[i].tag@) != (
            #[trigger] self.catalogs@[j].tag@)
        &&& self.available@.len() == self.catalogs@.len()
        &&& forall|i: int|
            0 <= i < self.catalogs@.len() ==> (#[trigger] self.available@[i]@)
                == self.catalogs@[i].tag@
        &&& self.has_tag(self.default_lang@)
        &&& self.has_tag(self.current_lang@)
    }

    /// What resolution yields: the current locale's attempt, then — when
    /// the current locale differs from the default — the default locale's
    /// attempt, then the key itself.
    pub open spec fn spec_translate(self, key: Seq<char>, args: Map<Seq<char>, Seq<char>>) -> Seq<
        char,
    > {
        let hint = spec_hint_of(key);
        let k = spec_lookup_key_of(key);
        match self.catalog_of(self.current_lang@).spec_attempt(hint, k, args) {
            Some(out) => out,
            None => if self.current_lang@ == self.default_lang@ {
                key
            } else {
                match self.catalog_of(self.default_lang@).spec_attempt(hint, k, args) {
                    Some(out) => out,
                    None => key,
                }
            },
        }
    }

    /// The catalog of an available tag.
    fn find_catalog(&self, tag: &LangTag) -> (r: &Catalog)
        requires
            self.wf(),
            self.has_tag(tag@),
        ensures
            *r == self.catalog_of(tag@),
    {
        let mut i: usize = 0;
        while i < self.catalogs.len()
            invariant
                self.wf(),
                self.has_tag(tag@),
                i <= self.catalogs@.len(),
                forall|j: int| 0 <= j < i ==> (#[trigger] self.catalogs@[j].tag@) != tag@,
            decreases self.catalogs@.len() - i,
        {
            if self.catalogs[i].tag.same_tag(tag) {
                proof {
                    let w = self.idx_of(tag@);
                    assert(0 <= w < self.catalogs@.len() && self.catalogs@[w].tag@ == tag@);
                    if w < i as int {
                        assert(self.catalogs@[w].tag@ != tag@);
                    }
                    if (i as int) < w {
                        assert(self.catalogs@[i as int].tag@ != self.catalogs@[w].tag@);
                    }
                }
                return &self.catalogs[i];
            }
            i += 1;
        }
        proof {
            let w = self.idx_of(tag@);
            assert(self.catalogs@[w].tag@ == tag@);
            assert(false);
        }
        unreached()
    }

    /// Resolve `key` (optionally `"file:key"`-shaped) with `args`.  Never
    /// fails: when no pattern resolves, the key itself comes back.
    pub fn translate(&self, key: &str, args: &Vec<(String, String)>) -> (r: String)
        requires
            self.wf(),
        ensures
            r@ == self.spec_translate(key@, args_model(args@)),
    {
        let n = key.unicode_len();
        let (hint, k): (Option<&str>, &str) = match find_char(key, ':') {
            Some(i) => (Some(key.substring_char(0, i)), key.substring_char(i + 1, n)),
            None => (None, key),
        };
        proof {
            assert(hint.deep_view() == spec_hint_of(key@));
            assert(k@ == spec_lookup_key_of(key@));
        }
        let current = self.find_catalog(&self.current_lang);
        if let Some(out) = current.attempt(hint, k, args) {
            return out;
        }
        if self.current_lang.same_tag(&self.default_lang) {
            return key.to_owned();
        }
        let default = self.find_catalog(&self.default_lang);
        if let Some(out) = default.attempt(hint, k, args) {
            return out;
        }
        key.to_owned()
    }

    /// The locale lookups currently use.
    pub fn current_language(&self) -> (r: LangTag)
        ensures
            r@ == self.current_lang@,
    {
        self.current_lang.clone()
    }

    /// Switch the current locale.  Fails, leaving everything untouched,
    /// exactly when the tag is not among the available locales.
    pub fn set_language(&mut self, lang: &LangTag) -> (r: Result<(), SwitchError>)
        ensures
            r is Ok <==> old(self).available.deep_view().contains(lang@),
            r is Ok ==> final(self).current_lang@ == lang@,
            final(self).catalogs == old(self).catalogs,
            final(self).available == old(self).available,
            final(self).default_lang == old(self).default_lang,
            r is Err ==> *final(self) == *old(self),
            old(self).wf() ==> final(self).wf(),
    {
        if contains_tag(&self.available, lang) {
            proof {
                let w = choose|w: int|
                    0 <= w < self.available.deep_view().len() && self.available.deep_view()[w]
                        == lang@;
                if self.wf() {
                    assert(self.catalogs@[w].tag@ == self.available@[w]@);
                }
            }
            self.current_lang = lang.clone();
            Ok(())
        } else {
            Err(SwitchError::LocaleUnavailable)
        }
    }
}

/// Failure of a locale switch.
#[derive(PartialEq, Eq, Structural, Clone, Copy, Debug)]
pub enum SwitchError {
    /// The requested locale is not among the available ones.
    LocaleUnavailable,
}

/// The first non-empty environment signal, if any.
pub open spec fn spec_first_signal(signals: Seq<Seq<char>>) -> Option<Seq<char>>
    decreases signals.len(),
{
    if signals.len() == 0 {
        None
    } else if signals.first().len() > 0 {
        Some(signals.first())
    } else {
        spec_first_signal(signals.drop_first())
    }
}

/// An environment value with separators normalized: `'_'` becomes `'-'`.
pub open spec fn spec_normalized(s: Seq<char>) -> Seq<char> {
    s.map_values(|c: char| if c == '_' { '-' } else { c })
}

/// An environment value cleaned for parsing: everything from the first
/// `'.'` on (an encoding suffix) is dropped, separators are normalized, so
/// `"zh_CN.UTF-8"` cleans to `"zh-CN"`.
pub open spec fn spec_clean(v: Seq<char>) -> Seq<char> {
    if has_char(v, '.') {
        spec_normalized(v.take(first_index(v, '.')))
    } else {
        spec_normalized(v)
    }
}

/// The detected startup locale: the first non-empty signal is cleaned and
/// parsed; an exact match among the available tags wins, else a
/// language-only match, else the default.
pub open spec fn spec_detect(
    signals: Seq<Seq<char>>,
    available: Seq<TagView>,
    default: TagView,
) -> TagView {
    match spec_first_signal(signals) {
        None => default,
        Some(v) => match tag_of(spec_clean(v)) {
            None => default,
            Some(t) => if available.contains(t) {
                t
            } else if available.contains(spec_language_only(t)) {
                spec_language_only(t)
            } else {
                default
            },
        },
    }
}

/// Skipping empty signals does not change which signal is the first
/// non-empty one.
proof fn lemma_first_signal_skip(signals: Seq<Seq<char>>, i: int)
    requires
        0 <= i <= signals.len(),
        forall|j: int| 0 <= j < i ==> signals[j].len() == 0,
    ensures
        spec_first_signal(signals) == spec_first_signal(signals.skip(i)),
    decreases i,
{
    if i > 0 {
        assert(signals.first().len() == 0);
        assert(signals.drop_first() =~= signals.skip(1));
        assert(forall|j: int| 0 <= j < i - 1 ==> signals.skip(1)[j].len() == 0);
        lemma_first_signal_skip(signals.skip(1), i - 1);
        assert(signals.skip(1).skip(i - 1) =~= signals.skip(i));
    } else {
        assert(signals.skip(0) =~= signals);
    }
}

/// Clean one environment value: drop an encoding suffix, normalize
/// separators.
fn clean_signal(v: &str) -> (r: String)
    ensures
        r@ == spec_clean(v@),
{
    let n = v.unicode_len();
    let stop = match find_char(v, '.') {
        Some(i) => i,
        None => n,
    };
    let mut out = String::new();
    let mut i: usize = 0;
    while i < stop
        invariant
            i <= stop,
            stop <= n,
            n == v@.len(),
            stop as int == (if has_char(v@, '.') {
                first_index(v@, '.')
            } else {
                n as int
            }),
            out@ == spec_normalized(v@.take(i as int)),
        decreases stop - i,
    {
        let c = v.get_char(i);
        if c == '_' {
            push_char(&mut out, '-');
        } else {
            push_char(&mut out, c);
        }
        proof {
            assert(out@ =~= spec_normalized(v@.take(i + 1)));
        }
        i += 1;
    }
    proof {
        if !has_char(v@, '.') {
            assert(v@.take(n as int) =~= v@);
        }
    }
    out
}

impl Translator {
    /// Pick the startup locale from environment signals, first non-empty
    /// first: clean it, parse it, then match it against the available tags
    /// exactly, then language-only, then fall back to the default.
    pub fn detect_user_language(
        signals: &Vec<String>,
        available: &Vec<LangTag>,
        default: &LangTag,
    ) -> (r: LangTag)
        ensures
            r@ == spec_detect(signals.deep_view(), available.deep_view(), default@),
    {
        let mut i: usize = 0;
        while i < signals.len()
            invariant
                i <= signals.len(),
                forall|j: int| 0 <= j < i ==> signals.deep_view()[j].len() == 0,
            decreases signals.len() - i,
        {
            if !signals[i].as_str().is_empty() {
                proof {
                    lemma_first_signal_skip(signals.deep_view(), i as int);
                    let ii = i as int;
                    assert(signals.deep_view().skip(ii).first() == signals.deep_view()[ii]);
                }
                let cleaned = clean_signal(signals[i].as_str());
                return match parse_tag(cleaned.as_str()) {
                    None => default.clone(),
                    Some(t) => {
                        if contains_tag(available, &t) {
                            t
                        } else {
                            let lo = t.language_only();
                            if contains_tag(available, &lo) {
                                lo
                            } else {
                                default.clone()
                            }
                        }
                    },
                };
            }
            assert(signals.deep_view()[i as int] == signals@[i as int]@);
            i += 1;
        }
        proof {
            lemma_first_signal_skip(signals.deep_view(), signals.deep_view().len() as int);
        }
        default.clone()
    }
}

/// Does some pair of `ps` carry the tag `t`?
pub open spec fn pairs_have_tag(ps: Seq<(Seq<char>, TagView)>, t: TagView) -> bool {
    exists|i: int| 0 <= i < ps.len() && ps[i].1 == t
}

/// The locale names that parse as tags, paired with their tags, keeping
/// only the first name of each tag.
pub open spec fn spec_parsed_locales(codes: Seq<Seq<char>>) -> Seq<(Seq<char>, TagView)>
    decreases codes.len(),
{
    if codes.len() == 0 {
        Seq::empty()
    } else {
        let prev = spec_parsed_locales(codes.drop_last());
        match tag_of(codes.last()) {
            Some(t) => if pairs_have_tag(prev, t) {
                prev
            } else {
                prev.push((codes.last(), t))
            },
            None => prev,
        }
    }
}

/// The parsed locales carry distinct tags, and their names come from the
/// name list.
pub proof fn lemma_parsed_locales(codes: Seq<Seq<char>>)
    ensures
        forall|i: int|
            0 <= i < spec_parsed_locales(codes).len() ==> codes.contains(
                (#[trigger] spec_parsed_locales(codes)[i]).0,
            ),
        forall|i: int, j: int|
            0 <= i < j < spec_parsed_locales(codes).len() ==> (#[trigger] spec_parsed_locales(
                codes,
            )[i]).1 != (#[trigger] spec_parsed_locales(codes)[j]).1,
    decreases codes.len(),
{
    if codes.len() > 0 {
        let prev = spec_parsed_locales(codes.drop_last());
        let cur = spec_parsed_locales(codes);
        lemma_parsed_locales(codes.drop_last());
        assert(forall|i: int|
            0 <= i < prev.len() && codes.drop_last().contains((#[trigger] prev[i]).0)
                ==> codes.contains(prev[i].0)) by {
            assert(forall|x: Seq<char>|
                codes.drop_last().contains(x) ==> #[trigger] codes.contains(x)) by {
                assert forall|x: Seq<char>|
                    codes.drop_last().contains(x) implies #[trigger] codes.contains(x) by {
                    let w = choose|w: int|
                        0 <= w < codes.drop_last().len() && codes.drop_last()[w] == x;
                    assert(codes[w] == x);
                }
            }
        }
        if cur.len() > prev.len() {
            assert(cur.last().0 == codes.last());
            assert(codes[codes.len() - 1] == codes.last());
            let t = cur.last().1;
            assert(!pairs_have_tag(prev, t));
            assert(forall|i: int| 0 <= i < prev.len() ==> (#[trigger] prev[i]).1 != t);
            assert(forall|i: int| 0 <= i < prev.len() ==> cur[i] == prev[i]);
        }
    }
}

/// The (name, tag) pairs of the locales a resource set provides.
pub open spec fn spec_available_pairs(rs: Seq<ResourceEntry>) -> Seq<(Seq<char>, TagView)> {
    spec_parsed_locales(locales_of(rs))
}

/// Does the resource set provide the default (English) locale?
pub open spec fn spec_default_present(rs: Seq<ResourceEntry>) -> bool {
    pairs_have_tag(spec_available_pairs(rs), spec_english())
}

/// Do all resource files of all provided locales parse?
pub open spec fn spec_all_sources_parse(rs: Seq<ResourceEntry>) -> bool {
    forall|i: int|
        0 <= i < spec_available_pairs(rs).len() ==> all_parse(
            files_of(rs, (#[trigger] spec_available_pairs(rs)[i]).0),
        )
}

/// Does `idx` index exactly the files `files`, with each file's parsed
/// message keys?
pub open spec fn index_matches(
    files: Seq<FileView>,
    idx: Seq<crate::i18n::catalog::FileKeysView>,
) -> bool {
    idx.len() == files.len() && forall|j: int|
        0 <= j < files.len() ==> (#[trigger] idx[j]).name == files[j].name && Some(idx[j].keys)
            == ftl_messages(files[j].text)
}

/// Is `name` the first file of `files` that does not parse?
pub open spec fn first_failure_in(files: Seq<FileView>, name: Seq<char>) -> bool {
    exists|j: int|
        0 <= j < files.len() && name == (#[trigger] files[j]).name && ftl_messages(files[j].text)
            is None && (forall|k: int| 0 <= k < j ==> ftl_messages(files[k].text) is Some)
}

/// Does the failure report name the first file of the first locale that
/// does not parse?
pub open spec fn names_first_failure(
    rs: Seq<ResourceEntry>,
    locale: Seq<char>,
    file: Seq<char>,
) -> bool {
    exists|i: int|
        0 <= i < spec_available_pairs(rs).len() && locale == (#[trigger] spec_available_pairs(
            rs,
        )[i]).0 && (forall|j: int|
            0 <= j < i ==> all_parse(files_of(rs, spec_available_pairs(rs)[j].0)))
            && first_failure_in(files_of(rs, locale), file)
}

/// Everything that can go wrong while building a translator.
#[derive(Debug)]
pub enum InitError {
    /// No resources exist for the default locale.
    DefaultLocaleMissing,
    /// A resource file of one locale failed to parse.
    ResourceParse { locale: String, file: String, detail: String },
}

impl Translator {
    /// Build a translator from the embedded resource set and the
    /// environment signals: enumerate the locales, parse their names into
    /// tags, build one catalog per locale, and detect the startup locale.
    /// Fails when the default (English) locale is missing or a resource
    /// file does not parse; the failure names the first offending file.
    pub fn new(resources: &Vec<ResourceEntry>, signals: &Vec<String>) -> (r: Result<
        Translator,
        InitError,
    >)
        ensures
            r is Ok <==> spec_default_present(resources@) && spec_all_sources_parse(resources@),
            r matches Ok(t) ==> t.wf() && t.default_lang@ == spec_english() && t.catalogs@.len()
                == spec_available_pairs(resources@).len() && (forall|i: int|
                0 <= i < t.catalogs@.len() ==> (#[trigger] t.catalogs@[i]).tag@
                    == spec_available_pairs(resources@)[i].1 && t.catalogs@[i].sources()
                    == texts_of(files_of(resources@, spec_available_pairs(resources@)[i].0))
                    && index_matches(
                    files_of(resources@, spec_available_pairs(resources@)[i].0),
                    t.catalogs@[i].files.deep_view(),
                )) && t.current_lang@ == spec_detect(
                signals.deep_view(),
                t.available.deep_view(),
                spec_english(),
            ),
            r matches Err(e) ==> (e is DefaultLocaleMissing <==> !spec_default_present(
                resources@,
            )),
            r matches Err(InitError::ResourceParse { locale, file, .. })
                ==> names_first_failure(resources@, locale@, file@),
    {
        let codes = get_available_languages(resources);
        let ghost all_pairs = spec_parsed_locales(codes.deep_view());
        proof {
            lemma_parsed_locales(codes.deep_view());
        }
        let mut pair_codes: Vec<String> = Vec::new();
        let mut tags: Vec<LangTag> = Vec::new();
        let mut ci: usize = 0;
        while ci < codes.len()
            invariant
                ci <= codes.len(),
                tags.deep_view().len() == spec_parsed_locales(
                    codes.deep_view().take(ci as int),
                ).len(),
                pair_codes.deep_view().len() == tags.deep_view().len(),
                forall|j: int|
                    0 <= j < tags.deep_view().len() ==> (#[trigger] tags.deep_view()[j])
                        == spec_parsed_locales(codes.deep_view().take(ci as int))[j].1,
                forall|j: int|
                    0 <= j < tags.deep_view().len() ==> (#[trigger] pair_codes.deep_view()[j])
                        == spec_parsed_locales(codes.deep_view().take(ci as int))[j].0,
                forall|j: int|
                    0 <= j < tags.deep_view().len() ==> tag_of(
                        (#[trigger] tags.deep_view()[j]).full,
                    ) == Some(tags.deep_view()[j]),
            decreases codes.len() - ci,
        {
            proof {
                assert(codes.deep_view().take(ci + 1).drop_last() =~= codes.deep_view().take(
                    ci as int,
                ));
                assert(codes.deep_view().take(ci + 1).last() == codes.deep_view()[ci as int]);
            }
            let ghost prev = spec_parsed_locales(codes.deep_view().take(ci as int));
            let ghost cur = spec_parsed_locales(codes.deep_view().take(ci + 1));
            let ghost tags0 = tags.deep_view();
            let ghost codes0 = pair_codes.deep_view();
            proof {
                assert(codes.deep_view()[ci as int] == codes@[ci as int]@);
            }
            match parse_tag(codes[ci].as_str()) {
                Some(t) => {
                    let seen = contains_tag(&tags, &t);
                    proof {
                        assert(seen == pairs_have_tag(prev, t@)) by {
                            if seen {
                                let w = choose|w: int| 0 <= w < tags0.len() && tags0[w] == t@;
                                assert(tags0[w] == prev[w].1);
                            }
                            if pairs_have_tag(prev, t@) {
                                let w = choose|w: int| 0 <= w < prev.len() && prev[w].1 == t@;
                                assert(tags0[w] == prev[w].1);
                                assert(tags0.contains(t@));
                            }
                        }
                    }
                    if !seen {
                        pair_codes.push(codes[ci].clone());
                        tags.push(t);
                        proof {
                            assert(cur == prev.push((codes.deep_view()[ci as int], t@)));
                            assert(tags.deep_view() =~= tags0.push(t@));
                            assert(pair_codes.deep_view() =~= codes0.push(
                                codes.deep_view()[ci as int],
                            ));
                            assert forall|j: int| 0 <= j < tags.deep_view().len() implies (
                            #[trigger] tags.deep_view()[j]) == cur[j].1 by {
                                if j < prev.len() {
                                    assert(cur[j] == prev[j]);
                                    assert(tags.deep_view()[j] == tags0[j]);
                                }
                            }
                            assert forall|j: int| 0 <= j < tags.deep_view().len() implies (
                            #[trigger] pair_codes.deep_view()[j]) == cur[j].0 by {
                                if j < prev.len() {
                                    assert(cur[j] == prev[j]);
                                    assert(pair_codes.deep_view()[j] == codes0[j]);
                                }
                            }
                            assert forall|j: int| 0 <= j < tags.deep_view().len() implies tag_of(
                                (#[trigger] tags.deep_view()[j]).full,
                            ) == Some(tags.deep_view()[j]) by {
                                if j < prev.len() {
                                    assert(tags.deep_view()[j] == tags0[j]);
                                }
                            }
                        }
                    } else {
                        proof {
                            assert(cur == prev);
                        }
                    }
                },
                None => {
                    proof {
                        assert(cur == prev);
                    }
                },
            }
            ci += 1;
        }
        proof {
            assert(codes.deep_view().take(codes.deep_view().len() as int) =~= codes.deep_view());
            assert(all_pairs == spec_available_pairs(resources@));
        }
        let en = english();
        proof {
            assert(en@ == spec_english());
        }
        let present = contains_tag(&tags, &en);
        proof {
            if present {
                let w = choose|w: int|
                    0 <= w < tags.deep_view().len() && tags.deep_view()[w] == en@;
                assert(tags.deep_view()[w] == en@);
                assert(all_pairs[w].1 == en@);
                assert(pairs_have_tag(all_pairs, spec_english()));
            }
            if pairs_have_tag(all_pairs, spec_english()) {
                let w = choose|w: int| 0 <= w < all_pairs.len() && all_pairs[w].1 == spec_english();
                assert(tags.deep_view()[w] == all_pairs[w].1);
                assert(tags.deep_view().contains(en@));
            }
        }
        if !present {
            return Err(InitError::DefaultLocaleMissing);
        }
        let mut catalogs: Vec<Catalog> = Vec::new();
        let mut li: usize = 0;
        while li < tags.len()
            invariant
                li <= tags.len(),
                spec_default_present(resources@),
                all_pairs == spec_available_pairs(resources@),
                codes.deep_view() == locales_of(resources@),
                tags.deep_view().len() == all_pairs.len(),
                pair_codes.deep_view().len() == all_pairs.len(),
                forall|j: int|
                    0 <= j < all_pairs.len() ==> (#[trigger] tags.deep_view()[j]) == all_pairs[j].1,
                forall|j: int|
                    0 <= j < all_pairs.len() ==> (#[trigger] pair_codes.deep_view()[j])
                        == all_pairs[j].0,
                forall|j: int|
                    0 <= j < all_pairs.len() ==> tag_of((#[trigger] tags.deep_view()[j]).full)
                        == Some(tags.deep_view()[j]),
                catalogs@.len() == li,
                forall|j: int|
                    0 <= j < li ==> (#[trigger] catalogs@[j]).wf() && catalogs@[j].tag@
                        == all_pairs[j].1 && catalogs@[j].sources() == texts_of(
                        files_of(resources@, all_pairs[j].0),
                    ) && index_matches(
                        files_of(resources@, all_pairs[j].0),
                        catalogs@[j].files.deep_view(),
                    ) && all_parse(files_of(resources@, all_pairs[j].0)),
            decreases tags.len() - li,
        {
            let ghost code = all_pairs[li as int].0;
            proof {
                lemma_parsed_locales(codes.deep_view());
                assert(pair_codes.deep_view()[li as int] == code);
                assert(pair_codes.deep_view()[li as int] == pair_codes@[li as int]@);
                assert(spec_parsed_locales(codes.deep_view())[li as int] == all_pairs[li as int]);
                assert(codes.deep_view().contains(code));
                lemma_locales_of_complete(resources@, code);
                assert(has_locale(resources@, code));
                assert(tags.deep_view()[li as int] == all_pairs[li as int].1);
                assert(tags.deep_view()[li as int] == tags@[li as int]@);
            }
            let files = match load_translations(resources, pair_codes[li].as_str()) {
                Ok(f) => f,
                Err(_) => unreached(),
            };
            match build_catalog(&tags[li], &files) {
                Ok(c) => {
                    catalogs.push(c);
                },
                Err(pf) => {
                    proof {
                        let fj = choose|fj: int|
                            0 <= fj < files.deep_view().len() && pf.file@
                                == files.deep_view()[fj].name && ftl_messages(
                                files.deep_view()[fj].text,
                            ) is None && (forall|k: int|
                                0 <= k < fj ==> ftl_messages(files.deep_view()[k].text) is Some);
                        assert(files.deep_view() == files_of(resources@, code));
                        assert(first_failure_in(files_of(resources@, code), pf.file@));
                        assert(!all_parse(files_of(resources@, code))) by {
                            assert(ftl_messages(files_of(resources@, code)[fj].text) is None);
                        }
                        let ghost lii = li as int;
                        assert(names_first_failure(resources@, code, pf.file@)) by {
                            assert(0 <= lii < spec_available_pairs(resources@).len());
                            assert(code == spec_available_pairs(resources@)[lii].0);
                            assert forall|j: int| 0 <= j < lii implies all_parse(
                                files_of(resources@, spec_available_pairs(resources@)[j].0),
                            ) by {
                                assert((#[trigger] catalogs@[j]).wf());
                                assert(all_pairs[j] == spec_available_pairs(resources@)[j]);
                            }
                            assert(first_failure_in(files_of(resources@, code), pf.file@));
                        }
                        assert(!spec_all_sources_parse(resources@));
                    }
                    return Err(
                        InitError::ResourceParse {
                            locale: pair_codes[li].clone(),
                            file: pf.file,
                            detail: pf.detail,
                        },
                    );
                },
            }
            li += 1;
        }
        proof {
            assert forall|i: int| 0 <= i < spec_available_pairs(resources@).len() implies all_parse(
                files_of(resources@, (#[trigger] spec_available_pairs(resources@)[i]).0),
            ) by {
                assert((#[trigger] catalogs@[i]).wf());
                assert(all_pairs[i] == spec_available_pairs(resources@)[i]);
            }
            assert(spec_all_sources_parse(resources@));
        }
        let current = Translator::detect_user_language(signals, &tags, &en);
        let t = Translator { catalogs, available: tags, default_lang: en, current_lang: current };
        proof {
            assert(forall|i: int|
                0 <= i < t.catalogs@.len() ==> (#[trigger] t.available@[i]@)
                    == t.available.deep_view()[i]);
            assert(forall|i: int|
                0 <= i < t.catalogs@.len() ==> (#[trigger] t.available.deep_view()[i])
                    == t.catalogs@[i].tag@);
            assert(t.has_tag(t.default_lang@)) by {
                let w = choose|w: int|
                    0 <= w < all_pairs.len() && all_pairs[w].1 == spec_english();
                assert(t.catalogs@[w].tag@ == all_pairs[w].1);
            }
            assert(t.has_tag(t.current_lang@)) by {
                let avail = t.available.deep_view();
                let d = spec_detect(signals.deep_view(), avail, spec_english());
                if avail.contains(d) {
                    let w = choose|w: int| 0 <= w < avail.len() && avail[w] == d;
                    assert(t.catalogs@[w].tag@ == avail[w]);
                } else {
                    assert(d == spec_english());
                    let w = choose|w: int|
                        0 <= w < all_pairs.len() && all_pairs[w].1 == spec_english();
                    assert(t.catalogs@[w].tag@ == all_pairs[w].1);
                }
            }
        }
        Ok(t)
    }
}

/// Is `t` among the tags of `v`?
fn contains_tag(v: &Vec<LangTag>, t: &LangTag) -> (r: bool)
    ensures
        r == v.deep_view().contains(t@),
{
    let mut i: usize = 0;
    while i < v.len()
        invariant
            i <= v.len(),
            forall|j: int| 0 <= j < i ==> v.deep_view()[j] != t@,
        decreases v.len() - i,
    {
        if v[i].same_tag(t) {
            assert(v.deep_view()[i as int] == t@);
            return true;
        }
        assert(v.deep_view()[i as int] == v@[i as int]@);
        i += 1;
    }
    false
}

} // verus!
