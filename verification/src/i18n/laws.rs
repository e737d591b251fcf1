//! The resolver's laws: statements that relate several operations, proved
//! once and for all inputs.

use vstd::prelude::*;
use crate::i18n::catalog::{Catalog, fluent_format};
use crate::i18n::tags::{TagView, tag_of};
use crate::i18n::translator::{
    Translator, spec_clean, spec_detect, spec_first_signal, spec_hint_of, spec_lookup_key_of,
};

verus! {

/// A namespace-restricted hit is also a flat hit: the restricted search
/// looks among a subset of the catalog's files.
pub proof fn lemma_ns_hit_is_flat_hit(c: Catalog, hint: Seq<char>, key: Seq<char>)
    requires
        c.ns_has(hint, key),
    ensures
        c.flat_has(key),
{
    let i = choose|i: int|
        0 <= i < c.files.deep_view().len() && hint.is_prefix_of(c.files.deep_view()[i].name)
            && c.files.deep_view()[i].keys.contains(key);
    assert(0 <= i < c.files.deep_view().len() && c.files.deep_view()[i].keys.contains(key));
}

/// A key that no loaded locale defines comes back unchanged, whatever the
/// arguments.
pub proof fn lemma_unknown_key_echoed(
    t: Translator,
    key: Seq<char>,
    args: Map<Seq<char>, Seq<char>>,
)
    requires
        t.wf(),
        forall|i: int|
            0 <= i < t.catalogs@.len() ==> !(#[trigger] t.catalogs@[i]).flat_has(
                spec_lookup_key_of(key),
            ),
    ensures
        t.spec_translate(key, args) == key,
{
    let k = spec_lookup_key_of(key);
    let hint = spec_hint_of(key);
    let cur = t.catalog_of(t.current_lang@);
    assert(0 <= t.idx_of(t.current_lang@) < t.catalogs@.len());
    assert(!cur.flat_has(k));
    match hint {
        Some(h) => {
            if cur.ns_has(h, k) {
                lemma_ns_hit_is_flat_hit(cur, h, k);
            }
        },
        None => {},
    }
    if t.current_lang@ != t.default_lang@ {
        let def = t.catalog_of(t.default_lang@);
        assert(0 <= t.idx_of(t.default_lang@) < t.catalogs@.len());
        assert(!def.flat_has(k));
        match hint {
            Some(h) => {
                if def.ns_has(h, k) {
                    lemma_ns_hit_is_flat_hit(def, h, k);
                }
            },
            None => {},
        }
    }
}

/// A key the current locale lacks, while the default locale defines and
/// can format it, renders from the default locale.
pub proof fn lemma_default_locale_fallback(
    t: Translator,
    key: Seq<char>,
    args: Map<Seq<char>, Seq<char>>,
    out: Seq<char>,
)
    requires
        t.wf(),
        t.current_lang@ != t.default_lang@,
        !t.catalog_of(t.current_lang@).flat_has(spec_lookup_key_of(key)),
        fluent_format(
            t.catalog_of(t.default_lang@).locale(),
            t.catalog_of(t.default_lang@).sources(),
            spec_lookup_key_of(key),
            args,
        ) == Some(out),
        t.catalog_of(t.default_lang@).flat_has(spec_lookup_key_of(key)),
    ensures
        t.spec_translate(key, args) == out,
{
    let k = spec_lookup_key_of(key);
    let hint = spec_hint_of(key);
    let cur = t.catalog_of(t.current_lang@);
    match hint {
        Some(h) => {
            if cur.ns_has(h, k) {
                lemma_ns_hit_is_flat_hit(cur, h, k);
            }
        },
        None => {},
    }
    assert(cur.spec_attempt(hint, k, args) is None);
}

/// Exact locale match takes priority: when the cleaned first signal parses
/// to a tag that is itself available, detection picks exactly that tag —
/// never its language-only projection, never the default.
pub proof fn lemma_detect_prefers_exact(
    signals: Seq<Seq<char>>,
    available: Seq<TagView>,
    default: TagView,
    t: TagView,
)
    requires
        spec_first_signal(signals) matches Some(v) && tag_of(spec_clean(v)) == Some(t),
        available.contains(t),
    ensures
        spec_detect(signals, available, default) == t,
{
}

/// Resolution reads nothing but the current and the default locale's
/// catalogs: two translators that agree on those two tags and on those two
/// catalogs translate every key alike, whatever other catalogs they hold.
/// In particular, a miss in a `"zh-CN"` catalog falls back to the default
/// locale, never to a `"zh"` catalog that may also be loaded.
pub proof fn lemma_translate_reads_current_and_default(
    t1: Translator,
    t2: Translator,
    key: Seq<char>,
    args: Map<Seq<char>, Seq<char>>,
)
    requires
        t1.wf(),
        t2.wf(),
        t1.current_lang@ == t2.current_lang@,
        t1.default_lang@ == t2.default_lang@,
        t1.catalog_of(t1.current_lang@).model() == t2.catalog_of(t2.current_lang@).model(),
        t1.catalog_of(t1.default_lang@).model() == t2.catalog_of(t2.default_lang@).model(),
    ensures
        t1.spec_translate(key, args) == t2.spec_translate(key, args),
{
    let k = spec_lookup_key_of(key);
    let hint = spec_hint_of(key);
    lemma_attempt_reads_model(
        t1.catalog_of(t1.current_lang@),
        t2.catalog_of(t2.current_lang@),
        hint,
        k,
        args,
    );
    lemma_attempt_reads_model(
        t1.catalog_of(t1.default_lang@),
        t2.catalog_of(t2.default_lang@),
        hint,
        k,
        args,
    );
}

/// One locale's attempt reads nothing but the catalog's model: its tag,
/// its locale, its resource texts and its key index.
pub proof fn lemma_attempt_reads_model(
    c1: Catalog,
    c2: Catalog,
    hint: Option<Seq<char>>,
    key: Seq<char>,
    args: Map<Seq<char>, Seq<char>>,
)
    requires
        c1.model() == c2.model(),
    ensures
        c1.spec_attempt(hint, key, args) == c2.spec_attempt(hint, key, args),
{
    assert(c1.files.deep_view() == c2.files.deep_view());
    assert(c1.locale() == c2.locale());
    assert(c1.sources() == c2.sources());
    assert(c1.flat_has(key) == c2.flat_has(key));
    match hint {
        Some(h) => {
            assert(c1.ns_has(h, key) == c2.ns_has(h, key));
        },
        None => {},
    }
}

/// Resolution is reproducible: two translators loaded with the same
/// resources — catalog for catalog — and standing on the same locales
/// translate every key alike.
pub proof fn lemma_translation_reproducible(
    t1: Translator,
    t2: Translator,
    key: Seq<char>,
    args: Map<Seq<char>, Seq<char>>,
)
    requires
        t1.wf(),
        t2.wf(),
        t1.current_lang@ == t2.current_lang@,
        t1.default_lang@ == t2.default_lang@,
        t1.catalogs@.len() == t2.catalogs@.len(),
        forall|i: int|
            0 <= i < t1.catalogs@.len() ==> (#[trigger] t1.catalogs@[i]).model()
                == t2.catalogs@[i].model(),
    ensures
        t1.spec_translate(key, args) == t2.spec_translate(key, args),
{
    lemma_same_tag_same_catalog(t1, t2, t1.current_lang@);
    lemma_same_tag_same_catalog(t1, t2, t1.default_lang@);
    lemma_translate_reads_current_and_default(t1, t2, key, args);
}

/// In two translators with pairwise equal catalog models, the catalog a
/// tag selects has the same model on both sides.
proof fn lemma_same_tag_same_catalog(t1: Translator, t2: Translator, tag: TagView)
    requires
        t1.wf(),
        t2.wf(),
        t1.has_tag(tag),
        t1.catalogs@.len() == t2.catalogs@.len(),
        forall|i: int|
            0 <= i < t1.catalogs@.len() ==> (#[trigger] t1.catalogs@[i]).model()
                == t2.catalogs@[i].model(),
    ensures
        t1.catalog_of(tag).model() == t2.catalog_of(tag).model(),
{
    let i1 = t1.idx_of(tag);
    assert(0 <= i1 < t1.catalogs@.len() && t1.catalogs@[i1].tag@ == tag);
    assert(t2.catalogs@[i1].model() == t1.catalogs@[i1].model());
    assert(t2.catalogs@[i1].tag@ == tag);
    let i2 = t2.idx_of(tag);
    assert(0 <= i2 < t2.catalogs@.len() && t2.catalogs@[i2].tag@ == tag);
    if i1 != i2 {
        assert(t2.catalogs@[i1].tag@ != t2.catalogs@[i2].tag@);
    }
}

/// With a namespace hint, a key defined by some file whose name starts
/// with the hint resolves against the catalog's patterns.
pub proof fn lemma_namespace_hit(
    c: Catalog,
    hint: Seq<char>,
    key: Seq<char>,
    args: Map<Seq<char>, Seq<char>>,
)
    requires
        c.ns_has(hint, key),
    ensures
        c.spec_attempt(Some(hint), key, args) == fluent_format(c.locale(), c.sources(), key, args),
{
}

/// With a namespace hint that no file of the locale matches for this key,
/// resolution falls through to the same locale's flat index before any
/// other locale is consulted.
pub proof fn lemma_namespace_fallthrough(
    c: Catalog,
    hint: Seq<char>,
    key: Seq<char>,
    args: Map<Seq<char>, Seq<char>>,
)
    requires
        !c.ns_has(hint, key),
        c.flat_has(key),
    ensures
        c.spec_attempt(Some(hint), key, args) == fluent_format(c.locale(), c.sources(), key, args),
{
}

} // verus!
