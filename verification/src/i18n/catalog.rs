//! Per-locale catalogs: parsed message resources held in a Fluent bundle,
//! together with a verified filename-to-keys index.
//!
//! The bundle itself is a collection of an outside crate; what it holds is
//! modelled by the names `bundle_locale` and `bundle_sources`, and every
//! method the catalog logic calls goes through a wrapper whose contract
//! speaks over those names.

use vstd::prelude::*;
use crate::i18n::tags::LangTag;

verus! {

#[verifier::external_type_specification]
#[verifier::external_body]
pub struct ExFluentResource(fluent_bundle::FluentResource);

#[verifier::external_type_specification]
#[verifier::external_body]
pub struct ExIntlLangMemoizer(intl_memoizer::concurrent::IntlLangMemoizer);

#[verifier::external_type_specification]
#[verifier::external_body]
#[verifier::reject_recursive_types(R)]
#[verifier::reject_recursive_types(M)]
pub struct ExFluentBundle<R, M>(fluent_bundle::bundle::FluentBundle<R, M>);

#[verifier::external_type_specification]
#[verifier::external_body]
#[verifier::reject_recursive_types(S)]
pub struct ExFtlPattern<S>(fluent_syntax::ast::Pattern<S>);

#[verifier::external_type_specification]
#[verifier::external_body]
#[verifier::reject_recursive_types(S)]
pub struct ExFtlExpression<S>(fluent_syntax::ast::Expression<S>);

#[verifier::external_type_specification]
#[verifier::external_body]
#[verifier::reject_recursive_types(S)]
pub struct ExFtlInlineExpression<S>(fluent_syntax::ast::InlineExpression<S>);

/// The canonical tag of the locale a bundle was created for.
pub uninterp spec fn bundle_locale(
    b: fluent_bundle::concurrent::FluentBundle<fluent_bundle::FluentResource>,
) -> Seq<char>;

/// The raw texts of the resources a bundle holds, in the order they were
/// added.
pub uninterp spec fn bundle_sources(
    b: fluent_bundle::concurrent::FluentBundle<fluent_bundle::FluentResource>,
) -> Seq<Seq<char>>;

/// Does the bundle hold only resources the formatter can always either
/// render or degrade to an error notation — none with a nested placeable
/// or a selection on a literal value, the shapes whose error notation the
/// formatter aborts on?  The loader adds nothing else.
pub uninterp spec fn bundle_renderable(
    b: fluent_bundle::concurrent::FluentBundle<fluent_bundle::FluentResource>,
) -> bool;

/// What the resource loader accepts of a raw text: the identifiers of its
/// message entries, in source order, or nothing when the text has syntax
/// errors or holds a placeable whose error notation the formatter cannot
/// write (a nested placeable, or a selection on a literal value).  The
/// outcome depends on the text alone.
pub uninterp spec fn ftl_messages(src: Seq<char>) -> Option<Seq<Seq<char>>>;

/// What formatting a message yields: the locale the bundle was made for,
/// the resource texts it holds, the message key and the arguments determine
/// the formatted text, or its absence (unknown key, message without a
/// value, or a formatting diagnostic).
pub uninterp spec fn fluent_format(
    locale: Seq<char>,
    sources: Seq<Seq<char>>,
    key: Seq<char>,
    args: Map<Seq<char>, Seq<char>>,
) -> Option<Seq<char>>;

/// The argument list as a mapping: later entries of the same name override
/// earlier ones, as Fluent's argument store does.
pub open spec fn args_model(args: Seq<(String, String)>) -> Map<Seq<char>, Seq<char>>
    decreases args.len(),
{
    if args.len() == 0 {
        Map::empty()
    } else {
        args_model(args.drop_last()).insert(args.last().0@, args.last().1@)
    }
}

/// Relies on `FluentBundle::new_concurrent` and `set_use_isolating`: a
/// fresh thread-safe bundle for the given locale, holding no resources;
/// directionality isolation marks are switched off so that formatted output
/// is plain text.  The canonical tag is parsed back into a
/// `unic_langid::LanguageIdentifier` for the constructor.
#[verifier::external_body]
pub(crate) fn new_bundle(tag: &LangTag) -> (r: fluent_bundle::concurrent::FluentBundle<
    fluent_bundle::FluentResource,
>)
    requires
        crate::i18n::tags::tag_of(tag@.full) == Some(tag@),
    ensures
        bundle_locale(r) == tag@.full,
        bundle_sources(r) == Seq::<Seq<char>>::empty(),
        bundle_renderable(r),
{
    let locales = match tag.full.parse::<unic_langid::LanguageIdentifier>() {
        Ok(id) => vec![id],
        Err(_) => Vec::new(),
    };
    let mut bundle = fluent_bundle::concurrent::FluentBundle::new_concurrent(locales);
    bundle.set_use_isolating(false);
    bundle
}

/// Relies on `FluentResource::try_new` and `FluentBundle::add_resource_overriding`:
/// what is accepted depends on the text alone; on success the resource is
/// added after the ones already held (its entries override same-named
/// earlier ones) and the message identifiers come back in source order; a
/// syntax error, a nested placeable or a selection on a literal value
/// leaves the bundle as it was, with the reason summarized.
#[verifier::external_body]
pub(crate) fn add_ftl_source(
    b: &mut fluent_bundle::concurrent::FluentBundle<fluent_bundle::FluentResource>,
    text: &str,
) -> (r: Result<Vec<String>, String>)
    ensures
        bundle_locale(*final(b)) == bundle_locale(*old(b)),
        bundle_renderable(*final(b)) == bundle_renderable(*old(b)),
        match r {
            Ok(keys) => ftl_messages(text@) == Some(keys.deep_view()) && bundle_sources(*final(b))
                == bundle_sources(*old(b)).push(text@),
            Err(_) => ftl_messages(text@) is None && bundle_sources(*final(b)) == bundle_sources(
                *old(b),
            ),
        },
{
    match fluent_bundle::FluentResource::try_new(text.to_string()) {
        Ok(resource) if resource_renderable(&resource) => {
            let keys = message_keys(&resource);
            b.add_resource_overriding(resource);
            Ok(keys)
        },
        Ok(_) => Err(String::from(
            "unsupported placeable: a nested placeable or a selection on a literal",
        )),
        Err((_, errors)) => Err(
            errors.iter().map(|e| e.to_string()).collect::<Vec<String>>().join(", "),
        ),
    }
}

/// Relies on `FluentResource::entries`: the identifiers of the resource's
/// message entries, in source order.
#[verifier::external_body]
fn message_keys(resource: &fluent_bundle::FluentResource) -> Vec<String> {
    let mut keys: Vec<String> = Vec::new();
    for entry in resource.entries() {
        if let fluent_syntax::ast::Entry::Message(m) = entry {
            keys.push(m.id.name.to_string());
        }
    }
    keys
}

/// Relies on the shape of `fluent_syntax`'s syntax tree: do all patterns of
/// the resource — message and term values and attributes — hold only
/// placeables the formatter can write an error notation for?  The
/// formatter aborts on the others instead of degrading gracefully.
#[verifier::external_body]
fn resource_renderable(resource: &fluent_bundle::FluentResource) -> bool {
    resource.entries().all(|entry| match entry {
        fluent_syntax::ast::Entry::Message(m) => m.value.iter().all(|p| pattern_renderable(p))
            && m.attributes.iter().all(|a| pattern_renderable(&a.value)),
        fluent_syntax::ast::Entry::Term(t) => pattern_renderable(&t.value) && t.attributes
            .iter()
            .all(|a| pattern_renderable(&a.value)),
        _ => true,
    })
}

/// Relies on the shape of `fluent_syntax`'s syntax tree: does the pattern
/// hold only placeables the formatter can write an error notation for?
#[verifier::external_body]
fn pattern_renderable(pattern: &fluent_syntax::ast::Pattern<&str>) -> bool {
    pattern.elements.iter().all(|element| match element {
        fluent_syntax::ast::PatternElement::Placeable { expression } => element_renderable(
            expression,
        ),
        _ => true,
    })
}

/// Relies on the shape of `fluent_syntax`'s syntax tree: the formatter's
/// error notation covers references but neither literals nor nested
/// placeables, so a selection may only select on a reference, and its
/// variants are checked in turn.
#[verifier::external_body]
fn element_renderable(expression: &fluent_syntax::ast::Expression<&str>) -> bool {
    match expression {
        fluent_syntax::ast::Expression::Inline(i) => inline_renderable(i),
        fluent_syntax::ast::Expression::Select { selector, variants } => !matches!(
            selector,
            fluent_syntax::ast::InlineExpression::StringLiteral { .. }
                | fluent_syntax::ast::InlineExpression::NumberLiteral { .. }
        ) && inline_renderable(selector) && variants.iter().all(
            |v| pattern_renderable(&v.value),
        ),
    }
}

/// Relies on the shape of `fluent_syntax`'s syntax tree: a placeable
/// nested inside another placeable is never accepted, and call arguments
/// are checked for nested placeables of their own.
#[verifier::external_body]
fn inline_renderable(expression: &fluent_syntax::ast::InlineExpression<&str>) -> bool {
    match expression {
        fluent_syntax::ast::InlineExpression::Placeable { .. } => false,
        fluent_syntax::ast::InlineExpression::TermReference {
            arguments: Some(a), ..
        } => a.positional.iter().all(inline_renderable) && a.named.iter().all(
            |n| inline_renderable(&n.value),
        ),
        fluent_syntax::ast::InlineExpression::FunctionReference { arguments: a, .. } => {
            a.positional.iter().all(inline_renderable) && a.named.iter().all(
                |n| inline_renderable(&n.value),
            )
        },
        _ => true,
    }
}

/// Relies on `FluentBundle::get_message` and `format_pattern`: looking a key
/// up and formatting its pattern depend only on the bundle's locale, the
/// resource texts it holds, the key and the arguments; a missing message, a
/// message without a value, or a formatting diagnostic all yield nothing.
#[verifier::external_body]
pub(crate) fn format_in_bundle(
    b: &fluent_bundle::concurrent::FluentBundle<fluent_bundle::FluentResource>,
    key: &str,
    args: &Vec<(String, String)>,
) -> (r: Option<String>)
    requires
        bundle_renderable(*b),
    ensures
        match r {
            Some(s) => fluent_format(bundle_locale(*b), bundle_sources(*b), key@, args_model(args@))
                == Some(s@),
            None => fluent_format(bundle_locale(*b), bundle_sources(*b), key@, args_model(args@))
                is None,
        },
{
    let mut fluent_args = fluent_bundle::FluentArgs::new();
    for (name, value) in args.iter() {
        fluent_args.set(name.as_str(), value.as_str());
    }
    let message = b.get_message(key)?;
    let pattern = message.value()?;
    let mut errors = Vec::new();
    let formatted = b.format_pattern(pattern, Some(&fluent_args), &mut errors);
    if errors.is_empty() {
        Some(formatted.to_string())
    } else {
        None
    }
}

/// One resource file's key index: the filename and the message keys the
/// file defines, in source order.
pub struct FileKeys {
    pub name: String,
    pub keys: Vec<String>,
}

/// Mathematical view of a file's key index.
pub ghost struct FileKeysView {
    pub name: Seq<char>,
    pub keys: Seq<Seq<char>>,
}

impl View for FileKeys {
    type V = FileKeysView;

    open spec fn view(&self) -> FileKeysView {
        FileKeysView { name: self.name@, keys: self.keys.deep_view() }
    }
}

impl DeepView for FileKeys {
    type V = FileKeysView;

    open spec fn deep_view(&self) -> FileKeysView {
        self@
    }
}

/// Everything resolution reads from a catalog.
pub ghost struct CatalogModel {
    pub tag: crate::i18n::tags::TagView,
    pub locale: Seq<char>,
    pub sources: Seq<Seq<char>>,
    pub files: Seq<FileKeysView>,
}

/// The raw texts of a list of resource files, in order.
pub open spec fn texts_of(files: Seq<crate::i18n::loader::FileView>) -> Seq<Seq<char>> {
    files.map(|i: int, f: crate::i18n::loader::FileView| f.text)
}

/// Do all files of the list parse as Fluent resources?
pub open spec fn all_parse(files: Seq<crate::i18n::loader::FileView>) -> bool {
    forall|i: int| 0 <= i < files.len() ==> ftl_messages(files[i].text) is Some
}

/// One locale's catalog: the parsed resources held in a Fluent bundle, and
/// the filename-to-keys index used to restrict a lookup to the files a
/// namespace hint names.
pub struct Catalog {
    pub tag: LangTag,
    pub bundle: fluent_bundle::concurrent::FluentBundle<fluent_bundle::FluentResource>,
    pub files: Vec<FileKeys>,
}

impl Catalog {
    /// The canonical tag of the locale the bundle was created for.
    pub open spec fn locale(self) -> Seq<char> {
        bundle_locale(self.bundle)
    }

    /// The resource texts the bundle holds, in load order.
    pub open spec fn sources(self) -> Seq<Seq<char>> {
        bundle_sources(self.bundle)
    }

    /// The catalog hangs together: its bundle belongs to its tag and holds
    /// only resources the formatter degrades gracefully on.
    pub open spec fn wf(self) -> bool {
        self.locale() == self.tag@.full && bundle_renderable(self.bundle)
    }

    /// Everything resolution reads from this catalog.
    pub open spec fn model(self) -> CatalogModel {
        CatalogModel {
            tag: self.tag@,
            locale: self.locale(),
            sources: self.sources(),
            files: self.files.deep_view(),
        }
    }

    /// Does any file of this locale define `key`?  (The flat index.)
    pub open spec fn flat_has(self, key: Seq<char>) -> bool {
        exists|i: int|
            0 <= i < self.files.deep_view().len() && self.files.deep_view()[i].keys.contains(key)
    }

    /// Does a file whose name starts with `hint` define `key`?
    pub open spec fn ns_has(self, hint: Seq<char>, key: Seq<char>) -> bool {
        exists|i: int|
            0 <= i < self.files.deep_view().len() && hint.is_prefix_of(
                self.files.deep_view()[i].name,
            ) && self.files.deep_view()[i].keys.contains(key)
    }

    /// One locale's resolution attempt: with a namespace hint the search is
    /// first restricted to files whose name starts with the hint, then falls
    /// back to the flat index; a hit formats the key's pattern, and a
    /// formatting failure counts as a miss.
    pub open spec fn spec_attempt(
        self,
        hint: Option<Seq<char>>,
        key: Seq<char>,
        args: Map<Seq<char>, Seq<char>>,
    ) -> Option<Seq<char>> {
        if (hint matches Some(h) && self.ns_has(h, key)) || self.flat_has(key) {
            fluent_format(self.locale(), self.sources(), key, args)
        } else {
            None
        }
    }

    /// Is `key` defined by some file of this locale?
    fn flat_lookup(&self, key: &str) -> (r: bool)
        ensures
            r == self.flat_has(key@),
    {
        let mut i: usize = 0;
        while i < self.files.len()
            invariant
                i <= self.files.len(),
                forall|j: int| 0 <= j < i ==> !self.files.deep_view()[j].keys.contains(key@),
            decreases self.files.len() - i,
        {
            if contains_key(&self.files[i].keys, key) {
                assert(self.files.deep_view()[i as int].keys.contains(key@));
                return true;
            }
            assert(self.files.deep_view()[i as int] == self.files@[i as int]@);
            i += 1;
        }
        false
    }

    /// Is `key` defined by some file of this locale whose name starts with
    /// `hint`?
    fn ns_lookup(&self, hint: &str, key: &str) -> (r: bool)
        ensures
            r == self.ns_has(hint@, key@),
    {
        let mut i: usize = 0;
        while i < self.files.len()
            invariant
                i <= self.files.len(),
                forall|j: int|
                    0 <= j < i ==> !(hint@.is_prefix_of(self.files.deep_view()[j].name)
                        && self.files.deep_view()[j].keys.contains(key@)),
            decreases self.files.len() - i,
        {
            let file = &self.files[i];
            if crate::text::str_starts_with(file.name.as_str(), hint) && contains_key(
                &file.keys,
                key,
            ) {
                assert(hint@.is_prefix_of(self.files.deep_view()[i as int].name)
                    && self.files.deep_view()[i as int].keys.contains(key@));
                return true;
            }
            assert(self.files.deep_view()[i as int] == self.files@[i as int]@);
            i += 1;
        }
        false
    }

    /// Try to resolve `key` in this catalog, honoring a namespace hint.
    pub fn attempt(&self, hint: Option<&str>, key: &str, args: &Vec<(String, String)>) -> (r:
        Option<String>)
        requires
            self.wf(),
        ensures
            match r {
                Some(s) => self.spec_attempt(hint.deep_view(), key@, args_model(args@)) == Some(s@),
                None => self.spec_attempt(hint.deep_view(), key@, args_model(args@)) is None,
            },
    {
        let hit = match hint {
            Some(h) => self.ns_lookup(h, key) || self.flat_lookup(key),
            None => self.flat_lookup(key),
        };
        if hit {
            format_in_bundle(&self.bundle, key, args)
        } else {
            None
        }
    }
}

/// Is `key` among the strings of `keys`?
fn contains_key(keys: &Vec<String>, key: &str) -> (r: bool)
    ensures
        r == keys.deep_view().contains(key@),
{
    let owned = key.to_owned();
    let mut i: usize = 0;
    while i < keys.len()
        invariant
            i <= keys.len(),
            owned@ == key@,
            forall|j: int| 0 <= j < i ==> keys.deep_view()[j] != key@,
        decreases keys.len() - i,
    {
        if keys[i] == owned {
            assert(keys.deep_view()[i as int] == key@);
            return true;
        }
        i += 1;
    }
    false
}

/// Failure to parse one resource file: the offending file and a summary of
/// the parser's diagnostics.
#[derive(Debug)]
pub struct ParseFailure {
    pub file: String,
    pub detail: String,
}

/// Build the catalog of one locale from its resource files, in order; later
/// files override earlier ones inside the bundle.  Fails on the first file
/// that does not parse, naming it.
pub fn build_catalog(tag: &LangTag, files: &Vec<crate::i18n::loader::ResourceFile>) -> (r: Result<
    Catalog,
    ParseFailure,
>)
    requires
        crate::i18n::tags::tag_of(tag@.full) == Some(tag@),
    ensures
        r is Ok <==> all_parse(files.deep_view()),
        r matches Ok(c) ==> c.wf() && c.tag@ == tag@ && c.sources() == texts_of(files.deep_view())
            && c.files.deep_view().len() == files.deep_view().len() && (forall|i: int|
            0 <= i < files.deep_view().len() ==> c.files.deep_view()[i].name
                == files.deep_view()[i].name && Some(c.files.deep_view()[i].keys) == ftl_messages(
                files.deep_view()[i].text,
            )),
        r matches Err(pf) ==> exists|i: int|
            0 <= i < files.deep_view().len() && pf.file@ == files.deep_view()[i].name
                && ftl_messages(files.deep_view()[i].text) is None && (forall|j: int|
                0 <= j < i ==> ftl_messages(files.deep_view()[j].text) is Some),
{
    let mut bundle = new_bundle(tag);
    let mut index: Vec<FileKeys> = Vec::new();
    let mut i: usize = 0;
    while i < files.len()
        invariant
            i <= files.len(),
            bundle_locale(bundle) == tag@.full,
            bundle_renderable(bundle),
            bundle_sources(bundle) == texts_of(files.deep_view().take(i as int)),
            index.deep_view().len() == i,
            forall|j: int|
                0 <= j < i ==> index.deep_view()[j].name == files.deep_view()[j].name && Some(
                    index.deep_view()[j].keys,
                ) == ftl_messages(files.deep_view()[j].text),
        decreases files.len() - i,
    {
        let file = &files[i];
        match add_ftl_source(&mut bundle, file.text.as_str()) {
            Ok(keys) => {
                index.push(FileKeys { name: file.name.clone(), keys });
                proof {
                    assert(bundle_sources(bundle) =~= texts_of(files.deep_view().take(i + 1)));
                }
            },
            Err(detail) => {
                assert(ftl_messages(files.deep_view()[i as int].text) is None);
                return Err(ParseFailure { file: file.name.clone(), detail });
            },
        }
        i += 1;
    }
    proof {
        assert(files.deep_view().take(files.deep_view().len() as int) =~= files.deep_view());
    }
    Ok(Catalog { tag: tag.clone(), bundle, files: index })
}

} // verus!
