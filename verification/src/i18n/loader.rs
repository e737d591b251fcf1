//! Resource loading: the embedded resource bundle, handed in as plain
//! (locale, filename, text) entries, queried per locale.

use vstd::prelude::*;

verus! {

/// One embedded resource file: the locale it belongs to, its bare
/// filename, and its raw text.
pub struct ResourceEntry {
    pub locale: String,
    pub name: String,
    pub text: String,
}

/// Mathematical view of a resource entry.
pub ghost struct EntryView {
    pub locale: Seq<char>,
    pub name: Seq<char>,
    pub text: Seq<char>,
}

impl View for ResourceEntry {
    type V = EntryView;

    open spec fn view(&self) -> EntryView {
        EntryView { locale: self.locale@, name: self.name@, text: self.text@ }
    }
}

/// A (filename, raw text) pair belonging to one locale.
#[derive(Debug)]
pub struct ResourceFile {
    pub name: String,
    pub text: String,
}

/// Mathematical view of a resource file.
pub ghost struct FileView {
    pub name: Seq<char>,
    pub text: Seq<char>,
}

impl View for ResourceFile {
    type V = FileView;

    open spec fn view(&self) -> FileView {
        FileView { name: self.name@, text: self.text@ }
    }
}

impl DeepView for ResourceFile {
    type V = FileView;

    open spec fn deep_view(&self) -> FileView {
        self@
    }
}

/// The distinct locale names of a resource set, in order of first
/// appearance.
pub open spec fn locales_of(rs: Seq<ResourceEntry>) -> Seq<Seq<char>>
    decreases rs.len(),
{
    if rs.len() == 0 {
        Seq::empty()
    } else {
        let prev = locales_of(rs.drop_last());
        if prev.contains(rs.last().locale@) {
            prev
        } else {
            prev.push(rs.last().locale@)
        }
    }
}

/// Does some entry of the resource set belong to `locale`?
pub open spec fn has_locale(rs: Seq<ResourceEntry>, locale: Seq<char>) -> bool {
    exists|i: int| 0 <= i < rs.len() && rs[i].locale@ == locale
}

/// The (filename, text) pairs of `locale`, in the order the resource set
/// lists them.
pub open spec fn files_of(rs: Seq<ResourceEntry>, locale: Seq<char>) -> Seq<FileView>
    decreases rs.len(),
{
    if rs.len() == 0 {
        Seq::empty()
    } else {
        let prev = files_of(rs.drop_last(), locale);
        if rs.last().locale@ == locale {
            prev.push(FileView { name: rs.last().name@, text: rs.last().text@ })
        } else {
            prev
        }
    }
}

/// A locale is listed among the locales of a set exactly when some entry
/// belongs to it.
pub proof fn lemma_locales_of_complete(rs: Seq<ResourceEntry>, locale: Seq<char>)
    ensures
        locales_of(rs).contains(locale) <==> has_locale(rs, locale),
    decreases rs.len(),
{
    if rs.len() == 0 {
        assert(!has_locale(rs, locale));
    } else {
        let prev = locales_of(rs.drop_last());
        lemma_locales_of_complete(rs.drop_last(), locale);
        if rs.last().locale@ == locale {
            assert(has_locale(rs, locale)) by {
                assert(rs[rs.len() - 1].locale@ == locale);
            }
            if prev.contains(locale) {
                assert(locales_of(rs) == prev);
            } else {
                assert(locales_of(rs) == prev.push(locale));
                assert(prev.push(locale)[prev.len() as int] == locale);
            }
            assert(locales_of(rs).contains(locale));
        } else {
            assert(has_locale(rs, locale) <==> has_locale(rs.drop_last(), locale)) by {
                if has_locale(rs, locale) {
                    let i = choose|i: int| 0 <= i < rs.len() && rs[i].locale@ == locale;
                    assert(i < rs.len() - 1);
                    assert(rs.drop_last()[i].locale@ == locale);
                }
                if has_locale(rs.drop_last(), locale) {
                    let i = choose|i: int|
                        0 <= i < rs.drop_last().len() && rs.drop_last()[i].locale@ == locale;
                    assert(rs[i].locale@ == locale);
                }
            };
            if prev.contains(rs.last().locale@) {
                assert(locales_of(rs) == prev);
            } else {
                let pushed = prev.push(rs.last().locale@);
                assert(locales_of(rs) == pushed);
                assert(pushed.contains(locale) <==> prev.contains(locale)) by {
                    if prev.contains(locale) {
                        let i = choose|i: int| 0 <= i < prev.len() && prev[i] == locale;
                        assert(pushed[i] == locale);
                    }
                    if pushed.contains(locale) {
                        let i = choose|i: int| 0 <= i < pushed.len() && pushed[i] == locale;
                        assert(i < prev.len());
                        assert(prev[i] == locale);
                    }
                };
            }
        }
    }
}

/// Is `x` among the strings of `v`?
fn contains_string(v: &Vec<String>, x: &String) -> (r: bool)
    ensures
        r == v.deep_view().contains(x@),
{
    let mut i: usize = 0;
    while i < v.len()
        invariant
            i <= v.len(),
            forall|j: int| 0 <= j < i ==> v.deep_view()[j] != x@,
        decreases v.len() - i,
    {
        if v[i] == *x {
            assert(v.deep_view()[i as int] == x@);
            return true;
        }
        i += 1;
    }
    false
}

/// Every locale for which resources exist, in order of first appearance,
/// without duplicates.
pub fn get_available_languages(resources: &Vec<ResourceEntry>) -> (r: Vec<String>)
    ensures
        r.deep_view() == locales_of(resources@),
{
    let mut out: Vec<String> = Vec::new();
    let mut i: usize = 0;
    while i < resources.len()
        invariant
            i <= resources.len(),
            out.deep_view() == locales_of(resources@.take(i as int)),
        decreases resources.len() - i,
    {
        proof {
            assert(resources@.take(i + 1).drop_last() =~= resources@.take(i as int));
            assert(resources@.take(i + 1).last() == resources@[i as int]);
        }
        let loc = &resources[i].locale;
        if !contains_string(&out, loc) {
            out.push(loc.clone());
            proof {
                assert(out.deep_view() =~= locales_of(resources@.take(i + 1)));
            }
        }
        i += 1;
    }
    proof {
        assert(resources@.take(resources@.len() as int) =~= resources@);
    }
    out
}

/// Failure of `load_translations`.
#[derive(PartialEq, Eq, Structural, Clone, Copy, Debug)]
pub enum LoadError {
    /// No resources exist for the requested locale.
    LanguageNotFound,
}

/// All resource files of one locale, in the order the resource set lists
/// them; fails exactly when the set holds no entry for that locale.
pub fn load_translations(resources: &Vec<ResourceEntry>, lang_code: &str) -> (r: Result<
    Vec<ResourceFile>,
    LoadError,
>)
    ensures
        r is Ok <==> has_locale(resources@, lang_code@),
        r matches Ok(files) ==> files.deep_view() == files_of(resources@, lang_code@),
        r is Err ==> r == Result::<Vec<ResourceFile>, LoadError>::Err(LoadError::LanguageNotFound),
{
    let mut out: Vec<ResourceFile> = Vec::new();
    let mut found = false;
    let mut i: usize = 0;
    while i < resources.len()
        invariant
            i <= resources.len(),
            out.deep_view() == files_of(resources@.take(i as int), lang_code@),
            found == exists|j: int| 0 <= j < i && resources@[j].locale@ == lang_code@,
        decreases resources.len() - i,
    {
        proof {
            assert(resources@.take(i + 1).drop_last() =~= resources@.take(i as int));
            assert(resources@.take(i + 1).last() == resources@[i as int]);
        }
        let entry = &resources[i];
        if crate::text::str_eq(entry.locale.as_str(), lang_code) {
            out.push(ResourceFile { name: entry.name.clone(), text: entry.text.clone() });
            found = true;
            proof {
                assert(out.deep_view() =~= files_of(resources@.take(i + 1), lang_code@));
                assert(resources@[i as int].locale@ == lang_code@);
            }
        }
        i += 1;
    }
    proof {
        assert(resources@.take(resources@.len() as int) =~= resources@);
    }
    if found {
        Ok(out)
    } else {
        Err(LoadError::LanguageNotFound)
    }
}

} // verus!
