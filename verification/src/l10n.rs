//! Extra l10n (translation) files of a mod.
use vstd::prelude::*;
use crate::errors::AbstractFileError;
use crate::collections::{StrMap, lookup, map_insert, map_keys, insert_all, last_value, law_insert_all, lemma_lookup_insert};
use crate::files::{AbstractFile, spec_text, spec_list, spec_name_filter};
use crate::text::{to_chars, from_chars, starts_with, ends_with, sub_chars, is_prefix, is_suffix};
use crate::xml::{XmlEvent, XmlTag, tag_attr, get_attribute, tag_is, events_of};

verus! {

/// single l10n file: text key to translated text
#[derive(Debug)]
pub struct L10nFile(pub StrMap<String>);

impl View for L10nFile {
    type V = Seq<(Seq<char>, Seq<char>)>;

    open spec fn view(&self) -> Self::V {
        self.0@
    }
}

/// L10n files: language to text key to translated text
#[derive(Debug)]
pub struct L10n(pub StrMap<StrMap<String>>);

impl View for L10n {
    type V = Seq<(Seq<char>, Seq<(Seq<char>, Seq<char>)>)>;

    open spec fn view(&self) -> Self::V {
        self.0@
    }
}

/// The entry a self-closing tag of an l10n file gives: `<text name= text=/>`
/// or `<e k= v=/>`, where both attributes are there.
pub open spec fn l10n_entry(t: XmlTag) -> Option<(Seq<char>, Seq<char>)> {
    if t.name@ == "text"@ {
        match (tag_attr(t, "name"@), tag_attr(t, "text"@)) {
            (Some(k), Some(v)) => Some((k, v)),
            _ => None,
        }
    } else if t.name@ == "e"@ {
        match (tag_attr(t, "k"@), tag_attr(t, "v"@)) {
            (Some(k), Some(v)) => Some((k, v)),
            _ => None,
        }
    } else {
        None
    }
}

/// Reading an l10n file from event `i` on.
pub open spec fn l10n_run(evs: Seq<XmlEvent>, i: int, found: bool, acc: Seq<(Seq<char>, Seq<char>)>)
    -> Result<Seq<(Seq<char>, Seq<char>)>, AbstractFileError>
    decreases evs.len() - i,
{
    if i < 0 || i >= evs.len() {
        if found { Ok(acc) } else { Err(AbstractFileError::XmlUndeclared) }
    } else {
        match evs[i] {
            XmlEvent::Error => Err(AbstractFileError::XmlParseError),
            XmlEvent::Decl => l10n_run(evs, i + 1, true, acc),
            XmlEvent::Eof => if found { Ok(acc) } else { Err(AbstractFileError::XmlUndeclared) },
            XmlEvent::Empty(t) => match l10n_entry(t) {
                Some((k, v)) => l10n_run(evs, i + 1, found, map_insert(acc, k, v)),
                None => l10n_run(evs, i + 1, found, acc),
            },
            _ => l10n_run(evs, i + 1, found, acc),
        }
    }
}

/// An l10n file read from its events.
pub open spec fn spec_l10n_file(evs: Seq<XmlEvent>) -> Result<Seq<(Seq<char>, Seq<char>)>, AbstractFileError> {
    l10n_run(evs, 0, false, Seq::empty())
}

impl L10nFile {
    /// Read an l10n file from its XML events.
    ///
    /// # Errors
    /// [`AbstractFileError::XmlParseError`] where the reader fails,
    /// [`AbstractFileError::XmlUndeclared`] without an XML declaration.
    pub fn from_events(evs: &Vec<XmlEvent>) -> (r: Result<L10nFile, AbstractFileError>)
        ensures
            match r {
                Ok(f) => spec_l10n_file(evs@) == Ok::<Seq<(Seq<char>, Seq<char>)>, AbstractFileError>(f@),
                Err(e) => spec_l10n_file(evs@) == Err::<Seq<(Seq<char>, Seq<char>)>, AbstractFileError>(e),
            },
    {
        let mut acc: StrMap<String> = StrMap::new();
        let mut found = false;
        let mut i: usize = 0;
        assert(acc@ =~= Seq::<(Seq<char>, Seq<char>)>::empty());
        while i < evs.len()
            invariant
                i <= evs@.len(),
                l10n_run(evs@, i as int, found, acc@) == spec_l10n_file(evs@),
            decreases evs.len() - i,
        {
            match &evs[i] {
                XmlEvent::Error => { return Err(AbstractFileError::XmlParseError); },
                XmlEvent::Decl => { found = true; },
                XmlEvent::Eof => {
                    return if found { Ok(L10nFile(acc)) } else { Err(AbstractFileError::XmlUndeclared) };
                },
                XmlEvent::Empty(t) => {
                    if tag_is(t, "text") {
                        if let (Some(k), Some(v)) = (get_attribute(t, "name"), get_attribute(t, "text")) {
                            acc.insert(k, v);
                        }
                    } else if tag_is(t, "e") {
                        if let (Some(k), Some(v)) = (get_attribute(t, "k"), get_attribute(t, "v")) {
                            acc.insert(k, v);
                        }
                    }
                },
                _ => {},
            }
            i = i + 1;
        }
        if found { Ok(L10nFile(acc)) } else { Err(AbstractFileError::XmlUndeclared) }
    }

    /// Read an l10n file from text.
    ///
    /// # Errors
    /// as [`L10nFile::from_events`] for the text's events.
    pub fn from_string(xml_text: &str) -> (r: Result<L10nFile, AbstractFileError>)
        ensures
            match r {
                Ok(f) => exists|evs: Seq<XmlEvent>|
                    spec_l10n_file(evs) == Ok::<Seq<(Seq<char>, Seq<char>)>, AbstractFileError>(f@),
                Err(e) => e == AbstractFileError::XmlParseError || exists|evs: Seq<XmlEvent>|
                    spec_l10n_file(evs) == Err::<Seq<(Seq<char>, Seq<char>)>, AbstractFileError>(e),
            },
    {
        let evs = events_of(xml_text)?;
        L10nFile::from_events(&evs)
    }

    /// Read an l10n file of a mod.
    ///
    /// # Errors
    /// the error reading the file gives, or as [`L10nFile::from_string`].
    pub fn from_abstract_file(mod_file: &AbstractFile, needle: &str) -> (r: Result<L10nFile, AbstractFileError>)
        ensures
            spec_text(*mod_file, needle@) matches Err(e) ==> r == Err::<L10nFile, AbstractFileError>(e),
            spec_text(*mod_file, needle@) is Ok ==> (match r {
                    Ok(f) => exists|evs: Seq<XmlEvent>|
                        spec_l10n_file(evs) == Ok::<Seq<(Seq<char>, Seq<char>)>, AbstractFileError>(f@),
                    Err(e) => e == AbstractFileError::XmlParseError || exists|evs: Seq<XmlEvent>|
                        spec_l10n_file(evs) == Err::<Seq<(Seq<char>, Seq<char>)>, AbstractFileError>(e),
                }),
    {
        let text = mod_file.text(needle)?;
        L10nFile::from_string(text.as_str())
    }
}

/// The entries of one language file added to the language's map.
pub open spec fn add_language(
    m: Seq<(Seq<char>, Seq<(Seq<char>, Seq<char>)>)>,
    lang: Seq<char>,
    data: Seq<(Seq<char>, Seq<char>)>,
) -> Seq<(Seq<char>, Seq<(Seq<char>, Seq<char>)>)>
    decreases data.len(),
{
    if data.len() == 0 {
        m
    } else {
        let before = add_language(m, lang, data.drop_last());
        let inner = match lookup(before, lang) { Some(x) => x, None => Seq::empty() };
        map_insert(before, lang, map_insert(inner, data.last().0, data.last().1))
    }
}

/// The language tag of an l10n file name: what lies between the prefix and `.xml`.
pub open spec fn language_of(file: Seq<char>, prefix: Seq<char>) -> Option<Seq<char>> {
    if is_prefix(prefix, file) && is_suffix(".xml"@, file.subrange(prefix.len() as int, file.len() as int)) {
        Some(file.subrange(prefix.len() as int, file.len() - 4))
    } else {
        None
    }
}

/// A language added to the map only adds its own key.
pub proof fn lemma_add_language_keys(
    m: Seq<(Seq<char>, Seq<(Seq<char>, Seq<char>)>)>,
    lang: Seq<char>,
    data: Seq<(Seq<char>, Seq<char>)>,
    k: Seq<char>,
)
    ensures
        lookup(add_language(m, lang, data), k) is Some ==> lookup(m, k) is Some || k == lang,
    decreases data.len(),
{
    if data.len() > 0 {
        let before = add_language(m, lang, data.drop_last());
        let inner = match lookup(before, lang) { Some(x) => x, None => Seq::empty() };
        crate::collections::lemma_lookup_insert(before, lang, map_insert(inner, data.last().0, data.last().1), k);
        lemma_add_language_keys(m, lang, data.drop_last(), k);
    }
}

/// The map a language holds, or none yet.
pub open spec fn language_map(
    m: Seq<(Seq<char>, Seq<(Seq<char>, Seq<char>)>)>,
    lang: Seq<char>,
) -> Seq<(Seq<char>, Seq<char>)> {
    match lookup(m, lang) { Some(x) => x, None => Seq::empty() }
}

/// Adding a language file stores each of its entries in order under its
/// language, on top of what that language held; every other language is
/// left as it was.
pub proof fn law_add_language(
    m: Seq<(Seq<char>, Seq<(Seq<char>, Seq<char>)>)>,
    lang: Seq<char>,
    data: Seq<(Seq<char>, Seq<char>)>,
    l: Seq<char>,
)
    ensures
        lookup(add_language(m, lang, data), l) == if l == lang && data.len() > 0 {
            Some(insert_all(language_map(m, lang), data))
        } else {
            lookup(m, l)
        },
    decreases data.len(),
{
    if data.len() > 0 {
        let before = add_language(m, lang, data.drop_last());
        law_add_language(m, lang, data.drop_last(), l);
        law_add_language(m, lang, data.drop_last(), lang);
        let inner = language_map(before, lang);
        assert(inner == insert_all(language_map(m, lang), data.drop_last()));
        lemma_lookup_insert(before, lang, map_insert(inner, data.last().0, data.last().1), l);
    }
}

/// The translations after the files `names[j]`, `j < read.len()`, where
/// `read[j]` is what file `j` gave when it read: each such file whose name
/// carries a language adds its entries under that language.
pub open spec fn l10n_fold(
    names: Seq<Seq<char>>,
    read: Seq<Option<Seq<(Seq<char>, Seq<char>)>>>,
    prefix: Seq<char>,
) -> Seq<(Seq<char>, Seq<(Seq<char>, Seq<char>)>)>
    decreases read.len(),
{
    if read.len() == 0 {
        Seq::empty()
    } else {
        let before = l10n_fold(names, read.drop_last(), prefix);
        match (read.last(), language_of(names[read.len() - 1], prefix)) {
            (Some(d), Some(l)) => add_language(before, l, d),
            _ => before,
        }
    }
}

/// `read[j]`, for each file `names[j]`, is either nothing or the entries of
/// an l10n file that the file's text holds.
pub open spec fn l10n_reads(
    mod_file: AbstractFile,
    names: Seq<Seq<char>>,
    read: Seq<Option<Seq<(Seq<char>, Seq<char>)>>>,
) -> bool {
    &&& read.len() == names.len()
    &&& forall|j: int| 0 <= j < read.len() ==> match #[trigger] read[j] {
        Some(d) => spec_text(mod_file, names[j]) is Ok && exists|evs: Seq<XmlEvent>|
            spec_l10n_file(evs) == Ok::<Seq<(Seq<char>, Seq<char>)>, AbstractFileError>(d),
        None => true,
    }
}

/// Every entry `(k, v)` of a language file that read is in the result under
/// the file's language, as the file's last value for `k`, unless a later
/// file of the same language read too.
pub proof fn law_l10n_files(
    names: Seq<Seq<char>>,
    read: Seq<Option<Seq<(Seq<char>, Seq<char>)>>>,
    prefix: Seq<char>,
    j: int,
    k: Seq<char>,
)
    requires
        0 <= j < read.len() <= names.len(),
        read[j] is Some,
        language_of(names[j], prefix) is Some,
        last_value(read[j]->0, k) is Some,
        forall|j2: int| j < j2 < read.len() && #[trigger] read[j2] is Some
            ==> language_of(names[j2], prefix) != language_of(names[j], prefix),
    ensures
        lookup(l10n_fold(names, read, prefix), language_of(names[j], prefix)->0) matches Some(inner)
            && lookup(inner, k) == last_value(read[j]->0, k),
    decreases read.len(),
{
    let l = language_of(names[j], prefix)->0;
    let d = read[j]->0;
    let before = l10n_fold(names, read.drop_last(), prefix);
    let n = read.len() - 1;
    if j == n {
        law_add_language(before, l, d, l);
        law_insert_all(language_map(before, l), d, k);
    } else {
        law_l10n_files(names, read.drop_last(), prefix, j, k);
        match (read.last(), language_of(names[n], prefix)) {
            (Some(d2), Some(l2)) => {
                assert(read[n] is Some);
                law_add_language(before, l2, d2, l);
            },
            _ => {},
        }
    }
}

impl L10n {
    /// An empty set of translations.
    pub fn new() -> (r: L10n)
        ensures
            r@.len() == 0,
    {
        L10n(StrMap::new())
    }

    /// Load the l10n files `{folder}_{language}.xml` of a mod: each file that
    /// reads adds its entries under its language, in the order of the files;
    /// files that do not read are skipped. Every language of the result is
    /// that of such a file.
    pub fn from_abstract_folder(mod_file: &AbstractFile, folder: &str) -> (r: L10n)
        ensures
            exists|read: Seq<Option<Seq<(Seq<char>, Seq<char>)>>>|
                l10n_reads(*mod_file, spec_name_filter(spec_list(*mod_file), folder@.push('_'), "xml"@), read)
                && r@ == #[trigger] l10n_fold(spec_name_filter(spec_list(*mod_file), folder@.push('_'), "xml"@), read, folder@.push('_')),
            forall|k: Seq<char>| #[trigger] lookup(r@, k) is Some ==> exists|j: int|
                0 <= j < spec_name_filter(spec_list(*mod_file), folder@.push('_'), "xml"@).len()
                && language_of(#[trigger] spec_name_filter(spec_list(*mod_file), folder@.push('_'), "xml"@)[j], folder@.push('_')) == Some(k)
                && spec_text(*mod_file, spec_name_filter(spec_list(*mod_file), folder@.push('_'), "xml"@)[j]) is Ok,
    {
        let mut value_map = L10n::new();
        let mut prefix = to_chars(folder);
        prefix.push('_');
        let prefix_string = from_chars(prefix.as_slice());
        let files = mod_file.name_filter(prefix_string.as_str(), "xml");
        let ghost names = files@.map_values(|s: String| s@);
        let suffix = to_chars(".xml");
        proof { reveal_strlit(".xml"); }
        let mut i: usize = 0;
        let ghost mut read: Seq<Option<Seq<(Seq<char>, Seq<char>)>>> = Seq::empty();
        assert(value_map@ =~= l10n_fold(names, read, prefix@));
        while i < files.len()
            invariant
                i <= files@.len(),
                read.len() == i,
                forall|j: int| 0 <= j < read.len() ==> match #[trigger] read[j] {
                    Some(d) => spec_text(*mod_file, names[j]) is Ok && exists|evs: Seq<XmlEvent>|
                        spec_l10n_file(evs) == Ok::<Seq<(Seq<char>, Seq<char>)>, AbstractFileError>(d),
                    None => true,
                },
                value_map@ == l10n_fold(names, read, prefix@),
                names == files@.map_values(|s: String| s@),
                names == spec_name_filter(spec_list(*mod_file), prefix@, "xml"@),
                prefix@ == folder@.push('_'),
                suffix@ == ".xml"@,
                forall|k: Seq<char>| #[trigger] lookup(value_map@, k) is Some ==> exists|j: int|
                    0 <= j < i && language_of(#[trigger] names[j], prefix@) == Some(k)
                    && spec_text(*mod_file, names[j]) is Ok,
            decreases files.len() - i,
        {
            let ghost before = value_map@;
            let ghost read0 = read;
            assert(names[i as int] == files@[i as int]@);
            let got = L10nFile::from_abstract_file(mod_file, files[i].as_str());
            proof {
                read = read0.push(match &got { Ok(data) => Some(data@), Err(_) => None });
                assert(read.drop_last() =~= read0);
            }
            if let Ok(data) = got {
                let name = to_chars(files[i].as_str());
                if starts_with(name.as_slice(), prefix.as_slice()) {
                    let rest = sub_chars(name.as_slice(), prefix.len(), name.len());
                    if ends_with(rest.as_slice(), suffix.as_slice()) {
                        let lang = sub_chars(rest.as_slice(), 0, rest.len() - suffix.len());
                        proof {
                            let nm = names[i as int];
                            assert(name@ == nm);
                            reveal_strlit(".xml");
                            assert(suffix@.len() == 4);
                            assert(rest@ =~= nm.subrange(prefix@.len() as int, nm.len() as int));
                            assert(lang@ =~= nm.subrange(prefix@.len() as int, nm.len() - 4));
                        }
                        assert(language_of(names[i as int], prefix@) == Some(lang@));
                        let lang = from_chars(lang.as_slice());
                        value_map.add_language(&lang, &data);
                        assert forall|k: Seq<char>| #[trigger] lookup(value_map@, k) is Some implies exists|j: int|
                            0 <= j < i + 1 && language_of(#[trigger] names[j], prefix@) == Some(k)
                            && spec_text(*mod_file, names[j]) is Ok by {
                            lemma_add_language_keys(before, lang@, data@, k);
                            if k == lang@ {
                                assert(language_of(names[i as int], prefix@) == Some(k));
                            }
                        }
                    }
                }
            }
            i = i + 1;
        }
        assert(l10n_reads(*mod_file, names, read));
        value_map
    }

    /// Add the entries of one language file.
    pub fn add_language(&mut self, lang: &String, data: &L10nFile)
        ensures
            final(self)@ == add_language(old(self)@, lang@, data@),
    {
        let mut i: usize = 0;
        while i < data.0.entries.len()
            invariant
                i <= data@.len(),
                data@.len() == data.0.entries@.len(),
                self@ == add_language(old(self)@, lang@, data@.subrange(0, i as int)),
            decreases data.0.entries.len() - i,
        {
            assert(data@.subrange(0, i + 1).drop_last() =~= data@.subrange(0, i as int));
            let ghost before = self@;
            proof { crate::collections::lemma_key_index(self@, lang@); }
            match self.0.find(lang.as_str()) {
                Some(at) => {
                    let (k, mut m) = self.0.take_at(at);
                    m.insert(data.0.entries[i].0.clone(), data.0.entries[i].1.clone());
                    self.0.put_back(at, (k, m));
                    assert(self@ =~= map_insert(before, lang@, m@));
                },
                None => {
                    let mut m: StrMap<String> = StrMap::new();
                    assert(m@ =~= Seq::<(Seq<char>, Seq<char>)>::empty());
                    m.insert(data.0.entries[i].0.clone(), data.0.entries[i].1.clone());
                    self.0.insert(lang.clone(), m);
                },
            }
            i = i + 1;
        }
        assert(data@.subrange(0, data@.len() as int) =~= data@);
    }
}

} // verus!
