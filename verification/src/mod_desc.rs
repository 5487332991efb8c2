//! modDesc.xml: what a mod says about itself. XML oddities are collected as
//! warnings here; checking the mod is left to the parser.
use vstd::prelude::*;
use crate::errors::{AbstractFileError, ModDescWarnings, WarningSet, WarningView};
use crate::collections::{StrMap, lookup, map_insert, set_insert, lemma_key_index};
use crate::files::{AbstractFile, spec_text};
use crate::savegame::to_owned_str;
use crate::text::{str_eq, to_chars, eq_ignore_ascii_case, lower_seq, lower_char, crlf_to_lf, replace_crlf,
    unsigned_text_value, parse_unsigned};
use crate::xml::{XmlEvent, XmlTag, opt_chars, tag_attr, get_attribute, tag_is, skip_end, skip_to_end,
    lemma_skip_end_bounds, events_of};

verus! {

/// A list of strings.
#[derive(Debug)]
pub struct StrList(pub Vec<String>);

impl View for StrList {
    type V = Seq<Seq<char>>;

    open spec fn view(&self) -> Seq<Seq<char>> {
        self.0@.map_values(|s: String| s@)
    }
}

impl StrList {
    /// An empty list.
    pub fn new() -> (r: StrList)
        ensures
            r@.len() == 0,
    {
        StrList(Vec::new())
    }

    /// Append a string.
    pub fn push(&mut self, s: String)
        ensures
            final(self)@ == old(self)@.push(s@),
    {
        self.0.push(s);
        assert(self@ =~= old(self)@.push(s@));
    }
}

/// modDesc.xml struct - XML error handling here, not mod checking
#[derive(Debug)]
pub struct DescXML {
    /// Warnings from parsing the XML
    pub warnings: WarningSet,
    /// Title, in lang key -> value pairs
    pub title: StrMap<String>,
    /// Description, in lang key -> value pairs
    pub description: StrMap<String>,
    /// action list: name -> category
    pub actions: StrMap<String>,
    /// action bindings name -> key combo(s)
    pub action_binding: StrMap<StrList>,
    /// mod author
    pub author: Option<String>,
    /// script files referenced? (for pc only auto-flag)
    pub script_files: bool,
    /// store items list (xml files)
    pub store_items: StrList,
    /// dependencies (short names)
    pub dependencies: StrList,
    /// desc version
    pub desc_version: u32,
    /// icon filename
    pub icon_filename: Option<String>,
    /// map config file (if map)
    pub map_config_filename: Option<String>,
    /// multiplayer flag
    pub multiplayer: bool,
    /// mod version
    pub version: Option<String>,
    /// prefix for loadable l10n files
    pub l10n_file_prefix: Option<String>,
    /// l10n entries included here: text name -> language -> text
    pub l10n_local: StrMap<StrMap<String>>,
    /// game version the mod is for (no reader sets it; 0 is unknown)
    pub game_version: u32,
    /// mod icon, as data for an `<img src=..>`, where it was loaded
    pub icon_data: Option<String>,
}

/// modDesc.xml fields, as plain values.
pub struct DescView {
    /// warnings
    pub warnings: Seq<WarningView>,
    /// title by language
    pub title: Seq<(Seq<char>, Seq<char>)>,
    /// description by language
    pub description: Seq<(Seq<char>, Seq<char>)>,
    /// actions by name
    pub actions: Seq<(Seq<char>, Seq<char>)>,
    /// key bindings by action
    pub action_binding: Seq<(Seq<char>, Seq<Seq<char>>)>,
    /// author
    pub author: Option<Seq<char>>,
    /// script files
    pub script_files: bool,
    /// store items
    pub store_items: Seq<Seq<char>>,
    /// dependencies
    pub dependencies: Seq<Seq<char>>,
    /// desc version
    pub desc_version: nat,
    /// icon file
    pub icon_filename: Option<Seq<char>>,
    /// map config file
    pub map_config_filename: Option<Seq<char>>,
    /// multiplayer
    pub multiplayer: bool,
    /// version
    pub version: Option<Seq<char>>,
    /// l10n file prefix
    pub l10n_file_prefix: Option<Seq<char>>,
    /// local l10n entries
    pub l10n_local: Seq<(Seq<char>, Seq<(Seq<char>, Seq<char>)>)>,
    /// game version
    pub game_version: nat,
    /// icon data
    pub icon_data: Option<Seq<char>>,
}

impl View for DescXML {
    type V = DescView;

    open spec fn view(&self) -> DescView {
        DescView {
            warnings: self.warnings@,
            title: self.title@,
            description: self.description@,
            actions: self.actions@,
            action_binding: self.action_binding@,
            author: opt_chars(self.author),
            script_files: self.script_files,
            store_items: self.store_items@,
            dependencies: self.dependencies@,
            desc_version: self.desc_version as nat,
            icon_filename: opt_chars(self.icon_filename),
            map_config_filename: opt_chars(self.map_config_filename),
            multiplayer: self.multiplayer,
            version: opt_chars(self.version),
            l10n_file_prefix: opt_chars(self.l10n_file_prefix),
            l10n_local: self.l10n_local@,
            game_version: self.game_version as nat,
            icon_data: opt_chars(self.icon_data),
        }
    }
}

/// An empty modDesc record.
/// A description that some modDesc.xml gives.
pub open spec fn desc_read(d: DescView) -> bool {
    exists|evs: Seq<XmlEvent>| #[trigger] spec_desc(evs) == Ok::<DescView, AbstractFileError>(d)
}

pub open spec fn empty_desc() -> DescView {
    DescView {
        warnings: Seq::empty(), title: Seq::empty(), description: Seq::empty(), actions: Seq::empty(),
        action_binding: Seq::empty(), author: None, script_files: false, store_items: Seq::empty(),
        dependencies: Seq::empty(), desc_version: 0, icon_filename: None, map_config_filename: None,
        multiplayer: false, version: None, l10n_file_prefix: None, l10n_local: Seq::empty(),
        game_version: 0, icon_data: None,
    }
}

/// The languages the game knows.
pub open spec fn is_lang(s: Seq<char>) -> bool {
    s == "br"@ || s == "cs"@ || s == "ct"@ || s == "cz"@ || s == "da"@ || s == "de"@ || s == "ea"@
    || s == "en"@ || s == "es"@ || s == "fc"@ || s == "fi"@ || s == "fr"@ || s == "hu"@ || s == "id"@
    || s == "it"@ || s == "jp"@ || s == "kr"@ || s == "nl"@ || s == "no"@ || s == "pl"@ || s == "pt"@
    || s == "ro"@ || s == "ru"@ || s == "sv"@ || s == "tr"@ || s == "uk"@ || s == "vi"@
}

/// Is this one of the languages the game knows?
pub fn is_language(s: &str) -> (r: bool)
    ensures
        r == is_lang(s@),
{
    str_eq(s, "br") || str_eq(s, "cs") || str_eq(s, "ct") || str_eq(s, "cz") || str_eq(s, "da")
    || str_eq(s, "de") || str_eq(s, "ea") || str_eq(s, "en") || str_eq(s, "es") || str_eq(s, "fc")
    || str_eq(s, "fi") || str_eq(s, "fr") || str_eq(s, "hu") || str_eq(s, "id") || str_eq(s, "it")
    || str_eq(s, "jp") || str_eq(s, "kr") || str_eq(s, "nl") || str_eq(s, "no") || str_eq(s, "pl")
    || str_eq(s, "pt") || str_eq(s, "ro") || str_eq(s, "ru") || str_eq(s, "sv") || str_eq(s, "tr")
    || str_eq(s, "uk") || str_eq(s, "vi")
}

/// A warning added.
pub open spec fn warn(d: DescView, w: WarningView) -> DescView {
    DescView { warnings: set_insert(d.warnings, w), ..d }
}

// MARK: <title>

/// Reading the children of `<title>` from event `j` on: where it ends, or the error.
pub open spec fn title_run(evs: Seq<XmlEvent>, j: int, d: DescView) -> Result<(DescView, int), AbstractFileError>
    decreases evs.len() - j,
{
    if j < 0 || j >= evs.len() {
        Err(AbstractFileError::XmlParseError)
    } else {
        match evs[j] {
            XmlEvent::Start(t) => {
                proof { lemma_skip_end_bounds(evs, j + 1, t.name@, 0); }
                let d2 = match opt_chars(t.inner) {
                    Some(v) => if is_lang(t.name@) {
                        DescView { title: map_insert(d.title, t.name@, v), ..d }
                    } else {
                        warn(d, WarningView::L10nInvalidLanguage(t.name@, "title"@))
                    },
                    None => d,
                };
                title_run(evs, skip_end(evs, j + 1, t.name@, 0), d2)
            },
            XmlEvent::Text(_, un) => match un {
                Some(v) => title_run(evs, j + 1, DescView {
                    title: map_insert(d.title, "en"@, v@),
                    ..warn(d, WarningView::ShouldBeL10n("title"@))
                }),
                None => title_run(evs, j + 1, d),
            },
            XmlEvent::End(n) => if n@ == "title"@ { Ok((d, j + 1)) } else { title_run(evs, j + 1, d) },
            XmlEvent::Eof => Err(AbstractFileError::XmlParseError),
            _ => title_run(evs, j + 1, d),
        }
    }
}

// MARK: <description>

/// Reading the children of `<description>` from event `j` on, texts going
/// to language `lang`.
pub open spec fn description_run(evs: Seq<XmlEvent>, j: int, lang: Seq<char>, d: DescView)
    -> Result<(DescView, int), AbstractFileError>
    decreases evs.len() - j,
{
    if j < 0 || j >= evs.len() {
        Err(AbstractFileError::XmlParseError)
    } else {
        match evs[j] {
            XmlEvent::Start(t) => if is_lang(t.name@) {
                description_run(evs, j + 1, t.name@, d)
            } else {
                description_run(evs, j + 1, t.name@,
                    warn(d, WarningView::L10nInvalidLanguage(t.name@, "description"@)))
            },
            XmlEvent::Text(_, un) => match un {
                Some(v) => description_run(evs, j + 1, lang,
                    DescView { description: map_insert(d.description, lang, crlf_to_lf(v@)), ..d }),
                None => description_run(evs, j + 1, lang, d),
            },
            XmlEvent::CData(c) => match c {
                Some(v) => description_run(evs, j + 1, lang,
                    DescView { description: map_insert(d.description, lang, crlf_to_lf(v@)), ..d }),
                None => description_run(evs, j + 1, lang, d),
            },
            XmlEvent::End(n) => if n@ == "description"@ { Ok((d, j + 1)) } else { description_run(evs, j + 1, lang, d) },
            XmlEvent::Eof => Err(AbstractFileError::XmlParseError),
            _ => description_run(evs, j + 1, lang, d),
        }
    }
}

// MARK: <actionBinding>

/// A key combination added to the bindings of action `key`.
pub open spec fn add_binding(d: DescView, key: Seq<char>, input: Seq<char>) -> DescView {
    let before = match lookup(d.action_binding, key) { Some(l) => l, None => Seq::empty() };
    DescView { action_binding: map_insert(d.action_binding, key, before.push(input)), ..d }
}

/// Reading the children of `<actionBinding action="key">` from event `j` on.
pub open spec fn binding_run(evs: Seq<XmlEvent>, j: int, key: Seq<char>, d: DescView)
    -> Result<(DescView, int), AbstractFileError>
    decreases evs.len() - j,
{
    if j < 0 || j >= evs.len() {
        Err(AbstractFileError::XmlParseError)
    } else {
        match evs[j] {
            XmlEvent::Empty(t) => if t.name@ == "binding"@ {
                match (tag_attr(t, "device"@), tag_attr(t, "input"@)) {
                    (Some(dev), Some(input)) => if dev == "KB_MOUSE_DEFAULT"@ {
                        binding_run(evs, j + 1, key, add_binding(d, key, input))
                    } else {
                        binding_run(evs, j + 1, key, d)
                    },
                    _ => binding_run(evs, j + 1, key, warn(d, WarningView::ActionBindingMalformed)),
                }
            } else {
                binding_run(evs, j + 1, key, warn(d, WarningView::ActionBindingInvalidTag(t.name@)))
            },
            XmlEvent::Start(t) => binding_run(evs, j + 1, key, warn(d, WarningView::ActionBindingInvalidTag(t.name@))),
            XmlEvent::End(n) => if n@ == "actionBinding"@ { Ok((d, j + 1)) } else { binding_run(evs, j + 1, key, d) },
            XmlEvent::Eof => Err(AbstractFileError::XmlParseError),
            _ => binding_run(evs, j + 1, key, d),
        }
    }
}

// MARK: <l10n><text>

/// A local l10n entry added: text `key` in language `lang`.
pub open spec fn add_local(d: DescView, key: Seq<char>, lang: Seq<char>, v: Seq<char>) -> DescView {
    let before = match lookup(d.l10n_local, key) { Some(m) => m, None => Seq::empty() };
    DescView { l10n_local: map_insert(d.l10n_local, key, map_insert(before, lang, v)), ..d }
}

/// Reading the children of `<text name="key">` from event `j` on.
pub open spec fn l10n_text_run(evs: Seq<XmlEvent>, j: int, key: Seq<char>, d: DescView)
    -> Result<(DescView, int), AbstractFileError>
    decreases evs.len() - j,
{
    if j < 0 || j >= evs.len() {
        Err(AbstractFileError::XmlParseError)
    } else {
        match evs[j] {
            XmlEvent::Start(t) => if is_lang(t.name@) {
                proof { lemma_skip_end_bounds(evs, j + 1, t.name@, 0); }
                let d2 = match opt_chars(t.inner) {
                    Some(v) => add_local(d, key, t.name@, v),
                    None => d,
                };
                l10n_text_run(evs, skip_end(evs, j + 1, t.name@, 0), key, d2)
            } else {
                l10n_text_run(evs, j + 1, key, warn(d, WarningView::L10nInvalidLanguage(t.name@, key)))
            },
            XmlEvent::Empty(t) => l10n_text_run(evs, j + 1, key, warn(d, WarningView::L10nInvalidLanguage(t.name@, key))),
            XmlEvent::End(n) => if n@ == "text"@ { Ok((d, j + 1)) } else { l10n_text_run(evs, j + 1, key, d) },
            XmlEvent::Eof => Err(AbstractFileError::XmlParseError),
            _ => l10n_text_run(evs, j + 1, key, d),
        }
    }
}

/// Every sub-reader ends after where it started.
pub proof fn lemma_runs_advance(evs: Seq<XmlEvent>, j: int, key: Seq<char>, d: DescView)
    requires
        0 <= j,
    ensures
        title_run(evs, j, d) matches Ok((_, k)) ==> j < k <= evs.len(),
        description_run(evs, j, key, d) matches Ok((_, k)) ==> j < k <= evs.len(),
        binding_run(evs, j, key, d) matches Ok((_, k)) ==> j < k <= evs.len(),
        l10n_text_run(evs, j, key, d) matches Ok((_, k)) ==> j < k <= evs.len(),
    decreases evs.len() - j,
{
    if j < evs.len() {
        match evs[j] {
            XmlEvent::Start(t) => {
                lemma_skip_end_bounds(evs, j + 1, t.name@, 0);
                let k = skip_end(evs, j + 1, t.name@, 0);
                let d2 = match opt_chars(t.inner) {
                    Some(v) => if is_lang(t.name@) {
                        DescView { title: map_insert(d.title, t.name@, v), ..d }
                    } else {
                        warn(d, WarningView::L10nInvalidLanguage(t.name@, "title"@))
                    },
                    None => d,
                };
                lemma_runs_advance(evs, k, key, d2);
                lemma_runs_advance(evs, j + 1, t.name@, d);
                lemma_runs_advance(evs, j + 1, t.name@, warn(d, WarningView::L10nInvalidLanguage(t.name@, "description"@)));
                lemma_runs_advance(evs, j + 1, key, warn(d, WarningView::ActionBindingInvalidTag(t.name@)));
                let d3 = match opt_chars(t.inner) {
                    Some(v) => add_local(d, key, t.name@, v),
                    None => d,
                };
                lemma_runs_advance(evs, k, key, d3);
                lemma_runs_advance(evs, j + 1, key, warn(d, WarningView::L10nInvalidLanguage(t.name@, key)));
            },
            XmlEvent::Text(_, un) => {
                match un {
                    Some(v) => {
                        lemma_runs_advance(evs, j + 1, key, DescView {
                            title: map_insert(d.title, "en"@, v@),
                            ..warn(d, WarningView::ShouldBeL10n("title"@))
                        });
                        lemma_runs_advance(evs, j + 1, key,
                            DescView { description: map_insert(d.description, key, crlf_to_lf(v@)), ..d });
                    },
                    None => {},
                }
                lemma_runs_advance(evs, j + 1, key, d);
            },
            XmlEvent::CData(c) => {
                match c {
                    Some(v) => {
                        lemma_runs_advance(evs, j + 1, key,
                            DescView { description: map_insert(d.description, key, crlf_to_lf(v@)), ..d });
                    },
                    None => {},
                }
                lemma_runs_advance(evs, j + 1, key, d);
            },
            XmlEvent::Empty(t) => {
                match (tag_attr(t, "device"@), tag_attr(t, "input"@)) {
                    (Some(dev), Some(input)) => {
                        lemma_runs_advance(evs, j + 1, key, add_binding(d, key, input));
                    },
                    _ => {},
                }
                lemma_runs_advance(evs, j + 1, key, warn(d, WarningView::ActionBindingMalformed));
                lemma_runs_advance(evs, j + 1, key, warn(d, WarningView::ActionBindingInvalidTag(t.name@)));
                lemma_runs_advance(evs, j + 1, key, warn(d, WarningView::L10nInvalidLanguage(t.name@, key)));
                lemma_runs_advance(evs, j + 1, key, d);
            },
            _ => {
                lemma_runs_advance(evs, j + 1, key, d);
            },
        }
    }
}

} // verus!

verus! {

// MARK: modDesc.xml

/// A self-closing tag of modDesc.xml applied.
pub open spec fn desc_self_closing(d: DescView, t: XmlTag, depth: int) -> DescView {
    if t.name@ == "multiplayer"@ && depth == 1 {
        match tag_attr(t, "supported"@) {
            Some(v) => DescView { multiplayer: lower_seq(v) == lower_seq("true"@), ..d },
            None => d,
        }
    } else if t.name@ == "l10n"@ && depth == 1 {
        match tag_attr(t, "filenamePrefix"@) {
            Some(v) => DescView { l10n_file_prefix: Some(v), ..d },
            None => d,
        }
    } else if t.name@ == "sourceFile"@ && depth == 2 {
        DescView { script_files: true, ..d }
    } else if t.name@ == "storeItem"@ && depth == 2 {
        match tag_attr(t, "xmlFilename"@) {
            Some(v) => DescView { store_items: d.store_items.push(v), ..d },
            None => d,
        }
    } else if t.name@ == "action"@ && depth == 2 {
        match tag_attr(t, "name"@) {
            Some(n) => DescView {
                actions: map_insert(d.actions, n, match tag_attr(t, "category"@) { Some(c) => c, None => "ALL"@ }),
                ..d
            },
            None => d,
        }
    } else {
        d
    }
}

/// `c` is the letter `l` (given in lower case) in either case.
pub open spec fn either_case(c: char, l: char) -> bool {
    c == l || (c as u32) + 32 == (l as u32)
}

/// A `<multiplayer>` tag at the top of modDesc.xml decides the multiplayer
/// flag by its `supported` attribute alone: the mod supports multiplayer
/// exactly when the attribute spells `true` in any mix of cases, so
/// `supported="false"` (or anything else) marks it single-player. A tag
/// without the attribute leaves the flag as it was; nothing else changes.
pub proof fn law_multiplayer(d: DescView, t: XmlTag)
    requires
        t.name@ == "multiplayer"@,
    ensures
        tag_attr(t, "supported"@) matches Some(v) ==> (desc_self_closing(d, t, 1).multiplayer <==>
            (v.len() == 4 && either_case(v[0], 't') && either_case(v[1], 'r')
                && either_case(v[2], 'u') && either_case(v[3], 'e'))),
        tag_attr(t, "supported"@) is None ==> desc_self_closing(d, t, 1) == d,
        desc_self_closing(d, t, 1) == (DescView { multiplayer: desc_self_closing(d, t, 1).multiplayer, ..d }),
{
    reveal_strlit("true");
    if let Some(v) = tag_attr(t, "supported"@) {
        let tr = "true"@;
        assert(tr.len() == 4 && tr[0] == 't' && tr[1] == 'r' && tr[2] == 'u' && tr[3] == 'e');
        let spelled = v.len() == 4 && either_case(v[0], 't') && either_case(v[1], 'r')
            && either_case(v[2], 'u') && either_case(v[3], 'e');
        if lower_seq(v) == lower_seq(tr) {
            assert(lower_seq(v).len() == v.len());
            assert(v.len() == 4);
            assert forall|i: int| 0 <= i < 4 implies #[trigger] lower_char(v[i]) == tr[i] by {
                assert(lower_seq(v)[i] == lower_seq(tr)[i]);
            }
            assert(lower_char(v[0]) == 't' && lower_char(v[1]) == 'r' && lower_char(v[2]) == 'u' && lower_char(v[3]) == 'e');
            assert(spelled);
        }
        if spelled {
            assert forall|i: int| 0 <= i < 4 implies #[trigger] lower_seq(v)[i] == lower_seq(tr)[i] by {
                assert(lower_char(tr[i]) == tr[i]);
            }
            assert(lower_seq(v) =~= lower_seq(tr));
        }
    }
}

/// The `descVersion` a `<modDesc>` tag gives, 0 where it does not parse as a `u32`.
pub open spec fn desc_version_of(t: XmlTag) -> nat {
    match tag_attr(t, "descVersion"@) {
        Some(v) => match unsigned_text_value(v) {
            Some(n) => if n <= u32::MAX { n } else { 0 },
            None => 0,
        },
        None => 0,
    }
}

/// A sub-reader's result continued by the main reader.
pub open spec fn continue_desc(evs: Seq<XmlEvent>, i: int, depth: int, r: Result<(DescView, int), AbstractFileError>)
    -> Result<DescView, AbstractFileError>
    decreases evs.len() - i, 0int,
{
    match r {
        Ok((d2, k)) => if i < k <= evs.len() { desc_run(evs, k, depth, d2) } else { Err(AbstractFileError::XmlParseError) },
        Err(e) => Err(e),
    }
}

/// Reading modDesc.xml from event `i` on, with `depth` open tags.
pub open spec fn desc_run(evs: Seq<XmlEvent>, i: int, depth: int, d: DescView) -> Result<DescView, AbstractFileError>
    decreases evs.len() - i, 1int,
{
    if i < 0 || i >= evs.len() {
        Ok(d)
    } else {
        match evs[i] {
            XmlEvent::Error => Err(AbstractFileError::XmlParseError),
            XmlEvent::Eof => Ok(d),
            XmlEvent::End(_) => desc_run(evs, i + 1, depth - 1, d),
            XmlEvent::Empty(t) => desc_run(evs, i + 1, depth, desc_self_closing(d, t, depth)),
            XmlEvent::Start(t) => {
                proof { lemma_skip_end_bounds(evs, i + 1, t.name@, 0); }
                let after = skip_end(evs, i + 1, t.name@, 0);
                let text = opt_chars(t.inner);
                if t.name@ == "modDesc"@ && depth == 0 {
                    desc_run(evs, i + 1, depth + 1, DescView { desc_version: desc_version_of(t), ..d })
                } else if depth == 0 {
                    Err(AbstractFileError::XmlParseError)
                } else if t.name@ == "author"@ && depth == 1 {
                    desc_run(evs, after, depth, DescView { author: text, ..d })
                } else if t.name@ == "version"@ && depth == 1 {
                    desc_run(evs, after, depth, DescView { version: text, ..d })
                } else if t.name@ == "iconFilename"@ && depth == 1 {
                    desc_run(evs, after, depth, DescView { icon_filename: text, ..d })
                } else if t.name@ == "dependency"@ && depth == 2 {
                    match text {
                        Some(v) => desc_run(evs, after, depth, DescView { dependencies: d.dependencies.push(v), ..d }),
                        None => desc_run(evs, after, depth, d),
                    }
                } else if t.name@ == "map"@ && depth == 2 && d.map_config_filename is None {
                    desc_run(evs, i + 1, depth, DescView { map_config_filename: tag_attr(t, "configFilename"@), ..d })
                } else if t.name@ == "text"@ && depth == 2 {
                    match tag_attr(t, "name"@) {
                        Some(key) => continue_desc(evs, i, depth, l10n_text_run(evs, i + 1, key, d)),
                        None => desc_run(evs, i + 1, depth, warn(d, WarningView::L10nMalformed)),
                    }
                } else if t.name@ == "title"@ && depth == 1 {
                    continue_desc(evs, i, depth, title_run(evs, i + 1, d))
                } else if t.name@ == "description"@ && depth == 1 {
                    continue_desc(evs, i, depth, description_run(evs, i + 1, "en"@, d))
                } else if t.name@ == "actionBinding"@ && depth == 2 {
                    match tag_attr(t, "action"@) {
                        Some(key) => continue_desc(evs, i, depth, binding_run(evs, i + 1, key, d)),
                        None => desc_run(evs, i + 1, depth, warn(d, WarningView::ActionBindingMalformed)),
                    }
                } else {
                    desc_run(evs, i + 1, depth + 1, d)
                }
            },
            _ => desc_run(evs, i + 1, depth, d),
        }
    }
}

/// modDesc.xml read from its events.
pub open spec fn spec_desc(evs: Seq<XmlEvent>) -> Result<DescView, AbstractFileError> {
    desc_run(evs, 0, 0, empty_desc())
}

} // verus!

verus! {

/// A copy of an optional string.
pub fn copy_opt(o: &Option<String>) -> (r: Option<String>)
    ensures
        opt_chars(r) == opt_chars(*o),
{
    match o {
        Some(v) => Some(v.clone()),
        None => None,
    }
}

/// Append a key combination to the bindings of action `key`.
fn push_binding(m: &mut StrMap<StrList>, key: &String, input: String)
    ensures
        final(m)@ == map_insert(old(m)@, key@,
            (match lookup(old(m)@, key@) { Some(l) => l, None => Seq::empty() }).push(input@)),
{
    proof { lemma_key_index(m@, key@); }
    let ghost before = m@;
    match m.find(key.as_str()) {
        Some(at) => {
            let (k, mut l) = m.take_at(at);
            l.push(input);
            m.put_back(at, (k, l));
            assert(m@ =~= map_insert(before, key@, l@));
        },
        None => {
            let mut l = StrList::new();
            l.push(input);
            assert(l@ =~= Seq::<Seq<char>>::empty().push(input@));
            m.insert(key.clone(), l);
        },
    }
}

/// Store a local l10n text `key` in language `lang`.
pub(crate) fn put_local(m: &mut StrMap<StrMap<String>>, key: &String, lang: String, v: String)
    ensures
        final(m)@ == map_insert(old(m)@, key@,
            map_insert(match lookup(old(m)@, key@) { Some(x) => x, None => Seq::empty() }, lang@, v@)),
{
    proof { lemma_key_index(m@, key@); }
    let ghost before = m@;
    match m.find(key.as_str()) {
        Some(at) => {
            let (k, mut inner) = m.take_at(at);
            inner.insert(lang, v);
            m.put_back(at, (k, inner));
            assert(m@ =~= map_insert(before, key@, inner@));
        },
        None => {
            let mut inner: StrMap<String> = StrMap::new();
            assert(inner@ =~= Seq::<(Seq<char>, Seq<char>)>::empty());
            inner.insert(lang, v);
            m.insert(key.clone(), inner);
        },
    }
}

impl DescXML {
    /// An empty record.
    pub fn new() -> (r: DescXML)
        ensures
            r@ == empty_desc(),
    {
        let r = DescXML {
            warnings: WarningSet::new(), title: StrMap::new(), description: StrMap::new(),
            actions: StrMap::new(), action_binding: StrMap::new(), author: None, script_files: false,
            store_items: StrList::new(), dependencies: StrList::new(), desc_version: 0,
            icon_filename: None, map_config_filename: None, multiplayer: false, version: None,
            l10n_file_prefix: None, l10n_local: StrMap::new(), game_version: 0, icon_data: None,
        };
        assert(r@.warnings =~= Seq::<WarningView>::empty());
        assert(r@.title =~= Seq::<(Seq<char>, Seq<char>)>::empty());
        assert(r@.description =~= Seq::<(Seq<char>, Seq<char>)>::empty());
        assert(r@.actions =~= Seq::<(Seq<char>, Seq<char>)>::empty());
        assert(r@.action_binding =~= Seq::<(Seq<char>, Seq<Seq<char>>)>::empty());
        assert(r@.store_items =~= Seq::<Seq<char>>::empty());
        assert(r@.dependencies =~= Seq::<Seq<char>>::empty());
        assert(r@.l10n_local =~= Seq::<(Seq<char>, Seq<(Seq<char>, Seq<char>)>)>::empty());
        r
    }

    /// Read the children of `<title>` from event `j` on.
    fn read_title(evs: &Vec<XmlEvent>, j: usize, d: &mut DescXML) -> (r: Result<usize, AbstractFileError>)
        requires
            j <= evs@.len(),
        ensures
            match r {
                Ok(k) => title_run(evs@, j as int, old(d)@) == Ok::<(DescView, int), AbstractFileError>((final(d)@, k as int)),
                Err(e) => title_run(evs@, j as int, old(d)@) == Err::<(DescView, int), AbstractFileError>(e),
            },
    {
        let mut k: usize = j;
        while k < evs.len()
            invariant
                j <= k <= evs@.len(),
                title_run(evs@, k as int, d@) == title_run(evs@, j as int, old(d)@),
            decreases evs.len() - k,
        {
            let mut next: usize = k + 1;
            match &evs[k] {
                XmlEvent::Start(t) => {
                    let (after, _) = skip_to_end(evs, k + 1, t.name.as_str());
                    if let Some(v) = &t.inner {
                        if is_language(t.name.as_str()) {
                            d.title.insert(t.name.clone(), v.clone());
                        } else {
                            d.warnings.insert(ModDescWarnings::L10nInvalidLanguage(t.name.clone(), to_owned_str("title")));
                        }
                    }
                    next = after;
                },
                XmlEvent::Text(_, un) => {
                    if let Some(v) = un {
                        d.warnings.insert(ModDescWarnings::ShouldBeL10n(to_owned_str("title")));
                        d.title.insert(to_owned_str("en"), v.clone());
                    }
                },
                XmlEvent::End(n) => {
                    if str_eq(n.as_str(), "title") {
                        return Ok(k + 1);
                    }
                },
                XmlEvent::Eof => { return Err(AbstractFileError::XmlParseError); },
                _ => {},
            }
            k = next;
        }
        Err(AbstractFileError::XmlParseError)
    }

    /// Read the children of `<description>` from event `j` on.
    fn read_description(evs: &Vec<XmlEvent>, j: usize, d: &mut DescXML) -> (r: Result<usize, AbstractFileError>)
        requires
            j <= evs@.len(),
        ensures
            match r {
                Ok(k) => description_run(evs@, j as int, "en"@, old(d)@) == Ok::<(DescView, int), AbstractFileError>((final(d)@, k as int)),
                Err(e) => description_run(evs@, j as int, "en"@, old(d)@) == Err::<(DescView, int), AbstractFileError>(e),
            },
    {
        let mut k: usize = j;
        let mut lang = to_owned_str("en");
        while k < evs.len()
            invariant
                j <= k <= evs@.len(),
                description_run(evs@, k as int, lang@, d@) == description_run(evs@, j as int, "en"@, old(d)@),
            decreases evs.len() - k,
        {
            match &evs[k] {
                XmlEvent::Start(t) => {
                    if !is_language(t.name.as_str()) {
                        d.warnings.insert(ModDescWarnings::L10nInvalidLanguage(t.name.clone(), to_owned_str("description")));
                    }
                    lang = t.name.clone();
                },
                XmlEvent::Text(_, un) => {
                    if let Some(v) = un {
                        d.description.insert(lang.clone(), replace_crlf(v.as_str()));
                    }
                },
                XmlEvent::CData(c) => {
                    if let Some(v) = c {
                        d.description.insert(lang.clone(), replace_crlf(v.as_str()));
                    }
                },
                XmlEvent::End(n) => {
                    if str_eq(n.as_str(), "description") {
                        return Ok(k + 1);
                    }
                },
                XmlEvent::Eof => { return Err(AbstractFileError::XmlParseError); },
                _ => {},
            }
            k = k + 1;
        }
        Err(AbstractFileError::XmlParseError)
    }

    /// Read the children of `<actionBinding action="key">` from event `j` on.
    fn read_binding(evs: &Vec<XmlEvent>, j: usize, key: &String, d: &mut DescXML) -> (r: Result<usize, AbstractFileError>)
        requires
            j <= evs@.len(),
        ensures
            match r {
                Ok(k) => binding_run(evs@, j as int, key@, old(d)@) == Ok::<(DescView, int), AbstractFileError>((final(d)@, k as int)),
                Err(e) => binding_run(evs@, j as int, key@, old(d)@) == Err::<(DescView, int), AbstractFileError>(e),
            },
    {
        let mut k: usize = j;
        while k < evs.len()
            invariant
                j <= k <= evs@.len(),
                binding_run(evs@, k as int, key@, d@) == binding_run(evs@, j as int, key@, old(d)@),
            decreases evs.len() - k,
        {
            match &evs[k] {
                XmlEvent::Empty(t) => {
                    if tag_is(t, "binding") {
                        match (get_attribute(t, "device"), get_attribute(t, "input")) {
                            (Some(dev), Some(input)) => {
                                if str_eq(dev.as_str(), "KB_MOUSE_DEFAULT") {
                                    push_binding(&mut d.action_binding, key, input);
                                }
                            },
                            _ => { d.warnings.insert(ModDescWarnings::ActionBindingMalformed()); },
                        }
                    } else {
                        d.warnings.insert(ModDescWarnings::ActionBindingInvalidTag(t.name.clone()));
                    }
                },
                XmlEvent::Start(t) => {
                    d.warnings.insert(ModDescWarnings::ActionBindingInvalidTag(t.name.clone()));
                },
                XmlEvent::End(n) => {
                    if str_eq(n.as_str(), "actionBinding") {
                        return Ok(k + 1);
                    }
                },
                XmlEvent::Eof => { return Err(AbstractFileError::XmlParseError); },
                _ => {},
            }
            k = k + 1;
        }
        Err(AbstractFileError::XmlParseError)
    }

    /// Read the children of `<text name="key">` from event `j` on.
    fn read_l10n_text(evs: &Vec<XmlEvent>, j: usize, key: &String, d: &mut DescXML) -> (r: Result<usize, AbstractFileError>)
        requires
            j <= evs@.len(),
        ensures
            match r {
                Ok(k) => l10n_text_run(evs@, j as int, key@, old(d)@) == Ok::<(DescView, int), AbstractFileError>((final(d)@, k as int)),
                Err(e) => l10n_text_run(evs@, j as int, key@, old(d)@) == Err::<(DescView, int), AbstractFileError>(e),
            },
    {
        let mut k: usize = j;
        while k < evs.len()
            invariant
                j <= k <= evs@.len(),
                l10n_text_run(evs@, k as int, key@, d@) == l10n_text_run(evs@, j as int, key@, old(d)@),
            decreases evs.len() - k,
        {
            let mut next: usize = k + 1;
            match &evs[k] {
                XmlEvent::Start(t) => {
                    if is_language(t.name.as_str()) {
                        let (after, _) = skip_to_end(evs, k + 1, t.name.as_str());
                        if let Some(v) = &t.inner {
                            put_local(&mut d.l10n_local, key, t.name.clone(), v.clone());
                        }
                        next = after;
                    } else {
                        d.warnings.insert(ModDescWarnings::L10nInvalidLanguage(t.name.clone(), key.clone()));
                    }
                },
                XmlEvent::Empty(t) => {
                    d.warnings.insert(ModDescWarnings::L10nInvalidLanguage(t.name.clone(), key.clone()));
                },
                XmlEvent::End(n) => {
                    if str_eq(n.as_str(), "text") {
                        return Ok(k + 1);
                    }
                },
                XmlEvent::Eof => { return Err(AbstractFileError::XmlParseError); },
                _ => {},
            }
            k = next;
        }
        Err(AbstractFileError::XmlParseError)
    }

    /// Apply a self-closing tag at `depth`.
    fn self_closing(&mut self, t: &XmlTag, depth: i64)
        ensures
            final(self)@ == desc_self_closing(old(self)@, *t, depth as int),
    {
        if tag_is(t, "multiplayer") && depth == 1 {
            if let Some(v) = get_attribute(t, "supported") {
                let c = to_chars(v.as_str());
                let tr = to_chars("true");
                self.multiplayer = eq_ignore_ascii_case(c.as_slice(), tr.as_slice());
            }
        } else if tag_is(t, "l10n") && depth == 1 {
            if let Some(v) = get_attribute(t, "filenamePrefix") {
                self.l10n_file_prefix = Some(v);
            }
        } else if tag_is(t, "sourceFile") && depth == 2 {
            self.script_files = true;
        } else if tag_is(t, "storeItem") && depth == 2 {
            if let Some(v) = get_attribute(t, "xmlFilename") {
                self.store_items.push(v);
            }
        } else if tag_is(t, "action") && depth == 2 {
            if let Some(n) = get_attribute(t, "name") {
                let category = match get_attribute(t, "category") {
                    Some(c) => c,
                    None => to_owned_str("ALL"),
                };
                self.actions.insert(n, category);
            }
        }
    }

    /// The `descVersion` of a `<modDesc>` tag.
    fn desc_version(t: &XmlTag) -> (r: u32)
        ensures
            r as nat == desc_version_of(*t),
    {
        match get_attribute(t, "descVersion") {
            Some(v) => {
                let c = to_chars(v.as_str());
                match parse_unsigned(c.as_slice(), u32::MAX as u64) {
                    Some(n) => n as u32,
                    None => 0,
                }
            },
            None => 0,
        }
    }

    /// Handle the start tag `t`, event `i`, at `depth`: where reading goes on, and at which depth.
    fn start_tag(&mut self, evs: &Vec<XmlEvent>, i: usize, t: &XmlTag, depth: i64) -> (r: Result<(usize, i64), AbstractFileError>)
        requires
            i < evs.len(),
            evs@[i as int] == XmlEvent::Start(*t),
            i64::MIN < depth < i64::MAX,
        ensures
            match r {
                Ok((k, nd)) => i < k <= evs@.len() && (nd == depth || nd == depth + 1)
                    && desc_run(evs@, i as int, depth as int, old(self)@) == desc_run(evs@, k as int, nd as int, final(self)@),
                Err(e) => desc_run(evs@, i as int, depth as int, old(self)@) == Err::<DescView, AbstractFileError>(e),
            },
    {
        let mut next: usize = i + 1;
        let mut nd: i64 = depth;
        proof { lemma_skip_end_bounds(evs@, i + 1, t.name@, 0); }
        let ghost before = self@;
        if tag_is(t, "modDesc") && depth == 0 {
            self.desc_version = Self::desc_version(t);
            nd = depth + 1;
        } else if depth == 0 {
            return Err(AbstractFileError::XmlParseError);
        } else if tag_is(t, "author") && depth == 1 {
            self.author = copy_opt(&t.inner);
            next = skip_to_end(evs, i + 1, t.name.as_str()).0;
        } else if tag_is(t, "version") && depth == 1 {
            self.version = copy_opt(&t.inner);
            next = skip_to_end(evs, i + 1, t.name.as_str()).0;
        } else if tag_is(t, "iconFilename") && depth == 1 {
            self.icon_filename = copy_opt(&t.inner);
            next = skip_to_end(evs, i + 1, t.name.as_str()).0;
        } else if tag_is(t, "dependency") && depth == 2 {
            if let Some(v) = &t.inner {
                self.dependencies.push(v.clone());
            }
            next = skip_to_end(evs, i + 1, t.name.as_str()).0;
        } else if tag_is(t, "map") && depth == 2 && self.map_config_filename.is_none() {
            self.map_config_filename = get_attribute(t, "configFilename");
        } else if tag_is(t, "text") && depth == 2 {
            match get_attribute(t, "name") {
                Some(key) => {
                    proof { lemma_runs_advance(evs@, i + 1, key@, self@); }
                    assert(desc_run(evs@, i as int, depth as int, before)
                        == continue_desc(evs@, i as int, depth as int, l10n_text_run(evs@, i + 1, key@, before)));
                    next = Self::read_l10n_text(evs, i + 1, &key, self)?;
                },
                None => { self.warnings.insert(ModDescWarnings::L10nMalformed()); },
            }
        } else if tag_is(t, "title") && depth == 1 {
            proof { lemma_runs_advance(evs@, i + 1, Seq::empty(), self@); }
            assert(desc_run(evs@, i as int, depth as int, before)
                == continue_desc(evs@, i as int, depth as int, title_run(evs@, i + 1, before)));
            next = Self::read_title(evs, i + 1, self)?;
        } else if tag_is(t, "description") && depth == 1 {
            proof { lemma_runs_advance(evs@, i + 1, "en"@, self@); }
            assert(desc_run(evs@, i as int, depth as int, before)
                == continue_desc(evs@, i as int, depth as int, description_run(evs@, i + 1, "en"@, before)));
            next = Self::read_description(evs, i + 1, self)?;
        } else if tag_is(t, "actionBinding") && depth == 2 {
            match get_attribute(t, "action") {
                Some(key) => {
                    proof { lemma_runs_advance(evs@, i + 1, key@, self@); }
                    assert(desc_run(evs@, i as int, depth as int, before)
                        == continue_desc(evs@, i as int, depth as int, binding_run(evs@, i + 1, key@, before)));
                    next = Self::read_binding(evs, i + 1, &key, self)?;
                },
                None => { self.warnings.insert(ModDescWarnings::ActionBindingMalformed()); },
            }
        } else {
            nd = depth + 1;
        }
        Ok((next, nd))
    }

    /// Read modDesc.xml from its XML events.
    ///
    /// # Errors
    /// [`AbstractFileError::XmlParseError`] where the reader fails, where the
    /// root tag is not `<modDesc>`, or where a `<title>`, `<description>`,
    /// `<actionBinding>` or `<text>` is not closed.
    pub fn from_events(evs: &Vec<XmlEvent>) -> (r: Result<DescXML, AbstractFileError>)
        requires
            evs@.len() < i64::MAX,
        ensures
            match r {
                Ok(d) => spec_desc(evs@) == Ok::<DescView, AbstractFileError>(d@),
                Err(e) => spec_desc(evs@) == Err::<DescView, AbstractFileError>(e),
            },
    {
        let mut d = DescXML::new();
        let mut i: usize = 0;
        let mut depth: i64 = 0;
        while i < evs.len()
            invariant
                i <= evs@.len(),
                evs@.len() < i64::MAX,
                -(i as int) <= depth <= i,
                desc_run(evs@, i as int, depth as int, d@) == spec_desc(evs@),
            decreases evs.len() - i,
        {
            let mut next: usize = i + 1;
            match &evs[i] {
                XmlEvent::Error => { return Err(AbstractFileError::XmlParseError); },
                XmlEvent::Eof => { return Ok(d); },
                XmlEvent::End(_) => { depth = depth - 1; },
                XmlEvent::Empty(t) => { d.self_closing(t, depth); },
                XmlEvent::Start(t) => {
                    let (k, nd) = d.start_tag(evs, i, t, depth)?;
                    next = k;
                    depth = nd;
                },
                _ => {},
            }
            i = next;
        }
        Ok(d)
    }

    /// Read modDesc.xml from text.
    ///
    /// # Errors
    /// as [`DescXML::from_events`] for the text's events.
    pub fn from_string(xml_text: &str) -> (r: Result<DescXML, AbstractFileError>)
        ensures
            match r {
                Ok(d) => exists|evs: Seq<XmlEvent>| spec_desc(evs) == Ok::<DescView, AbstractFileError>(d@),
                Err(e) => e == AbstractFileError::XmlParseError,
            },
    {
        let evs = events_of(xml_text)?;
        proof { lemma_desc_errors(evs@, 0, 0, empty_desc()); }
        DescXML::from_events(&evs)
    }

    /// Read modDesc.xml of a mod.
    ///
    /// # Errors
    /// the error reading the file gives, or as [`DescXML::from_string`].
    pub fn from_abstract_file(mod_file: &AbstractFile) -> (r: Result<DescXML, AbstractFileError>)
        ensures
            spec_text(*mod_file, "modDesc.xml"@) matches Err(e) ==> r == Err::<DescXML, AbstractFileError>(e),
            r matches Ok(d) ==> desc_read(d@),
            spec_text(*mod_file, "modDesc.xml"@) is Ok ==> (r matches Err(e) ==> e == AbstractFileError::XmlParseError),
    {
        let text = mod_file.text("modDesc.xml")?;
        DescXML::from_string(text.as_str())
    }
}

} // verus!

verus! {

/// The sub-readers only fail with a parse error.
pub proof fn lemma_sub_run_errors(evs: Seq<XmlEvent>, j: int, key: Seq<char>, d: DescView)
    ensures
        title_run(evs, j, d) matches Err(e) ==> e == AbstractFileError::XmlParseError,
        description_run(evs, j, key, d) matches Err(e) ==> e == AbstractFileError::XmlParseError,
        binding_run(evs, j, key, d) matches Err(e) ==> e == AbstractFileError::XmlParseError,
        l10n_text_run(evs, j, key, d) matches Err(e) ==> e == AbstractFileError::XmlParseError,
    decreases evs.len() - j,
{
    if 0 <= j < evs.len() {
        match evs[j] {
            XmlEvent::Start(t) => {
                lemma_skip_end_bounds(evs, j + 1, t.name@, 0);
                let k = skip_end(evs, j + 1, t.name@, 0);
                let d2 = match opt_chars(t.inner) {
                    Some(v) => if is_lang(t.name@) {
                        DescView { title: map_insert(d.title, t.name@, v), ..d }
                    } else {
                        warn(d, WarningView::L10nInvalidLanguage(t.name@, "title"@))
                    },
                    None => d,
                };
                lemma_sub_run_errors(evs, k, key, d2);
                lemma_sub_run_errors(evs, j + 1, t.name@, d);
                lemma_sub_run_errors(evs, j + 1, t.name@, warn(d, WarningView::L10nInvalidLanguage(t.name@, "description"@)));
                lemma_sub_run_errors(evs, j + 1, key, warn(d, WarningView::ActionBindingInvalidTag(t.name@)));
                let d3 = match opt_chars(t.inner) {
                    Some(v) => add_local(d, key, t.name@, v),
                    None => d,
                };
                lemma_sub_run_errors(evs, k, key, d3);
                lemma_sub_run_errors(evs, j + 1, key, warn(d, WarningView::L10nInvalidLanguage(t.name@, key)));
            },
            XmlEvent::Text(_, un) => {
                match un {
                    Some(v) => {
                        lemma_sub_run_errors(evs, j + 1, key, DescView {
                            title: map_insert(d.title, "en"@, v@),
                            ..warn(d, WarningView::ShouldBeL10n("title"@))
                        });
                        lemma_sub_run_errors(evs, j + 1, key,
                            DescView { description: map_insert(d.description, key, crlf_to_lf(v@)), ..d });
                    },
                    None => {},
                }
                lemma_sub_run_errors(evs, j + 1, key, d);
            },
            XmlEvent::CData(c) => {
                match c {
                    Some(v) => {
                        lemma_sub_run_errors(evs, j + 1, key,
                            DescView { description: map_insert(d.description, key, crlf_to_lf(v@)), ..d });
                    },
                    None => {},
                }
                lemma_sub_run_errors(evs, j + 1, key, d);
            },
            XmlEvent::Empty(t) => {
                match (tag_attr(t, "device"@), tag_attr(t, "input"@)) {
                    (Some(dev), Some(input)) => {
                        lemma_sub_run_errors(evs, j + 1, key, add_binding(d, key, input));
                    },
                    _ => {},
                }
                lemma_sub_run_errors(evs, j + 1, key, warn(d, WarningView::ActionBindingMalformed));
                lemma_sub_run_errors(evs, j + 1, key, warn(d, WarningView::ActionBindingInvalidTag(t.name@)));
                lemma_sub_run_errors(evs, j + 1, key, warn(d, WarningView::L10nInvalidLanguage(t.name@, key)));
                lemma_sub_run_errors(evs, j + 1, key, d);
            },
            _ => {
                lemma_sub_run_errors(evs, j + 1, key, d);
            },
        }
    }
}

/// Going on after a sub-reader only fails with a parse error.
pub proof fn lemma_continue_errors(evs: Seq<XmlEvent>, i: int, depth: int, r: Result<(DescView, int), AbstractFileError>)
    requires
        r matches Err(e) ==> e == AbstractFileError::XmlParseError,
    ensures
        continue_desc(evs, i, depth, r) matches Err(e) ==> e == AbstractFileError::XmlParseError,
    decreases evs.len() - i, 0int,
{
    match r {
        Ok((d2, k)) => { if i < k <= evs.len() { lemma_desc_errors(evs, k, depth, d2); } },
        Err(_) => {},
    }
}

/// Reading modDesc.xml only fails with a parse error.
pub proof fn lemma_desc_errors(evs: Seq<XmlEvent>, i: int, depth: int, d: DescView)
    ensures
        desc_run(evs, i, depth, d) matches Err(e) ==> e == AbstractFileError::XmlParseError,
    decreases evs.len() - i, 1int,
{
    if 0 <= i < evs.len() {
        match evs[i] {
            XmlEvent::End(_) => { lemma_desc_errors(evs, i + 1, depth - 1, d); },
            XmlEvent::Empty(t) => { lemma_desc_errors(evs, i + 1, depth, desc_self_closing(d, t, depth)); },
            XmlEvent::Start(t) => {
                lemma_skip_end_bounds(evs, i + 1, t.name@, 0);
                let after = skip_end(evs, i + 1, t.name@, 0);
                let text = opt_chars(t.inner);
                if t.name@ == "modDesc"@ && depth == 0 {
                    lemma_desc_errors(evs, i + 1, depth + 1, DescView { desc_version: desc_version_of(t), ..d });
                } else if depth == 0 {
                } else if t.name@ == "author"@ && depth == 1 {
                    lemma_desc_errors(evs, after, depth, DescView { author: text, ..d });
                } else if t.name@ == "version"@ && depth == 1 {
                    lemma_desc_errors(evs, after, depth, DescView { version: text, ..d });
                } else if t.name@ == "iconFilename"@ && depth == 1 {
                    lemma_desc_errors(evs, after, depth, DescView { icon_filename: text, ..d });
                } else if t.name@ == "dependency"@ && depth == 2 {
                    match text {
                        Some(v) => { lemma_desc_errors(evs, after, depth, DescView { dependencies: d.dependencies.push(v), ..d }); },
                        None => { lemma_desc_errors(evs, after, depth, d); },
                    }
                } else if t.name@ == "map"@ && depth == 2 && d.map_config_filename is None {
                    lemma_desc_errors(evs, i + 1, depth, DescView { map_config_filename: tag_attr(t, "configFilename"@), ..d });
                } else if t.name@ == "text"@ && depth == 2 {
                    match tag_attr(t, "name"@) {
                        Some(key) => {
                            lemma_sub_run_errors(evs, i + 1, key, d);
                            lemma_continue_errors(evs, i, depth, l10n_text_run(evs, i + 1, key, d));
                        },
                        None => { lemma_desc_errors(evs, i + 1, depth, warn(d, WarningView::L10nMalformed)); },
                    }
                } else if t.name@ == "title"@ && depth == 1 {
                    lemma_sub_run_errors(evs, i + 1, "en"@, d);
                    lemma_continue_errors(evs, i, depth, title_run(evs, i + 1, d));
                } else if t.name@ == "description"@ && depth == 1 {
                    lemma_sub_run_errors(evs, i + 1, "en"@, d);
                    lemma_continue_errors(evs, i, depth, description_run(evs, i + 1, "en"@, d));
                } else if t.name@ == "actionBinding"@ && depth == 2 {
                    match tag_attr(t, "action"@) {
                        Some(key) => {
                            lemma_sub_run_errors(evs, i + 1, key, d);
                            lemma_continue_errors(evs, i, depth, binding_run(evs, i + 1, key, d));
                        },
                        None => { lemma_desc_errors(evs, i + 1, depth, warn(d, WarningView::ActionBindingMalformed)); },
                    }
                } else {
                    lemma_desc_errors(evs, i + 1, depth + 1, d);
                }
            },
            _ => { lemma_desc_errors(evs, i + 1, depth, d); },
        }
    }
}

} // verus!
