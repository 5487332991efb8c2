//! Issues a mod, a modDesc.xml, a file or a save game can have.
use vstd::prelude::*;

verus! {

/// Possible detectable mod errors
#[derive(PartialEq, Eq, Structural, Clone, Copy, Debug, Hash, PartialOrd, Ord)]
pub enum ModError {
    /// File is not the right type for a mod
    FileErrorGarbageFile,
    /// File is probably a copy
    FileErrorLikelyCopy,
    /// File is probably a save game
    FileErrorLikelySaveGame,
    /// File is probably a pack of mods
    FileErrorLikelyZipPack,
    /// Filename is invalid for a mod
    FileErrorNameInvalid,
    /// Filename starts with a digit
    FileErrorNameStartsDigit,
    /// File or folder could not be read
    FileErrorUnreadable,
    /// ZIP file could not be read
    FileErrorUnreadableZip,
    /// File is an unsupported archive type
    FileErrorUnsupportedArchive,
    /// Mod may contain pirated material
    InfoLikelyPiracy,
    /// Mod may contain malicious script code
    InfoMaliciousCode,
    /// Mod may contain dangerous files
    InfoDangerousFile,
    /// Mod is unzipped and can't be used in multiplayer
    InfoNoMultiplayerUnzipped,
    /// The modDesc.xml file is damaged
    ModDescDamaged,
    /// The modDesc.xml file is missing
    ModDescMissing,
    /// The mod is missing an icon
    ModDescNoModIcon,
    /// The mod does not have a valid version
    ModDescNoModVersion,
    /// The modDesc.xml file is damaged and could not be parsed
    ModDescParseError,
    /// The modDesc.xml has an old or missing descVersion
    ModDescVersionOldOrMissing,
    /// Some files contain spaces
    PerformanceFileSpaces,
    /// Translated title or description not available
    PerformanceMissingL10n,
    /// File contains DDS files that are too big
    PerformanceOversizeDDS,
    /// File contains GDM files that are too big
    PerformanceOversizeGDM,
    /// File contains I3D.CACHE files that are too big
    PerformanceOversizeI3D,
    /// File contains SHAPES files that are too big
    PerformanceOversizeSHAPES,
    /// File contains XML files that are too big
    PerformanceOversizeXML,
    /// File contains too many extra files
    PerformanceQuantityExtra,
    /// File contains too many GRLE files
    PerformanceQuantityGRLE,
    /// File contains too many PDF files
    PerformanceQuantityPDF,
    /// File contains too many PNG files
    PerformanceQuantityPNG,
    /// File contains too many TXT files
    PerformanceQuantityTXT,
}

/// Issues that mean the mod is broken (won't work).
pub open spec fn is_broken_issue(e: ModError) -> bool {
    match e {
        ModError::FileErrorGarbageFile | ModError::FileErrorLikelySaveGame
        | ModError::FileErrorLikelyZipPack | ModError::FileErrorNameInvalid
        | ModError::FileErrorNameStartsDigit | ModError::FileErrorUnreadable
        | ModError::FileErrorUnreadableZip | ModError::FileErrorUnsupportedArchive
        | ModError::ModDescParseError | ModError::ModDescVersionOldOrMissing
        | ModError::ModDescMissing => true,
        _ => false,
    }
}

/// Issues that should be fixed, but the mod probably still works.
pub open spec fn is_problem_issue(e: ModError) -> bool {
    match e {
        ModError::InfoLikelyPiracy | ModError::InfoMaliciousCode | ModError::InfoDangerousFile
        | ModError::ModDescNoModIcon | ModError::ModDescNoModVersion | ModError::ModDescDamaged => true,
        _ => is_performance_issue(e),
    }
}

/// Issues that only cost performance.
pub open spec fn is_performance_issue(e: ModError) -> bool {
    match e {
        ModError::PerformanceFileSpaces | ModError::PerformanceMissingL10n
        | ModError::PerformanceOversizeDDS | ModError::PerformanceOversizeGDM
        | ModError::PerformanceOversizeI3D | ModError::PerformanceOversizeSHAPES
        | ModError::PerformanceOversizeXML | ModError::PerformanceQuantityExtra
        | ModError::PerformanceQuantityGRLE | ModError::PerformanceQuantityPDF
        | ModError::PerformanceQuantityPNG | ModError::PerformanceQuantityTXT => true,
        _ => false,
    }
}

/// Issues that mean the file is not a mod at all.
pub open spec fn is_not_mod_issue(e: ModError) -> bool {
    match e {
        ModError::FileErrorGarbageFile | ModError::FileErrorLikelySaveGame
        | ModError::FileErrorLikelyZipPack | ModError::FileErrorUnreadable
        | ModError::FileErrorUnreadableZip | ModError::FileErrorUnsupportedArchive
        | ModError::ModDescMissing => true,
        _ => false,
    }
}

impl ModError {
    /// Does this issue mean the mod is broken?
    pub fn is_broken(&self) -> (r: bool)
        ensures
            r == is_broken_issue(*self),
    {
        match self {
            ModError::FileErrorGarbageFile | ModError::FileErrorLikelySaveGame
            | ModError::FileErrorLikelyZipPack | ModError::FileErrorNameInvalid
            | ModError::FileErrorNameStartsDigit | ModError::FileErrorUnreadable
            | ModError::FileErrorUnreadableZip | ModError::FileErrorUnsupportedArchive
            | ModError::ModDescParseError | ModError::ModDescVersionOldOrMissing
            | ModError::ModDescMissing => true,
            _ => false,
        }
    }

    /// Does this issue only cost performance?
    pub fn is_performance(&self) -> (r: bool)
        ensures
            r == is_performance_issue(*self),
    {
        match self {
            ModError::PerformanceFileSpaces | ModError::PerformanceMissingL10n
            | ModError::PerformanceOversizeDDS | ModError::PerformanceOversizeGDM
            | ModError::PerformanceOversizeI3D | ModError::PerformanceOversizeSHAPES
            | ModError::PerformanceOversizeXML | ModError::PerformanceQuantityExtra
            | ModError::PerformanceQuantityGRLE | ModError::PerformanceQuantityPDF
            | ModError::PerformanceQuantityPNG | ModError::PerformanceQuantityTXT => true,
            _ => false,
        }
    }

    /// Is this an issue that should be fixed?
    pub fn is_problem(&self) -> (r: bool)
        ensures
            r == is_problem_issue(*self),
    {
        match self {
            ModError::InfoLikelyPiracy | ModError::InfoMaliciousCode | ModError::InfoDangerousFile
            | ModError::ModDescNoModIcon | ModError::ModDescNoModVersion
            | ModError::ModDescDamaged => true,
            _ => self.is_performance(),
        }
    }

    /// Does this issue mean the file is not a mod?
    pub fn is_not_mod(&self) -> (r: bool)
        ensures
            r == is_not_mod_issue(*self),
    {
        match self {
            ModError::FileErrorGarbageFile | ModError::FileErrorLikelySaveGame
            | ModError::FileErrorLikelyZipPack | ModError::FileErrorUnreadable
            | ModError::FileErrorUnreadableZip | ModError::FileErrorUnsupportedArchive
            | ModError::ModDescMissing => true,
            _ => false,
        }
    }
}

/// Odd, but valid occurrences in XML data
#[derive(Debug, Clone, PartialEq, Eq, Hash, PartialOrd, Ord)]
pub enum ModDescWarnings {
    /// Invalid tag nested in actionBinding
    ActionBindingInvalidTag(String),
    /// binding missing input or device attribute
    ActionBindingMalformed(),
    /// L10n text entry malformed
    L10nMalformed(),
    /// Invalid language tag (lang, location)
    L10nInvalidLanguage(String, String),
    /// Bare text found in a tag that should be localized
    ShouldBeL10n(String),
    /// Content that suggests pirated material
    MaybePiracy(),
}

/// File-level errors.
#[derive(PartialEq, Eq, Structural, Clone, Copy, Debug, Hash, PartialOrd, Ord)]
pub enum AbstractFileError {
    /// File could not be found
    FileNotFound,
    /// File could not be read
    FileIoError,
    /// ZIP archive is not a zip file
    FileNotZip,
    /// ZIP could not be read
    ZipReadError,
    /// Folder could not be found
    FolderError,
    /// Unrecoverable XML parse error
    XmlParseError,
    /// The XML text has no `<?xml ... ?>` declaration
    XmlUndeclared,
    /// Configured reader could process this xml type
    XmlWrongFileType,
}

/// The message of a file error.
pub open spec fn file_error_message(e: AbstractFileError) -> Seq<char> {
    match e {
        AbstractFileError::FileNotFound => "file not found"@,
        AbstractFileError::FileIoError => "file could not be read"@,
        AbstractFileError::FileNotZip => "not a zip file"@,
        AbstractFileError::ZipReadError => "zip read error"@,
        AbstractFileError::FolderError => "folder not accessible"@,
        AbstractFileError::XmlParseError => "xml parsing failed"@,
        AbstractFileError::XmlUndeclared => "xml declaration missing"@,
        AbstractFileError::XmlWrongFileType => "tried to parse wrong type of xml"@,
    }
}

impl AbstractFileError {
    /// The message of the error, for people to read.
    pub fn to_string(&self) -> (r: String)
        ensures
            r@ == file_error_message(*self),
    {
        let text = match self {
            AbstractFileError::FileNotFound => "file not found",
            AbstractFileError::FileIoError => "file could not be read",
            AbstractFileError::FileNotZip => "not a zip file",
            AbstractFileError::ZipReadError => "zip read error",
            AbstractFileError::FolderError => "folder not accessible",
            AbstractFileError::XmlParseError => "xml parsing failed",
            AbstractFileError::XmlUndeclared => "xml declaration missing",
            AbstractFileError::XmlWrongFileType => "tried to parse wrong type of xml",
        };
        text.to_owned()
    }
}

/// Save game errors
#[derive(PartialEq, Eq, Structural, Clone, Copy, Debug, Hash, PartialOrd, Ord)]
pub enum SaveError {
    /// careerSavegame.xml could not be parsed
    CareerParseError,
    /// careerSavegame.xml is missing
    CareerMissing,
    /// farms.xml could not be parsed
    FarmsParseError,
    /// farms.xml is missing
    FarmsMissing,
    /// vehicles.xml could not be parsed
    VehicleParseError,
    /// vehicles.xml is missing
    VehicleMissing,
    /// placeables.xml could not be parsed
    PlaceableParseError,
    /// placeables.xml is missing
    PlaceableMissing,
}

} // verus!

verus! {

/// A modDesc warning, as plain values.
pub enum WarningView {
    /// invalid tag in actionBinding
    ActionBindingInvalidTag(Seq<char>),
    /// binding missing attributes
    ActionBindingMalformed,
    /// malformed l10n text entry
    L10nMalformed,
    /// invalid language (lang, location)
    L10nInvalidLanguage(Seq<char>, Seq<char>),
    /// bare text that should be localized
    ShouldBeL10n(Seq<char>),
    /// possible piracy
    MaybePiracy,
}

impl View for ModDescWarnings {
    type V = WarningView;

    open spec fn view(&self) -> WarningView {
        match self {
            ModDescWarnings::ActionBindingInvalidTag(s) => WarningView::ActionBindingInvalidTag(s@),
            ModDescWarnings::ActionBindingMalformed() => WarningView::ActionBindingMalformed,
            ModDescWarnings::L10nMalformed() => WarningView::L10nMalformed,
            ModDescWarnings::L10nInvalidLanguage(a, b) => WarningView::L10nInvalidLanguage(a@, b@),
            ModDescWarnings::ShouldBeL10n(s) => WarningView::ShouldBeL10n(s@),
            ModDescWarnings::MaybePiracy() => WarningView::MaybePiracy,
        }
    }
}

/// Add the characters of `s` to `out`.
fn append(out: &mut Vec<char>, s: &str)
    ensures
        final(out)@ == old(out)@ + s@,
{
    let c = crate::text::to_chars(s);
    let mut j: usize = 0;
    while j < c.len()
        invariant
            j <= c@.len(),
            out@ == old(out)@ + c@.subrange(0, j as int),
        decreases c.len() - j,
    {
        out.push(c[j]);
        j = j + 1;
    }
    assert(c@.subrange(0, c@.len() as int) =~= c@);
}

/// Two texts joined.
fn joined2(a: &str, b: &str) -> (r: String)
    ensures
        r@ == a@ + b@,
{
    let mut out = crate::text::to_chars(a);
    append(&mut out, b);
    crate::text::from_chars(out.as_slice())
}

/// Four texts joined.
fn joined4(a: &str, b: &str, c: &str, d: &str) -> (r: String)
    ensures
        r@ == a@ + b@ + c@ + d@,
{
    let mut out = crate::text::to_chars(a);
    append(&mut out, b);
    append(&mut out, c);
    append(&mut out, d);
    crate::text::from_chars(out.as_slice())
}

/// The message of a modDesc warning.
pub open spec fn warning_message(w: WarningView) -> Seq<char> {
    match w {
        WarningView::ActionBindingInvalidTag(v) => "actionBinding contained invalid key: "@ + v,
        WarningView::ActionBindingMalformed => "actionBinding missing required attributes"@,
        WarningView::L10nMalformed => "malformed l10n text tag"@,
        WarningView::L10nInvalidLanguage(i, l) => "unknown l10n language: "@ + i + " in "@ + l,
        WarningView::ShouldBeL10n(v) => "found un-translated entry in: "@ + v,
        WarningView::MaybePiracy => "content suggests pirated material"@,
    }
}

impl ModDescWarnings {
    /// The message of the warning, for people to read.
    pub fn to_string(&self) -> (r: String)
        ensures
            r@ == warning_message(self@),
    {
        match self {
            ModDescWarnings::ActionBindingInvalidTag(v) => joined2("actionBinding contained invalid key: ", v.as_str()),
            ModDescWarnings::ActionBindingMalformed() => "actionBinding missing required attributes".to_owned(),
            ModDescWarnings::L10nMalformed() => "malformed l10n text tag".to_owned(),
            ModDescWarnings::L10nInvalidLanguage(i, l) => joined4("unknown l10n language: ", i.as_str(), " in ", l.as_str()),
            ModDescWarnings::ShouldBeL10n(v) => joined2("found un-translated entry in: ", v.as_str()),
            ModDescWarnings::MaybePiracy() => "content suggests pirated material".to_owned(),
        }
    }

    /// Do two warnings say the same?
    pub fn same(&self, other: &ModDescWarnings) -> (r: bool)
        ensures
            r == (self@ == other@),
    {
        match (self, other) {
            (ModDescWarnings::ActionBindingInvalidTag(a), ModDescWarnings::ActionBindingInvalidTag(b)) =>
                crate::text::str_eq(a.as_str(), b.as_str()),
            (ModDescWarnings::ActionBindingMalformed(), ModDescWarnings::ActionBindingMalformed()) => true,
            (ModDescWarnings::L10nMalformed(), ModDescWarnings::L10nMalformed()) => true,
            (ModDescWarnings::L10nInvalidLanguage(a, b), ModDescWarnings::L10nInvalidLanguage(c, d)) =>
                crate::text::str_eq(a.as_str(), c.as_str()) && crate::text::str_eq(b.as_str(), d.as_str()),
            (ModDescWarnings::ShouldBeL10n(a), ModDescWarnings::ShouldBeL10n(b)) =>
                crate::text::str_eq(a.as_str(), b.as_str()),
            (ModDescWarnings::MaybePiracy(), ModDescWarnings::MaybePiracy()) => true,
            _ => false,
        }
    }
}

/// A set of modDesc warnings, each held once.
#[derive(Debug)]
pub struct WarningSet {
    /// the warnings, in the order they were raised
    pub items: Vec<ModDescWarnings>,
}

impl View for WarningSet {
    type V = Seq<WarningView>;

    open spec fn view(&self) -> Seq<WarningView> {
        self.items@.map_values(|w: ModDescWarnings| w@)
    }
}

impl WarningSet {
    /// No warnings.
    pub fn new() -> (r: WarningSet)
        ensures
            r@.len() == 0,
    {
        WarningSet { items: Vec::new() }
    }

    /// Raise a warning, where it was not raised yet.
    pub fn insert(&mut self, w: ModDescWarnings)
        ensures
            final(self)@ == crate::collections::set_insert(old(self)@, w@),
    {
        let mut i: usize = 0;
        while i < self.items.len()
            invariant
                i <= self@.len(),
                self@.len() == self.items@.len(),
                forall|j: int| 0 <= j < i ==> self@[j] != w@,
            decreases self.items.len() - i,
        {
            if self.items[i].same(&w) {
                assert(self@[i as int] == w@);
                return;
            }
            i = i + 1;
        }
        self.items.push(w);
        assert(self@ =~= old(self)@.push(w@));
    }
}

} // verus!
