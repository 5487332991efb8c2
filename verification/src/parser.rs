//! The mod parser: what a mod file's name, its file list, its modDesc.xml
//! and its scripts say about whether it can be used, as a [`Record`].
//!
//! The program around the library opens the file or folder, reads its
//! dates and the bytes the hashes need, and converts images; the rules
//! stand here.
use vstd::prelude::*;
use md5::{Digest, Md5};
use base64ct::{Base64UrlUnpadded, Encoding};
use crate::errors::{AbstractFileError, ModError, ModDescWarnings, WarningView,
    is_broken_issue, is_not_mod_issue, is_problem_issue, is_performance_issue};
use crate::collections::{IssueSet, set_insert, no_dups};
use crate::files::{AbstractFile, FileDefinition, spec_list, spec_text, spec_in_list, spec_defs};
use crate::text::{to_chars, from_chars, lower_seq, to_lower, contains_seq, contains_chars, chars_eq,
    is_digit, sub_chars, str_eq, is_suffix, ends_with, contains_char, str_contains};
use crate::savegame::to_owned_str;

verus! {

// MARK: names

/// Is `c` an ASCII letter or digit?
pub open spec fn is_alnum(c: char) -> bool {
    ('0' <= c && c <= '9') || ('a' <= c && c <= 'z') || ('A' <= c && c <= 'Z')
}

/// May `c` stand in a mod's file name?
pub open spec fn name_char_ok(c: char) -> bool {
    is_alnum(c) || c == '_' || c == '.'
}

/// Does `c` end a piece of a name (std's `split_inclusive` on anything but
/// letters, digits and `_`)?
pub open spec fn is_separator(c: char) -> bool {
    !is_alnum(c) && c != '_'
}

/// White space as std's `char::is_whitespace` has it (Unicode `White_Space`).
pub open spec fn is_ws(c: char) -> bool {
    ('\u{9}' <= c && c <= '\u{d}') || c == ' ' || c == '\u{85}' || c == '\u{a0}' || c == '\u{1680}'
    || ('\u{2000}' <= c && c <= '\u{200a}') || c == '\u{2028}' || c == '\u{2029}' || c == '\u{202f}'
    || c == '\u{205f}' || c == '\u{3000}'
}

/// Index of the first separator, or the length.
pub open spec fn first_separator(s: Seq<char>) -> int
    decreases s.len(),
{
    if s.len() == 0 {
        0
    } else if is_separator(s[0]) {
        0
    } else {
        1 + first_separator(s.drop_first())
    }
}

proof fn lemma_first_separator(s: Seq<char>)
    ensures
        0 <= first_separator(s) <= s.len(),
        forall|j: int| 0 <= j < first_separator(s) ==> !is_separator(#[trigger] s[j]),
        first_separator(s) < s.len() ==> is_separator(s[first_separator(s)]),
    decreases s.len(),
{
    if s.len() > 0 && !is_separator(s[0]) {
        lemma_first_separator(s.drop_first());
        assert forall|j: int| 0 <= j < first_separator(s) implies !is_separator(#[trigger] s[j]) by {
            if j > 0 { assert(s[j] == s.drop_first()[j - 1]); }
        }
    }
}

/// Are all characters allowed in a mod's name?
pub open spec fn name_ok(s: Seq<char>) -> bool {
    forall|i: int| 0 <= i < s.len() ==> name_char_ok(#[trigger] s[i])
}

/// The name a copy of a mod came from: the first piece of the name up to
/// its first separator, trimmed, where that piece holds only allowed
/// characters. The characters before the separator are letters, digits and
/// `_`, so trimming drops at most the separator, where it is white space;
/// the piece is allowed where the separator was white space or a `.`.
pub open spec fn copy_name_of(s: Seq<char>) -> Option<Seq<char>> {
    let k = first_separator(s);
    if k < s.len() && is_ws(s[k]) {
        Some(s.subrange(0, k))
    } else if k < s.len() && s[k] == '.' {
        Some(s.subrange(0, k + 1))
    } else {
        None
    }
}

// MARK: wrappers

/// What std's `Path::file_stem` gives for a path, as text.
pub uninterp spec fn path_file_stem(path: Seq<char>) -> Option<Seq<char>>;

/// What std's `Path::extension` gives for a path, as text.
pub uninterp spec fn path_extension(path: Seq<char>) -> Option<Seq<char>>;

/// The MD5 digest of some bytes.
pub uninterp spec fn md5_of(data: Seq<u8>) -> Seq<u8>;

/// std's `Path::new(path).file_stem()`, lossily as text. The result is a
/// function of the path; nothing more is stated of it.
#[verifier::external_body]
fn file_stem(path: &str) -> (r: Option<String>)
    ensures
        opt_chars(r) == path_file_stem(path@),
{
    match std::path::Path::new(path).file_stem() {
        Some(v) => Some(v.to_string_lossy().into_owned()),
        None => None,
    }
}

/// std's `Path::new(path).extension()`, lossily as text. The result is a
/// function of the path; nothing more is stated of it.
#[verifier::external_body]
fn extension(path: &str) -> (r: Option<String>)
    ensures
        opt_chars(r) == path_extension(path@),
{
    match std::path::Path::new(path).extension() {
        Some(v) => Some(v.to_string_lossy().into_owned()),
        None => None,
    }
}

/// The extension of a path, as std's `Path::extension` has it.
pub fn path_extension_of(path: &str) -> (r: Option<String>)
    ensures
        opt_chars(r) == path_extension(path@),
{
    extension(path)
}

/// md-5's `Md5::digest`: the 16 byte MD5 digest of the data, a function of
/// the data alone.
#[verifier::external_body]
fn md5_digest(data: &[u8]) -> (r: Vec<u8>)
    ensures
        r@ == md5_of(data@),
        r@.len() == 16,
{
    Md5::digest(data).to_vec()
}

/// The URL-safe base64 alphabet: `A-Z`, `a-z`, `0-9`, `-`, `_`.
pub open spec fn b64_char(v: u8) -> char {
    if v < 26 {
        (('A' as u8) + v) as char
    } else if v < 52 {
        (('a' as u8) + (v - 26)) as char
    } else if v < 62 {
        (('0' as u8) + (v - 52)) as char
    } else if v == 62 {
        '-'
    } else {
        '_'
    }
}

/// Base64 with the URL-safe alphabet and no padding: each three bytes give
/// four characters, a last two bytes three, a last byte two.
pub open spec fn b64_url(s: Seq<u8>) -> Seq<char>
    decreases s.len(),
{
    if s.len() == 0 {
        Seq::empty()
    } else if s.len() == 1 {
        seq![b64_char(s[0] >> 2), b64_char((s[0] & 3) << 4)]
    } else if s.len() == 2 {
        seq![b64_char(s[0] >> 2), b64_char(((s[0] & 3) << 4) | (s[1] >> 4)), b64_char((s[1] & 15) << 2)]
    } else {
        seq![b64_char(s[0] >> 2), b64_char(((s[0] & 3) << 4) | (s[1] >> 4)),
            b64_char(((s[1] & 15) << 2) | (s[2] >> 6)), b64_char(s[2] & 63)] + b64_url(s.skip(3))
    }
}

/// Base64 without padding writes four characters for each three bytes, and
/// one more than the bytes left over.
pub proof fn lemma_b64_url_len(s: Seq<u8>)
    ensures
        b64_url(s).len() == 4 * (s.len() / 3) + if s.len() % 3 == 0 { 0 } else { s.len() % 3 + 1 },
    decreases s.len(),
{
    if s.len() >= 3 {
        lemma_b64_url_len(s.skip(3));
    }
}

/// base64ct's `Base64UrlUnpadded::encode_string`: RFC 4648 base64 with the
/// URL-safe alphabet and no padding.
#[verifier::external_body]
fn base64_url(data: &[u8]) -> (r: String)
    ensures
        r@ == b64_url(data@),
{
    Base64UrlUnpadded::encode_string(data)
}

/// The characters of an optional string.
pub open spec fn opt_chars(o: Option<String>) -> Option<Seq<char>> {
    crate::xml::opt_chars(o)
}

} // verus!

verus! {

// MARK: records

/// one megabyte
pub const MB: u64 = 0x0010_0000;
/// max size allowed for I3D Cache files, 10MB
pub const SIZE_CACHE: u64 = 10 * MB;
/// max size allowed for DDS files, 12MB
pub const SIZE_DDS: u64 = 12 * MB;
/// max size allowed for GDM files, 18 MB
pub const SIZE_GDM: u64 = 18 * MB;
/// max size allowed for SHAPES files, 256MB
pub const SIZE_SHAPES: u64 = 256 * MB;
/// max size allowed for XML files, 256KB / 0.25MB
pub const SIZE_XML: u64 = MB / 4;
/// max allowed GRLE files
pub const MAX_GRLE: u32 = 10;
/// max allowed PDF files
pub const MAX_PDF: u32 = 1;
/// max allowed PNG files
pub const MAX_PNG: u32 = 128;
/// max allowed TXT files
pub const MAX_TXT: u32 = 2;

/// Entry for zip files inside a "mod" file.
#[derive(Debug)]
pub struct ZipPackFile {
    /// name of file (includes relative path)
    pub name: String,
    /// size of file (unpacked)
    pub size: u64,
}

/// The characters of each string.
pub open spec fn strs(v: Seq<String>) -> Seq<Seq<char>> {
    v.map_values(|s: String| s@)
}

/// File related metadata for a mod
#[derive(Debug)]
pub struct FileInfo {
    /// Age hash - MD5 of {shortname}-{size}-{date}
    pub age_hash: String,
    /// suggested name if this appears to be a copy of a mod
    pub copy_name: Option<String>,
    /// list of extra files in mod
    pub extra_files: Vec<String>,
    /// mod file date
    pub file_date: u64,
    /// mod size (packed zip or folder contents)
    pub file_size: u64,
    /// full path to file
    pub full_path: String,
    /// list of I3D files
    pub i3d_files: Vec<String>,
    /// list of DDS files
    pub image_dds: Vec<String>,
    /// list of non DDS images
    pub image_non_dds: Vec<String>,
    /// folder flag (is this a folder?)
    pub is_folder: bool,
    /// save game flag (is this a save game?)
    pub is_save_game: bool,
    /// mod pack flag (is this a pack of mods?)
    pub is_mod_pack: bool,
    /// list of PNG textures (false positives possible)
    pub png_texture: Vec<String>,
    /// short name of mod (the bit before the .zip extension, or the folder name)
    pub short_name: String,
    /// list of files with spaces in them
    pub space_files: Vec<String>,
    /// list of oversized files
    pub too_big_files: Vec<String>,
    /// list of zip files
    pub zip_files: Vec<ZipPackFile>,
    /// has lua files
    pub lua_count: u32,
}

/// Badges
#[derive(Debug, Clone, Copy, PartialEq, Eq, Structural)]
pub enum Badges {
    /// Mod has performance issues (maybe)
    Performance,
    /// mod is totally broken
    Broken,
    /// mod is a folder
    Folder,
    /// mod might be malware
    Malware,
    /// can't be used in multiplayer
    NoMp,
    /// not actually a mod
    NotMod,
    /// pc only (scripts)
    PcOnly,
    /// mod has issues
    Problem,
    /// actually a savegame
    SaveGame,
    /// depends on something else
    Depend,
    /// version unknown
    FsUnknown,
    /// FS11
    Fs11,
    /// FS13
    Fs13,
    /// FS15
    Fs15,
    /// FS17
    Fs17,
    /// FS19
    Fs19,
    /// FS22
    Fs22,
    /// FS25
    Fs25,
    /// Has keyboard bindings
    Keys,
    /// is a map (`Map` in the JSON output)
    IsMap,
}

/// mod file identity
#[derive(Debug)]
pub struct ModIdent {
    /// full path
    pub full_path: String,
    /// identity hash (full path -> MD5)
    pub ident: String,
    /// age hash (name, size, and last 2k of file -> MD5)
    pub hash: String,
}

/// The file lists that counting the files fills are the same.
pub open spec fn same_lists(a: FileInfo, b: FileInfo) -> bool {
    &&& a.space_files == b.space_files
    &&& a.image_non_dds == b.image_non_dds
    &&& a.png_texture == b.png_texture
    &&& a.too_big_files == b.too_big_files
    &&& a.image_dds == b.image_dds
    &&& a.extra_files == b.extra_files
    &&& a.lua_count == b.lua_count
}

/// Default hash value (for invalid caching items)
pub const DEFAULT_HASH: &'static str = "ERR-HASH-NOT-COMPUTED--";

/// The eight bytes of a `u64`, most significant first.
pub open spec fn be_bytes(n: u64) -> Seq<u8> {
    seq![(n >> 56) as u8, (n >> 48) as u8, (n >> 40) as u8, (n >> 32) as u8,
        (n >> 24) as u8, (n >> 16) as u8, (n >> 8) as u8, n as u8]
}

/// The eight bytes of a `u64`, most significant first.
fn u64_be_bytes(n: u64) -> (r: Vec<u8>)
    ensures
        r@ == be_bytes(n),
{
    let mut r: Vec<u8> = Vec::new();
    r.push((n >> 56) as u8);
    r.push((n >> 48) as u8);
    r.push((n >> 40) as u8);
    r.push((n >> 32) as u8);
    r.push((n >> 24) as u8);
    r.push((n >> 16) as u8);
    r.push((n >> 8) as u8);
    r.push(n as u8);
    assert(r@ =~= be_bytes(n));
    r
}

/// The age hash of a mod file: base64 of the MD5 of its name, its size
/// (eight bytes, most significant first) and its last 2048 bytes; the
/// default hash where the name, the size or those bytes are not known.
pub open spec fn spec_make_hash(name: Option<Seq<u8>>, size: Option<u64>, tail: Option<Seq<u8>>) -> Seq<char> {
    match (name, size, tail) {
        (Some(n), Some(sz), Some(t)) => if t.len() == 2048 {
            b64_url(md5_of(n + be_bytes(sz) + t))
        } else {
            DEFAULT_HASH@
        },
        _ => DEFAULT_HASH@,
    }
}

/// An optional byte list, as plain values.
pub open spec fn opt_bytes(o: Option<Vec<u8>>) -> Option<Seq<u8>> {
    match o {
        Some(v) => Some(v@),
        None => None,
    }
}

/// The packed files of a mod pack, as plain values.
pub open spec fn zips_view(v: Seq<ZipPackFile>) -> Seq<(Seq<char>, u64)> {
    v.map_values(|z: ZipPackFile| (z.name@, z.size))
}

/// Two file records are equal in what describes the mod's contents: all
/// but the age hash, the file date and the full path.
pub open spec fn same_file_info(a: FileInfo, b: FileInfo) -> bool {
    &&& opt_chars(a.copy_name) == opt_chars(b.copy_name)
    &&& strs(a.extra_files@) == strs(b.extra_files@)
    &&& a.file_size == b.file_size
    &&& strs(a.i3d_files@) == strs(b.i3d_files@)
    &&& strs(a.image_dds@) == strs(b.image_dds@)
    &&& strs(a.image_non_dds@) == strs(b.image_non_dds@)
    &&& a.is_folder == b.is_folder
    &&& a.is_save_game == b.is_save_game
    &&& a.is_mod_pack == b.is_mod_pack
    &&& strs(a.png_texture@) == strs(b.png_texture@)
    &&& a.short_name@ == b.short_name@
    &&& strs(a.space_files@) == strs(b.space_files@)
    &&& strs(a.too_big_files@) == strs(b.too_big_files@)
    &&& zips_view(a.zip_files@) == zips_view(b.zip_files@)
    &&& a.lua_count == b.lua_count
}

/// Are two lists of strings equal?
fn strings_eq(a: &Vec<String>, b: &Vec<String>) -> (r: bool)
    ensures
        r == (strs(a@) == strs(b@)),
{
    if a.len() != b.len() {
        assert(strs(a@).len() != strs(b@).len());
        return false;
    }
    let mut i: usize = 0;
    while i < a.len()
        invariant
            a@.len() == b@.len(),
            i <= a@.len(),
            forall|j: int| 0 <= j < i ==> #[trigger] a@[j]@ == b@[j]@,
        decreases a.len() - i,
    {
        if !str_eq(a[i].as_str(), b[i].as_str()) {
            assert(strs(a@)[i as int] != strs(b@)[i as int]);
            return false;
        }
        i = i + 1;
    }
    assert(strs(a@) =~= strs(b@));
    true
}

/// Are two optional strings equal?
fn opt_string_eq(a: &Option<String>, b: &Option<String>) -> (r: bool)
    ensures
        r == (opt_chars(*a) == opt_chars(*b)),
{
    match (a, b) {
        (Some(x), Some(y)) => str_eq(x.as_str(), y.as_str()),
        (None, None) => true,
        _ => false,
    }
}

/// Are two lists of packed files equal?
fn zips_eq(a: &Vec<ZipPackFile>, b: &Vec<ZipPackFile>) -> (r: bool)
    ensures
        r == (zips_view(a@) == zips_view(b@)),
{
    if a.len() != b.len() {
        assert(zips_view(a@).len() != zips_view(b@).len());
        return false;
    }
    let mut i: usize = 0;
    while i < a.len()
        invariant
            a@.len() == b@.len(),
            i <= a@.len(),
            forall|j: int| 0 <= j < i ==> #[trigger] zips_view(a@)[j] == zips_view(b@)[j],
        decreases a.len() - i,
    {
        if !str_eq(a[i].name.as_str(), b[i].name.as_str()) || a[i].size != b[i].size {
            assert(zips_view(a@)[i as int] != zips_view(b@)[i as int]);
            return false;
        }
        i = i + 1;
    }
    assert(zips_view(a@) =~= zips_view(b@));
    true
}

impl FileInfo {
    /// Compare two file records on what describes the mod's contents: the
    /// age hash, the file date and the full path are left out.
    pub fn eq(&self, other: &FileInfo) -> (r: bool)
        ensures
            r == same_file_info(*self, *other),
    {
        opt_string_eq(&self.copy_name, &other.copy_name)
            && strings_eq(&self.extra_files, &other.extra_files)
            && self.file_size == other.file_size
            && strings_eq(&self.i3d_files, &other.i3d_files)
            && strings_eq(&self.image_dds, &other.image_dds)
            && strings_eq(&self.image_non_dds, &other.image_non_dds)
            && self.is_folder == other.is_folder
            && self.is_save_game == other.is_save_game
            && self.is_mod_pack == other.is_mod_pack
            && strings_eq(&self.png_texture, &other.png_texture)
            && str_eq(self.short_name.as_str(), other.short_name.as_str())
            && strings_eq(&self.space_files, &other.space_files)
            && strings_eq(&self.too_big_files, &other.too_big_files)
            && zips_eq(&self.zip_files, &other.zip_files)
            && self.lua_count == other.lua_count
    }

    /// Create a new fileinfo from the absolute path
    pub fn new(full_path: String, is_folder: bool, age_hash: String) -> (r: FileInfo)
        ensures
            r.full_path@ == full_path@,
            r.short_name@ == match path_file_stem(full_path@) { Some(s) => s, None => Seq::empty() },
            r.is_folder == is_folder,
            r.age_hash@ == age_hash@,
            r.copy_name is None,
            r.extra_files@.len() == 0, r.i3d_files@.len() == 0, r.image_dds@.len() == 0,
            r.image_non_dds@.len() == 0, r.png_texture@.len() == 0, r.space_files@.len() == 0,
            r.too_big_files@.len() == 0, r.zip_files@.len() == 0,
            r.file_date == 0, r.file_size == 0, r.lua_count == 0,
            !r.is_save_game, !r.is_mod_pack,
    {
        let short_name = match file_stem(full_path.as_str()) {
            Some(s) => s,
            None => String::new(),
        };
        FileInfo {
            age_hash, copy_name: None, extra_files: Vec::new(), file_date: 0, file_size: 0,
            full_path, i3d_files: Vec::new(), image_dds: Vec::new(), image_non_dds: Vec::new(),
            is_folder, is_save_game: false, is_mod_pack: false, png_texture: Vec::new(),
            short_name, space_files: Vec::new(), too_big_files: Vec::new(), zip_files: Vec::new(),
            lua_count: 0,
        }
    }

    /// Get a hash from what the file gives: its name's bytes, its size and
    /// its last 2048 bytes (`None` where reading them failed).
    pub fn make_hash(name: Option<Vec<u8>>, size: Option<u64>, tail: Option<Vec<u8>>) -> (r: String)
        ensures
            r@ == spec_make_hash(opt_bytes(name), size, opt_bytes(tail)),
            r@ == DEFAULT_HASH@ || r@.len() == 22,
    {
        match (name, size, tail) {
            (Some(n), Some(sz), Some(t)) => {
                if t.len() == 2048 {
                    let mut data = n;
                    let mut size_bytes = u64_be_bytes(sz);
                    let mut tail_bytes = t;
                    let ghost n0 = data@;
                    let ghost t0 = tail_bytes@;
                    data.append(&mut size_bytes);
                    data.append(&mut tail_bytes);
                    assert(data@ =~= n0 + be_bytes(sz) + t0);
                    let digest = md5_digest(data.as_slice());
                    proof { lemma_b64_url_len(digest@); }
                    base64_url(digest.as_slice())
                } else {
                    to_owned_str(DEFAULT_HASH)
                }
            },
            _ => to_owned_str(DEFAULT_HASH),
        }
    }
}

/// The ident of a mod: base64 of the MD5 of its full path.
pub open spec fn spec_ident(full_path: Seq<char>) -> Seq<char> {
    b64_url(md5_of(vstd::utf8::encode_utf8(full_path)))
}

} // verus!

verus! {

// MARK: options

/// Options for the parser
#[derive(Debug, Clone, Copy, PartialEq, Eq, Structural)]
pub enum ParseOption {
    /// Include savegame, if found
    IncludeSaveGame,
    /// Include detail scans
    IncludeDetail,
    /// Include Map
    IncludeMap,
    /// Include detail icons
    ImageDetail,
    /// Include mod icon
    ImageMod,
    /// Include map image
    ImageMap,
}

/// Options for the parsers
#[derive(Debug)]
pub struct ParseOptions(pub Vec<ParseOption>);

impl ParseOptions {
    /// Is option `o` set?
    pub fn contains(&self, o: ParseOption) -> (r: bool)
        ensures
            r == self.0@.contains(o),
    {
        let mut i: usize = 0;
        while i < self.0.len()
            invariant
                i <= self.0@.len(),
                forall|j: int| 0 <= j < i ==> self.0@[j] != o,
            decreases self.0.len() - i,
        {
            if self.0[i] == o {
                assert(self.0@[i as int] == o);
                return true;
            }
            i = i + 1;
        }
        false
    }

    /// Options from a list.
    pub fn from_list(v: Vec<ParseOption>) -> (r: ParseOptions)
        ensures
            r.0@ == v@,
    {
        ParseOptions(v)
    }
}

impl Default for ParseOptions {
    /// Every option.
    fn default() -> (r: ParseOptions)
        ensures
            r.0@ == seq![ParseOption::IncludeSaveGame, ParseOption::IncludeDetail, ParseOption::IncludeMap,
                ParseOption::ImageMod, ParseOption::ImageDetail, ParseOption::ImageMap],
    {
        let mut v: Vec<ParseOption> = Vec::new();
        v.push(ParseOption::IncludeSaveGame);
        v.push(ParseOption::IncludeDetail);
        v.push(ParseOption::IncludeMap);
        v.push(ParseOption::ImageMod);
        v.push(ParseOption::ImageDetail);
        v.push(ParseOption::ImageMap);
        let r = ParseOptions(v);
        assert(r.0@ =~= seq![ParseOption::IncludeSaveGame, ParseOption::IncludeDetail, ParseOption::IncludeMap,
            ParseOption::ImageMod, ParseOption::ImageDetail, ParseOption::ImageMap]);
        r
    }
}

/// Parsing options
#[derive(Debug)]
pub struct ModParserOptions {
    /// Include save game parsing in mod output
    pub include_save_game: bool,
    /// Include detail parsing in mod output
    pub include_mod_detail: bool,
    /// Skip icon processing for detail items
    pub skip_detail_icons: bool,
    /// Skip icon processing for mod
    pub skip_mod_icons: bool,
}

/// Known none malware files that fail the general check
pub const NOT_MALWARE: [&'static str; 16] = [
    "FS25_000_DevTools", "FS25_AutoDrive", "FS25_Courseplay", "FS25_FSG_Companion",
    "FS25_VehicleControlAddon", "FS22_001_NoDelete", "FS22_AutoDrive", "FS22_Courseplay",
    "FS22_FSG_Companion", "FS22_VehicleControlAddon", "MultiOverlayV3", "MultiOverlayV4",
    "VehicleInspector", "FS19_AutoDrive", "FS19_Courseplay", "FS19_GlobalCompany",
];

/// Is this one of the mods known not to be malware, though their scripts
/// delete files?
pub open spec fn is_known_safe(s: Seq<char>) -> bool {
    s == "FS25_000_DevTools"@ || s == "FS25_AutoDrive"@ || s == "FS25_Courseplay"@
    || s == "FS25_FSG_Companion"@ || s == "FS25_VehicleControlAddon"@ || s == "FS22_001_NoDelete"@
    || s == "FS22_AutoDrive"@ || s == "FS22_Courseplay"@ || s == "FS22_FSG_Companion"@
    || s == "FS22_VehicleControlAddon"@ || s == "MultiOverlayV3"@ || s == "MultiOverlayV4"@
    || s == "VehicleInspector"@ || s == "FS19_AutoDrive"@ || s == "FS19_Courseplay"@
    || s == "FS19_GlobalCompany"@
}

/// Is `name` in [`NOT_MALWARE`]?
pub fn is_not_malware(name: &str) -> (r: bool)
    ensures
        r == is_known_safe(name@),
{
    str_eq(name, "FS25_000_DevTools") || str_eq(name, "FS25_AutoDrive") || str_eq(name, "FS25_Courseplay")
    || str_eq(name, "FS25_FSG_Companion") || str_eq(name, "FS25_VehicleControlAddon")
    || str_eq(name, "FS22_001_NoDelete") || str_eq(name, "FS22_AutoDrive") || str_eq(name, "FS22_Courseplay")
    || str_eq(name, "FS22_FSG_Companion") || str_eq(name, "FS22_VehicleControlAddon")
    || str_eq(name, "MultiOverlayV3") || str_eq(name, "MultiOverlayV4") || str_eq(name, "VehicleInspector")
    || str_eq(name, "FS19_AutoDrive") || str_eq(name, "FS19_Courseplay") || str_eq(name, "FS19_GlobalCompany")
}

} // verus!

verus! {

// MARK: the record

/// Mod file record
#[derive(Debug)]
pub struct Record {
    /// file metadata
    pub file: FileInfo,
    /// Mod ident from full path and filename (MD5)
    pub ident: String,
    /// Mod badges
    pub badge_array: Vec<Badges>,
    /// Mod not usable flag
    pub can_not_use: bool,
    /// Current collection for mod (not set)
    pub current_collection: String,
    /// Errors or issues found
    pub issues: IssueSet,
    /// storeItem icons loaded
    pub detail_icons_loaded: bool,
    /// save game record (if processed)
    pub include_save_game: Option<crate::savegame::SaveGame>,
    /// L10N data
    pub l10n: crate::l10n::L10n,
    /// modDesc.xml fields
    pub mod_desc: crate::mod_desc::DescXML,
    /// Map22 fields
    pub map22: Option<crate::map22::Map22>,
}

/// The issues of a record, and whether it can be used.
pub struct Flags {
    /// issues, each once, in the order raised
    pub issues: Seq<ModError>,
    /// the mod can not be used
    pub can_not_use: bool,
}

/// An issue raised.
pub open spec fn warn_f(f: Flags, e: ModError) -> Flags {
    Flags { issues: set_insert(f.issues, e), can_not_use: f.can_not_use }
}

/// An issue raised that makes the mod unusable.
pub open spec fn fail_f(f: Flags, e: ModError) -> Flags {
    Flags { issues: set_insert(f.issues, e), can_not_use: true }
}

impl Record {
    /// The issues and usability of the record.
    pub open spec fn flags(&self) -> Flags {
        Flags { issues: self.issues.items@, can_not_use: self.can_not_use }
    }

    /// make a new record
    pub fn new(mod_ident: ModIdent, is_folder: bool) -> (r: Record)
        ensures
            r.ident@ == mod_ident.ident@,
            r.file.full_path@ == mod_ident.full_path@,
            r.file.age_hash@ == mod_ident.hash@,
            r.file.is_folder == is_folder,
            r.file.short_name@ == match path_file_stem(mod_ident.full_path@) { Some(s) => s, None => Seq::empty() },
            r.file.copy_name is None,
            r.file.lua_count == 0,
            r.file.space_files@.len() == 0, r.file.image_non_dds@.len() == 0, r.file.png_texture@.len() == 0,
            r.file.too_big_files@.len() == 0, r.file.image_dds@.len() == 0, r.file.extra_files@.len() == 0,
            r.file.file_date == 0,
            !r.file.is_save_game,
            !r.file.is_mod_pack,
            r.issues.items@.len() == 0,
            !r.can_not_use,
            r.badge_array@.len() == 0,
            r.mod_desc@ == crate::mod_desc::empty_desc(),
            r.include_save_game is None,
            r.map22 is None,
            r.l10n@.len() == 0,
    {
        Record {
            file: FileInfo::new(mod_ident.full_path, is_folder, mod_ident.hash),
            ident: mod_ident.ident,
            badge_array: Vec::new(),
            can_not_use: false,
            current_collection: String::new(),
            issues: IssueSet::new(),
            detail_icons_loaded: false,
            include_save_game: None,
            l10n: crate::l10n::L10n::new(),
            mod_desc: crate::mod_desc::DescXML::new(),
            map22: None,
        }
    }

    /// Get a mod ident from its absolute path and its age hash (see
    /// [`FileInfo::make_hash`]).
    pub fn get_ident(full_path: &str, hash: String) -> (r: ModIdent)
        ensures
            r.full_path@ == full_path@,
            r.ident@ == spec_ident(full_path@),
            r.ident@.len() == 22,
            r.hash@ == hash@,
    {
        let digest = md5_digest(full_path.as_bytes());
        proof { lemma_b64_url_len(digest@); }
        ModIdent { full_path: full_path.to_owned(), ident: base64_url(digest.as_slice()), hash }
    }

    /// add a warning issue
    pub fn warn(&mut self, e: ModError)
        ensures
            final(self).flags() == warn_f(old(self).flags(), e),
            final(self).file == old(self).file,
            final(self).mod_desc == old(self).mod_desc,
            final(self).badge_array == old(self).badge_array,
            final(self).l10n == old(self).l10n,
            final(self).ident == old(self).ident,
            final(self).file.full_path == old(self).file.full_path,
            final(self).file.age_hash == old(self).file.age_hash,
            final(self).map22 == old(self).map22,
            final(self).include_save_game == old(self).include_save_game,
    {
        self.issues.insert(e);
    }

    /// set mod has failed
    pub fn fail(&mut self, e: ModError)
        ensures
            final(self).flags() == fail_f(old(self).flags(), e),
            final(self).file == old(self).file,
            final(self).mod_desc == old(self).mod_desc,
            final(self).badge_array == old(self).badge_array,
            final(self).l10n == old(self).l10n,
            final(self).ident == old(self).ident,
            final(self).file.full_path == old(self).file.full_path,
            final(self).file.age_hash == old(self).file.age_hash,
            final(self).map22 == old(self).map22,
            final(self).include_save_game == old(self).include_save_game,
    {
        self.issues.insert(e);
        self.can_not_use = true;
    }
}

// MARK: check_name

/// The issues the archive type raises: a `.zip` none, a `.rar` or `.7z`
/// an unsupported archive, anything else a garbage file; folders and
/// names without extension none.
pub open spec fn extension_issues(f: Flags, is_folder: bool, full_path: Seq<char>) -> Flags {
    if !is_folder {
        match path_extension(full_path) {
            Some(e) => {
                let l = lower_seq(e);
                if l == "zip"@ {
                    f
                } else if l == "rar"@ || l == "7z"@ {
                    fail_f(fail_f(f, ModError::FileErrorUnsupportedArchive), ModError::FileErrorNameInvalid)
                } else {
                    fail_f(fail_f(f, ModError::FileErrorGarbageFile), ModError::FileErrorNameInvalid)
                }
            },
            None => f,
        }
    } else {
        f
    }
}

/// The issues a mod's name raises.
pub open spec fn name_issues(f: Flags, is_folder: bool, full_path: Seq<char>, short: Seq<char>) -> Flags {
    let f1 = extension_issues(f, is_folder, full_path);
    let f2 = if contains_seq(lower_seq(short), "unzip"@) { warn_f(f1, ModError::FileErrorLikelyZipPack) } else { f1 };
    let f3 = if short.len() > 0 && is_digit(short[0]) {
        fail_f(fail_f(f2, ModError::FileErrorNameStartsDigit), ModError::FileErrorNameInvalid)
    } else {
        f2
    };
    if !name_ok(short) {
        let f4 = if copy_name_of(short) is Some { warn_f(f3, ModError::FileErrorLikelyCopy) } else { f3 };
        fail_f(f4, ModError::FileErrorNameInvalid)
    } else {
        f3
    }
}

/// Is the character white space (std's `char::is_whitespace`)?
fn is_white(c: char) -> (r: bool)
    ensures
        r == is_ws(c),
{
    ('\u{9}' <= c && c <= '\u{d}') || c == ' ' || c == '\u{85}' || c == '\u{a0}' || c == '\u{1680}'
    || ('\u{2000}' <= c && c <= '\u{200a}') || c == '\u{2028}' || c == '\u{2029}' || c == '\u{202f}'
    || c == '\u{205f}' || c == '\u{3000}'
}

/// Are all characters allowed in a mod's name?
fn all_name_ok(s: &[char]) -> (r: bool)
    ensures
        r == name_ok(s@),
{
    let mut i: usize = 0;
    while i < s.len()
        invariant
            i <= s.len(),
            forall|j: int| 0 <= j < i ==> name_char_ok(#[trigger] s@[j]),
        decreases s.len() - i,
    {
        let c = s[i];
        if !((('0' <= c && c <= '9') || ('a' <= c && c <= 'z') || ('A' <= c && c <= 'Z')) || c == '_' || c == '.') {
            assert(!name_char_ok(s@[i as int]));
            return false;
        }
        i = i + 1;
    }
    true
}

/// The name a copy of a mod came from (see [`copy_name_of`]).
fn copy_name(s: &[char]) -> (r: Option<Vec<char>>)
    ensures
        match r {
            Some(v) => copy_name_of(s@) == Some(v@),
            None => copy_name_of(s@) is None,
        },
{
    proof { lemma_first_separator(s@); }
    let mut k: usize = 0;
    while k < s.len()
        invariant
            k <= s.len(),
            forall|j: int| 0 <= j < k ==> !is_separator(#[trigger] s@[j]),
            0 <= first_separator(s@) <= s@.len(),
            forall|j: int| 0 <= j < first_separator(s@) ==> !is_separator(#[trigger] s@[j]),
            first_separator(s@) < s@.len() ==> is_separator(s@[first_separator(s@)]),
        decreases s.len() - k,
    {
        let c = s[k];
        if !(('0' <= c && c <= '9') || ('a' <= c && c <= 'z') || ('A' <= c && c <= 'Z')) && c != '_' {
            assert(is_separator(s@[k as int]));
            assert(first_separator(s@) == k) by {
                if first_separator(s@) < k { assert(is_separator(s@[first_separator(s@)])); }
                if first_separator(s@) > k { assert(!is_separator(s@[k as int])); }
            }
            if is_white(c) {
                return Some(sub_chars(s, 0, k));
            } else if c == '.' {
                return Some(sub_chars(s, 0, k + 1));
            } else {
                return None;
            }
        }
        k = k + 1;
    }
    assert(first_separator(s@) == s@.len()) by {
        if first_separator(s@) < s@.len() { assert(is_separator(s@[first_separator(s@)])); }
    }
    None
}

impl Record {
    /// Check file name
    pub fn check_name(&mut self)
        ensures
            final(self).flags() == name_issues(old(self).flags(), old(self).file.is_folder,
                old(self).file.full_path@, old(self).file.short_name@),
            opt_chars(final(self).file.copy_name) == if !name_ok(old(self).file.short_name@) && copy_name_of(old(self).file.short_name@) is Some {
                copy_name_of(old(self).file.short_name@)
            } else {
                opt_chars(old(self).file.copy_name)
            },
            final(self).file.short_name == old(self).file.short_name,
            final(self).file.full_path == old(self).file.full_path,
            final(self).file.is_folder == old(self).file.is_folder,
            final(self).file.lua_count == old(self).file.lua_count,
            final(self).file.is_save_game == old(self).file.is_save_game,
            final(self).file.is_mod_pack == old(self).file.is_mod_pack,
            final(self).mod_desc == old(self).mod_desc,
            final(self).badge_array == old(self).badge_array,
            same_lists(final(self).file, old(self).file),
            final(self).l10n == old(self).l10n,
            final(self).ident == old(self).ident,
            final(self).file.full_path == old(self).file.full_path,
            final(self).file.age_hash == old(self).file.age_hash,
            final(self).file.file_date == old(self).file.file_date,
            final(self).map22 == old(self).map22,
            final(self).include_save_game == old(self).include_save_game,
    {
        if !self.file.is_folder {
            if let Some(ext) = extension(self.file.full_path.as_str()) {
                let e = to_chars(ext.as_str());
                let l = to_lower(e.as_slice());
                let zip = to_chars("zip");
                let rar = to_chars("rar");
                let seven = to_chars("7z");
                if chars_eq(l.as_slice(), zip.as_slice()) {
                } else if chars_eq(l.as_slice(), rar.as_slice()) || chars_eq(l.as_slice(), seven.as_slice()) {
                    self.fail(ModError::FileErrorUnsupportedArchive);
                    self.fail(ModError::FileErrorNameInvalid);
                } else {
                    self.fail(ModError::FileErrorGarbageFile);
                    self.fail(ModError::FileErrorNameInvalid);
                }
            }
        }
        let name = to_chars(self.file.short_name.as_str());
        let lower = to_lower(name.as_slice());
        let unzip = to_chars("unzip");
        if contains_chars(lower.as_slice(), unzip.as_slice()) {
            self.warn(ModError::FileErrorLikelyZipPack);
        }
        if name.len() > 0 && '0' <= name[0] && name[0] <= '9' {
            self.fail(ModError::FileErrorNameStartsDigit);
            self.fail(ModError::FileErrorNameInvalid);
        }
        if !all_name_ok(name.as_slice()) {
            if let Some(c) = copy_name(name.as_slice()) {
                self.issues.insert(ModError::FileErrorLikelyCopy);
                self.file.copy_name = Some(from_chars(c.as_slice()));
            }
            self.fail(ModError::FileErrorNameInvalid);
        }
    }
}

} // verus!

verus! {

// MARK: mod packs

/// A zip file inside a pack, as plain values.
pub open spec fn zip_view(z: ZipPackFile) -> (Seq<char>, u64) {
    (z.name@, z.size)
}

/// Scanning a file list from `i` on for a pack of mods: no folders, no XML,
/// at least one zip and at most one other file. `budget` is how many other
/// files may still come, counted from two.
pub open spec fn pack_run(files: Seq<FileDefinition>, i: int, budget: int, zips: Seq<(Seq<char>, u64)>, any_zip: bool)
    -> Option<Seq<(Seq<char>, u64)>>
    decreases files.len() - i,
{
    if i < 0 || i >= files.len() {
        if budget > 0 && any_zip { Some(zips) } else { None }
    } else {
        let f = files[i];
        if f.is_dir {
            None
        } else if f.extension@ == "xml"@ {
            None
        } else if f.extension@ == "zip"@ {
            pack_run(files, i + 1, budget, zips.push((f.path@, f.size)), true)
        } else if budget < 1 {
            None
        } else {
            pack_run(files, i + 1, budget - 1, zips, any_zip)
        }
    }
}

/// The zip files of a pack of mods, where the file list is one.
pub open spec fn pack_files(files: Seq<FileDefinition>) -> Option<Seq<(Seq<char>, u64)>> {
    pack_run(files, 0, 2, Seq::empty(), false)
}

impl Record {
    /// Check if this a pack of mods, not a single mod
    pub fn check_mod_pack(&mut self, file: &AbstractFile) -> (r: bool)
        ensures
            r == (pack_files(spec_list(*file)) is Some),
            match pack_files(spec_list(*file)) {
                Some(z) => final(self).file.is_mod_pack
                    && final(self).file.zip_files@.map_values(|p: ZipPackFile| zip_view(p)) == z
                    && final(self).flags() == fail_f(old(self).flags(), ModError::FileErrorLikelyZipPack),
                None => final(self).file.is_mod_pack == old(self).file.is_mod_pack
                    && final(self).flags() == old(self).flags(),
            },
            final(self).file.short_name == old(self).file.short_name,
            final(self).file.is_folder == old(self).file.is_folder,
            final(self).file.lua_count == old(self).file.lua_count,
            final(self).file.is_save_game == old(self).file.is_save_game,
            final(self).file.file_size == old(self).file.file_size,
            final(self).file.file_date == old(self).file.file_date,
            final(self).mod_desc == old(self).mod_desc,
            final(self).badge_array == old(self).badge_array,
            same_lists(final(self).file, old(self).file),
            final(self).l10n == old(self).l10n,
            final(self).ident == old(self).ident,
            final(self).file.full_path == old(self).file.full_path,
            final(self).file.age_hash == old(self).file.age_hash,
            final(self).map22 == old(self).map22,
            final(self).include_save_game == old(self).include_save_game,
    {
        let list = file.list();
        let mut zip_list: Vec<ZipPackFile> = Vec::new();
        let mut max_non_zip_files: i64 = 2;
        let mut zip_files = false;
        let mut i: usize = 0;
        assert(zip_list@.map_values(|p: ZipPackFile| zip_view(p)) =~= Seq::<(Seq<char>, u64)>::empty());
        while i < list.len()
            invariant
                i <= list@.len(),
                list@ == spec_list(*file),
                0 <= max_non_zip_files <= 2,
                pack_run(list@, i as int, max_non_zip_files as int, zip_list@.map_values(|p: ZipPackFile| zip_view(p)), zip_files)
                    == pack_files(list@),
            decreases list.len() - i,
        {
            let f = &list[i];
            if f.is_dir {
                return false;
            }
            if str_eq(f.extension.as_str(), "xml") {
                return false;
            } else if str_eq(f.extension.as_str(), "zip") {
                zip_files = true;
                let ghost before = zip_list@;
                zip_list.push(ZipPackFile { name: f.path.clone(), size: f.size });
                assert(zip_list@.map_values(|p: ZipPackFile| zip_view(p))
                    =~= before.map_values(|p: ZipPackFile| zip_view(p)).push((f.path@, f.size)));
            } else if max_non_zip_files < 1 {
                return false;
            } else {
                max_non_zip_files = max_non_zip_files - 1;
            }
            i = i + 1;
        }
        if max_non_zip_files > 0 && zip_files {
            self.file.is_mod_pack = true;
            self.file.zip_files = zip_list;
            self.fail(ModError::FileErrorLikelyZipPack);
            return true;
        }
        false
    }
}

// MARK: file counts

/// What counting a mod's files collects.
pub struct Counts {
    /// issues and usability
    pub flags: Flags,
    /// files with spaces in their names
    pub space_files: Seq<Seq<char>>,
    /// number of LUA files
    pub lua_count: int,
    /// images that are not DDS
    pub image_non_dds: Seq<Seq<char>>,
    /// PNG textures
    pub png_texture: Seq<Seq<char>>,
    /// oversized files
    pub too_big_files: Seq<Seq<char>>,
    /// DDS images
    pub image_dds: Seq<Seq<char>>,
    /// files of unknown kinds
    pub extra_files: Seq<Seq<char>>,
    /// GRLE files seen
    pub grle: int,
    /// PDF files seen
    pub pdf: int,
    /// PNG files seen
    pub png: int,
    /// TXT files seen
    pub txt: int,
}

/// The file kinds a mod may hold.
pub open spec fn is_known_good(ext: Seq<char>) -> bool {
    ext == "png"@ || ext == "dds"@ || ext == "i3d"@ || ext == "shapes"@ || ext == "lua"@
    || ext == "gdm"@ || ext == "cache"@ || ext == "xml"@ || ext == "grle"@ || ext == "pdf"@
    || ext == "txt"@ || ext == "gls"@ || ext == "anim"@ || ext == "ogg"@
}

/// A file over its size limit raises `e` and is listed as too big.
pub open spec fn over_limit(c: Counts, f: FileDefinition, limit: u64, e: ModError) -> Counts {
    if f.size > limit {
        Counts { flags: warn_f(c.flags, e), too_big_files: c.too_big_files.push(f.path@), ..c }
    } else {
        c
    }
}

/// What one file of a known kind adds, by its kind.
pub open spec fn count_kind(c: Counts, f: FileDefinition) -> Counts {
    let e = f.extension@;
    let p = f.path@;
    if e == "lua"@ {
        Counts { lua_count: c.lua_count + 1, ..c }
    } else if e == "png"@ {
        let c1 = if !is_suffix("_weight.png"@, p) {
            Counts { image_non_dds: c.image_non_dds.push(p), png_texture: c.png_texture.push(p), ..c }
        } else {
            c
        };
        Counts { png: c1.png + 1, ..c1 }
    } else if e == "pdf"@ {
        Counts { pdf: c.pdf + 1, ..c }
    } else if e == "grle"@ {
        Counts { grle: c.grle + 1, ..c }
    } else if e == "txt"@ {
        Counts { txt: c.txt + 1, ..c }
    } else if e == "cache"@ {
        over_limit(c, f, SIZE_CACHE, ModError::PerformanceOversizeI3D)
    } else if e == "dds"@ {
        over_limit(Counts { image_dds: c.image_dds.push(p), ..c }, f, SIZE_DDS, ModError::PerformanceOversizeDDS)
    } else if e == "gdm"@ {
        over_limit(c, f, SIZE_GDM, ModError::PerformanceOversizeGDM)
    } else if e == "shapes"@ {
        over_limit(c, f, SIZE_SHAPES, ModError::PerformanceOversizeSHAPES)
    } else if e == "xml"@ {
        over_limit(c, f, SIZE_XML, ModError::PerformanceOversizeXML)
    } else {
        c
    }
}

/// The quantity limits checked after each file of a known kind.
pub open spec fn quantity_checks(c: Counts) -> Counts {
    let f1 = if c.grle > MAX_GRLE { warn_f(c.flags, ModError::PerformanceQuantityGRLE) } else { c.flags };
    let f2 = if c.pdf > MAX_PDF { warn_f(f1, ModError::PerformanceQuantityPDF) } else { f1 };
    let f3 = if c.png > MAX_PNG { warn_f(f2, ModError::PerformanceQuantityPNG) } else { f2 };
    let f4 = if c.txt > MAX_TXT { warn_f(f3, ModError::PerformanceQuantityTXT) } else { f3 };
    Counts { flags: f4, ..c }
}

/// What one file adds to the counts.
pub open spec fn count_step(c: Counts, f: FileDefinition) -> Counts {
    let e = f.extension@;
    if f.is_dir {
        c
    } else if is_known_good(e) {
        let c1 = if f.path@.contains(' ') {
            Counts { flags: warn_f(c.flags, ModError::PerformanceFileSpaces), space_files: c.space_files.push(f.path@), ..c }
        } else {
            c
        };
        quantity_checks(count_kind(c1, f))
    } else {
        let f1 = if e == "dat"@ || e == "l64"@ { warn_f(c.flags, ModError::InfoLikelyPiracy) } else { c.flags };
        let f2 = if e == "exe"@ || e == "bat"@ || e == "ps1"@ { fail_f(f1, ModError::InfoDangerousFile) } else { f1 };
        Counts { flags: warn_f(f2, ModError::PerformanceQuantityExtra), extra_files: c.extra_files.push(f.path@), ..c }
    }
}

/// The counts over a file list, in order.
pub open spec fn counts_over(c: Counts, files: Seq<FileDefinition>) -> Counts
    decreases files.len(),
{
    if files.len() == 0 {
        c
    } else {
        count_step(counts_over(c, files.drop_last()), files.last())
    }
}

/// Counting a file keeps every issue raised and every oversized file noted.
proof fn lemma_count_step_keeps(c: Counts, f: FileDefinition, e: ModError, p: Seq<char>)
    ensures
        c.flags.issues.contains(e) ==> count_step(c, f).flags.issues.contains(e),
        c.too_big_files.contains(p) ==> count_step(c, f).too_big_files.contains(p),
{
    broadcast use vstd::seq_lib::group_seq_properties;
}

/// Counting a list of files keeps every issue raised and every oversized
/// file noted before it.
proof fn lemma_counts_over_keeps(c: Counts, files: Seq<FileDefinition>, e: ModError, p: Seq<char>)
    ensures
        c.flags.issues.contains(e) ==> counts_over(c, files).flags.issues.contains(e),
        c.too_big_files.contains(p) ==> counts_over(c, files).too_big_files.contains(p),
    decreases files.len(),
{
    if files.len() > 0 {
        lemma_counts_over_keeps(c, files.drop_last(), e, p);
        lemma_count_step_keeps(counts_over(c, files.drop_last()), files.last(), e, p);
    }
}

/// Every XML file of a mod larger than [`SIZE_XML`] raises the oversized
/// XML issue and is listed among the oversized files, whatever files come
/// before or after it.
pub proof fn law_oversize_xml(c: Counts, files: Seq<FileDefinition>, i: int)
    requires
        0 <= i < files.len(),
        !files[i].is_dir,
        files[i].extension@ == "xml"@,
        files[i].size > SIZE_XML,
    ensures
        counts_over(c, files).flags.issues.contains(ModError::PerformanceOversizeXML),
        counts_over(c, files).too_big_files.contains(files[i].path@),
    decreases files.len(),
{
    broadcast use vstd::seq_lib::group_seq_properties;
    let e = ModError::PerformanceOversizeXML;
    let p = files[i].path@;
    if i == files.len() - 1 {
        let prev = counts_over(c, files.drop_last());
        let f = files.last();
        reveal_strlit("xml");
        reveal_strlit("lua");
        reveal_strlit("png");
        reveal_strlit("pdf");
        reveal_strlit("grle");
        reveal_strlit("txt");
        reveal_strlit("cache");
        reveal_strlit("dds");
        reveal_strlit("gdm");
        reveal_strlit("shapes");
        assert("xml"@[0] != "lua"@[0] && "xml"@[0] != "png"@[0] && "xml"@[0] != "pdf"@[0]
            && "xml"@[0] != "grle"@[0] && "xml"@[0] != "txt"@[0] && "xml"@[0] != "cache"@[0]
            && "xml"@[0] != "dds"@[0] && "xml"@[0] != "gdm"@[0] && "xml"@[0] != "shapes"@[0]);
        let c1 = if f.path@.contains(' ') {
            Counts { flags: warn_f(prev.flags, ModError::PerformanceFileSpaces), space_files: prev.space_files.push(f.path@), ..prev }
        } else {
            prev
        };
        let k = count_kind(c1, f);
        assert(k == over_limit(c1, f, SIZE_XML, e));
        assert(k.flags.issues.contains(e)) by {
            if !c1.flags.issues.contains(e) {
                assert(c1.flags.issues.push(e)[c1.flags.issues.len() as int] == e);
            }
        }
        assert(k.too_big_files.contains(p)) by {
            assert(k.too_big_files[k.too_big_files.len() - 1] == p);
        }
        assert(count_step(prev, f) == quantity_checks(k));
    } else {
        law_oversize_xml(c, files.drop_last(), i);
        lemma_count_step_keeps(counts_over(c, files.drop_last()), files.last(), e, p);
    }
}

/// A record's counts, with no file seen yet.
pub open spec fn record_counts(r: Record) -> Counts {
    Counts {
        flags: r.flags(),
        space_files: strs(r.file.space_files@),
        lua_count: r.file.lua_count as int,
        image_non_dds: strs(r.file.image_non_dds@),
        png_texture: strs(r.file.png_texture@),
        too_big_files: strs(r.file.too_big_files@),
        image_dds: strs(r.file.image_dds@),
        extra_files: strs(r.file.extra_files@),
        grle: 0, pdf: 0, png: 0, txt: 0,
    }
}

/// The counts of a record while counting.
pub open spec fn counts_now(r: Record, grle: u32, pdf: u32, png: u32, txt: u32) -> Counts {
    Counts { grle: grle as int, pdf: pdf as int, png: png as int, txt: txt as int, ..record_counts(r) }
}

/// Counting never lowers a counter and raises each by at most one per file.
pub proof fn lemma_counts_bounded(c: Counts, files: Seq<FileDefinition>)
    ensures
        c.lua_count <= counts_over(c, files).lua_count <= c.lua_count + files.len(),
        c.grle <= counts_over(c, files).grle <= c.grle + files.len(),
        c.pdf <= counts_over(c, files).pdf <= c.pdf + files.len(),
        c.png <= counts_over(c, files).png <= c.png + files.len(),
        c.txt <= counts_over(c, files).txt <= c.txt + files.len(),
    decreases files.len(),
{
    if files.len() > 0 {
        lemma_counts_bounded(c, files.drop_last());
    }
}

/// Push a path to a list of paths.
fn push_path(v: &mut Vec<String>, p: &String)
    ensures
        strs(final(v)@) == strs(old(v)@).push(p@),
{
    v.push(p.clone());
    assert(strs(v@) =~= strs(old(v)@).push(p@));
}

impl Record {
    /// The size limit check of one file.
    fn over_limit(&mut self, f: &FileDefinition, limit: u64, e: ModError, grle: u32, pdf: u32, png: u32, txt: u32)
        ensures
            counts_now(*final(self), grle, pdf, png, txt) == over_limit(counts_now(*old(self), grle, pdf, png, txt), *f, limit, e),
            final(self).file.short_name == old(self).file.short_name,
            final(self).file.is_folder == old(self).file.is_folder,
            final(self).file.is_save_game == old(self).file.is_save_game,
            final(self).file.is_mod_pack == old(self).file.is_mod_pack,
            final(self).mod_desc == old(self).mod_desc,
            final(self).badge_array == old(self).badge_array,
            final(self).l10n == old(self).l10n,
            final(self).map22 == old(self).map22,
            final(self).include_save_game == old(self).include_save_game,
            final(self).ident == old(self).ident,
            final(self).file.full_path == old(self).file.full_path,
            final(self).file.age_hash == old(self).file.age_hash,
            final(self).file.file_size == old(self).file.file_size,
            final(self).file.file_date == old(self).file.file_date,
    {
        if f.size > limit {
            self.warn(e);
            push_path(&mut self.file.too_big_files, &f.path);
        }
    }

    /// Count one file, with the counters so far; gives the counters after it.
    fn count_file(&mut self, f: &FileDefinition, grle: u32, pdf: u32, png: u32, txt: u32) -> (r: (u32, u32, u32, u32))
        requires
            old(self).file.lua_count < u32::MAX,
            grle < u32::MAX, pdf < u32::MAX, png < u32::MAX, txt < u32::MAX,
        ensures
            counts_now(*final(self), r.0, r.1, r.2, r.3) == count_step(counts_now(*old(self), grle, pdf, png, txt), *f),
            final(self).file.short_name == old(self).file.short_name,
            final(self).file.is_folder == old(self).file.is_folder,
            final(self).file.is_save_game == old(self).file.is_save_game,
            final(self).file.is_mod_pack == old(self).file.is_mod_pack,
            final(self).mod_desc == old(self).mod_desc,
            final(self).badge_array == old(self).badge_array,
            final(self).l10n == old(self).l10n,
            final(self).map22 == old(self).map22,
            final(self).include_save_game == old(self).include_save_game,
            final(self).ident == old(self).ident,
            final(self).file.full_path == old(self).file.full_path,
            final(self).file.age_hash == old(self).file.age_hash,
            final(self).file.file_size == old(self).file.file_size,
            final(self).file.file_date == old(self).file.file_date,
    {
        if f.is_dir {
            return (grle, pdf, png, txt);
        }
        let e = f.extension.as_str();
        let known = str_eq(e, "png") || str_eq(e, "dds") || str_eq(e, "i3d") || str_eq(e, "shapes")
            || str_eq(e, "lua") || str_eq(e, "gdm") || str_eq(e, "cache") || str_eq(e, "xml")
            || str_eq(e, "grle") || str_eq(e, "pdf") || str_eq(e, "txt") || str_eq(e, "gls")
            || str_eq(e, "anim") || str_eq(e, "ogg");
        if known {
            let path = to_chars(f.path.as_str());
            if contains_char(path.as_slice(), ' ') {
                self.warn(ModError::PerformanceFileSpaces);
                push_path(&mut self.file.space_files, &f.path);
            }
            let r = self.count_kind(f, grle, pdf, png, txt);
            self.quantity_checks(r.0, r.1, r.2, r.3);
            r
        } else {
            if str_eq(e, "dat") || str_eq(e, "l64") {
                self.warn(ModError::InfoLikelyPiracy);
            }
            if str_eq(e, "exe") || str_eq(e, "bat") || str_eq(e, "ps1") {
                self.fail(ModError::InfoDangerousFile);
            }
            self.warn(ModError::PerformanceQuantityExtra);
            push_path(&mut self.file.extra_files, &f.path);
            (grle, pdf, png, txt)
        }
    }

    /// What a file of a known kind adds, by its kind.
    fn count_kind(&mut self, f: &FileDefinition, grle: u32, pdf: u32, png: u32, txt: u32) -> (r: (u32, u32, u32, u32))
        requires
            old(self).file.lua_count < u32::MAX,
            grle < u32::MAX, pdf < u32::MAX, png < u32::MAX, txt < u32::MAX,
        ensures
            counts_now(*final(self), r.0, r.1, r.2, r.3) == count_kind(counts_now(*old(self), grle, pdf, png, txt), *f),
            final(self).file.short_name == old(self).file.short_name,
            final(self).file.is_folder == old(self).file.is_folder,
            final(self).file.is_save_game == old(self).file.is_save_game,
            final(self).file.is_mod_pack == old(self).file.is_mod_pack,
            final(self).mod_desc == old(self).mod_desc,
            final(self).badge_array == old(self).badge_array,
            final(self).l10n == old(self).l10n,
            final(self).map22 == old(self).map22,
            final(self).include_save_game == old(self).include_save_game,
            final(self).ident == old(self).ident,
            final(self).file.full_path == old(self).file.full_path,
            final(self).file.age_hash == old(self).file.age_hash,
            final(self).file.file_size == old(self).file.file_size,
            final(self).file.file_date == old(self).file.file_date,
    {
        let e = f.extension.as_str();
        if str_eq(e, "lua") {
            self.file.lua_count = self.file.lua_count + 1;
            (grle, pdf, png, txt)
        } else if str_eq(e, "png") {
            let path = to_chars(f.path.as_str());
            let weight = to_chars("_weight.png");
            if !ends_with(path.as_slice(), weight.as_slice()) {
                push_path(&mut self.file.image_non_dds, &f.path);
                push_path(&mut self.file.png_texture, &f.path);
            }
            (grle, pdf, png + 1, txt)
        } else if str_eq(e, "pdf") {
            (grle, pdf + 1, png, txt)
        } else if str_eq(e, "grle") {
            (grle + 1, pdf, png, txt)
        } else if str_eq(e, "txt") {
            (grle, pdf, png, txt + 1)
        } else if str_eq(e, "cache") {
            self.over_limit(f, SIZE_CACHE, ModError::PerformanceOversizeI3D, grle, pdf, png, txt);
            (grle, pdf, png, txt)
        } else if str_eq(e, "dds") {
            push_path(&mut self.file.image_dds, &f.path);
            self.over_limit(f, SIZE_DDS, ModError::PerformanceOversizeDDS, grle, pdf, png, txt);
            (grle, pdf, png, txt)
        } else if str_eq(e, "gdm") {
            self.over_limit(f, SIZE_GDM, ModError::PerformanceOversizeGDM, grle, pdf, png, txt);
            (grle, pdf, png, txt)
        } else if str_eq(e, "shapes") {
            self.over_limit(f, SIZE_SHAPES, ModError::PerformanceOversizeSHAPES, grle, pdf, png, txt);
            (grle, pdf, png, txt)
        } else if str_eq(e, "xml") {
            self.over_limit(f, SIZE_XML, ModError::PerformanceOversizeXML, grle, pdf, png, txt);
            (grle, pdf, png, txt)
        } else {
            (grle, pdf, png, txt)
        }
    }

    /// The quantity limits, checked after a file of a known kind.
    fn quantity_checks(&mut self, grle: u32, pdf: u32, png: u32, txt: u32)
        ensures
            counts_now(*final(self), grle, pdf, png, txt) == quantity_checks(counts_now(*old(self), grle, pdf, png, txt)),
            final(self).file == old(self).file,
            final(self).mod_desc == old(self).mod_desc,
            final(self).badge_array == old(self).badge_array,
            final(self).l10n == old(self).l10n,
            final(self).map22 == old(self).map22,
            final(self).include_save_game == old(self).include_save_game,
            final(self).ident == old(self).ident,
            final(self).file.full_path == old(self).file.full_path,
            final(self).file.age_hash == old(self).file.age_hash,
    {
        if grle > MAX_GRLE {
            self.warn(ModError::PerformanceQuantityGRLE);
        }
        if pdf > MAX_PDF {
            self.warn(ModError::PerformanceQuantityPDF);
        }
        if png > MAX_PNG {
            self.warn(ModError::PerformanceQuantityPNG);
        }
        if txt > MAX_TXT {
            self.warn(ModError::PerformanceQuantityTXT);
        }
    }

    /// Count mod files
    pub fn do_file_counts(&mut self, file: &AbstractFile)
        requires
            old(self).file.lua_count + spec_list(*file).len() <= u32::MAX,
        ensures
            ({
                let c = counts_over(record_counts(*old(self)), spec_list(*file));
                &&& final(self).flags() == c.flags
                &&& strs(final(self).file.space_files@) == c.space_files
                &&& final(self).file.lua_count == c.lua_count
                &&& strs(final(self).file.image_non_dds@) == c.image_non_dds
                &&& strs(final(self).file.png_texture@) == c.png_texture
                &&& strs(final(self).file.too_big_files@) == c.too_big_files
                &&& strs(final(self).file.image_dds@) == c.image_dds
                &&& strs(final(self).file.extra_files@) == c.extra_files
            }),
            final(self).file.short_name == old(self).file.short_name,
            final(self).file.is_folder == old(self).file.is_folder,
            final(self).file.is_save_game == old(self).file.is_save_game,
            final(self).file.is_mod_pack == old(self).file.is_mod_pack,
            final(self).mod_desc == old(self).mod_desc,
            final(self).badge_array == old(self).badge_array,
            final(self).l10n == old(self).l10n,
            final(self).ident == old(self).ident,
            final(self).file.full_path == old(self).file.full_path,
            final(self).file.age_hash == old(self).file.age_hash,
            final(self).file.file_size == old(self).file.file_size,
            final(self).file.file_date == old(self).file.file_date,
            final(self).map22 == old(self).map22,
            final(self).include_save_game == old(self).include_save_game,
    {
        let list = file.list();
        let mut found_grle: u32 = 0;
        let mut found_pdf: u32 = 0;
        let mut found_png: u32 = 0;
        let mut found_txt: u32 = 0;
        let ghost start = record_counts(*self);
        let mut i: usize = 0;
        proof { lemma_counts_bounded(start, list@); }
        while i < list.len()
            invariant
                i <= list@.len(),
                list@ == spec_list(*file),
                start.lua_count + list@.len() <= u32::MAX,
                start == record_counts(*old(self)),
                start.grle == 0 && start.pdf == 0 && start.png == 0 && start.txt == 0,
                counts_now(*self, found_grle, found_pdf, found_png, found_txt) == counts_over(start, list@.subrange(0, i as int)),
                self.file.short_name == old(self).file.short_name,
                self.file.is_folder == old(self).file.is_folder,
                self.file.is_save_game == old(self).file.is_save_game,
                self.file.is_mod_pack == old(self).file.is_mod_pack,
                self.mod_desc == old(self).mod_desc,
                self.badge_array == old(self).badge_array,
                self.l10n == old(self).l10n,
                self.map22 == old(self).map22,
                self.include_save_game == old(self).include_save_game,
                self.ident == old(self).ident,
                self.file.full_path == old(self).file.full_path,
                self.file.age_hash == old(self).file.age_hash,
                self.file.file_size == old(self).file.file_size,
                self.file.file_date == old(self).file.file_date,
            decreases list.len() - i,
        {
            let f = &list[i];
            let ghost before = counts_now(*self, found_grle, found_pdf, found_png, found_txt);
            proof {
                assert(list@.subrange(0, i + 1).drop_last() =~= list@.subrange(0, i as int));
                lemma_counts_bounded(start, list@.subrange(0, i as int));
                assert(i < list@.len());
                assert(start.lua_count >= 0);
                assert(i < u32::MAX);
                assert(found_grle as int == before.grle && before.grle <= i);
                assert(found_pdf as int == before.pdf && before.pdf <= i);
                assert(found_png as int == before.png && before.png <= i);
                assert(found_txt as int == before.txt && before.txt <= i);
                assert(self.file.lua_count as int == before.lua_count && before.lua_count <= start.lua_count + i);
            }
            let (g, d, n, t) = self.count_file(f, found_grle, found_pdf, found_png, found_txt);
            found_grle = g;
            found_pdf = d;
            found_png = n;
            found_txt = t;
            assert(counts_now(*self, found_grle, found_pdf, found_png, found_txt) == count_step(before, list@[i as int]));
            i = i + 1;
        }
        assert(list@.subrange(0, list@.len() as int) =~= list@);
    }
}

} // verus!

verus! {

// MARK: scripts

/// Does this LUA file of the mod delete files or folders?
pub open spec fn lua_deletes(f: AbstractFile, d: FileDefinition) -> bool {
    d.extension@ == "lua"@ && match spec_text(f, d.path@) {
        Ok(t) => contains_seq(t, ".deleteFolder"@) || contains_seq(t, ".deleteFile"@),
        Err(_) => false,
    }
}

/// Does one of the listed LUA files delete files or folders?
pub open spec fn any_lua_deletes(f: AbstractFile, files: Seq<FileDefinition>) -> bool {
    exists|i: int| 0 <= i < files.len() && lua_deletes(f, #[trigger] files[i])
}

impl Record {
    /// Check for malicious LUA files
    pub fn check_lua(&mut self, file: &AbstractFile)
        ensures
            final(self).flags() == if !is_known_safe(old(self).file.short_name@) && any_lua_deletes(*file, spec_list(*file)) {
                warn_f(old(self).flags(), ModError::InfoDangerousFile)
            } else {
                old(self).flags()
            },
            final(self).file == old(self).file,
            final(self).mod_desc == old(self).mod_desc,
            final(self).badge_array == old(self).badge_array,
            final(self).l10n == old(self).l10n,
            final(self).ident == old(self).ident,
            final(self).file.full_path == old(self).file.full_path,
            final(self).file.age_hash == old(self).file.age_hash,
            final(self).map22 == old(self).map22,
            final(self).include_save_game == old(self).include_save_game,
    {
        if is_not_malware(self.file.short_name.as_str()) {
            return;
        }
        let list = file.list();
        let mut i: usize = 0;
        while i < list.len()
            invariant
                i <= list@.len(),
                list@ == spec_list(*file),
                forall|j: int| 0 <= j < i ==> !lua_deletes(*file, #[trigger] list@[j]),
                !is_known_safe(old(self).file.short_name@),
                self.flags() == old(self).flags(),
                self.file == old(self).file,
                self.mod_desc == old(self).mod_desc,
                self.badge_array == old(self).badge_array,
                self.l10n == old(self).l10n,
                self.map22 == old(self).map22,
                self.include_save_game == old(self).include_save_game,
                self.ident == old(self).ident,
                self.file.full_path == old(self).file.full_path,
                self.file.age_hash == old(self).file.age_hash,
            decreases list.len() - i,
        {
            if str_eq(list[i].extension.as_str(), "lua") {
                if let Ok(content) = file.text(list[i].path.as_str()) {
                    if str_contains(content.as_str(), ".deleteFolder") || str_contains(content.as_str(), ".deleteFile") {
                        assert(lua_deletes(*file, list@[i as int]));
                        self.warn(ModError::InfoDangerousFile);
                        return;
                    }
                }
            }
            assert(!lua_deletes(*file, list@[i as int]));
            i = i + 1;
        }
    }
}

// MARK: badges

/// Which list of issues a badge stands for.
#[derive(Debug, Clone, Copy, PartialEq, Eq, Structural)]
pub enum IssueKind {
    /// not a mod
    NotMod,
    /// broken
    Broken,
    /// should be fixed
    Problem,
    /// costs performance
    Performance,
}

/// Is issue `e` of kind `k`?
pub open spec fn kind_has(k: IssueKind, e: ModError) -> bool {
    match k {
        IssueKind::NotMod => is_not_mod_issue(e),
        IssueKind::Broken => is_broken_issue(e),
        IssueKind::Problem => is_problem_issue(e),
        IssueKind::Performance => is_performance_issue(e),
    }
}

/// Does the list hold an issue of kind `k`?
pub open spec fn has_kind(iss: Seq<ModError>, k: IssueKind) -> bool {
    exists|i: int| 0 <= i < iss.len() && kind_has(k, #[trigger] iss[i])
}

/// A badge where `b` holds.
pub open spec fn badge_if(b: bool, x: Badges) -> Seq<Badges> {
    if b { seq![x] } else { Seq::empty() }
}

/// The badge of a game version.
pub open spec fn version_badge(v: nat) -> Badges {
    if v == 11 { Badges::Fs11 } else if v == 13 { Badges::Fs13 } else if v == 15 { Badges::Fs15 }
    else if v == 17 { Badges::Fs17 } else if v == 19 { Badges::Fs19 } else if v == 22 { Badges::Fs22 }
    else if v == 25 { Badges::Fs25 } else { Badges::FsUnknown }
}

/// The status badges: not a mod (and a save game), broken, or what a
/// working mod has.
pub open spec fn status_badges(iss: Seq<ModError>, is_folder: bool, d: crate::mod_desc::DescView) -> Seq<Badges> {
    if has_kind(iss, IssueKind::NotMod) {
        seq![Badges::NotMod] + badge_if(iss.contains(ModError::FileErrorLikelySaveGame), Badges::SaveGame)
    } else if has_kind(iss, IssueKind::Broken) {
        seq![Badges::Broken]
    } else {
        badge_if(has_kind(iss, IssueKind::Problem), Badges::Problem)
            + badge_if(has_kind(iss, IssueKind::Performance), Badges::Performance)
            + badge_if(is_folder || !d.multiplayer, Badges::NoMp)
            + badge_if(d.script_files, Badges::PcOnly)
            + badge_if(d.map_config_filename is Some, Badges::IsMap)
            + badge_if(d.action_binding.len() > 0, Badges::Keys)
            + badge_if(d.dependencies.len() > 0, Badges::Depend)
    }
}

/// The badges of a record: status, malware, game version.
pub open spec fn spec_badges(iss: Seq<ModError>, is_folder: bool, d: crate::mod_desc::DescView) -> Seq<Badges> {
    status_badges(iss, is_folder, d)
        + badge_if(iss.contains(ModError::InfoMaliciousCode) || iss.contains(ModError::InfoDangerousFile), Badges::Malware)
        + seq![version_badge(d.game_version)]
}

/// The one badge of `badge_if` is there exactly when its condition holds.
proof fn lemma_badge_if(b: bool, x: Badges, y: Badges)
    ensures
        badge_if(b, x).contains(y) <==> (b && x == y),
{
    if b {
        assert(badge_if(b, x)[0] == x);
    }
}

/// A badge list ends with the badge of the game version. It holds the
/// malware badge exactly when malicious code or a dangerous file was found,
/// "not a mod" exactly when an issue says the file is no mod, and "broken"
/// exactly when an issue says the mod is broken and none says it is no mod.
pub proof fn law_badges(iss: Seq<ModError>, is_folder: bool, d: crate::mod_desc::DescView)
    ensures
        spec_badges(iss, is_folder, d).len() > 0,
        spec_badges(iss, is_folder, d).last() == version_badge(d.game_version),
        spec_badges(iss, is_folder, d).contains(Badges::Malware)
            <==> (iss.contains(ModError::InfoMaliciousCode) || iss.contains(ModError::InfoDangerousFile)),
        spec_badges(iss, is_folder, d).contains(Badges::NotMod) <==> has_kind(iss, IssueKind::NotMod),
        spec_badges(iss, is_folder, d).contains(Badges::Broken)
            <==> (!has_kind(iss, IssueKind::NotMod) && has_kind(iss, IssueKind::Broken)),
{
    broadcast use vstd::seq_lib::lemma_seq_concat_contains_all_elements;
    let mal = iss.contains(ModError::InfoMaliciousCode) || iss.contains(ModError::InfoDangerousFile);
    let save = iss.contains(ModError::FileErrorLikelySaveGame);
    let problem = has_kind(iss, IssueKind::Problem);
    let perf = has_kind(iss, IssueKind::Performance);
    let nomp = is_folder || !d.multiplayer;
    let map = d.map_config_filename is Some;
    let keys = d.action_binding.len() > 0;
    let dep = d.dependencies.len() > 0;
    let v = seq![version_badge(d.game_version)];
    assert(v.contains(version_badge(d.game_version)) && v[0] == version_badge(d.game_version));
    assert forall|x: Badges| #[trigger] v.contains(x) <==> x == version_badge(d.game_version) by {
        if v.contains(x) {
            let k = choose|k: int| 0 <= k < v.len() && v[k] == x;
        }
    }
    assert(seq![Badges::NotMod].contains(Badges::NotMod) && seq![Badges::NotMod][0] == Badges::NotMod);
    assert(seq![Badges::Broken].contains(Badges::Broken) && seq![Badges::Broken][0] == Badges::Broken);
    assert forall|x: Badges| #[trigger] seq![Badges::NotMod].contains(x) <==> x == Badges::NotMod by {
        if seq![Badges::NotMod].contains(x) {
            let k = choose|k: int| 0 <= k < 1 && seq![Badges::NotMod][k] == x;
        }
    }
    assert forall|x: Badges| #[trigger] seq![Badges::Broken].contains(x) <==> x == Badges::Broken by {
        if seq![Badges::Broken].contains(x) {
            let k = choose|k: int| 0 <= k < 1 && seq![Badges::Broken][k] == x;
        }
    }
    assert forall|x: Badges| #[trigger] badge_if(save, Badges::SaveGame).contains(x) <==> (save && x == Badges::SaveGame) by {
        lemma_badge_if(save, Badges::SaveGame, x);
    }
    assert forall|x: Badges| #[trigger] badge_if(mal, Badges::Malware).contains(x) <==> (mal && x == Badges::Malware) by {
        lemma_badge_if(mal, Badges::Malware, x);
    }
    assert forall|x: Badges| #[trigger] badge_if(problem, Badges::Problem).contains(x) <==> (problem && x == Badges::Problem) by {
        lemma_badge_if(problem, Badges::Problem, x);
    }
    assert forall|x: Badges| #[trigger] badge_if(perf, Badges::Performance).contains(x) <==> (perf && x == Badges::Performance) by {
        lemma_badge_if(perf, Badges::Performance, x);
    }
    assert forall|x: Badges| #[trigger] badge_if(nomp, Badges::NoMp).contains(x) <==> (nomp && x == Badges::NoMp) by {
        lemma_badge_if(nomp, Badges::NoMp, x);
    }
    assert forall|x: Badges| #[trigger] badge_if(d.script_files, Badges::PcOnly).contains(x) <==> (d.script_files && x == Badges::PcOnly) by {
        lemma_badge_if(d.script_files, Badges::PcOnly, x);
    }
    assert forall|x: Badges| #[trigger] badge_if(map, Badges::IsMap).contains(x) <==> (map && x == Badges::IsMap) by {
        lemma_badge_if(map, Badges::IsMap, x);
    }
    assert forall|x: Badges| #[trigger] badge_if(keys, Badges::Keys).contains(x) <==> (keys && x == Badges::Keys) by {
        lemma_badge_if(keys, Badges::Keys, x);
    }
    assert forall|x: Badges| #[trigger] badge_if(dep, Badges::Depend).contains(x) <==> (dep && x == Badges::Depend) by {
        lemma_badge_if(dep, Badges::Depend, x);
    }
}

/// Does the list hold an issue of kind `k`?
fn any_of(issues: &IssueSet, k: IssueKind) -> (r: bool)
    ensures
        r == has_kind(issues.items@, k),
{
    let mut i: usize = 0;
    while i < issues.items.len()
        invariant
            i <= issues.items@.len(),
            forall|j: int| 0 <= j < i ==> !kind_has(k, #[trigger] issues.items@[j]),
        decreases issues.items.len() - i,
    {
        let e = issues.items[i];
        let hit = match k {
            IssueKind::NotMod => e.is_not_mod(),
            IssueKind::Broken => e.is_broken(),
            IssueKind::Problem => e.is_problem(),
            IssueKind::Performance => e.is_performance(),
        };
        if hit {
            assert(kind_has(k, issues.items@[i as int]));
            return true;
        }
        i = i + 1;
    }
    false
}

/// The badges of a mod that is neither broken nor not a mod.
fn working_badges(issues: &IssueSet, no_mp: bool, pc_only: bool, map: bool, keys: bool, depend: bool) -> (r: Vec<Badges>)
    ensures
        r@ == badge_if(has_kind(issues.items@, IssueKind::Problem), Badges::Problem)
            + badge_if(has_kind(issues.items@, IssueKind::Performance), Badges::Performance)
            + badge_if(no_mp, Badges::NoMp) + badge_if(pc_only, Badges::PcOnly) + badge_if(map, Badges::IsMap)
            + badge_if(keys, Badges::Keys) + badge_if(depend, Badges::Depend),
{
    let mut r: Vec<Badges> = Vec::new();
    let problem = any_of(issues, IssueKind::Problem);
    let perf = any_of(issues, IssueKind::Performance);
    if problem { r.push(Badges::Problem); }
    let ghost r1 = r@;
    if perf { r.push(Badges::Performance); }
    let ghost r2 = r@;
    if no_mp { r.push(Badges::NoMp); }
    let ghost r3 = r@;
    if pc_only { r.push(Badges::PcOnly); }
    let ghost r4 = r@;
    if map { r.push(Badges::IsMap); }
    let ghost r5 = r@;
    if keys { r.push(Badges::Keys); }
    let ghost r6 = r@;
    if depend { r.push(Badges::Depend); }
    assert(r1 =~= badge_if(problem, Badges::Problem));
    assert(r2 =~= r1 + badge_if(perf, Badges::Performance));
    assert(r3 =~= r2 + badge_if(no_mp, Badges::NoMp));
    assert(r4 =~= r3 + badge_if(pc_only, Badges::PcOnly));
    assert(r5 =~= r4 + badge_if(map, Badges::IsMap));
    assert(r6 =~= r5 + badge_if(keys, Badges::Keys));
    assert(r@ =~= r6 + badge_if(depend, Badges::Depend));
    r
}

impl Record {
    /// Add a badge.
    fn badge(&mut self, b: Badges)
        ensures
            final(self).badge_array@ == old(self).badge_array@.push(b),
            final(self).flags() == old(self).flags(),
            final(self).file == old(self).file,
            final(self).mod_desc == old(self).mod_desc,
            final(self).l10n == old(self).l10n,
            final(self).map22 == old(self).map22,
            final(self).include_save_game == old(self).include_save_game,
            final(self).ident == old(self).ident,
            final(self).file.full_path == old(self).file.full_path,
            final(self).file.age_hash == old(self).file.age_hash,
    {
        self.badge_array.push(b);
    }

    /// The status badges.
    fn status_badges(&mut self)
        ensures
            final(self).badge_array@ == old(self).badge_array@
                + status_badges(old(self).issues.items@, old(self).file.is_folder, old(self).mod_desc@),
            final(self).flags() == old(self).flags(),
            final(self).file == old(self).file,
            final(self).mod_desc == old(self).mod_desc,
    {
        let ghost b0 = self.badge_array@;
        let ghost iss = self.issues.items@;
        if any_of(&self.issues, IssueKind::NotMod) {
            self.badge(Badges::NotMod);
            if self.issues.contains(ModError::FileErrorLikelySaveGame) {
                self.badge(Badges::SaveGame);
            }
        } else if any_of(&self.issues, IssueKind::Broken) {
            self.badge(Badges::Broken);
        } else {
            let mut w = working_badges(&self.issues, self.file.is_folder || !self.mod_desc.multiplayer,
                self.mod_desc.script_files, self.mod_desc.map_config_filename.is_some(),
                self.mod_desc.action_binding.len() > 0, self.mod_desc.dependencies.0.len() > 0);
            self.badge_array.append(&mut w);
        }
        assert(self.badge_array@ =~= b0 + status_badges(iss, self.file.is_folder, self.mod_desc@));
    }

    /// Update the badge list
    pub fn update_badges(&mut self)
        ensures
            final(self).badge_array@ == old(self).badge_array@
                + spec_badges(old(self).issues.items@, old(self).file.is_folder, old(self).mod_desc@),
            final(self).flags() == old(self).flags(),
            final(self).file == old(self).file,
            final(self).mod_desc == old(self).mod_desc,
    {
        let ghost b0 = self.badge_array@;
        self.status_badges();
        let ghost b1 = self.badge_array@;
        if self.issues.contains(ModError::InfoMaliciousCode) || self.issues.contains(ModError::InfoDangerousFile) {
            self.badge(Badges::Malware);
        }
        let ghost b2 = self.badge_array@;
        let v = self.mod_desc.game_version;
        let b = if v == 11 { Badges::Fs11 } else if v == 13 { Badges::Fs13 } else if v == 15 { Badges::Fs15 }
            else if v == 17 { Badges::Fs17 } else if v == 19 { Badges::Fs19 } else if v == 22 { Badges::Fs22 }
            else if v == 25 { Badges::Fs25 } else { Badges::FsUnknown };
        self.badge(b);
        assert(self.badge_array@ =~= b0 + spec_badges(old(self).issues.items@, old(self).file.is_folder, old(self).mod_desc@));
    }
}

} // verus!

verus! {

// MARK: usability

/// Issues raised by failing the mod.
pub open spec fn is_fail_issue(e: ModError) -> bool {
    match e {
        ModError::FileErrorUnsupportedArchive | ModError::FileErrorNameInvalid | ModError::FileErrorGarbageFile
        | ModError::FileErrorNameStartsDigit | ModError::FileErrorUnreadableZip | ModError::FileErrorUnreadable
        | ModError::FileErrorLikelySaveGame | ModError::FileErrorLikelyZipPack | ModError::ModDescParseError
        | ModError::ModDescMissing | ModError::InfoDangerousFile => true,
        _ => false,
    }
}

/// Issues only ever raised by failing the mod. (A likely zip pack is also
/// a warning where the name says "unzip", a dangerous file also a warning
/// where a script deletes files.)
pub open spec fn is_always_fail(e: ModError) -> bool {
    is_fail_issue(e) && e != ModError::FileErrorLikelyZipPack && e != ModError::InfoDangerousFile
}

/// Each issue once; unusable only with a failing issue; always unusable
/// with an issue only raised by failing.
pub open spec fn flags_ok(f: Flags) -> bool {
    &&& no_dups(f.issues)
    &&& f.can_not_use ==> exists|i: int| 0 <= i < f.issues.len() && is_fail_issue(#[trigger] f.issues[i])
    &&& forall|i: int| 0 <= i < f.issues.len() && is_always_fail(#[trigger] f.issues[i]) ==> f.can_not_use
}

/// Nothing raised yet.
pub open spec fn no_flags() -> Flags {
    Flags { issues: Seq::empty(), can_not_use: false }
}

proof fn lemma_insert_no_dups(s: Seq<ModError>, x: ModError)
    requires
        no_dups(s),
    ensures
        no_dups(set_insert(s, x)),
        forall|y: ModError| set_insert(s, x).contains(y) <==> (s.contains(y) || y == x),
{
    if !s.contains(x) {
        let t = s.push(x);
        assert forall|i: int, j: int| 0 <= i < t.len() && 0 <= j < t.len() && i != j implies t[i] != t[j] by {
            if i < s.len() && j < s.len() {
            } else if i == s.len() {
                assert(s.contains(t[j]));
            } else {
                assert(s.contains(t[i]));
            }
        }
        assert forall|y: ModError| t.contains(y) <==> (s.contains(y) || y == x) by {
            if t.contains(y) && y != x {
                let k = choose|k: int| 0 <= k < t.len() && t[k] == y;
                assert(s[k] == y);
            }
            if s.contains(y) {
                let k = choose|k: int| 0 <= k < s.len() && s[k] == y;
                assert(t[k] == y);
            }
            if y == x { assert(t[s.len() as int] == x); }
        }
    }
}

/// A warning leaves the mod as usable as it was; a failure makes it
/// unusable for good. Either records its issue, keeps those already
/// recorded, and records nothing twice: raising the same issue again
/// changes nothing.
pub proof fn law_raise(f: Flags, e: ModError, x: ModError)
    requires
        no_dups(f.issues),
    ensures
        warn_f(f, e).can_not_use == f.can_not_use,
        fail_f(f, e).can_not_use,
        warn_f(fail_f(f, e), x).can_not_use,
        warn_f(f, e).issues.contains(x) <==> (f.issues.contains(x) || x == e),
        fail_f(f, e).issues.contains(x) <==> (f.issues.contains(x) || x == e),
        no_dups(warn_f(f, e).issues),
        warn_f(warn_f(f, e), e) == warn_f(f, e),
        fail_f(fail_f(f, e), e) == fail_f(f, e),
{
    lemma_insert_no_dups(f.issues, e);
    assert(set_insert(f.issues, e).contains(e));
}

/// A warning that is not only raised by failing keeps the flags sound.
pub proof fn lemma_warn_ok(f: Flags, e: ModError)
    requires
        flags_ok(f),
        !is_always_fail(e),
    ensures
        flags_ok(warn_f(f, e)),
{
    lemma_insert_no_dups(f.issues, e);
    let g = warn_f(f, e);
    if f.can_not_use {
        let i = choose|i: int| 0 <= i < f.issues.len() && is_fail_issue(#[trigger] f.issues[i]);
        assert(f.issues.contains(f.issues[i]));
        assert(g.issues.contains(f.issues[i]));
        let k = choose|k: int| 0 <= k < g.issues.len() && g.issues[k] == f.issues[i];
        assert(is_fail_issue(g.issues[k]));
    }
    assert forall|i: int| 0 <= i < g.issues.len() && is_always_fail(#[trigger] g.issues[i]) implies g.can_not_use by {
        assert(g.issues.contains(g.issues[i]));
        assert(f.issues.contains(g.issues[i]));
        let k = choose|k: int| 0 <= k < f.issues.len() && f.issues[k] == g.issues[i];
        assert(is_always_fail(f.issues[k]));
    }
}

/// Failing with a failing issue keeps the flags sound.
pub proof fn lemma_fail_ok(f: Flags, e: ModError)
    requires
        flags_ok(f),
        is_fail_issue(e),
    ensures
        flags_ok(fail_f(f, e)),
{
    lemma_insert_no_dups(f.issues, e);
    let g = fail_f(f, e);
    assert(g.issues.contains(e));
    let k = choose|k: int| 0 <= k < g.issues.len() && g.issues[k] == e;
    assert(is_fail_issue(g.issues[k]));
}

/// The name checks keep the flags sound.
pub proof fn lemma_name_issues_ok(f: Flags, is_folder: bool, full_path: Seq<char>, short: Seq<char>)
    requires
        flags_ok(f),
    ensures
        flags_ok(name_issues(f, is_folder, full_path, short)),
{
    lemma_fail_ok(f, ModError::FileErrorUnsupportedArchive);
    lemma_fail_ok(fail_f(f, ModError::FileErrorUnsupportedArchive), ModError::FileErrorNameInvalid);
    lemma_fail_ok(f, ModError::FileErrorGarbageFile);
    lemma_fail_ok(fail_f(f, ModError::FileErrorGarbageFile), ModError::FileErrorNameInvalid);
    let f1 = extension_issues(f, is_folder, full_path);
    lemma_warn_ok(f1, ModError::FileErrorLikelyZipPack);
    let f2 = if contains_seq(lower_seq(short), "unzip"@) { warn_f(f1, ModError::FileErrorLikelyZipPack) } else { f1 };
    lemma_fail_ok(f2, ModError::FileErrorNameStartsDigit);
    lemma_fail_ok(fail_f(f2, ModError::FileErrorNameStartsDigit), ModError::FileErrorNameInvalid);
    let f3 = if short.len() > 0 && is_digit(short[0]) {
        fail_f(fail_f(f2, ModError::FileErrorNameStartsDigit), ModError::FileErrorNameInvalid)
    } else {
        f2
    };
    lemma_warn_ok(f3, ModError::FileErrorLikelyCopy);
    let f4 = if copy_name_of(short) is Some { warn_f(f3, ModError::FileErrorLikelyCopy) } else { f3 };
    lemma_fail_ok(f4, ModError::FileErrorNameInvalid);
}

/// Counting files keeps the flags sound.
pub proof fn lemma_counts_ok(c: Counts, files: Seq<FileDefinition>)
    requires
        flags_ok(c.flags),
    ensures
        flags_ok(counts_over(c, files).flags),
    decreases files.len(),
{
    if files.len() > 0 {
        lemma_counts_ok(c, files.drop_last());
        let b = counts_over(c, files.drop_last());
        let f = files.last();
        let g0 = b.flags;
        lemma_warn_ok(g0, ModError::PerformanceFileSpaces);
        let c1 = if f.path@.contains(' ') {
            Counts { flags: warn_f(b.flags, ModError::PerformanceFileSpaces), space_files: b.space_files.push(f.path@), ..b }
        } else {
            b
        };
        lemma_warn_ok(c1.flags, ModError::PerformanceOversizeI3D);
        lemma_warn_ok(c1.flags, ModError::PerformanceOversizeDDS);
        lemma_warn_ok(c1.flags, ModError::PerformanceOversizeGDM);
        lemma_warn_ok(c1.flags, ModError::PerformanceOversizeSHAPES);
        lemma_warn_ok(c1.flags, ModError::PerformanceOversizeXML);
        let k = count_kind(c1, f);
        let q1 = if k.grle > MAX_GRLE { warn_f(k.flags, ModError::PerformanceQuantityGRLE) } else { k.flags };
        lemma_warn_ok(k.flags, ModError::PerformanceQuantityGRLE);
        let q2 = if k.pdf > MAX_PDF { warn_f(q1, ModError::PerformanceQuantityPDF) } else { q1 };
        lemma_warn_ok(q1, ModError::PerformanceQuantityPDF);
        let q3 = if k.png > MAX_PNG { warn_f(q2, ModError::PerformanceQuantityPNG) } else { q2 };
        lemma_warn_ok(q2, ModError::PerformanceQuantityPNG);
        lemma_warn_ok(q3, ModError::PerformanceQuantityTXT);
        let e = f.extension@;
        let u1 = if e == "dat"@ || e == "l64"@ { warn_f(b.flags, ModError::InfoLikelyPiracy) } else { b.flags };
        lemma_warn_ok(b.flags, ModError::InfoLikelyPiracy);
        let u2 = if e == "exe"@ || e == "bat"@ || e == "ps1"@ { fail_f(u1, ModError::InfoDangerousFile) } else { u1 };
        lemma_fail_ok(u1, ModError::InfoDangerousFile);
        lemma_warn_ok(u2, ModError::PerformanceQuantityExtra);
    }
}

} // verus!

verus! {

// MARK: modDesc issues and l10n

/// The issues a modDesc.xml's warnings raise, in order.
pub open spec fn warnings_issues(f: Flags, ws: Seq<WarningView>) -> Flags
    decreases ws.len(),
{
    if ws.len() == 0 {
        f
    } else {
        let g = warnings_issues(f, ws.drop_last());
        match ws.last() {
            WarningView::L10nMalformed | WarningView::L10nInvalidLanguage(_, _) | WarningView::ShouldBeL10n(_) =>
                warn_f(g, ModError::PerformanceMissingL10n),
            WarningView::MaybePiracy => warn_f(g, ModError::InfoLikelyPiracy),
            _ => g,
        }
    }
}

/// The issues a read modDesc.xml raises: old or missing descVersion, no
/// version, no icon, then its warnings.
pub open spec fn desc_issues(f: Flags, d: crate::mod_desc::DescView) -> Flags {
    let f1 = if d.desc_version == 0 { warn_f(f, ModError::ModDescVersionOldOrMissing) } else { f };
    let f2 = if d.version is None { warn_f(f1, ModError::ModDescNoModVersion) } else { f1 };
    let f3 = if d.icon_filename is None { warn_f(f2, ModError::ModDescNoModIcon) } else { f2 };
    warnings_issues(f3, d.warnings)
}

/// The issues the scripts raise.
pub open spec fn lua_issues(f: Flags, short: Seq<char>, file: AbstractFile) -> Flags {
    if !is_known_safe(short) && any_lua_deletes(file, spec_list(file)) {
        warn_f(f, ModError::InfoDangerousFile)
    } else {
        f
    }
}

/// The warnings of modDesc.xml keep the flags sound.
pub proof fn lemma_warnings_ok(f: Flags, ws: Seq<WarningView>)
    requires
        flags_ok(f),
    ensures
        flags_ok(warnings_issues(f, ws)),
    decreases ws.len(),
{
    if ws.len() > 0 {
        lemma_warnings_ok(f, ws.drop_last());
        let g = warnings_issues(f, ws.drop_last());
        lemma_warn_ok(g, ModError::PerformanceMissingL10n);
        lemma_warn_ok(g, ModError::InfoLikelyPiracy);
    }
}

/// The texts of one local l10n entry moved to the l10n data: language to
/// text key to text.
pub open spec fn merge_text(
    l: Seq<(Seq<char>, Seq<(Seq<char>, Seq<char>)>)>,
    key: Seq<char>,
    langs: Seq<(Seq<char>, Seq<char>)>,
) -> Seq<(Seq<char>, Seq<(Seq<char>, Seq<char>)>)>
    decreases langs.len(),
{
    if langs.len() == 0 {
        l
    } else {
        let before = merge_text(l, key, langs.drop_last());
        let (lang, v) = langs.last();
        let inner = match crate::collections::lookup(before, lang) { Some(m) => m, None => Seq::empty() };
        crate::collections::map_insert(before, lang, crate::collections::map_insert(inner, key, v))
    }
}

/// All local l10n entries of modDesc.xml moved to the l10n data.
pub open spec fn merge_local(
    l: Seq<(Seq<char>, Seq<(Seq<char>, Seq<char>)>)>,
    local: Seq<(Seq<char>, Seq<(Seq<char>, Seq<char>)>)>,
) -> Seq<(Seq<char>, Seq<(Seq<char>, Seq<char>)>)>
    decreases local.len(),
{
    if local.len() == 0 {
        l
    } else {
        merge_text(merge_local(l, local.drop_last()), local.last().0, local.last().1)
    }
}

impl Record {
    /// Raise the issues of a read modDesc.xml.
    fn desc_issues(&mut self)
        ensures
            final(self).flags() == desc_issues(old(self).flags(), old(self).mod_desc@),
            final(self).file == old(self).file,
            final(self).mod_desc == old(self).mod_desc,
            final(self).badge_array == old(self).badge_array,
            final(self).l10n == old(self).l10n,
            final(self).ident == old(self).ident,
            final(self).file.full_path == old(self).file.full_path,
            final(self).file.age_hash == old(self).file.age_hash,
            final(self).map22 == old(self).map22,
            final(self).include_save_game == old(self).include_save_game,
    {
        if self.mod_desc.desc_version == 0 {
            self.warn(ModError::ModDescVersionOldOrMissing);
        }
        if self.mod_desc.version.is_none() {
            self.warn(ModError::ModDescNoModVersion);
        }
        if self.mod_desc.icon_filename.is_none() {
            self.warn(ModError::ModDescNoModIcon);
        }
        let ghost f3 = self.flags();
        let mut i: usize = 0;
        while i < self.mod_desc.warnings.items.len()
            invariant
                i <= self.mod_desc.warnings@.len(),
                self.mod_desc.warnings@.len() == self.mod_desc.warnings.items@.len(),
                self.flags() == warnings_issues(f3, self.mod_desc.warnings@.subrange(0, i as int)),
                self.file == old(self).file,
                self.mod_desc == old(self).mod_desc,
                self.badge_array == old(self).badge_array,
                self.l10n == old(self).l10n,
                self.map22 == old(self).map22,
                self.include_save_game == old(self).include_save_game,
                self.ident == old(self).ident,
                self.file.full_path == old(self).file.full_path,
                self.file.age_hash == old(self).file.age_hash,
            decreases self.mod_desc.warnings.items.len() - i,
        {
            assert(self.mod_desc.warnings@.subrange(0, i + 1).drop_last() =~= self.mod_desc.warnings@.subrange(0, i as int));
            match &self.mod_desc.warnings.items[i] {
                ModDescWarnings::L10nMalformed() | ModDescWarnings::L10nInvalidLanguage(_, _) | ModDescWarnings::ShouldBeL10n(_) => {
                    self.warn(ModError::PerformanceMissingL10n);
                },
                ModDescWarnings::MaybePiracy() => {
                    self.warn(ModError::InfoLikelyPiracy);
                },
                _ => {},
            }
            i = i + 1;
        }
        assert(self.mod_desc.warnings@.subrange(0, self.mod_desc.warnings@.len() as int) =~= self.mod_desc.warnings@);
    }

    /// Move the local l10n entries of modDesc.xml to the l10n data, leaving none behind.
    pub fn merge_l10n_local(&mut self)
        ensures
            final(self).l10n@ == merge_local(old(self).l10n@, old(self).mod_desc.l10n_local@),
            final(self).mod_desc@ == (crate::mod_desc::DescView { l10n_local: Seq::empty(), ..old(self).mod_desc@ }),
            final(self).flags() == old(self).flags(),
            final(self).file == old(self).file,
            final(self).badge_array == old(self).badge_array,
            final(self).ident == old(self).ident,
            final(self).map22 == old(self).map22,
            final(self).include_save_game == old(self).include_save_game,
    {
        let mut local: crate::collections::StrMap<crate::collections::StrMap<String>> = crate::collections::StrMap::new();
        std::mem::swap(&mut local, &mut self.mod_desc.l10n_local);
        assert(self.mod_desc.l10n_local@ =~= Seq::<(Seq<char>, Seq<(Seq<char>, Seq<char>)>)>::empty());
        assert(self.mod_desc@ =~= (crate::mod_desc::DescView { l10n_local: Seq::empty(), ..old(self).mod_desc@ }));
        let mut i: usize = 0;
        while i < local.entries.len()
            invariant
                i <= local@.len(),
                local@.len() == local.entries@.len(),
                self.l10n@ == merge_local(old(self).l10n@, local@.subrange(0, i as int)),
                local@ == old(self).mod_desc.l10n_local@,
                self.mod_desc@ == (crate::mod_desc::DescView { l10n_local: Seq::empty(), ..old(self).mod_desc@ }),
                self.flags() == old(self).flags(),
                self.file == old(self).file,
                self.badge_array == old(self).badge_array,
                self.ident == old(self).ident,
                self.map22 == old(self).map22,
                self.include_save_game == old(self).include_save_game,
            decreases local.entries.len() - i,
        {
            let key = &local.entries[i].0;
            let langs = &local.entries[i].1;
            assert(local@.subrange(0, i + 1).drop_last() =~= local@.subrange(0, i as int));
            let ghost start = self.l10n@;
            let mut j: usize = 0;
            while j < langs.entries.len()
                invariant
                    j <= langs@.len(),
                    langs@.len() == langs.entries@.len(),
                    self.l10n@ == merge_text(start, key@, langs@.subrange(0, j as int)),
                    self.mod_desc@ == (crate::mod_desc::DescView { l10n_local: Seq::empty(), ..old(self).mod_desc@ }),
                    self.flags() == old(self).flags(),
                    self.file == old(self).file,
                    self.badge_array == old(self).badge_array,
                    self.ident == old(self).ident,
                    self.map22 == old(self).map22,
                    self.include_save_game == old(self).include_save_game,
                decreases langs.entries.len() - j,
            {
                assert(langs@.subrange(0, j + 1).drop_last() =~= langs@.subrange(0, j as int));
                crate::mod_desc::put_local(&mut self.l10n.0, &langs.entries[j].0, key.clone(), langs.entries[j].1.clone());
                j = j + 1;
            }
            assert(langs@.subrange(0, langs@.len() as int) =~= langs@);
            assert(local@[i as int] == (key@, langs@));
            i = i + 1;
        }
        assert(local@.subrange(0, local@.len() as int) =~= local@);
    }

    /// Take the mod icon the program converted (`None` where that failed):
    /// where modDesc.xml names an icon, its data is kept, and a failure is
    /// an issue.
    pub fn note_mod_icon(&mut self, data: Option<String>)
        ensures
            old(self).mod_desc.icon_filename is Some ==> {
                &&& final(self).mod_desc@ == (crate::mod_desc::DescView { icon_data: opt_chars(data), ..old(self).mod_desc@ })
                &&& final(self).flags() == if data is None { warn_f(old(self).flags(), ModError::ModDescNoModIcon) } else { old(self).flags() }
            },
            old(self).mod_desc.icon_filename is None ==> final(self).mod_desc == old(self).mod_desc && final(self).flags() == old(self).flags(),
            final(self).file == old(self).file,
            final(self).badge_array == old(self).badge_array,
    {
        if self.mod_desc.icon_filename.is_some() {
            let failed = data.is_none();
            self.mod_desc.icon_data = data;
            if failed {
                self.warn(ModError::ModDescNoModIcon);
            }
        }
    }
}

} // verus!

verus! {

// MARK: reading a mod

/// The file errors that mean modDesc.xml is there but not readable XML.
pub open spec fn is_xml_error(e: AbstractFileError) -> bool {
    e == AbstractFileError::XmlParseError || e == AbstractFileError::XmlUndeclared || e == AbstractFileError::XmlWrongFileType
}

/// The issue of a mod that could not be opened.
pub open spec fn open_issue(e: AbstractFileError) -> ModError {
    if e == AbstractFileError::ZipReadError { ModError::FileErrorUnreadableZip } else { ModError::FileErrorUnreadable }
}

impl Record {
    /// The checks from opening the mod to reading its modDesc.xml: `false`
    /// where the record is complete (not a readable mod).
    fn open_checks(&mut self, file: &AbstractFile, file_date: Option<u64>, options: &ParseOptions) -> (go_on: bool)
        requires
            flags_ok(old(self).flags()),
        ensures
            flags_ok(final(self).flags()),
            final(self).file.short_name == old(self).file.short_name,
            final(self).file.is_folder == old(self).file.is_folder,
            final(self).file.lua_count == old(self).file.lua_count,
            final(self).badge_array == old(self).badge_array,
            match *file {
                AbstractFile::Null(e) => !go_on && final(self).flags() == fail_f(old(self).flags(), open_issue(e))
                    && final(self).mod_desc == old(self).mod_desc,
                _ => {
                    let f1 = if *file is Folder { warn_f(old(self).flags(), ModError::InfoNoMultiplayerUnzipped) } else { old(self).flags() };
                    &&& final(self).file.file_size == spec_defs(*file).unwrap().size
                    &&& final(self).file.file_date == match file_date { Some(d) => d, None => old(self).file.file_date }
                    &&& if spec_in_list(*file, "careerSavegame.xml"@) {
                        &&& !go_on
                        &&& final(self).file.is_save_game
                        &&& final(self).flags() == fail_f(f1, ModError::FileErrorLikelySaveGame)
                        &&& (final(self).include_save_game is Some <==> options.0@.contains(ParseOption::IncludeSaveGame))
                    } else if !old(self).file.is_folder && pack_files(spec_list(*file)) is Some {
                        &&& !go_on
                        &&& final(self).file.is_mod_pack
                        &&& final(self).file.zip_files@.map_values(|p: ZipPackFile| zip_view(p)) == pack_files(spec_list(*file)).unwrap()
                        &&& final(self).flags() == fail_f(f1, ModError::FileErrorLikelyZipPack)
                    } else {
                        match spec_text(*file, "modDesc.xml"@) {
                            Err(e) => !go_on && final(self).flags() == fail_f(f1,
                                if is_xml_error(e) { ModError::ModDescParseError } else { ModError::ModDescMissing }),
                            Ok(_) => (go_on ==> final(self).flags() == f1 && final(self).file.lua_count == old(self).file.lua_count)
                                && (!go_on ==> final(self).flags() == fail_f(f1, ModError::ModDescParseError)),
                        }
                    }
                },
            },
            same_lists(final(self).file, old(self).file),
            final(self).l10n == old(self).l10n,
            final(self).ident == old(self).ident,
            final(self).file.full_path == old(self).file.full_path,
            final(self).file.age_hash == old(self).file.age_hash,
            final(self).map22 == old(self).map22,
            !go_on ==> final(self).mod_desc == old(self).mod_desc,
            go_on ==> crate::mod_desc::desc_read(final(self).mod_desc@),
            (*file is Null || !spec_in_list(*file, "careerSavegame.xml"@))
                ==> final(self).include_save_game == old(self).include_save_game,
    {
        match file {
            AbstractFile::Null(e) => {
                if *e == AbstractFileError::ZipReadError {
                    self.fail(ModError::FileErrorUnreadableZip);
                } else {
                    self.fail(ModError::FileErrorUnreadable);
                }
                proof { lemma_fail_ok(old(self).flags(), open_issue(*e)); }
                return false;
            },
            AbstractFile::Folder(_, _) => {
                self.warn(ModError::InfoNoMultiplayerUnzipped);
                proof { lemma_warn_ok(old(self).flags(), ModError::InfoNoMultiplayerUnzipped); }
            },
            AbstractFile::Zip(_, _) => {},
        }
        assert(!(*file is Null));
        let ghost f1 = self.flags();
        if let Some(d) = file_date {
            self.file.file_date = d;
        }
        self.file.file_size = file.size();
        if file.is_in_list("careerSavegame.xml") {
            self.file.is_save_game = true;
            self.fail(ModError::FileErrorLikelySaveGame);
            proof { lemma_fail_ok(f1, ModError::FileErrorLikelySaveGame); }
            if options.contains(ParseOption::IncludeSaveGame) {
                self.include_save_game = Some(crate::savegame::SaveGame::from_abstract(file));
            } else {
                self.include_save_game = None;
            }
            return false;
        }
        if !self.file.is_folder && self.check_mod_pack(file) {
            proof { lemma_fail_ok(f1, ModError::FileErrorLikelyZipPack); }
            return false;
        }
        match crate::mod_desc::DescXML::from_abstract_file(file) {
            Ok(mod_desc) => {
                self.mod_desc = mod_desc;
                true
            },
            Err(e) => {
                if e == AbstractFileError::XmlParseError || e == AbstractFileError::XmlUndeclared
                    || e == AbstractFileError::XmlWrongFileType {
                    self.fail(ModError::ModDescParseError);
                    proof { lemma_fail_ok(f1, ModError::ModDescParseError); }
                } else {
                    self.fail(ModError::ModDescMissing);
                    proof { lemma_fail_ok(f1, ModError::ModDescMissing); }
                }
                false
            },
        }
    }
}

} // verus!

verus! {

/// The issues of a read modDesc.xml keep the flags sound.
pub proof fn lemma_desc_issues_ok(f: Flags, d: crate::mod_desc::DescView)
    requires
        flags_ok(f),
    ensures
        flags_ok(desc_issues(f, d)),
{
    lemma_warn_ok(f, ModError::ModDescVersionOldOrMissing);
    let f1 = if d.desc_version == 0 { warn_f(f, ModError::ModDescVersionOldOrMissing) } else { f };
    lemma_warn_ok(f1, ModError::ModDescNoModVersion);
    let f2 = if d.version is None { warn_f(f1, ModError::ModDescNoModVersion) } else { f1 };
    lemma_warn_ok(f2, ModError::ModDescNoModIcon);
    let f3 = if d.icon_filename is None { warn_f(f2, ModError::ModDescNoModIcon) } else { f2 };
    lemma_warnings_ok(f3, d.warnings);
}

/// A record built from a readable mod whose modDesc.xml gives `d`: the
/// description without its local texts, the issues of its files, its
/// description and its scripts, the local texts merged into the
/// translations (over the l10n files, where those are asked for), and no
/// map unless one is asked for and named.
pub open spec fn read_record(r: Record, d: crate::mod_desc::DescView, f1: Flags, file: AbstractFile,
    short_name: Seq<char>, options: ParseOptions) -> bool {
    &&& r.mod_desc@ == (crate::mod_desc::DescView { l10n_local: Seq::empty(), ..d })
    &&& r.flags() == lua_issues(desc_issues(
            counts_over(Counts { flags: f1, space_files: Seq::empty(), lua_count: 0,
                image_non_dds: Seq::empty(), png_texture: Seq::empty(), too_big_files: Seq::empty(),
                image_dds: Seq::empty(), extra_files: Seq::empty(), grle: 0, pdf: 0, png: 0, txt: 0 },
                spec_list(file)).flags,
            r.mod_desc@),
            short_name, file)
    &&& if options.0@.contains(ParseOption::IncludeDetail) && d.l10n_file_prefix is Some {
            exists|l: Seq<(Seq<char>, Seq<(Seq<char>, Seq<char>)>)>| r.l10n@ == #[trigger] merge_local(l, d.l10n_local)
        } else {
            r.l10n@ == merge_local(Seq::empty(), d.l10n_local)
        }
    &&& !(options.0@.contains(ParseOption::IncludeMap) && d.game_version == 22 && d.map_config_filename is Some)
            ==> r.map22 is None
}

/// The flags once the mod is open: a folder can not be used in multiplayer.
pub open spec fn opened_flags(f: Flags, file: AbstractFile) -> Flags {
    if file is Folder { warn_f(f, ModError::InfoNoMultiplayerUnzipped) } else { f }
}

/// The short name of a mod: the file stem of its path, or nothing.
pub open spec fn short_name_of(full_path: Seq<char>) -> Seq<char> {
    match path_file_stem(full_path) { Some(s) => s, None => Seq::empty() }
}

impl Record {
    /// The checks of a readable mod: its files, its modDesc.xml, its scripts,
    /// its map, its l10n files.
    fn content_checks(&mut self, file: &AbstractFile, options: &ParseOptions)
        requires
            flags_ok(old(self).flags()),
            old(self).file.lua_count + spec_list(*file).len() <= u32::MAX,
        ensures
            flags_ok(final(self).flags()),
            final(self).flags() == lua_issues(
                desc_issues(counts_over(record_counts(*old(self)), spec_list(*file)).flags, old(self).mod_desc@),
                old(self).file.short_name@, *file),
            !(options.0@.contains(ParseOption::IncludeDetail) && old(self).mod_desc.l10n_file_prefix is Some)
                ==> final(self).l10n@ == merge_local(old(self).l10n@, old(self).mod_desc.l10n_local@),
            final(self).mod_desc@ == (crate::mod_desc::DescView { l10n_local: Seq::empty(), ..old(self).mod_desc@ }),
            final(self).file.short_name == old(self).file.short_name,
            final(self).file.is_folder == old(self).file.is_folder,
            final(self).file.is_save_game == old(self).file.is_save_game,
            final(self).file.is_mod_pack == old(self).file.is_mod_pack,
            final(self).badge_array == old(self).badge_array,
            final(self).ident == old(self).ident,
            final(self).file.full_path == old(self).file.full_path,
            final(self).file.age_hash == old(self).file.age_hash,
            final(self).file.file_size == old(self).file.file_size,
            final(self).file.file_date == old(self).file.file_date,
            (options.0@.contains(ParseOption::IncludeDetail) && old(self).mod_desc.l10n_file_prefix is Some)
                ==> exists|l: Seq<(Seq<char>, Seq<(Seq<char>, Seq<char>)>)>|
                    final(self).l10n@ == #[trigger] merge_local(l, old(self).mod_desc.l10n_local@),
            !(options.0@.contains(ParseOption::IncludeMap) && old(self).mod_desc.game_version == 22
                && old(self).mod_desc.map_config_filename is Some) ==> final(self).map22 == old(self).map22,
            final(self).include_save_game == old(self).include_save_game,
    {
        self.do_file_counts(file);
        proof {
            lemma_counts_ok(record_counts(*old(self)), spec_list(*file));
            lemma_desc_issues_ok(self.flags(), self.mod_desc@);
        }
        self.desc_issues();
        proof { lemma_warn_ok(self.flags(), ModError::InfoDangerousFile); }
        self.check_lua(file);
        if options.contains(ParseOption::IncludeMap) && self.mod_desc.game_version == 22 {
            if let Some(map_config) = &self.mod_desc.map_config_filename {
                self.map22 = crate::map22::Map22::from_abstract_file(file, map_config.as_str());
            }
        }
        if options.contains(ParseOption::IncludeDetail) {
            if let Some(folder) = &self.mod_desc.l10n_file_prefix {
                self.l10n = crate::l10n::L10n::from_abstract_folder(file, folder.as_str());
            }
        }
        let ghost before_merge = self.l10n@;
        self.merge_l10n_local();
        assert(self.l10n@ == merge_local(before_merge, old(self).mod_desc.l10n_local@));
    }

    /// Check a mod: its identity, whether its file or folder could be
    /// opened (`file`), its creation date where known, and the options.
    /// Images are left to the caller (see [`Record::note_mod_icon`]); the
    /// badges come with [`Record::update_badges`].
    pub fn from_parts(mod_ident: ModIdent, is_folder: bool, file: &AbstractFile, file_date: Option<u64>, options: &ParseOptions) -> (r: Record)
        requires
            spec_list(*file).len() <= u32::MAX,
        ensures
            flags_ok(r.flags()),
            r.ident@ == mod_ident.ident@,
            r.file.full_path@ == mod_ident.full_path@,
            r.file.age_hash@ == mod_ident.hash@,
            r.file.is_folder == is_folder,
            r.file.short_name@ == short_name_of(mod_ident.full_path@),
            r.badge_array@.len() == 0,
            ({
                let f0 = name_issues(no_flags(), is_folder, mod_ident.full_path@, short_name_of(mod_ident.full_path@));
                let f1 = opened_flags(f0, *file);
                let untouched = r.mod_desc@ == crate::mod_desc::empty_desc() && r.map22 is None && r.l10n@.len() == 0;
                match *file {
                    AbstractFile::Null(e) => r.flags() == fail_f(f0, open_issue(e)) && untouched
                        && r.include_save_game is None,
                    _ => {
                        &&& r.file.file_size == spec_defs(*file).unwrap().size
                        &&& r.file.file_date == match file_date { Some(d) => d, None => 0u64 }
                        &&& if spec_in_list(*file, "careerSavegame.xml"@) {
                            &&& r.file.is_save_game
                            &&& r.flags() == fail_f(f1, ModError::FileErrorLikelySaveGame)
                            &&& (r.include_save_game is Some <==> options.0@.contains(ParseOption::IncludeSaveGame))
                            &&& untouched
                        } else if !is_folder && pack_files(spec_list(*file)) is Some {
                            &&& r.file.is_mod_pack
                            &&& r.file.zip_files@.map_values(|p: ZipPackFile| zip_view(p)) == pack_files(spec_list(*file)).unwrap()
                            &&& r.flags() == fail_f(f1, ModError::FileErrorLikelyZipPack)
                            &&& untouched && r.include_save_game is None
                        } else {
                            &&& r.include_save_game is None
                            &&& match spec_text(*file, "modDesc.xml"@) {
                                Err(e) => r.flags() == fail_f(f1,
                                    if is_xml_error(e) { ModError::ModDescParseError } else { ModError::ModDescMissing })
                                    && untouched,
                                Ok(_) => (r.flags() == fail_f(f1, ModError::ModDescParseError) && untouched)
                                    || exists|d: crate::mod_desc::DescView| #[trigger] crate::mod_desc::desc_read(d)
                                        && read_record(r, d, f1, *file, short_name_of(mod_ident.full_path@), *options),
                            }
                        }
                    },
                }
            }),
    {
        let mut record = Record::new(mod_ident, is_folder);
        proof {
            assert(record.flags().issues =~= no_flags().issues);
            assert(record.flags() == no_flags());
            assert(flags_ok(record.flags()));
            lemma_name_issues_ok(record.flags(), is_folder, record.file.full_path@, record.file.short_name@);
        }
        record.check_name();
        let ghost named = record;
        if record.open_checks(file, file_date, options) {
            assert(record.file.lua_count == 0);
            let ghost before = record;
            assert(strs(before.file.space_files@) =~= Seq::<Seq<char>>::empty());
            assert(strs(before.file.image_non_dds@) =~= Seq::<Seq<char>>::empty());
            assert(strs(before.file.png_texture@) =~= Seq::<Seq<char>>::empty());
            assert(strs(before.file.too_big_files@) =~= Seq::<Seq<char>>::empty());
            assert(strs(before.file.image_dds@) =~= Seq::<Seq<char>>::empty());
            assert(strs(before.file.extra_files@) =~= Seq::<Seq<char>>::empty());
            let ghost c0 = Counts { flags: before.flags(), space_files: Seq::empty(), lua_count: 0,
                image_non_dds: Seq::empty(), png_texture: Seq::empty(), too_big_files: Seq::empty(),
                image_dds: Seq::empty(), extra_files: Seq::empty(), grle: 0, pdf: 0, png: 0, txt: 0 };
            assert(record_counts(before) == c0);
            assert(before.l10n@ =~= Seq::<(Seq<char>, Seq<(Seq<char>, Seq<char>)>)>::empty());
            record.content_checks(file, options);
            assert(desc_issues(counts_over(c0, spec_list(*file)).flags, before.mod_desc@)
                == desc_issues(counts_over(c0, spec_list(*file)).flags, record.mod_desc@));
            assert(crate::mod_desc::desc_read(before.mod_desc@));
            let ghost d = before.mod_desc@;
            assert(record.mod_desc@ == (crate::mod_desc::DescView { l10n_local: Seq::empty(), ..d }));
            assert(d.l10n_file_prefix is Some <==> before.mod_desc.l10n_file_prefix is Some);
            assert(d.game_version == 22 <==> before.mod_desc.game_version == 22);
            assert(d.map_config_filename is Some <==> before.mod_desc.map_config_filename is Some);
            assert(d.l10n_local == before.mod_desc.l10n_local@);
                        assert(read_record(record, before.mod_desc@, c0.flags, *file, record.file.short_name@, *options));
        }
        record
    }
}

} // verus!
