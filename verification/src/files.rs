//! A mod as the parser sees it: a zip file or a folder with its list of files
//! and the text of the files the rules read.
//!
//! The program around the library lists the archive or folder and reads the
//! XML and LUA files into this structure; the library never touches the disk.
use vstd::prelude::*;
use crate::errors::AbstractFileError;
use crate::text::{chars_eq, eq_ignore_ascii_case, lower_seq, replace_char, replace_chars, starts_with, is_prefix, str_eq, to_chars};

verus! {

/// A path written with `/` between its parts.
pub fn posix_path(path: &str) -> (r: String)
    ensures
        r@ == replace_char(path@, '\\', '/'),
{
    let c = to_chars(path);
    let out = replace_chars(c.as_slice(), '\\', '/');
    crate::text::from_chars(out.as_slice())
}

/// The extension of a path in lower case; empty where it has none.
pub open spec fn lower_extension(path: Seq<char>) -> Seq<char> {
    match crate::parser::path_extension(path) {
        Some(e) => lower_seq(e),
        None => Seq::empty(),
    }
}

/// The extension of a path in lower case; empty where it has none.
pub fn lc_extension(path: &str) -> (r: String)
    ensures
        r@ == lower_extension(path@),
{
    match crate::parser::path_extension_of(path) {
        Some(e) => {
            let c = to_chars(e.as_str());
            let low = crate::text::to_lower(c.as_slice());
            crate::text::from_chars(low.as_slice())
        },
        None => String::new(),
    }
}

/// How a mod on disk is opened, from whether its path exists and is a
/// folder: `Ok(true)` as a folder, `Ok(false)` as a zip file (its extension
/// is `zip` in any case), else why it can not be opened.
pub open spec fn spec_open_kind(path: Seq<char>, exists: bool, is_dir: bool) -> Result<bool, AbstractFileError> {
    if !exists {
        Err(AbstractFileError::FileNotFound)
    } else if is_dir {
        Ok(true)
    } else if lower_extension(path) == "zip"@ {
        Ok(false)
    } else {
        Err(AbstractFileError::FileNotZip)
    }
}

/// Decide how a mod on disk is opened.
///
/// # Errors
/// `FileNotFound` where the path does not exist, `FileNotZip` where it is a
/// file without the `zip` extension.
pub fn open_kind(path: &str, exists: bool, is_dir: bool) -> (r: Result<bool, AbstractFileError>)
    ensures
        r == spec_open_kind(path@, exists, is_dir),
{
    if !exists {
        Err(AbstractFileError::FileNotFound)
    } else if is_dir {
        Ok(true)
    } else {
        let ext = lc_extension(path);
        if str_eq(ext.as_str(), "zip") {
            Ok(false)
        } else {
            Err(AbstractFileError::FileNotZip)
        }
    }
}

/// A file contained in an [`AbstractFile`]
#[derive(Debug)]
pub struct FileDefinition {
    /// File extension, forced to lowercase
    pub extension: String,
    /// *Relative* file path, including extension
    pub path: String,
    /// File size in bytes
    pub size: u64,
    /// Folder flag (is this a folder?)
    pub is_dir: bool,
}

impl Clone for FileDefinition {
    fn clone(&self) -> (r: Self)
        ensures
            r == *self,
    {
        FileDefinition {
            extension: self.extension.clone(),
            path: self.path.clone(),
            size: self.size,
            is_dir: self.is_dir,
        }
    }
}

/// The files contained in an [`AbstractFile`]
#[derive(Debug)]
pub struct FileDefinitions {
    /// List of files
    pub files: Vec<FileDefinition>,
    /// index by name
    pub name_index: Vec<String>,
    /// size of archive/folder
    pub size: u64,
}

/// A file as the listing of a folder or an archive gives it: its path as
/// the system writes it, its size, and whether it is a folder.
#[derive(Debug)]
pub struct ListedFile {
    /// path relative to the folder or archive
    pub path: String,
    /// size in bytes
    pub size: u64,
    /// folder flag
    pub is_dir: bool,
}

/// The sizes of listed files added up as a `u64` adds them, wrapping past
/// its largest value.
pub open spec fn wrapped_total(s: Seq<ListedFile>) -> u64
    decreases s.len(),
{
    if s.len() == 0 { 0 } else { wrapped_total(s.drop_last()).wrapping_add(s.last().size) }
}

/// The definition of a listed file: its path with `/` separators and its
/// extension in lower case.
pub open spec fn definition_of(f: ListedFile, d: FileDefinition) -> bool {
    &&& d.path@ == replace_char(f.path@, '\\', '/')
    &&& d.extension@ == lower_extension(f.path@)
    &&& d.size == f.size
    &&& d.is_dir == f.is_dir
}

impl FileDefinitions {
    /// The definitions of the listed files, in order, with the index of
    /// their paths and their total size.
    pub fn from_listing(listing: &Vec<ListedFile>) -> (r: FileDefinitions)
        ensures
            r.files@.len() == listing@.len(),
            r.name_index@.len() == listing@.len(),
            forall|i: int| 0 <= i < listing@.len() ==> definition_of(#[trigger] listing@[i], r.files@[i]),
            forall|i: int| 0 <= i < listing@.len() ==> #[trigger] r.name_index@[i]@ == r.files@[i].path@,
            r.size == wrapped_total(listing@),
    {
        let mut files: Vec<FileDefinition> = Vec::new();
        let mut name_index: Vec<String> = Vec::new();
        let mut size: u64 = 0;
        let mut i: usize = 0;
        while i < listing.len()
            invariant
                i <= listing@.len(),
                files@.len() == i,
                name_index@.len() == i,
                forall|j: int| 0 <= j < i ==> definition_of(#[trigger] listing@[j], files@[j]),
                forall|j: int| 0 <= j < i ==> #[trigger] name_index@[j]@ == files@[j].path@,
                size == wrapped_total(listing@.subrange(0, i as int)),
            decreases listing.len() - i,
        {
            let f = &listing[i];
            let path = posix_path(f.path.as_str());
            name_index.push(path.clone());
            files.push(FileDefinition {
                extension: lc_extension(f.path.as_str()),
                path,
                size: f.size,
                is_dir: f.is_dir,
            });
            assert(listing@.subrange(0, i + 1).drop_last() =~= listing@.subrange(0, i as int));
            size = size.wrapping_add(f.size);
            i = i + 1;
        }
        assert(listing@.subrange(0, listing@.len() as int) =~= listing@);
        FileDefinitions { files, name_index, size }
    }
}

/// The text of one contained file, or why it could not be read.
#[derive(Debug)]
pub struct FileText {
    /// *Relative* file path
    pub path: String,
    /// file contents as text
    pub text: Result<String, AbstractFileError>,
}

/// A zipped or unzipped mod, or why it could not be opened.
#[derive(Debug)]
pub enum AbstractFile {
    /// folder on disk: its files, and the text of those read
    Folder(FileDefinitions, Vec<FileText>),
    /// zip file: its files, and the text of those read
    Zip(FileDefinitions, Vec<FileText>),
    /// file or folder failure
    Null(AbstractFileError),
}

/// Index of the first text entry for `path`.
pub open spec fn text_index(t: Seq<FileText>, path: Seq<char>) -> Option<int>
    decreases t.len(),
{
    if t.len() == 0 {
        None
    } else if t[0].path@ == path {
        Some(0)
    } else {
        match text_index(t.drop_first(), path) {
            Some(i) => Some(i + 1),
            None => None,
        }
    }
}

proof fn lemma_text_index(t: Seq<FileText>, p: Seq<char>)
    ensures
        match text_index(t, p) {
            Some(i) => 0 <= i < t.len() && t[i].path@ == p
                && forall|j: int| 0 <= j < i ==> t[j].path@ != p,
            None => forall|j: int| 0 <= j < t.len() ==> t[j].path@ != p,
        },
    decreases t.len(),
{
    if t.len() > 0 && t[0].path@ != p {
        lemma_text_index(t.drop_first(), p);
        assert forall|j: int| 1 <= j < t.len() implies t[j].path@ == t.drop_first()[j - 1].path@ by {}
    }
}

/// What reading `path` gives: the text, or the error.
pub open spec fn spec_text(f: AbstractFile, path: Seq<char>) -> Result<Seq<char>, AbstractFileError> {
    match f {
        AbstractFile::Null(e) => Err(e),
        AbstractFile::Folder(_, t) => spec_text_in(t@, path),
        AbstractFile::Zip(_, t) => spec_text_in(t@, path),
    }
}

/// What reading `path` from the read texts gives.
pub open spec fn spec_text_in(t: Seq<FileText>, path: Seq<char>) -> Result<Seq<char>, AbstractFileError> {
    match text_index(t, path) {
        Some(i) => match t[i].text {
            Ok(s) => Ok(s@),
            Err(e) => Err(e),
        },
        None => Err(AbstractFileError::FileNotFound),
    }
}

/// The file definitions of an archive or folder.
pub open spec fn spec_defs(f: AbstractFile) -> Option<FileDefinitions> {
    match f {
        AbstractFile::Null(_) => None,
        AbstractFile::Folder(d, _) => Some(d),
        AbstractFile::Zip(d, _) => Some(d),
    }
}

/// The list of contained files.
pub open spec fn spec_list(f: AbstractFile) -> Seq<FileDefinition> {
    match spec_defs(f) {
        None => Seq::empty(),
        Some(d) => d.files@,
    }
}

/// Is `needle` in the name index?
pub open spec fn spec_in_list(f: AbstractFile, needle: Seq<char>) -> bool {
    match spec_defs(f) {
        None => false,
        Some(d) => names_contain(d.name_index@, needle),
    }
}

/// Is `needle` one of the names?
pub open spec fn names_contain(names: Seq<String>, needle: Seq<char>) -> bool {
    exists|i: int| 0 <= i < names.len() && #[trigger] names[i]@ == needle
}

/// Paths with extension `ext` (any case) that start with `prefix` (`\` read as `/`).
pub open spec fn spec_name_filter(l: Seq<FileDefinition>, prefix: Seq<char>, ext: Seq<char>) -> Seq<Seq<char>>
    decreases l.len(),
{
    if l.len() == 0 {
        Seq::empty()
    } else {
        let rest = spec_name_filter(l.drop_last(), prefix, ext);
        let f = l.last();
        if lower_seq(f.extension@) == lower_seq(ext) && is_prefix(replace_char(prefix, '\\', '/'), f.path@) {
            rest.push(f.path@)
        } else {
            rest
        }
    }
}

/// Files with extension `ext` (any case).
pub open spec fn spec_with_extension(l: Seq<FileDefinition>, ext: Seq<char>) -> Seq<FileDefinition>
    decreases l.len(),
{
    if l.len() == 0 {
        Seq::empty()
    } else {
        let rest = spec_with_extension(l.drop_last(), ext);
        if lower_seq(l.last().extension@) == lower_seq(ext) {
            rest.push(l.last())
        } else {
            rest
        }
    }
}

/// Look up the text read for `filename`.
fn text_in(t: &Vec<FileText>, filename: &str) -> (r: Result<String, AbstractFileError>)
    ensures
        match r {
            Ok(s) => spec_text_in(t@, filename@) == Ok::<Seq<char>, AbstractFileError>(s@),
            Err(e) => spec_text_in(t@, filename@) == Err::<Seq<char>, AbstractFileError>(e),
        },
{
    proof { lemma_text_index(t@, filename@); }
    let mut i: usize = 0;
    while i < t.len()
        invariant
            i <= t@.len(),
            forall|j: int| 0 <= j < i ==> t@[j].path@ != filename@,
            match text_index(t@, filename@) {
                Some(x) => 0 <= x < t@.len() && t@[x].path@ == filename@
                    && forall|j: int| 0 <= j < x ==> t@[j].path@ != filename@,
                None => forall|j: int| 0 <= j < t@.len() ==> t@[j].path@ != filename@,
            },
        decreases t.len() - i,
    {
        if str_eq(t[i].path.as_str(), filename) {
            assert(text_index(t@, filename@) == Some(i as int));
            return match &t[i].text {
                Ok(s) => Ok(s.clone()),
                Err(e) => Err(*e),
            };
        }
        i = i + 1;
    }
    Err(AbstractFileError::FileNotFound)
}

/// Is `needle` among the names?
fn in_index(d: &FileDefinitions, needle: &str) -> (r: bool)
    ensures
        r == names_contain(d.name_index@, needle@),
{
    let mut i: usize = 0;
    while i < d.name_index.len()
        invariant
            i <= d.name_index@.len(),
            forall|j: int| 0 <= j < i ==> d.name_index@[j]@ != needle@,
        decreases d.name_index.len() - i,
    {
        if str_eq(d.name_index[i].as_str(), needle) {
            assert(d.name_index@[i as int]@ == needle@);
            return true;
        }
        i = i + 1;
    }
    false
}

/// Copy a list of file definitions.
fn copy_defs(files: &Vec<FileDefinition>) -> (r: Vec<FileDefinition>)
    ensures
        r@ == files@,
{
    let mut r: Vec<FileDefinition> = Vec::new();
    let mut i: usize = 0;
    while i < files.len()
        invariant
            i <= files@.len(),
            r@ == files@.subrange(0, i as int),
        decreases files.len() - i,
    {
        r.push(files[i].clone());
        i = i + 1;
        assert(r@ =~= files@.subrange(0, i as int));
    }
    assert(r@ =~= files@);
    r
}

impl AbstractFile {
    /// Does the file exist in the archive or folder?
    pub fn has_file(&self, filename: &str) -> (r: bool)
        ensures
            r == spec_in_list(*self, filename@),
    {
        self.is_in_list(filename)
    }

    /// Get a file as text
    ///
    /// # Errors
    /// [`AbstractFileError::FileNotFound`] where it was not read, or the
    /// error that reading it gave.
    pub fn text(&self, filename: &str) -> (r: Result<String, AbstractFileError>)
        ensures
            match r {
                Ok(s) => spec_text(*self, filename@) == Ok::<Seq<char>, AbstractFileError>(s@),
                Err(e) => spec_text(*self, filename@) == Err::<Seq<char>, AbstractFileError>(e),
            },
    {
        match self {
            AbstractFile::Null(e) => Err(*e),
            AbstractFile::Folder(_, t) => text_in(t, filename),
            AbstractFile::Zip(_, t) => text_in(t, filename),
        }
    }

    /// Get list of files as [`FileDefinition`]'s
    pub fn list(&self) -> (r: Vec<FileDefinition>)
        ensures
            r@ == spec_list(*self),
    {
        match self {
            AbstractFile::Null(_) => Vec::new(),
            AbstractFile::Folder(d, _) => copy_defs(&d.files),
            AbstractFile::Zip(d, _) => copy_defs(&d.files),
        }
    }

    /// Is in file list?
    ///
    /// this is not a assurance the file *still* exists for a folder, but
    /// can be used negatively
    pub fn is_in_list(&self, needle: &str) -> (r: bool)
        ensures
            r == spec_in_list(*self, needle@),
    {
        match self {
            AbstractFile::Null(_) => {
                assert(spec_defs(*self) is None);
                false
            },
            AbstractFile::Folder(d, _) => in_index(d, needle),
            AbstractFile::Zip(d, _) => in_index(d, needle),
        }
    }

    /// Paths of files with the given extension (any case) under the prefix
    pub fn name_filter(&self, prefix: &str, extension: &str) -> (r: Vec<String>)
        ensures
            r@.map_values(|s: String| s@) == spec_name_filter(spec_list(*self), prefix@, extension@),
    {
        let prefix_chars = to_chars(prefix);
        let prefix_chars = replace_chars(prefix_chars.as_slice(), '\\', '/');
        let ext_chars = to_chars(extension);
        let l = self.list();
        let mut r: Vec<String> = Vec::new();
        let mut i: usize = 0;
        while i < l.len()
            invariant
                i <= l@.len(),
                l@ == spec_list(*self),
                prefix_chars@ == replace_char(prefix@, '\\', '/'),
                ext_chars@ == extension@,
                r@.map_values(|s: String| s@) == spec_name_filter(l@.subrange(0, i as int), prefix@, extension@),
            decreases l.len() - i,
        {
            assert(l@.subrange(0, i + 1).drop_last() =~= l@.subrange(0, i as int));
            let f_ext = to_chars(l[i].extension.as_str());
            let f_path = to_chars(l[i].path.as_str());
            if eq_ignore_ascii_case(f_ext.as_slice(), ext_chars.as_slice())
                && starts_with(f_path.as_slice(), prefix_chars.as_slice()) {
                r.push(l[i].path.clone());
            }
            i = i + 1;
            assert(r@.map_values(|s: String| s@) =~= spec_name_filter(l@.subrange(0, i as int), prefix@, extension@));
        }
        assert(l@.subrange(0, l@.len() as int) =~= l@);
        r
    }

    /// Files with a known extension (any case)
    pub fn iter_extensions(&self, extension: &str) -> (r: Vec<FileDefinition>)
        ensures
            r@ == spec_with_extension(spec_list(*self), extension@),
    {
        let ext_chars = to_chars(extension);
        let l = self.list();
        let mut r: Vec<FileDefinition> = Vec::new();
        let mut i: usize = 0;
        while i < l.len()
            invariant
                i <= l@.len(),
                l@ == spec_list(*self),
                ext_chars@ == extension@,
                r@ == spec_with_extension(l@.subrange(0, i as int), extension@),
            decreases l.len() - i,
        {
            assert(l@.subrange(0, i + 1).drop_last() =~= l@.subrange(0, i as int));
            let f_ext = to_chars(l[i].extension.as_str());
            if eq_ignore_ascii_case(f_ext.as_slice(), ext_chars.as_slice()) {
                r.push(l[i].clone());
            }
            i = i + 1;
        }
        assert(l@.subrange(0, l@.len() as int) =~= l@);
        r
    }

    /// Is this a folder?
    pub fn is_dir(&self) -> (r: bool)
        ensures
            r == (*self is Folder),
    {
        matches!(self, AbstractFile::Folder(_, _))
    }

    /// Size of the zip file or of the folder's contents
    pub fn size(&self) -> (r: u64)
        ensures
            r == match spec_defs(*self) {
                None => 0u64,
                Some(d) => d.size,
            },
    {
        match self {
            AbstractFile::Folder(d, _) => d.size,
            AbstractFile::Zip(d, _) => d.size,
            AbstractFile::Null(_) => 0,
        }
    }
}

} // verus!

verus! {

/// Is period `p` (1 to 12) in the mask? Period `p` is bit `12 - p`.
pub open spec fn period_bit(m: u16, p: int) -> bool {
    1 <= p <= 12 && (m >> ((12 - p) as u16)) & 1u16 == 1u16
}

/// Setting the bit of period `p` adds `p` and nothing else.
proof fn lemma_bit_set(m: u16, p: u16, q: u16)
    by (bit_vector)
    requires
        1 <= p <= 12,
        1 <= q <= 12,
    ensures
        (((m | (1u16 << ((12 - p) as u16))) >> ((12 - q) as u16)) & 1u16 == 1u16)
            == ((((m >> ((12 - q) as u16)) & 1u16) == 1u16) || p == q),
{
}

/// A bit of a union is a bit of either side.
proof fn lemma_bit_or(a: u16, b: u16, q: u16)
    by (bit_vector)
    requires
        1 <= q <= 12,
    ensures
        ((((a | b) >> ((12 - q) as u16)) & 1u16) == 1u16)
            == ((((a >> ((12 - q) as u16)) & 1u16) == 1u16) || (((b >> ((12 - q) as u16)) & 1u16) == 1u16)),
{
}

/// The empty mask has no bit.
proof fn lemma_bit_zero(q: u16)
    by (bit_vector)
    requires
        1 <= q <= 12,
    ensures
        ((0u16 >> ((12 - q) as u16)) & 1u16) != 1u16,
{
}

/// A set of the year's twelve periods (months of the game year, 1 to 12),
/// period `p` held in bit `12 - p`.
#[derive(Debug, Clone, Copy, PartialEq, Eq, Structural)]
pub struct PeriodMask(pub u16);

impl View for PeriodMask {
    type V = Set<int>;

    open spec fn view(&self) -> Set<int> {
        Set::new(|p: int| period_bit(self.0, p))
    }
}

impl PeriodMask {
    /// No period.
    pub fn new() -> (r: PeriodMask)
        ensures
            r@ == Set::<int>::empty(),
    {
        let r = PeriodMask(0);
        assert forall|q: int| !r@.contains(q) by {
            if 1 <= q <= 12 { lemma_bit_zero(q as u16); }
        }
        assert(r@ =~= Set::<int>::empty());
        r
    }

    /// Is period `p` in the mask?
    pub fn has(&self, p: usize) -> (r: bool)
        ensures
            r == self@.contains(p as int),
    {
        if 1 <= p && p <= 12 {
            (self.0 >> ((12 - p) as u16)) & 1u16 == 1u16
        } else {
            false
        }
    }

    /// Add period `p`.
    pub fn set(&mut self, p: usize)
        requires
            1 <= p <= 12,
        ensures
            final(self)@ == old(self)@.insert(p as int),
    {
        let ghost m = self.0;
        self.0 = self.0 | (1u16 << ((12 - p) as u16));
        assert forall|q: int| #[trigger] self@.contains(q) == old(self)@.insert(p as int).contains(q) by {
            if 1 <= q <= 12 { lemma_bit_set(m, p as u16, q as u16); }
        }
        assert(self@ =~= old(self)@.insert(p as int));
    }

    /// Add all periods of `other`.
    pub fn union_with(&mut self, other: &PeriodMask)
        ensures
            final(self)@ == old(self)@.union(other@),
    {
        let ghost m = self.0;
        self.0 = self.0 | other.0;
        assert forall|q: int| #[trigger] self@.contains(q) == old(self)@.union(other@).contains(q) by {
            if 1 <= q <= 12 { lemma_bit_or(m, other.0, q as u16); }
        }
        assert(self@ =~= old(self)@.union(other@));
    }

    /// The mask of a list of periods; values outside 1 to 12 are left out.
    pub fn from_periods(periods: &Vec<usize>) -> (r: PeriodMask)
        ensures
            r@ == Set::new(|p: int| 1 <= p <= 12 && periods@.contains(p as usize)),
    {
        let mut r = PeriodMask::new();
        let mut i: usize = 0;
        while i < periods.len()
            invariant
                i <= periods@.len(),
                r@ == Set::new(|p: int| 1 <= p <= 12 && periods@.subrange(0, i as int).contains(p as usize)),
            decreases periods.len() - i,
        {
            let p = periods[i];
            let ghost before = r@;
            if 1 <= p && p <= 12 {
                r.set(p);
            }
            let ghost prev = periods@.subrange(0, i as int);
            assert(periods@.subrange(0, i + 1) =~= prev.push(p));
            assert forall|q: int| 1 <= q <= 12 implies
                (#[trigger] prev.push(p).contains(q as usize)) == (prev.contains(q as usize) || q == p) by {
                if q == p { assert(prev.push(p)[prev.len() as int] == p); }
                if prev.contains(q as usize) {
                    let k = choose|k: int| 0 <= k < prev.len() && prev[k] == q as usize;
                    assert(prev.push(p)[k] == q as usize);
                }
                if prev.push(p).contains(q as usize) && q != p {
                    let k = choose|k: int| 0 <= k < prev.len() + 1 && prev.push(p)[k] == q as usize;
                    assert(prev[k] == q as usize);
                }
            }
            assert(r@ =~= Set::new(|q: int| 1 <= q <= 12 && periods@.subrange(0, i + 1).contains(q as usize)));
            i = i + 1;
        }
        assert(periods@.subrange(0, periods@.len() as int) =~= periods@);
        r
    }

    /// The periods in the mask, in increasing order.
    pub fn periods(&self) -> (r: Vec<usize>)
        ensures
            forall|i: int, j: int| 0 <= i < j < r@.len() ==> r@[i] < r@[j],
            forall|i: int| 0 <= i < r@.len() ==> self@.contains(#[trigger] r@[i] as int),
            forall|p: int| #[trigger] self@.contains(p) ==> r@.contains(p as usize),
    {
        let mut r: Vec<usize> = Vec::new();
        let mut p: usize = 1;
        while p <= 12
            invariant
                1 <= p <= 13,
                forall|i: int, j: int| 0 <= i < j < r@.len() ==> r@[i] < r@[j],
                forall|i: int| 0 <= i < r@.len() ==> r@[i] < p && self@.contains(#[trigger] r@[i] as int),
                forall|q: int| 1 <= q < p && #[trigger] self@.contains(q) ==> r@.contains(q as usize),
            decreases 13 - p,
        {
            if self.has(p) {
                let ghost before = r@;
                r.push(p);
                assert forall|q: int| 1 <= q < p + 1 && #[trigger] self@.contains(q) implies r@.contains(q as usize) by {
                    if q < p {
                        let k = choose|k: int| 0 <= k < before.len() && before[k] == q as usize;
                        assert(r@[k] == q as usize);
                    } else {
                        assert(r@[before.len() as int] == p);
                    }
                }
            }
            p = p + 1;
        }
        r
    }
}

} // verus!

verus! {

/// Path type from XML
#[derive(Debug)]
pub enum PathType {
    /// Base game
    Base(String),
    /// Local to the mod
    Local(String),
}

/// What std's `Path::with_extension` gives for a path and an extension.
pub uninterp spec fn path_with_extension(path: Seq<char>, ext: Seq<char>) -> Seq<char>;

/// std's `Path::new(path).with_extension(ext)`, as text. The result is a
/// function of the two texts; nothing more is stated of it. std panics
/// where the extension holds a path separator, so such an extension is
/// not admitted.
#[verifier::external_body]
fn with_extension(path: &str, ext: &str) -> (r: String)
    requires
        !ext@.contains('/'),
        !ext@.contains('\\'),
    ensures
        r@ == path_with_extension(path@, ext@),
{
    std::path::Path::new(path).with_extension(ext).to_string_lossy().into_owned()
}

/// A path from XML: `$data/...` names a file of the base game, anything
/// else a file of the mod.
pub open spec fn spec_unwrap_base_path(path: Seq<char>) -> (bool, Seq<char>) {
    if is_prefix("$data/"@, path) { (true, path.subrange(6, path.len() as int)) } else { (false, path) }
}

impl PathType {
    /// Is it a base game path, and the path without `$data/`?
    pub open spec fn spec_parts(&self) -> (bool, Seq<char>) {
        match self {
            PathType::Base(v) => (true, v@),
            PathType::Local(v) => (false, v@),
        }
    }

    /// Split `$data/` off a path.
    pub fn unwrap_base_path(path: &str) -> (r: PathType)
        ensures
            r.spec_parts() == spec_unwrap_base_path(path@),
    {
        let c = to_chars(path);
        let p = to_chars("$data/");
        proof { reveal_strlit("$data/"); }
        assert(p@.len() == 6);
        if starts_with(c.as_slice(), p.as_slice()) {
            let rest = crate::text::sub_chars(c.as_slice(), 6, c.len());
            PathType::Base(crate::text::from_chars(rest.as_slice()))
        } else {
            PathType::Local(path.to_owned())
        }
    }

    /// Get file with dds extension
    pub fn to_dds(&self) -> (r: String)
        ensures
            r@ == path_with_extension(self.spec_parts().1, "dds"@),
    {
        proof {
            reveal_strlit("dds");
            assert(!"dds"@.contains('/'));
            assert(!"dds"@.contains('\\'));
        }
        match self {
            PathType::Base(v) | PathType::Local(v) => with_extension(v.as_str(), "dds"),
        }
    }
}

} // verus!
