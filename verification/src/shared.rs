//! Shared helpers of the mod reader: image file names from XML, and
//! the handles of a mod's folder.
use vstd::prelude::*;
use crate::errors::ModError;
use crate::parser::{path_extension, opt_chars};
use crate::text::{to_chars, from_chars, is_prefix, starts_with, replace_char, replace_chars, lower_seq,
    to_lower, chars_eq, sub_chars};
use crate::savegame::to_owned_str;

verus! {

/// Image tag information
#[derive(Debug, PartialEq, Eq)]
pub struct ImageFile {
    /// is a base game reference
    pub base_game: Option<String>,
    /// is a local file
    pub local_file: Option<String>,
    /// original string
    pub original: Option<String>,
}

/// Image tag information, as plain values.
pub struct ImageFileView {
    /// base game reference
    pub base_game: Option<Seq<char>>,
    /// local file
    pub local_file: Option<Seq<char>>,
    /// original (normalized) text
    pub original: Option<Seq<char>>,
}

impl View for ImageFile {
    type V = ImageFileView;

    open spec fn view(&self) -> ImageFileView {
        ImageFileView {
            base_game: opt_chars(self.base_game),
            local_file: opt_chars(self.local_file),
            original: opt_chars(self.original),
        }
    }
}

/// A local image file name with `\\` turned to `/`, and a `.png`
/// extension (any case) turned to `.dds`.
pub open spec fn normalized_local(text: Seq<char>) -> Seq<char> {
    let e = replace_char(text, '\\', '/');
    match path_extension(e) {
        Some(ext) => if lower_seq(ext) == "png"@ && e.len() >= 4 {
            e.subrange(0, e.len() - 4) + ".dds"@
        } else {
            e
        },
        None => e,
    }
}

/// What an image file tag's text says: nothing, a base game file (`$data`),
/// or a file of the mod.
pub open spec fn spec_normalize_image_file(file_node: Option<Seq<char>>) -> ImageFileView {
    match file_node {
        None => ImageFileView { base_game: None, local_file: None, original: None },
        Some(t) => if is_prefix("$data"@, t) {
            ImageFileView { base_game: Some(t), local_file: None, original: Some(t) }
        } else {
            ImageFileView { base_game: None, local_file: Some(normalized_local(t)), original: Some(normalized_local(t)) }
        },
    }
}

impl ImageFile {
    /// did not find tag
    fn fail() -> (r: ImageFile)
        ensures
            r@ == (ImageFileView { base_game: None, local_file: None, original: None }),
    {
        ImageFile { base_game: None, local_file: None, original: None }
    }

    /// found a base game reference
    fn base(name: String) -> (r: ImageFile)
        ensures
            r@ == (ImageFileView { base_game: Some(name@), local_file: None, original: Some(name@) }),
    {
        ImageFile { original: Some(name.clone()), base_game: Some(name), local_file: None }
    }

    /// found a local reference
    fn local(name: String) -> (r: ImageFile)
        ensures
            r@ == (ImageFileView { base_game: None, local_file: Some(name@), original: Some(name@) }),
    {
        ImageFile { original: Some(name.clone()), base_game: None, local_file: Some(name) }
    }
}

/// Extract the text from an image file option string and normalize
///
/// - test if a base game reference
/// - .png -> .dds
/// - Fix slashes
pub fn normalize_image_file(file_node: Option<&str>) -> (r: ImageFile)
    ensures
        r@ == spec_normalize_image_file(match file_node { Some(t) => Some(t@), None => None }),
{
    if let Some(entry_text) = file_node {
        let c = to_chars(entry_text);
        let data = to_chars("$data");
        if starts_with(c.as_slice(), data.as_slice()) {
            return ImageFile::base(entry_text.to_owned());
        }
        let e = replace_chars(c.as_slice(), '\\', '/');
        let entry = from_chars(e.as_slice());
        let png = to_chars("png");
        let is_png = match crate::parser::path_extension_of(entry.as_str()) {
            Some(ext) => {
                let ec = to_chars(ext.as_str());
                let l = to_lower(ec.as_slice());
                chars_eq(l.as_slice(), png.as_slice())
            },
            None => false,
        };
        if is_png && e.len() >= 4 {
            let mut head = sub_chars(e.as_slice(), 0, e.len() - 4);
            let mut dds = to_chars(".dds");
            head.append(&mut dds);
            return ImageFile::local(from_chars(head.as_slice()));
        }
        return ImageFile::local(entry);
    }
    ImageFile::fail()
}

/// Open a folder
#[derive(Debug)]
pub struct AbstractFolder {
    /// path to folder
    pub path: String,
}

impl AbstractFolder {
    /// A folder handle, where the folder exists (the caller looks).
    ///
    /// # Errors
    /// [`ModError::FileErrorUnreadableZip`] where it does not.
    pub fn new(file_path: &str, exists: bool) -> (r: Result<AbstractFolder, ModError>)
        ensures
            match r {
                Ok(f) => exists && f.path@ == file_path@,
                Err(e) => !exists && e == ModError::FileErrorUnreadableZip,
            },
    {
        if exists {
            Ok(AbstractFolder { path: file_path.to_owned() })
        } else {
            Err(ModError::FileErrorUnreadableZip)
        }
    }
}

/// Open a folder as a mod file handle, where it exists (the caller looks).
///
/// # Errors
/// [`ModError::FileErrorUnreadableZip`] where it does not.
pub fn new_abstract_folder(input_path: &str, exists: bool) -> (r: Result<AbstractFolder, ModError>)
    ensures
        match r {
            Ok(f) => exists && f.path@ == input_path@,
            Err(e) => !exists && e == ModError::FileErrorUnreadableZip,
        },
{
    AbstractFolder::new(input_path, exists)
}

/// Open nothing: every read fails and every list is empty.
#[derive(Debug)]
pub struct AbstractNull {}

impl AbstractNull {
    /// Create a new null handle; never an error.
    pub fn new() -> (r: Result<AbstractNull, ModError>)
        ensures
            r is Ok,
    {
        Ok(AbstractNull {})
    }
}

} // verus!
