use fs_mod_parser::errors::AbstractFileError;
use fs_mod_parser::files::{AbstractFile, FileDefinition, FileDefinitions, FileText, ListedFile};

/// The files of a good, simple mod: its modDesc.xml and its icon.
fn good_files() -> FileDefinitions {
    let files = vec![
        FileDefinition { extension: String::from("xml"), path: String::from("modDesc.xml"), size: 2852, is_dir: false },
        FileDefinition { extension: String::from("dds"), path: String::from("modIcon.dds"), size: 32896, is_dir: false },
    ];
    let name_index = files.iter().map(|f| f.path.clone()).collect();
    FileDefinitions { files, name_index, size: 2852 + 32896 }
}

/// The text read for the good mod's modDesc.xml.
fn good_texts() -> Vec<FileText> {
    let text = format!("<?xml version=\"1.0\"?><modDesc>{}</modDesc>", " ".repeat(2852 - 40));
    vec![FileText { path: String::from("modDesc.xml"), text: Ok(text) }]
}

fn same(a: &FileDefinition, b: &FileDefinition) -> bool {
    a.extension == b.extension && a.path == b.path && a.size == b.size && a.is_dir == b.is_dir
}

#[test]
fn invalid_path() {
    let file_handle = AbstractFile::Null(AbstractFileError::FileNotFound);
    assert!(matches!(file_handle, AbstractFile::Null(AbstractFileError::FileNotFound)));
    assert_eq!(file_handle.text("modDesc.xml").unwrap_err(), AbstractFileError::FileNotFound);
}

#[test]
fn not_zip() {
    let file_handle = AbstractFile::Null(AbstractFileError::FileNotZip);
    assert!(matches!(file_handle, AbstractFile::Null(AbstractFileError::FileNotZip)));
    assert!(!file_handle.has_file("modDesc.xml"));
    assert_eq!(file_handle.text("modDesc.xml").unwrap_err(), AbstractFileError::FileNotZip);
    assert_eq!(file_handle.list().len(), 0);
    assert!(!file_handle.is_in_list("bob.txt"));
    assert_eq!(file_handle.iter_extensions("xml").len(), 0);

    let file_handle = AbstractFile::Null(AbstractFileError::ZipReadError);
    assert!(matches!(file_handle, AbstractFile::Null(AbstractFileError::ZipReadError)));
}

#[test]
fn valid_zip() {
    let file_handle = AbstractFile::Zip(good_files(), good_texts());
    assert!(matches!(file_handle, AbstractFile::Zip(_, _)));
    assert!(!file_handle.is_dir());

    let expected_files = good_files().files;
    let list = file_handle.list();
    assert_eq!(list.len(), 2);
    assert!(same(&list[0], &expected_files[0]) && same(&list[1], &expected_files[1]));
    assert!(file_handle.is_in_list("modDesc.xml"));
    assert!(!file_handle.is_in_list("bob.txt"));
    let xml = file_handle.iter_extensions("xml");
    assert_eq!(xml.len(), 1);
    assert!(same(&xml[0], &expected_files[0]));
    assert!(file_handle.has_file("modIcon.dds"));
    let mod_desc_text = file_handle.text("modDesc.xml").expect("file open failed");
    assert_eq!(mod_desc_text.len(), 2852);
    assert_eq!(file_handle.text("modDesc.bad").unwrap_err(), AbstractFileError::FileNotFound);
    assert_eq!(file_handle.size(), 2852 + 32896);
}

#[test]
fn mod_valid_folder() {
    let file_handle = AbstractFile::Folder(good_files(), good_texts());
    assert!(matches!(file_handle, AbstractFile::Folder(_, _)));
    assert!(file_handle.is_dir());

    let required_files = vec![String::from("modDesc.xml"), String::from("modIcon.dds")];
    for file in file_handle.list() {
        assert!(required_files.contains(&file.path), "file-not-found {}", file.path);
    }
    assert!(file_handle.has_file("modIcon.dds"));
    assert!(!file_handle.is_in_list("bob.txt"));
    assert_eq!(file_handle.iter_extensions("xml").len(), 1);
    let mod_desc_text = file_handle.text("modDesc.xml").expect("file open failed");
    assert!(mod_desc_text.len() > 1000);
    assert_eq!(file_handle.text("modDesc.bad").unwrap_err(), AbstractFileError::FileNotFound);
}

#[test]
fn path_forms() {
    assert_eq!(fs_mod_parser::files::posix_path("maps\\overview\\map.dds"), "maps/overview/map.dds");
    assert_eq!(fs_mod_parser::files::posix_path("a/b"), "a/b");
    assert_eq!(fs_mod_parser::files::lc_extension("folder/ICON.DDS"), "dds");
    assert_eq!(fs_mod_parser::files::lc_extension("folder/noext"), "");
    assert_eq!(fs_mod_parser::files::lc_extension("archive.tar.GZ"), "gz");
}

#[test]
fn listing_to_definitions() {
    let listing = vec![
        ListedFile { path: String::from("modDesc.XML"), size: 10, is_dir: false },
        ListedFile { path: String::from("textures\\icon.dds"), size: 20, is_dir: false },
        ListedFile { path: String::from("textures"), size: 0, is_dir: true },
        ListedFile { path: String::from("huge.bin"), size: u64::MAX, is_dir: false },
    ];
    let defs = FileDefinitions::from_listing(&listing);

    assert_eq!(defs.files.len(), 4);
    assert_eq!(defs.files[0].extension, "xml");
    assert_eq!(defs.files[1].path, "textures/icon.dds");
    assert_eq!(defs.files[1].extension, "dds");
    assert!(defs.files[2].is_dir);
    assert_eq!(defs.files[2].extension, "");
    assert_eq!(defs.name_index, vec!["modDesc.XML", "textures/icon.dds", "textures", "huge.bin"]);
    assert_eq!(defs.size, 29);
}

#[test]
fn open_kinds() {
    use_kind("mods/FS22_Test.zip", false, false, Err(AbstractFileError::FileNotFound));
    use_kind("mods/FS22_Test.ZIP", true, false, Ok(false));
    use_kind("mods/FS22_Test.rar", true, false, Err(AbstractFileError::FileNotZip));
    use_kind("mods/FS22_Test", true, true, Ok(true));
}

fn use_kind(path: &str, exists: bool, is_dir: bool, expected: Result<bool, AbstractFileError>) {
    assert_eq!(fs_mod_parser::files::open_kind(path, exists, is_dir), expected);
}
