use base64ct::{Base64UrlUnpadded, Encoding};
use md5::{Digest, Md5};
use fs_mod_parser::errors::{AbstractFileError, ModError};
use fs_mod_parser::files::{AbstractFile, FileDefinition, FileDefinitions, FileText};
use fs_mod_parser::parser::{Badges, FileInfo, ParseOption, ParseOptions, Record, ZipPackFile, DEFAULT_HASH};

const MOD_DESC: &str = r#"<?xml version="1.0" encoding="utf-8" standalone="no"?>
<modDesc descVersion="69">
    <author>Tester</author>
    <version>1.0.0.0</version>
    <title><en>Good mod</en></title>
    <description><en>A good mod</en></description>
    <iconFilename>modIcon.dds</iconFilename>
    <multiplayer supported="true"/>
</modDesc>"#;

/// A file entry of a mod.
fn entry(path: &str, size: u64) -> FileDefinition {
    let extension = match path.rsplit_once('.') {
        Some((_, e)) => e.to_ascii_lowercase(),
        None => String::new(),
    };
    FileDefinition { extension, path: path.to_string(), size, is_dir: false }
}

/// A zipped mod with the given files and texts.
fn zip_mod(files: Vec<FileDefinition>, texts: &[(&str, &str)]) -> AbstractFile {
    let name_index = files.iter().map(|f| f.path.clone()).collect();
    let size = files.iter().map(|f| f.size).sum();
    let texts = texts.iter().map(|(p, t)| FileText { path: p.to_string(), text: Ok(t.to_string()) }).collect();
    AbstractFile::Zip(FileDefinitions { files, name_index, size }, texts)
}

/// Check a mod at `path`, as a zip file.
fn check(path: &str, file: &AbstractFile, options: &ParseOptions) -> Record {
    let ident = Record::get_ident(path, String::from(DEFAULT_HASH));
    let mut record = Record::from_parts(ident, false, file, Some(1000), options);
    record.update_badges();
    record
}

fn good_mod() -> AbstractFile {
    zip_mod(vec![entry("modDesc.xml", 400), entry("modIcon.dds", 32896)], &[("modDesc.xml", MOD_DESC)])
}

#[test]
fn good_mod_has_no_issues() {
    let record = check("/mods/FS22_Good.zip", &good_mod(), &ParseOptions::default());
    assert_eq!(record.issues.items, vec![]);
    assert!(!record.can_not_use);
    assert_eq!(record.badge_array, vec![Badges::FsUnknown]);
    assert_eq!(record.file.short_name, "FS22_Good");
    assert_eq!(record.file.file_date, 1000);
    assert_eq!(record.file.image_dds, vec![String::from("modIcon.dds")]);
    assert_eq!(record.mod_desc.version, Some(String::from("1.0.0.0")));
}

#[test]
fn ident_is_md5_of_path() {
    let ident = Record::get_ident("/mods/FS22_Good.zip", String::from("hash"));
    let expected = Base64UrlUnpadded::encode_string(&Md5::digest(b"/mods/FS22_Good.zip"));
    assert_eq!(ident.ident, expected);
    assert_eq!(ident.hash, "hash");
}

#[test]
fn age_hash() {
    let tail = vec![7u8; 2048];
    let actual = FileInfo::make_hash(Some(b"FS22_Good.zip".to_vec()), Some(5000), Some(tail.clone()));
    let mut data = b"FS22_Good.zip".to_vec();
    data.extend_from_slice(&5000u64.to_be_bytes());
    data.extend_from_slice(&tail);
    assert_eq!(actual, Base64UrlUnpadded::encode_string(&Md5::digest(&data)));
    assert_eq!(FileInfo::make_hash(Some(b"a".to_vec()), Some(5), Some(vec![0u8; 10])), DEFAULT_HASH);
    assert_eq!(FileInfo::make_hash(None, Some(5), Some(tail)), DEFAULT_HASH);
}

#[test]
fn garbage_file() {
    let file = AbstractFile::Null(AbstractFileError::FileNotZip);
    let record = check("/mods/notes.txt", &file, &ParseOptions::default());
    assert!(record.can_not_use);
    assert!(record.issues.items.contains(&ModError::FileErrorGarbageFile));
    assert!(record.issues.items.contains(&ModError::FileErrorNameInvalid));
    assert!(record.issues.items.contains(&ModError::FileErrorUnreadable));
    assert_eq!(record.badge_array, vec![Badges::NotMod, Badges::FsUnknown]);
}

#[test]
fn unreadable_zip() {
    let file = AbstractFile::Null(AbstractFileError::ZipReadError);
    let record = check("/mods/FS22_Broken.zip", &file, &ParseOptions::default());
    assert_eq!(record.issues.items, vec![ModError::FileErrorUnreadableZip]);
    assert!(record.can_not_use);
}

#[test]
fn save_game_is_not_a_mod() {
    let file = zip_mod(vec![entry("careerSavegame.xml", 100)], &[]);
    let record = check("/mods/savegame1.zip", &file, &ParseOptions::default());
    assert!(record.file.is_save_game);
    assert!(record.can_not_use);
    assert!(record.issues.items.contains(&ModError::FileErrorLikelySaveGame));
    assert!(record.include_save_game.is_some());
    assert_eq!(record.badge_array, vec![Badges::NotMod, Badges::SaveGame, Badges::FsUnknown]);

    let record = check("/mods/savegame1.zip", &file, &ParseOptions::from_list(vec![]));
    assert!(record.include_save_game.is_none());
}

#[test]
fn zip_pack() {
    let file = zip_mod(vec![entry("FS22_One.zip", 100), entry("FS22_Two.zip", 200), entry("readme.txt", 5)], &[]);
    let record = check("/mods/FS22_Pack.zip", &file, &ParseOptions::default());
    assert!(record.file.is_mod_pack);
    assert_eq!(record.file.zip_files.len(), 2);
    assert_eq!(record.file.zip_files[1].name, "FS22_Two.zip");
    assert_eq!(record.issues.items, vec![ModError::FileErrorLikelyZipPack]);

    let file = zip_mod(vec![entry("FS22_One.zip", 100), entry("a.txt", 5), entry("b.txt", 5)], &[]);
    let record = check("/mods/FS22_Pack.zip", &file, &ParseOptions::default());
    assert!(!record.file.is_mod_pack);
    assert!(record.issues.items.contains(&ModError::ModDescMissing));
}

#[test]
fn missing_and_broken_mod_desc() {
    let file = zip_mod(vec![entry("modIcon.dds", 100)], &[]);
    let record = check("/mods/FS22_Empty.zip", &file, &ParseOptions::default());
    assert_eq!(record.issues.items, vec![ModError::ModDescMissing]);
    assert!(record.can_not_use);

    let file = zip_mod(vec![entry("modDesc.xml", 100)], &[("modDesc.xml", "<?xml version=\"1.0\"?><modDesc><title></modDesc>")]);
    let record = check("/mods/FS22_Broken.zip", &file, &ParseOptions::default());
    assert_eq!(record.issues.items, vec![ModError::ModDescParseError]);
    assert_eq!(record.badge_array, vec![Badges::Broken, Badges::FsUnknown]);
}

#[test]
fn copy_and_digit_names() {
    let record = check("/mods/FS22_Good (2).zip", &good_mod(), &ParseOptions::default());
    assert_eq!(record.file.copy_name, Some(String::from("FS22_Good")));
    assert!(record.issues.items.contains(&ModError::FileErrorLikelyCopy));
    assert!(record.issues.items.contains(&ModError::FileErrorNameInvalid));
    assert!(record.can_not_use);

    let record = check("/mods/22_Good.zip", &good_mod(), &ParseOptions::default());
    assert!(record.issues.items.contains(&ModError::FileErrorNameStartsDigit));
    assert!(record.can_not_use);

    let record = check("/mods/FS22_Good.rar", &good_mod(), &ParseOptions::default());
    assert!(record.issues.items.contains(&ModError::FileErrorUnsupportedArchive));

    let record = check("/mods/FS22_unzip_me.zip", &good_mod(), &ParseOptions::default());
    assert!(record.issues.items.contains(&ModError::FileErrorLikelyZipPack));
    assert!(!record.can_not_use);
}

#[test]
fn scripts_that_delete_files() {
    let file = zip_mod(
        vec![entry("modDesc.xml", 400), entry("modIcon.dds", 100), entry("scripts/main.lua", 50)],
        &[("modDesc.xml", MOD_DESC), ("scripts/main.lua", "function x() getfenv(0).deleteFile(\"a\") end")],
    );
    let record = check("/mods/FS22_Bad.zip", &file, &ParseOptions::default());
    assert!(record.issues.items.contains(&ModError::InfoDangerousFile));
    assert!(!record.can_not_use);
    assert_eq!(record.file.lua_count, 1);
    assert!(record.badge_array.contains(&Badges::Malware));

    let record = check("/mods/FS22_AutoDrive.zip", &file, &ParseOptions::default());
    assert!(!record.issues.items.contains(&ModError::InfoDangerousFile));
}

#[test]
fn file_counts() {
    let file = zip_mod(
        vec![entry("modDesc.xml", 400), entry("modIcon.dds", 13 * 0x10_0000), entry("my file.png", 10),
            entry("tool.exe", 10), entry("data.dat", 10)],
        &[("modDesc.xml", MOD_DESC)],
    );
    let record = check("/mods/FS22_Counts.zip", &file, &ParseOptions::default());
    for e in [ModError::PerformanceOversizeDDS, ModError::PerformanceFileSpaces, ModError::InfoDangerousFile,
        ModError::InfoLikelyPiracy, ModError::PerformanceQuantityExtra] {
        assert!(record.issues.items.contains(&e), "{e:?}");
    }
    assert!(record.can_not_use);
    assert_eq!(record.file.too_big_files, vec![String::from("modIcon.dds")]);
    assert_eq!(record.file.space_files, vec![String::from("my file.png")]);
    assert_eq!(record.file.extra_files, vec![String::from("tool.exe"), String::from("data.dat")]);
    assert_eq!(record.file.png_texture, vec![String::from("my file.png")]);
}

#[test]
fn folder_mods_are_not_multiplayer() {
    let file = match good_mod() {
        AbstractFile::Zip(d, t) => AbstractFile::Folder(d, t),
        other => other,
    };
    let ident = Record::get_ident("/mods/FS22_Good", String::from(DEFAULT_HASH));
    let mut record = Record::from_parts(ident, true, &file, None, &ParseOptions::default());
    record.update_badges();
    assert!(record.issues.items.contains(&ModError::InfoNoMultiplayerUnzipped));
    assert!(record.badge_array.contains(&Badges::NoMp));
    assert!(!record.can_not_use);
}

#[test]
fn icon_failure_is_an_issue() {
    let mut record = check("/mods/FS22_Good.zip", &good_mod(), &ParseOptions::default());
    record.note_mod_icon(None);
    assert!(record.issues.items.contains(&ModError::ModDescNoModIcon));
    let mut record = check("/mods/FS22_Good.zip", &good_mod(), &ParseOptions::default());
    record.note_mod_icon(Some(String::from("data:image/webp;base64, AAAA")));
    assert_eq!(record.mod_desc.icon_data, Some(String::from("data:image/webp;base64, AAAA")));
    assert_eq!(record.issues.items, vec![]);
}

#[test]
fn local_l10n_moves_to_l10n() {
    let desc = r#"<?xml version="1.0" encoding="utf-8" standalone="no"?>
<modDesc descVersion="69">
    <version>1.0</version>
    <iconFilename>modIcon.dds</iconFilename>
    <l10n>
        <text name="hello"><en>Hello</en><de>Hallo</de></text>
    </l10n>
</modDesc>"#;
    let file = zip_mod(vec![entry("modDesc.xml", 400)], &[("modDesc.xml", desc)]);
    let record = check("/mods/FS22_Hello.zip", &file, &ParseOptions::from_list(vec![ParseOption::IncludeMap]));
    assert_eq!(record.mod_desc.l10n_local.len(), 0);
    assert_eq!(record.l10n.0.get("de").and_then(|m| m.get("hello")), Some(&String::from("Hallo")));
    assert_eq!(record.l10n.0.get("en").and_then(|m| m.get("hello")), Some(&String::from("Hello")));
}

#[test]
fn issues_raised_once_and_failure_sticks() {
    let ident = Record::get_ident("/mods/FS22_Any.zip", String::from(DEFAULT_HASH));
    let mut record = Record::new(ident, false);
    record.warn(ModError::PerformanceQuantityPNG);
    assert!(!record.can_not_use);
    record.warn(ModError::PerformanceQuantityPNG);
    assert_eq!(record.issues.items, vec![ModError::PerformanceQuantityPNG]);
    record.fail(ModError::ModDescMissing);
    assert!(record.can_not_use);
    record.warn(ModError::FileErrorLikelyCopy);
    assert!(record.can_not_use);
    assert_eq!(record.issues.items,
        vec![ModError::PerformanceQuantityPNG, ModError::ModDescMissing, ModError::FileErrorLikelyCopy]);
}

fn file_info(lua_count: u32, file_date: u64) -> FileInfo {
    FileInfo {
        age_hash: String::from("a"),
        copy_name: None,
        extra_files: vec![String::from("extra.txt")],
        file_date,
        file_size: 100,
        full_path: String::from("/mods/FS22_Test.zip"),
        i3d_files: vec![],
        image_dds: vec![String::from("icon.dds")],
        image_non_dds: vec![],
        is_folder: false,
        is_save_game: false,
        is_mod_pack: false,
        png_texture: vec![],
        short_name: String::from("FS22_Test"),
        space_files: vec![],
        too_big_files: vec![],
        zip_files: vec![ZipPackFile { name: String::from("inner.zip"), size: 5 }],
        lua_count,
    }
}

#[test]
fn file_info_equality_ignores_date_and_path() {
    let a = file_info(2, 10);
    let mut b = file_info(2, 99);
    b.full_path = String::from("/elsewhere/FS22_Test.zip");
    b.age_hash = String::from("b");
    assert!(a.eq(&b));
    assert!(!a.eq(&file_info(3, 10)));
    let mut c = file_info(2, 10);
    c.zip_files[0].size = 6;
    assert!(!a.eq(&c));
}

#[test]
fn missing_mod_leaves_record_empty() {
    let file = AbstractFile::Null(AbstractFileError::FileNotFound);
    let options = ParseOptions::from_list(vec![ParseOption::IncludeMap, ParseOption::IncludeSaveGame, ParseOption::IncludeDetail]);
    let record = check("no_such_dir/FS22_Mod.zip", &file, &options);
    assert_eq!(record.issues.items, vec![ModError::FileErrorUnreadable]);
    assert!(record.can_not_use);
    assert_eq!(record.file.short_name, "FS22_Mod");
    assert!(!record.file.is_save_game);
    assert!(record.include_save_game.is_none());
    assert!(record.map22.is_none());
    assert!(record.mod_desc.title.entries.is_empty());
    assert!(record.l10n.0.entries.is_empty());
}

#[test]
fn hashes_are_22_characters() {
    let hash = FileInfo::make_hash(Some(b"FS22_Test.zip".to_vec()), Some(4096), Some(vec![7u8; 2048]));
    assert_eq!(hash.len(), 22);
    assert_eq!(Record::get_ident("/mods/FS22_Test.zip", String::new()).ident.len(), 22);
    assert_eq!(FileInfo::make_hash(None, Some(1), Some(vec![0u8; 2048])), DEFAULT_HASH);
}
