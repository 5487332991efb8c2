use fs_mod_parser::errors::{AbstractFileError, ModDescWarnings};

#[test]
fn file_error_messages() {
    let errors = [
        AbstractFileError::FileIoError,
        AbstractFileError::FileNotFound,
        AbstractFileError::FileNotZip,
        AbstractFileError::FolderError,
        AbstractFileError::XmlParseError,
        AbstractFileError::ZipReadError,
        AbstractFileError::XmlWrongFileType,
        AbstractFileError::XmlUndeclared,
    ];
    for e in &errors {
        assert!(!e.to_string().is_empty());
    }
    assert_eq!(AbstractFileError::FileNotFound.to_string(), "file not found");
    assert_eq!(AbstractFileError::XmlWrongFileType.to_string(), "tried to parse wrong type of xml");
}

#[test]
fn mod_desc_warning_messages() {
    let warnings = [
        ModDescWarnings::ActionBindingInvalidTag(String::from("xx")),
        ModDescWarnings::ActionBindingMalformed(),
        ModDescWarnings::L10nInvalidLanguage(String::from("xx"), String::from("yy")),
        ModDescWarnings::L10nMalformed(),
        ModDescWarnings::ShouldBeL10n(String::from("xx")),
        ModDescWarnings::MaybePiracy(),
    ];
    for w in &warnings {
        assert!(!w.to_string().is_empty());
    }
    assert_eq!(warnings[0].to_string(), "actionBinding contained invalid key: xx");
    assert_eq!(warnings[2].to_string(), "unknown l10n language: xx in yy");
    assert_eq!(warnings[4].to_string(), "found un-translated entry in: xx");
}
