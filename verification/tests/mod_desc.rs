use fs_mod_parser::errors::{AbstractFileError, ModDescWarnings};
use fs_mod_parser::files::{AbstractFile, FileDefinition, FileDefinitions, FileText};
use fs_mod_parser::mod_desc::DescXML;

#[test]
fn bad_input_binding() {
    let xml = r#"<?xml version="1.0" encoding="utf-8" standalone="no"?>
        <modDesc descVersion="69">
            <inputBinding>
                <actionBinding action="aim_menu">
                    <title>Doesn't belown here</title>
                    <winding device="KB_MOUSE_DEFAULT" input="KEY_wrong" />
                    <binding device="KB_MOUSE_DEFAULT" input="KEY_lshift KEY_slash" />
                    <binding input="KEY_lshift KEY_twenty_seven" />
                    <binding device="KB_MOUSE_DEFAULT" />
                </actionBinding>
                <actionBinding baction="aim_menu">
                    <binding device="KB_MOUSE_DEFAULT" input="KEY_lshift KEY_slash" />
                </actionBinding>
            </inputBinding>
        </modDesc>"#;

    let actual = DescXML::from_string(xml).expect("no read");

    assert_eq!(actual.action_binding.len(), 1);
    assert_eq!(actual.action_binding.get("aim_menu").map(|l| l.0.clone()), Some(vec![String::from("KEY_lshift KEY_slash")]));

    assert_eq!(actual.warnings.items.len(), 3);
    assert!(actual.warnings.items.contains(&ModDescWarnings::ActionBindingInvalidTag(String::from("title"))));
    assert!(actual.warnings.items.contains(&ModDescWarnings::ActionBindingInvalidTag(String::from("winding"))));
    assert!(actual.warnings.items.contains(&ModDescWarnings::ActionBindingMalformed()));

    let xml = r#"<?xml version="1.0" encoding="utf-8" standalone="no"?>
        <modDesc descVersion="69">
            <inputBinding>
                <actionBinding action="aim_menu">
                    <binding device="KB_MOUSE_DEFAULT" input="KEY_lshift KEY_slash" />
            </inputBinding>
        </modDesc>"#;

    let actual = DescXML::from_string(xml);
    assert_eq!(actual.unwrap_err(), AbstractFileError::XmlParseError);
}

#[test]
fn l10n_text_tests() {
    let xml = r#"<?xml version="1.0" encoding="utf-8" standalone="no"?>
        <modDesc descVersion="69">
            <l10n>
                <text name="config_5WSemiLocking">
                    <en>Partial locking</en>
                    <de>Teilverriegelung</de>
                    <ru></ru>
                    <xx>Unknown language</xx>
                    Hi
                </text>
                <text lame="ignored_wrong">
                    <en>Partial locking</en>
                </text>
            </l10n>
        </modDesc>"#;

    let actual = DescXML::from_string(xml).expect("read failed");

    assert_eq!(actual.l10n_local.len(), 1);
    let entry = actual.l10n_local.get("config_5WSemiLocking").expect("entry");
    assert_eq!(entry.len(), 3);
    assert_eq!(entry.get("en"), Some(&String::from("Partial locking")));
    assert_eq!(entry.get("de"), Some(&String::from("Teilverriegelung")));
    assert_eq!(entry.get("ru"), Some(&String::from("")));

    assert_eq!(actual.warnings.items.len(), 2);
    assert!(actual.warnings.items.contains(&ModDescWarnings::L10nInvalidLanguage(String::from("xx"), String::from("config_5WSemiLocking"))));
    assert!(actual.warnings.items.contains(&ModDescWarnings::L10nMalformed()));

    let xml = r#"<?xml version="1.0" encoding="utf-8" standalone="no"?>
        <modDesc descVersion="69">
            <l10n>
                <text name="config_5WSemiLocking">
                    <en>Partial locking</en>
        </modDesc>"#;

    let actual = DescXML::from_string(xml);
    assert_eq!(actual.unwrap_err(), AbstractFileError::XmlParseError);
}

#[test]
fn bad_xml_old_title() {
    let xml = r#"<?xml version="1.0" encoding="utf-8" standalone="no"?>
        <modDesc descVersion="69">
            <title>old title</title>
        </modDesc>"#;

    let actual = DescXML::from_string(xml).expect("no read");
    assert_eq!(actual.title.len(), 1);
    assert_eq!(actual.title.get("en"), Some(&String::from("old title")));

    assert_eq!(actual.warnings.items, vec![ModDescWarnings::ShouldBeL10n(String::from("title"))]);
}

#[test]
fn bad_l10n_title() {
    let xml = r#"<?xml version="1.0" encoding="utf-8" standalone="no"?>
        <modDesc descVersion="69">
            <title>
                <en>old title</en>
                <xx>invalid</xx>
            </title>
        </modDesc>"#;

    let actual = DescXML::from_string(xml).expect("no read");
    assert_eq!(actual.title.len(), 1);
    assert_eq!(actual.title.get("en"), Some(&String::from("old title")));

    assert_eq!(actual.warnings.items, vec![ModDescWarnings::L10nInvalidLanguage(String::from("xx"), String::from("title"))]);

    let xml = r#"<?xml version="1.0" encoding="utf-8" standalone="no"?>
        <modDesc descVersion="69">
            <title>
                <en>old title</en>
                <xx>invalid</xx>
        </modDesc>"#;

    let actual = DescXML::from_string(xml);
    assert_eq!(actual.unwrap_err(), AbstractFileError::XmlParseError);
}

#[test]
fn bad_l10n_desc() {
    let xml = r#"<?xml version="1.0" encoding="utf-8" standalone="no"?>
        <modDesc descVersion="69">
            <description>
                <en>old title</en>
                <xx>invalid</xx>
            </description>
        </modDesc>"#;

    let actual = DescXML::from_string(xml).expect("no read");
    assert_eq!(actual.description.len(), 2);
    assert_eq!(actual.description.get("en"), Some(&String::from("old title")));
    assert_eq!(actual.description.get("xx"), Some(&String::from("invalid")));

    assert_eq!(actual.warnings.items, vec![ModDescWarnings::L10nInvalidLanguage(String::from("xx"), String::from("description"))]);

    let xml = r#"<?xml version="1.0" encoding="utf-8" standalone="no"?>
        <modDesc descVersion="69">
            <description>
                <en>old title</en>
                <xx>invalid</xx>
        </modDesc>"#;

    let actual = DescXML::from_string(xml);
    assert_eq!(actual.unwrap_err(), AbstractFileError::XmlParseError);
}

#[test]
fn not_mod_desc() {
    let xml = r#"<?xml version="1.0" encoding="utf-8" standalone="no"?>
        <barf descVersion="69">
            <description>
                <en>old title</en>
            </description>
        </barf>"#;

    let actual = DescXML::from_string(xml);
    assert_eq!(actual.unwrap_err(), AbstractFileError::XmlParseError);
}

/// A zipped mod whose modDesc.xml reads as `text`.
fn mod_with_desc(text: Result<String, AbstractFileError>) -> AbstractFile {
    let files = vec![FileDefinition { extension: String::from("xml"), path: String::from("modDesc.xml"), size: 10, is_dir: false }];
    let name_index = vec![String::from("modDesc.xml")];
    AbstractFile::Zip(FileDefinitions { files, name_index, size: 10 }, vec![FileText { path: String::from("modDesc.xml"), text }])
}

#[test]
fn broken_xml() {
    let text = r#"<?xml version="1.0" encoding="utf-8" standalone="no"?><modDesc descVersion="69"><title><en>Broken</title></modDesc>"#;
    let actual = DescXML::from_abstract_file(&mod_with_desc(Ok(String::from(text))));
    assert_eq!(actual.unwrap_err(), AbstractFileError::XmlParseError);
}

#[test]
fn mod_desc_broken_zip() {
    let actual = DescXML::from_abstract_file(&mod_with_desc(Err(AbstractFileError::FileIoError)));
    assert_eq!(actual.unwrap_err(), AbstractFileError::FileIoError);
}

#[test]
fn mod_desc_missing_file() {
    let file = AbstractFile::Zip(FileDefinitions { files: vec![], name_index: vec![], size: 0 }, vec![]);
    let actual = DescXML::from_abstract_file(&file);
    assert_eq!(actual.unwrap_err(), AbstractFileError::FileNotFound);
}
