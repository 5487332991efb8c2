use fs_mod_parser::l10n::L10nFile;

fn xml_test(str: &str) -> String {
    format!("<?xml version=\"1.0\" ?>\n{str}")
}

#[test]
fn standard() {
    let xml = xml_test(r#"
    <l10n><texts>
        <text name="name_01" text="value_01" />
        <text name="name_02" text="value_02" />
    </texts></l10n>
    "#);

    let actual = L10nFile::from_string(&xml).unwrap();

    assert_eq!(actual.0.get(&String::from("name_01")), Some(&String::from("value_01")));
    assert_eq!(actual.0.get(&String::from("name_02")), Some(&String::from("value_02")));
    assert_eq!(actual.0.len(), 2);
}

#[test]
fn concise() {
    let xml = xml_test(r#"
    <l10n><elements>
        <e k="name_01" v="value_01" />
        <e k="name_02" v="value_02" />
    </elements></l10n>
    "#);

    let actual = L10nFile::from_string(&xml).unwrap();

    assert_eq!(actual.0.get(&String::from("name_01")), Some(&String::from("value_01")));
    assert_eq!(actual.0.get(&String::from("name_02")), Some(&String::from("value_02")));
    assert_eq!(actual.0.len(), 2);
}
