use fs_mod_parser::errors::{AbstractFileError, SaveError};
use fs_mod_parser::files::{AbstractFile, FileDefinition, FileDefinitions, FileText};
use fs_mod_parser::savegame::{parser, Career, Farms, Mods};

const CAREER: &str = r#"<?xml version="1.0" encoding="utf-8" standalone="no"?>
<careerSavegame revision="2" valid="true">
    <settings>
        <savegameName>BRC</savegameName>
        <mapId>FS22_BackRoadsCounty.SampleMap</mapId>
        <mapTitle>Back Roads County</mapTitle>
        <saveDate>2022-10-14</saveDate>
    </settings>
    <statistics>
        <playTime>18400.5</playTime>
    </statistics>
    <mod modName="FS22_BackRoadsCounty" title="Back Roads County" version="1.0.0.2" required="true" fileHash="0"/>
</careerSavegame>"#;

const FARMS_ONE: &str = r#"<?xml version="1.0" encoding="utf-8" standalone="no"?>
<farms>
    <farm farmId="1" name="My farm" color="1" loan="0.000000" money="100000.500000">
        <players/>
    </farm>
</farms>"#;

const FARMS_TWO: &str = r#"<?xml version="1.0" encoding="utf-8" standalone="no"?>
<farms>
    <farm farmId="1" name="My farm" color="1" loan="0.000000" money="100000.500000"><players/></farm>
    <farm farmId="2" name="Other farm" color="2" loan="0.000000" money="1.000000"><players/></farm>
</farms>"#;

const VEHICLES: &str = r#"<?xml version="1.0" encoding="utf-8" standalone="no"?>
<vehicles>
    <vehicle filename="data/vehicles/tractor.xml" modName="FS22_Tractor" farmId="1"/>
</vehicles>"#;

const PLACEABLES: &str = r#"<?xml version="1.0" encoding="utf-8" standalone="no"?>
<placeables>
    <placeable filename="data/placeables/silo.xml" modName="FS22_Silo" farmId="1"/>
</placeables>"#;

const BROKEN_CAREER: &str = r#"<?xml version="1.0" encoding="utf-8" standalone="no"?>
<careerSavegame>
    <settings>
</careerSavegame>"#;

const BROKEN_FARMS: &str = r#"<?xml version="1.0" encoding="utf-8" standalone="no"?>
<farms>
    <farm farmId="1" name="My farm">
</broken>"#;

const BROKEN_VEHICLES: &str = r#"<?xml version="1.0" encoding="utf-8" standalone="no"?>
<vehicles>
    <vehicle filename="data/vehicles/tractor.xml">
</placeables>"#;

const BROKEN_PLACEABLES: &str = r#"<?xml version="1.0" encoding="utf-8" standalone="no"?>
<placeables>
    <placeable filename="data/placeables/silo.xml">
</vehicles>"#;

/// A zipped save game holding the given files.
fn save_file(parts: &[(&str, &str)]) -> AbstractFile {
    let mut files = Vec::new();
    let mut name_index = Vec::new();
    let mut texts = Vec::new();
    for (name, text) in parts {
        files.push(FileDefinition { extension: String::from("xml"), path: name.to_string(), size: text.len() as u64, is_dir: false });
        name_index.push(name.to_string());
        texts.push(FileText { path: name.to_string(), text: Ok(text.to_string()) });
    }
    AbstractFile::Zip(FileDefinitions { files, name_index, size: 0 }, texts)
}

/// A save game with one of its files left out or broken.
fn save_with(career: Option<&str>, farms: Option<&str>, vehicles: Option<&str>, placeables: Option<&str>) -> AbstractFile {
    let mut parts = Vec::new();
    if let Some(c) = career { parts.push(("careerSavegame.xml", c)); }
    if let Some(f) = farms { parts.push(("farms.xml", f)); }
    if let Some(v) = vehicles { parts.push(("vehicles.xml", v)); }
    if let Some(p) = placeables { parts.push(("placeables.xml", p)); }
    save_file(&parts)
}

#[test]
fn bad_career_file() {
    let actual = parser(&save_with(None, Some(FARMS_ONE), Some(VEHICLES), Some(PLACEABLES)));
    assert_eq!(actual.error_list.len(), 1);
    assert!(actual.error_list.contains(&SaveError::CareerMissing));

    let actual = parser(&save_with(Some(BROKEN_CAREER), Some(FARMS_ONE), Some(VEHICLES), Some(PLACEABLES)));
    assert_eq!(actual.error_list.len(), 1);
    assert!(actual.error_list.contains(&SaveError::CareerParseError));
}

#[test]
fn bad_farms_file() {
    let actual = parser(&save_with(Some(CAREER), None, Some(VEHICLES), Some(PLACEABLES)));
    assert_eq!(actual.error_list.len(), 1);
    assert!(actual.error_list.contains(&SaveError::FarmsMissing));

    let actual = parser(&save_with(Some(CAREER), Some(BROKEN_FARMS), Some(VEHICLES), Some(PLACEABLES)));
    assert_eq!(actual.error_list.len(), 1);
    assert!(actual.error_list.contains(&SaveError::FarmsParseError));
}

#[test]
fn bad_placeable_file() {
    let actual = parser(&save_with(Some(CAREER), Some(FARMS_ONE), Some(VEHICLES), None));
    assert_eq!(actual.error_list.len(), 1);
    assert!(actual.error_list.contains(&SaveError::PlaceableMissing));

    let actual = parser(&save_with(Some(CAREER), Some(FARMS_ONE), Some(VEHICLES), Some(BROKEN_PLACEABLES)));
    assert_eq!(actual.error_list.len(), 1);
    assert!(actual.error_list.contains(&SaveError::PlaceableParseError));
}

#[test]
fn bad_vehicle_file() {
    let actual = parser(&save_with(Some(CAREER), Some(FARMS_ONE), None, Some(PLACEABLES)));
    assert_eq!(actual.error_list.len(), 1);
    assert!(actual.error_list.contains(&SaveError::VehicleMissing));

    let actual = parser(&save_with(Some(CAREER), Some(FARMS_ONE), Some(BROKEN_VEHICLES), Some(PLACEABLES)));
    assert_eq!(actual.error_list.len(), 1);
    assert!(actual.error_list.contains(&SaveError::VehicleParseError));
}

#[test]
fn single_farm() {
    let actual = parser(&save_with(Some(CAREER), Some(FARMS_ONE), Some(VEHICLES), Some(PLACEABLES)));
    assert_eq!(actual.error_list.len(), 0);
    assert_eq!(actual.single_farm, true);
}

#[test]
fn multi_farm_save_is_valid() {
    let actual = parser(&save_with(Some(CAREER), Some(FARMS_TWO), Some(VEHICLES), Some(PLACEABLES)));
    assert_eq!(actual.error_list.len(), 0);
    assert!(actual.is_valid);
    assert_eq!(actual.single_farm, false);
    assert_eq!(actual.farms.0.len(), 3);
    assert_eq!(actual.farms.0[0].name, "--unowned--");
    assert_eq!(actual.farms.0[1].cash, 100000);
    assert_eq!(actual.map_mod, Some(String::from("FS22_BackRoadsCounty")));
}

#[test]
fn career_not_farms() {
    let xml = r#"<?xml version="1.0" encoding="utf-8" standalone="no"?>
        <barf descVersion="69">
            <description>
                <en>old title</en>
            </description>
        </barf>"#;

    let actual = Career::from_string(xml);
    assert_eq!(actual.unwrap_err(), AbstractFileError::XmlWrongFileType);
}

#[test]
fn farms_not_farms() {
    let xml = r#"<?xml version="1.0" encoding="utf-8" standalone="no"?>
        <barf descVersion="69">
            <description>
                <en>old title</en>
            </description>
        </barf>"#;

    let actual = Farms::from_string(xml);
    assert_eq!(actual.unwrap_err(), AbstractFileError::XmlWrongFileType);
}

#[test]
fn not_either_type() {
    let xml = r#"<?xml version="1.0" encoding="utf-8" standalone="no"?>
        <barf descVersion="69">
            <description>
                <en>old title</en>
            </description>
        </barf>"#;

    let actual = Mods::from_string(xml);
    assert_eq!(actual.unwrap_err(), AbstractFileError::XmlWrongFileType);
}

/// A mod, not a save game: none of the save game's files are there.
fn plain_mod() -> AbstractFile {
    save_file(&[("modDesc.xml", r#"<?xml version="1.0" encoding="utf-8" standalone="no"?><modDesc descVersion="69"></modDesc>"#)])
}

#[test]
fn career_missing_xml() {
    let actual = Career::from_abstract(&plain_mod());
    assert_eq!(actual.unwrap_err(), AbstractFileError::FileNotFound);
}

#[test]
fn farms_missing_xml() {
    let actual = Farms::from_abstract(&plain_mod());
    assert_eq!(actual.unwrap_err(), AbstractFileError::FileNotFound);
}

#[test]
fn missing_vehicle_xml() {
    let actual = Mods::from_abstract_file(&plain_mod(), "vehicles.xml");
    assert_eq!(actual.unwrap_err(), AbstractFileError::FileNotFound);
}

#[test]
fn missing_placeables_xml() {
    let actual = Mods::from_abstract_file(&plain_mod(), "placables.xml");
    assert_eq!(actual.unwrap_err(), AbstractFileError::FileNotFound);
}

#[test]
fn merging_mods_twice_changes_nothing() {
    let mut once = Mods::from_string(VEHICLES).unwrap();
    once.deep_merge(Mods::from_string(PLACEABLES).unwrap());
    let mut twice = Mods::from_string(VEHICLES).unwrap();
    twice.deep_merge(Mods::from_string(PLACEABLES).unwrap());
    twice.deep_merge(Mods::from_string(PLACEABLES).unwrap());
    assert_eq!(once.0.entries.len(), twice.0.entries.len());
    for (a, b) in once.0.entries.iter().zip(twice.0.entries.iter()) {
        assert_eq!(a.0, b.0);
        assert_eq!(a.1.farms.items, b.1.farms.items);
    }
}

#[test]
fn invalid_save_holds_nothing_else() {
    let actual = parser(&save_with(Some(CAREER), Some(BROKEN_FARMS), Some(VEHICLES), Some(PLACEABLES)));
    assert!(!actual.is_valid);
    assert_eq!(actual.error_list, vec![SaveError::FarmsParseError]);
    assert_eq!(actual.mod_count, 0);
    assert!(actual.mods.0.entries.is_empty());
    assert!(actual.farms.0.is_empty());
    assert!(actual.name.is_none());
}
