use fs_mod_parser::errors::AbstractFileError;
use fs_mod_parser::files::PeriodMask;
use fs_mod_parser::map22::Config;
use fs_mod_parser::map22::crops::Crops;
use fs_mod_parser::map22::environment::{Season, Weather};
use fs_mod_parser::map22::fruit_types::{FruitType, FruitTypes};
use fs_mod_parser::map22::growth::Growth;

fn xml_test(str: &str) -> String {
    format!("<?xml version=\"1.0\" ?>\n{str}")
}

#[test]
fn environment_wrong_type() {
    let xml = r#"<?xml version="1.0" encoding="utf-8" standalone="no"?><barf></barf>"#;
    let actual = Weather::from_string(xml);
    assert_eq!(actual.unwrap_err(), AbstractFileError::XmlWrongFileType);
}

#[test]
fn base_game_weather() {
    let alpine = Weather {
        spring: Season { min: 5, max: 18 }, summer: Season { min: 10, max: 30 },
        autumn: Season { min: 4, max: 22 }, winter: Season { min: -12, max: 8 },
    };
    let us = Weather {
        spring: Season { min: 6, max: 18 }, summer: Season { min: 13, max: 34 },
        autumn: Season { min: 5, max: 25 }, winter: Season { min: -11, max: 10 },
    };
    assert_eq!(Weather::from_base("mapAlpine"), alpine);
    assert_eq!(Weather::from_base("mapFR"), us);
    assert_eq!(Weather::from_base("mapUS"), us);
    assert_eq!(Weather::from_base("nonsense"), us);
}

#[test]
fn environment_seasons_from_variations() {
    let xml = xml_test(r#"
        <environment>
            <seasons>
                <season name="winter">
                    <variation minTemperature="-35" maxTemperature="5"></variation>
                    <variation minTemperature="-3" maxTemperature="30"></variation>
                </season>
                <season name="spring">
                    <variation minTemperature="1" maxTemperature="2"/>
                </season>
            </seasons>
        </environment>"#);
    let actual = Weather::from_string(&xml).unwrap();
    assert_eq!(actual.winter, Season { min: -35, max: 30 });
    assert_eq!(actual.spring, Season { min: i32::MAX, max: i32::MIN });
    assert_eq!(actual.summer, Season { min: 13, max: 34 });
}

#[test]
fn fruit_types_wrong_type() {
    let xml = r#"<?xml version="1.0" encoding="utf-8" standalone="no"?><barf></barf>"#;
    let actual = FruitTypes::from_string(xml);
    assert_eq!(actual.unwrap_err(), AbstractFileError::XmlWrongFileType);
}

#[test]
fn base_game_fruits() {
    let actual = FruitTypes::from_base();
    assert_eq!(actual.0.len(), 17);
    assert_eq!(actual.0.get("grape"), Some(&FruitType { max_harvest: 11, min_harvest: 10 }));
    assert_eq!(actual.0.get("wheat"), Some(&FruitType::singleton(8)));
    assert_eq!(actual.0.get("poplar"), Some(&FruitType::singleton(14)));
}

#[test]
fn fruit_types_from_text() {
    let xml = xml_test(r#"
        <map>
            <fruitTypes>
                <fruitType name="Wheat">
                    <harvest minHarvestingGrowthState="8" maxHarvestingGrowthState="9"/>
                </fruitType>
                <fruitType name="grass">
                    <harvest minHarvestingGrowthState="3" maxHarvestingGrowthState="5"/>
                    <preparing minGrowthState="2" maxGrowthState="4"/>
                </fruitType>
                <fruitType name="MEADOW">
                    <harvest minHarvestingGrowthState="1" maxHarvestingGrowthState="2"/>
                </fruitType>
            </fruitTypes>
        </map>"#);
    let actual = FruitTypes::from_string(&xml).unwrap();
    assert_eq!(actual.0.len(), 2);
    assert_eq!(actual.0.get("wheat"), Some(&FruitType { max_harvest: 9, min_harvest: 8 }));
    assert_eq!(actual.0.get("grass"), Some(&FruitType { max_harvest: 4, min_harvest: 2 }));
}

#[test]
fn growth_wrong_type() {
    let xml = r#"<?xml version="1.0" encoding="utf-8" standalone="no"?><barf></barf>"#;
    let actual = Growth::from_string(xml);
    assert_eq!(actual.unwrap_err(), AbstractFileError::XmlWrongFileType);
}

const GROWTH: &str = r#"<?xml version="1.0" encoding="utf-8" standalone="no"?>
<growth>
    <seasonal>
        <fruit name="wheat">
            <period index="1"/>
            <period index="7" plantingAllowed="true">
                <update range="1" add="1"/>
            </period>
            <period index="8" plantingAllowed="true">
                <update range="1-2" add="1"/>
            </period>
            <period index="9"><update range="2-3" add="1"/></period>
            <period index="10"><update range="3-4" add="1"/></period>
            <period index="11"><update range="4-5" add="1"/></period>
            <period index="12"><update range="5-6" add="1"/></period>
            <period index="2"><update range="6-7" add="1"/></period>
            <period index="3"><update range="7" add="1"/></period>
            <period index="4"><update range="8" set="8"/></period>
            <period index="5"><update range="8" set="9"/></period>
            <period index="6"><update range="9" set="10"/></period>
        </fruit>
        <fruit name="meadow">
            <period index="1" plantingAllowed="true"/>
        </fruit>
    </seasonal>
</growth>"#;

#[test]
fn growth_planting_and_harvest() {
    let growth = Growth::from_string(GROWTH).unwrap();
    assert_eq!(growth.0.len(), 1);
    assert_eq!(growth.get_planting("wheat"), PeriodMask::from_periods(&vec![7, 8]));
    let harvest = growth.get_harvest("wheat", &FruitType::singleton(8));
    assert_eq!(harvest.periods(), vec![3, 4, 5]);
    assert_eq!(growth.get_planting("meadow"), PeriodMask::new());
    assert_eq!(growth.get_harvest("barley", &FruitType::singleton(7)), PeriodMask::new());
}

#[test]
fn growth_out_of_range_refused() {
    let xml = r#"<?xml version="1.0" encoding="utf-8" standalone="no"?>
<growth><seasonal><fruit name="wheat"><period index="13"/></fruit></seasonal></growth>"#;
    assert_eq!(Growth::from_string(xml).unwrap_err(), AbstractFileError::XmlParseError);
    let xml = r#"<?xml version="1.0" encoding="utf-8" standalone="no"?>
<growth><seasonal><fruit name="wheat"><period index="1"><update range="0-3" add="1"/></period></fruit></seasonal></growth>"#;
    assert_eq!(Growth::from_string(xml).unwrap_err(), AbstractFileError::XmlParseError);
}

#[test]
fn crops_from_growth_file() {
    let growth = Growth::from_string(GROWTH).unwrap();
    let crops = Crops::from_files(&FruitTypes::from_base(), &growth);
    assert_eq!(crops.0.len(), 17);
    let wheat = crops.0.get("wheat").unwrap();
    assert_eq!(wheat.plant.periods(), vec![7, 8]);
    assert_eq!(wheat.harvest.periods(), vec![3, 4, 5]);
    let barley = crops.0.get("barley").unwrap();
    assert_eq!(barley.plant, PeriodMask::new());
}

#[test]
fn base_game_crops() {
    let crops = Crops::from_base();
    assert_eq!(crops.0.len(), 17);
    let wheat = crops.0.get("wheat").unwrap();
    assert_eq!(wheat.plant.periods(), vec![7, 8]);
    assert_eq!(wheat.harvest.periods(), vec![5, 6]);
    let cotton = crops.0.get("cotton").unwrap();
    assert_eq!(cotton.plant.periods(), vec![1, 12]);
}

#[test]
fn mod_wrong_type() {
    let xml = xml_test(r#"
        <garbage>
            <storeData><image>$data/path/to/data/file.png</image></storeData>
        </garbage>"#);
    let actual = Config::from_string(xml.as_ref());
    assert_eq!(actual.unwrap_err(), AbstractFileError::XmlWrongFileType);
}

#[test]
fn base_game_all() {
    let xml = xml_test(r#"
        <map imageFilename="maps/overview.png">
            <environment filename="$data/maps/mapAlpine/environment.xml" />
            <growth filename="$data/maps/mapFR/maps_fruitTypes.xml" />
            <fruitTypes filename="$data/maps/mapUS/maps_fruitTypes.xml" />
        </map>
    "#);

    let actual = Config::from_string(&xml).unwrap();

    assert_eq!(actual.image_file, Some(String::from("maps/overview.dds")));
    assert_eq!(actual.environment_base, Some(String::from("mapAlpine")));
    assert_eq!(actual.growth_base, Some(String::from("mapFR")));
    assert_eq!(actual.fruit_types_base, Some(String::from("mapUS")));
    assert_eq!(actual.environment_file, None);
    assert_eq!(actual.growth_file, None);
    assert_eq!(actual.fruit_types_file, None);
}

#[test]
fn custom_all() {
    let xml = xml_test(r#"
        <map imageFilename="maps/overview.png">
            <environment filename="map/environment.xml" />
            <growth filename="map/maps_fruitTypes.xml" />
            <fruitTypes filename="map/maps_fruitTypes.xml" />
        </map>
    "#);

    let actual = Config::from_string(&xml).unwrap();

    assert_eq!(actual.image_file, Some(String::from("maps/overview.dds")));
    assert_eq!(actual.environment_file, Some(String::from("map/environment.xml")));
    assert_eq!(actual.growth_file, Some(String::from("map/maps_fruitTypes.xml")));
    assert_eq!(actual.fruit_types_file, Some(String::from("map/maps_fruitTypes.xml")));
    assert_eq!(actual.environment_base, None);
    assert_eq!(actual.growth_base, None);
    assert_eq!(actual.fruit_types_base, None);
}

#[test]
fn period_mask_sets() {
    let mut m = PeriodMask::new();
    m.set(12);
    m.set(1);
    assert_eq!(m.periods(), vec![1, 12]);
    assert!(m.has(12));
    assert!(!m.has(2));
    assert_eq!(m, PeriodMask::from_periods(&vec![12, 1, 0, 13]));
    let mut n = PeriodMask::from_periods(&vec![5]);
    n.union_with(&m);
    assert_eq!(n.periods(), vec![1, 5, 12]);
}
