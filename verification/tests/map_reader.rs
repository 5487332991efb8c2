use fs_mod_parser::files::{AbstractFile, FileDefinition, FileDefinitions, FileText};
use fs_mod_parser::maps::basics::{crop_builders_from_events, crop_growth_from_events, get_crop_attribute,
    map_basics_from_config, populate_crop_builder, populate_weather, read_map_basics};
use fs_mod_parser::xml::events_of;

/// A zipped map mod with the given XML files.
fn map_mod(parts: &[(&str, &str)]) -> AbstractFile {
    let mut files = Vec::new();
    let mut name_index = Vec::new();
    let mut texts = Vec::new();
    for (name, text) in parts {
        files.push(FileDefinition { extension: String::from("xml"), path: name.to_string(), size: text.len() as u64, is_dir: false });
        name_index.push(name.to_string());
        texts.push(FileText { path: name.to_string(), text: Ok(text.to_string()) });
    }
    AbstractFile::Zip(FileDefinitions { files, name_index, size: 0 }, texts)
}

const FRUIT_TYPES: &str = r#"<?xml version="1.0" encoding="utf-8" standalone="no"?>
<map>
    <fruitTypes>
        <fruitType name="Wheat">
            <growth numGrowthStates="8"/>
            <harvest minHarvestingGrowthState="8" maxHarvestingGrowthState="8"/>
        </fruitType>
        <fruitType name="olive">
            <growth numGrowthStates="10"/>
            <harvest minHarvestingGrowthState="9" maxHarvestingGrowthState="9"/>
            <preparing minGrowthState="10" maxGrowthState="10"/>
        </fruitType>
        <fruitType name="meadow"><growth numGrowthStates="4"/></fruitType>
        <fruitType name="poplar"><growth numGrowthStates="bad"/></fruitType>
    </fruitTypes>
</map>"#;

const GROWTH: &str = r#"<?xml version="1.0" encoding="utf-8" standalone="no"?>
<growth>
    <seasonal>
        <fruit name="wheat">
            <period index="7" plantingAllowed="true"><update range="1" add="1"/></period>
            <period index="8" plantingAllowed="true"><update range="1-2" add="1"/></period>
            <period index="9"><update range="2-7" add="1"/></period>
            <period index="10"/>
            <period index="11"><update range="8" set="3"/><update range="3" add="5"/></period>
        </fruit>
        <fruit name="olive">
            <period index="12"><update range="9" add="1"/></period>
        </fruit>
        <fruit name="poplar">
            <period index="3" plantingAllowed="true"/>
        </fruit>
        <fruit name="meadow">
            <period index="1" plantingAllowed="true"/>
        </fruit>
        <fruit name="cotton">
            <period index="1" plantingAllowed="true"/>
        </fruit>
    </seasonal>
</growth>"#;

const ENVIRONMENT: &str = r#"<?xml version="1.0" encoding="utf-8" standalone="no"?>
<environment>
    <latitude>-33.5</latitude>
    <season name="spring">
        <variation minTemperature="4" maxTemperature="15"/>
        <variation minTemperature="2" maxTemperature="19"/>
        <variation minTemperature="1"/>
    </season>
    <season name="winter">
        <variation minTemperature="x" maxTemperature="y"/>
    </season>
    <season name="summer"/>
</environment>"#;

#[test]
fn crop_attributes_from_children() {
    let evs = events_of(FRUIT_TYPES).unwrap();
    let i = evs.iter().position(|e| matches!(e, fs_mod_parser::xml::XmlEvent::Start(t) if t.name == "fruitType")).unwrap();
    assert_eq!(get_crop_attribute(&evs, i, "growth", "numGrowthStates", 20), 8);
    assert_eq!(get_crop_attribute(&evs, i, "harvest", "maxHarvestingGrowthState", 20), 8);
    assert_eq!(get_crop_attribute(&evs, i, "preparing", "minGrowthState", 7), 7);
    assert_eq!(get_crop_attribute(&evs, i, "growth", "missing", 20), 20);
}

#[test]
fn crop_builders_from_fruit_types() {
    let evs = events_of(FRUIT_TYPES).unwrap();
    let builders = crop_builders_from_events(&evs);
    assert_eq!(builders.len(), 3);
    assert_eq!(builders[0].name, "wheat");
    assert_eq!((builders[0].min_harvest, builders[0].max_harvest, builders[0].states), (8, 8, 8));
    assert_eq!(builders[1].name, "olive");
    assert_eq!((builders[1].min_harvest, builders[1].max_harvest, builders[1].states), (10, 10, 10));
    assert_eq!(builders[2].name, "poplar");
    assert_eq!((builders[2].min_harvest, builders[2].max_harvest, builders[2].states), (20, 20, 20));
}

#[test]
fn crop_builders_fall_back_to_base_game() {
    let file = map_mod(&[]);
    assert_eq!(populate_crop_builder(&file, None).len(), 17);
    assert_eq!(populate_crop_builder(&file, Some(String::from("maps/fruitTypes.xml"))).len(), 17);
}

#[test]
fn crop_growth_from_growth_file() {
    let builders = crop_builders_from_events(&events_of(FRUIT_TYPES).unwrap());
    let evs = events_of(GROWTH).unwrap();
    let mut crops = crop_growth_from_events(&evs, &builders).unwrap();
    assert_eq!(crops.len(), 3);

    let wheat = crops.get("wheat").unwrap();
    assert_eq!(wheat.growth_time, 8);
    assert_eq!(wheat.plant_periods, vec![7, 8]);
    // states 2-3 after period 8, up to 8 after period 9 (harvest in 10), kept
    // in 10 (harvest in 11), then a die back to 3 in period 11.
    assert_eq!(wheat.harvest_periods, vec![10, 11]);

    let olive = crops.get("olive").unwrap();
    assert_eq!(olive.harvest_periods, vec![2]);

    let poplar = crops.get("poplar").unwrap();
    assert_eq!(poplar.plant_periods, vec![3]);
    assert_eq!(poplar.harvest_periods, vec![1, 2, 3, 4, 5, 6, 7, 8, 9, 10, 11, 12]);

    assert!(crops.get("meadow").is_none());
    assert!(crops.get("cotton").is_none());

    let no_seasons = events_of(r#"<?xml version="1.0"?><growth></growth>"#).unwrap();
    assert!(crop_growth_from_events(&no_seasons, &builders).is_none());
}

#[test]
fn weather_from_environment_file() {
    let file = map_mod(&[("maps/environment.xml", ENVIRONMENT)]);
    let (environment, latitude) = populate_weather(&file, None, Some(String::from("maps/environment.xml")));
    assert!(!environment.0);
    assert_eq!(latitude, Some(String::from("-33.5")));
    let weather = environment.1.unwrap();
    let spring = weather.get("spring").unwrap();
    assert_eq!(spring.get("min"), Some(&2));
    assert_eq!(spring.get("max"), Some(&19));
    let winter = weather.get("winter").unwrap();
    assert_eq!(winter.get("min"), Some(&127));
    assert_eq!(winter.get("max"), Some(&-127));
    let summer = weather.get("summer").unwrap();
    assert_eq!(summer.get("min"), Some(&127));
    assert_eq!(summer.get("max"), Some(&-127));
}

#[test]
fn weather_from_base_game_key_or_us() {
    let file = map_mod(&[]);
    let (environment, latitude) = populate_weather(&file, Some(String::from("mapAlpine")), None);
    assert_eq!(latitude, None);
    let weather = environment.1.unwrap();
    assert_eq!(weather.get("winter").unwrap().get("min"), Some(&-12));

    let (environment, _) = populate_weather(&file, None, Some(String::from("maps/missing.xml")));
    assert_eq!(environment.1.unwrap().get("summer").unwrap().get("max"), Some(&34));
}

#[test]
fn missing_overview() {
    let file = map_mod(&[("map.xml", r#"<map></map>"#)]);
    let result = read_map_basics(&file, Some("map.xml")).unwrap();
    assert_eq!(result.map_image_file, None);
}

#[test]
fn map_basics_of_a_custom_map() {
    let config = r#"<?xml version="1.0" encoding="utf-8" standalone="no"?>
<map imageFilename="maps/overview.png">
    <fruitTypes filename="maps/fruitTypes.xml"/>
    <growth filename="maps/growth.xml"/>
    <environment filename="maps/environment.xml"/>
</map>"#;
    let file = map_mod(&[("map.xml", config), ("maps/fruitTypes.xml", FRUIT_TYPES), ("maps/growth.xml", GROWTH),
        ("maps/environment.xml", ENVIRONMENT)]);
    let mut basics = read_map_basics(&file, Some("map.xml")).unwrap();
    assert_eq!(basics.map_image_file, Some(String::from("maps/overview.dds")));
    assert!(basics.map_custom_crop && basics.map_custom_env && basics.map_custom_grow);
    assert!(!basics.map_is_south);
    assert_eq!(basics.latitude, Some(String::from("-33.5")));
    assert_eq!(basics.crop_info.len(), 3);
    assert_eq!(basics.crop_info.get("wheat").unwrap().harvest_periods, vec![10, 11]);
    assert!(basics.crop_weather.unwrap().get("spring").is_some());

    assert!(read_map_basics(&file, None).is_none());
}

#[test]
fn map_basics_of_a_base_game_map() {
    let config = r#"<?xml version="1.0" encoding="utf-8" standalone="no"?>
<map imageFilename="$data/maps/mapAlpine/overview.png">
    <fruitTypes filename="$data/maps/maps_fruitTypes.xml"/>
    <growth filename="$data/maps/maps_growth.xml"/>
    <environment filename="$data/maps/mapAlpine/environment.xml"/>
</map>"#;
    let file = map_mod(&[("map.xml", config)]);
    let basics = read_map_basics(&file, Some("map.xml")).unwrap();
    assert_eq!(basics.map_image_file, None);
    assert!(!basics.map_custom_crop && !basics.map_custom_env && !basics.map_custom_grow);
    assert_eq!(basics.crop_info.len(), 17);
    assert_eq!(basics.crop_weather.unwrap().get("winter").unwrap().get("max"), Some(&8));

    let basics = read_map_basics(&map_mod(&[]), Some("map.xml")).unwrap();
    assert_eq!(basics.crop_info.len(), 17);
    assert_eq!(basics.crop_weather.unwrap().get("summer").unwrap().get("max"), Some(&34));
}

#[test]
fn map_basics_from_config_events() {
    let config = r#"<?xml version="1.0" encoding="utf-8" standalone="no"?>
<map imageFilename="maps/overview.png">
    <environment filename="$data/maps/mapAlpine/environment.xml"/>
</map>"#;
    let evs = events_of(config).unwrap();
    let basics = map_basics_from_config(&map_mod(&[]), &evs);
    assert_eq!(basics.map_image_file, Some(String::from("maps/overview.dds")));
    assert!(!basics.map_custom_env && !basics.map_custom_grow && !basics.map_custom_crop);
    assert_eq!(basics.crop_weather.unwrap().get("winter").unwrap().get("max"), Some(&8));
    assert_eq!(basics.crop_info.len(), 17);
}
