use fs_mod_parser::maps::{bool_array_to_vector, crops_from_base_game, decode_max_range, fruits_from_base_game,
    get_base_game_entry_key, get_real_index, nullify_base_game_entry, weather_from_base_game};
use fs_mod_parser::maps::structs::{CropList, CropOutput};
use fs_mod_parser::xml::events_of;

#[test]
fn base_game_weather_invalid_id() {
    let weather = weather_from_base_game("foo");

    assert_eq!(weather.0, false);
    assert!(weather.1.is_none());
}

#[test]
fn base_game_weather_alpine() {
    let weather = weather_from_base_game("mapAlpine");
    assert_eq!(weather.0, false);
    let map = weather.1.expect("alpine weather");
    assert_eq!(map.len(), 4);
    let winter = map.get("winter").expect("winter");
    assert_eq!(winter.get("min"), Some(&-12));
    assert_eq!(winter.get("max"), Some(&8));
}

#[test]
fn test_array_convert() {
    let input: [bool; 12] = [true, false, false, true, true, false, false, true, true, false, false, true];
    let output = bool_array_to_vector(input);
    let expected: Vec<u8> = vec![1, 4, 5, 8, 9, 12];
    assert_eq!(output, expected);
}

#[test]
fn test_game_entry_key_valid_us() {
    let document = events_of(r#"<map><environment filename="$data/maps/mapUS/environment.xml" /></map>"#).unwrap();
    let result = get_base_game_entry_key(&document);
    assert_eq!(result, Some("mapUS".to_string()));
}

#[test]
fn test_game_entry_key_valid_fr() {
    let document = events_of(r#"<map><environment filename="$data/maps/mapFR/environment.xml" /></map>"#).unwrap();
    let result = get_base_game_entry_key(&document);
    assert_eq!(result, Some("mapFR".to_string()));
}

#[test]
fn test_game_entry_key_valid_alpine() {
    let document = events_of(r#"<map><environment filename="$data/maps/mapAlpine/environment.xml" /></map>"#).unwrap();
    let result = get_base_game_entry_key(&document);
    assert_eq!(result, Some("mapAlpine".to_string()));
}

#[test]
fn test_game_entry_key_valid_unknown() {
    let document = events_of(r#"<map><environment filename="$data/maps/mapBullshit/environment.xml" /></map>"#).unwrap();
    let result = get_base_game_entry_key(&document);
    assert_eq!(result, Some("mapUS".to_string()));
}

#[test]
fn test_game_entry_key_missing_filename() {
    let document = events_of(r#"<map><environment name="$data/maps/mapBullshit/environment.xml" /></map>"#).unwrap();
    let result = get_base_game_entry_key(&document);
    assert_eq!(result, Some("mapUS".to_string()));
}

#[test]
fn test_game_null_entry_key_missing_filename() {
    let document = events_of(r#"<map><environment name="$data/maps/mapBullshit/environment.xml" /></map>"#).unwrap();
    let result = nullify_base_game_entry(&document, "environment");
    assert_eq!(result, None);
}

#[test]
fn test_game_entry_key_invalid() {
    let document = events_of(r#"<map><environment filename="maps/mapUS/environment.xml" /></map>"#).unwrap();
    let result = get_base_game_entry_key(&document);
    assert_eq!(result, None);
}

#[test]
fn test_mod_entry_invalid() {
    let document = events_of(r#"<map><environment filename="$data/maps/mapUS/environment.xml" /></map>"#).unwrap();
    let result = nullify_base_game_entry(&document, "environment");
    assert_eq!(result, None);
}

#[test]
fn test_mod_entry_valid() {
    let document = events_of(r#"<map><environment filename="maps/mapUS/environment.xml" /></map>"#).unwrap();
    let result = nullify_base_game_entry(&document, "environment");
    assert_eq!(result, Some("maps/mapUS/environment.xml".to_string()));
}

#[test]
fn test_range() {
    // Invalid options
    assert_eq!(decode_max_range(Some("1-4-8")), 8_u8);
    assert_eq!(decode_max_range(Some("1-")), 0_u8);
    assert_eq!(decode_max_range(Some("-6")), 6_u8);
    // Valid options
    assert_eq!(decode_max_range(Some("1-4")), 4_u8);
    assert_eq!(decode_max_range(Some("3")), 3_u8);
    assert_eq!(decode_max_range(None), 0_u8);
}

#[test]
fn range_out_of_u8() {
    assert_eq!(decode_max_range(Some("300")), 0_u8);
    assert_eq!(decode_max_range(Some("1-255")), 255_u8);
}

#[test]
fn real_index_wraps() {
    assert_eq!(get_real_index(1, "wheat"), 2);
    assert_eq!(get_real_index(12, "wheat"), 1);
    assert_eq!(get_real_index(11, "olive"), 1);
    assert_eq!(get_real_index(12, "olive"), 2);
}

#[test]
fn base_game_crop_list() {
    let mut crops = crops_from_base_game();
    assert_eq!(crops.len(), 17);
    assert!(!crops.is_empty());
    let wheat = crops.get("wheat").expect("wheat");
    assert_eq!(wheat.growth_time, 8);
    assert_eq!(wheat.harvest_periods, vec![5, 6]);
    assert_eq!(wheat.plant_periods, vec![7, 8]);
    let cotton = crops.get("cotton").expect("cotton");
    assert_eq!(cotton.plant_periods, vec![1, 12]);
    assert!(crops.get("meadow").is_none());
}

#[test]
fn base_game_fruits_old() {
    let fruits = fruits_from_base_game();
    assert_eq!(fruits.len(), 17);
    assert_eq!(fruits[12].name, "grape");
    assert_eq!(fruits[12].max_harvest, 11);
    assert_eq!(fruits[12].min_harvest, 10);
    assert_eq!(fruits[12].states, 7);
}

#[test]
fn crop_list_basics() {
    let mut list = CropList::new();
    assert!(list.is_empty());
    list.insert(String::from("wheat"), CropOutput::new(8));
    list.insert(String::from("wheat"), CropOutput::new(9));
    assert_eq!(list.len(), 1);
    assert_eq!(list.get("wheat").map(|c| c.growth_time), Some(9));
    assert!(list.get("barley").is_none());
}

#[test]
fn crop_list_keeps_insertion_order() {
    let mut list = CropList::new();
    list.insert(String::from("wheat"), CropOutput::new(8));
    list.insert(String::from("barley"), CropOutput::new(7));
    list.insert(String::from("wheat"), CropOutput::new(9));
    assert_eq!(list.names(), vec![String::from("wheat"), String::from("barley"), String::from("wheat")]);
    assert_eq!(list.len(), 2);
}
