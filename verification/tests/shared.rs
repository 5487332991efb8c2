use fs_mod_parser::shared::{normalize_image_file, ImageFile, AbstractFolder, AbstractNull, new_abstract_folder};
use fs_mod_parser::errors::ModError;

#[test]
fn test_image_file_base() {
    let response = normalize_image_file(Some("$data/something.dds"));

    let expected = ImageFile {
        original: Some(String::from("$data/something.dds")),
        base_game: Some(String::from("$data/something.dds")),
        local_file: None,
    };

    assert_eq!(response, expected);
}

#[test]
fn test_image_file_local_dds() {
    let response = normalize_image_file(Some("./data/something.dds"));

    let expected = ImageFile {
        original: Some(String::from("./data/something.dds")),
        base_game: None,
        local_file: Some(String::from("./data/something.dds")),
    };

    assert_eq!(response, expected);
}

#[test]
fn test_image_file_local_png() {
    let response = normalize_image_file(Some("./data/something.PNG"));

    let expected = ImageFile {
        original: Some(String::from("./data/something.dds")),
        base_game: None,
        local_file: Some(String::from("./data/something.dds")),
    };

    assert_eq!(response, expected);
}

#[test]
fn test_image_file_fail() {
    let response = normalize_image_file(None);

    let expected = ImageFile {
        base_game: None,
        local_file: None,
        original: None,
    };

    assert_eq!(response, expected);
}

#[test]
fn image_file_backslashes() {
    let response = normalize_image_file(Some("data\\icons\\icon.png"));
    assert_eq!(response.local_file, Some(String::from("data/icons/icon.dds")));
}

#[test]
fn folder_handles() {
    assert!(AbstractFolder::new("mods/FS22_Mod", true).is_ok());
    assert_eq!(AbstractFolder::new("mods/FS22_Mod", false).unwrap_err(), ModError::FileErrorUnreadableZip);
    assert_eq!(new_abstract_folder("mods/FS22_Mod", true).map(|f| f.path), Ok(String::from("mods/FS22_Mod")));
    assert!(AbstractNull::new().is_ok());
}
