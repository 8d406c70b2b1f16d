use gallery_fetch::extractor::common::{ExtractedItem, ExtractorOptions};

#[test]
fn options_keep_the_root_folder() {
    let config = ExtractorOptions::new("test");
    assert_eq!(config.root_save_folder(), "test");
}

#[test]
fn save_file_to_joins_the_root_and_the_path() {
    let config = ExtractorOptions::new("test");
    let joined = config.save_file_to("imgur/a.png");
    assert_eq!(std::path::PathBuf::from(joined), std::path::Path::new("test").join("imgur/a.png"));
    assert_ne!(config.save_file_to("imgur/a.png"), "imgur/a.png");
    assert_ne!(config.save_file_to("imgur/a.png"), "test");
}

#[test]
fn item_keeps_its_parts() {
    let item = ExtractedItem::new("https://i.imgur.com/a.png", "imgur/a.png".to_string());
    assert_eq!(item.link, "https://i.imgur.com/a.png");
    assert_eq!(item.save_path, "imgur/a.png");
}
