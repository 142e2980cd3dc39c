use rustdoc_text::config::Config;

#[test]
fn new_defaults_to_offline_and_no_item() {
    let config = Config::new("serde");
    assert_eq!(config.crate_name, "serde");
    assert_eq!(config.online, false);
    assert!(config.item_path.is_none());
}

#[test]
fn with_item_path_sets_the_item() {
    let config = Config::new("serde").with_item_path("Deserializer");
    assert_eq!(config.item_path, Some("Deserializer".to_string()));
    assert_eq!(config.crate_name, "serde");
}

#[test]
fn with_online_sets_the_flag() {
    let config = Config::new("serde").with_online(true);
    assert_eq!(config.online, true);
    let config = config.with_online(false);
    assert_eq!(config.online, false);
}
