use minion::config::Config;

#[test]
fn test_new_config_no_file() {
    let config = Config::new("config.env");
    assert!(config.get("ANY_KEY").is_none());
    assert_eq!(config.file_path(), "config.env");
    assert_eq!(config.serialize(), "");
}

#[test]
fn test_new_config_existing_file() {
    let config = Config::from_content("config.env", "KEY1=value1\nKEY2=value2\n");
    assert_eq!(config.get("KEY1"), Some(&"value1".to_string()));
    assert_eq!(config.get("KEY2"), Some(&"value2".to_string()));
}

#[test]
fn test_get_set() {
    let mut config = Config::new("test_config");

    assert_eq!(config.get("NON_EXISTENT"), None);

    config.set("NEW_KEY".to_string(), "new_value".to_string());
    assert_eq!(config.get("NEW_KEY"), Some(&"new_value".to_string()));

    config.set("NEW_KEY".to_string(), "updated_value".to_string());
    assert_eq!(config.get("NEW_KEY"), Some(&"updated_value".to_string()));
}

#[test]
fn test_save_deterministic_order() {
    let mut config = Config::new("test_config");
    config.set("C_KEY".to_string(), "valC".to_string());
    config.set("A_KEY".to_string(), "valA".to_string());
    config.set("B_KEY".to_string(), "valB".to_string());

    let content = config.serialize();
    let lines: Vec<&str> = content.lines().collect();

    assert_eq!(lines.len(), 3);
    assert_eq!(lines[0], "A_KEY=valA");
    assert_eq!(lines[1], "B_KEY=valB");
    assert_eq!(lines[2], "C_KEY=valC");
}

#[test]
fn test_save_then_load_reproduces_mapping() {
    let mut config = Config::new("a");
    config.set("VPS_HOST".to_string(), "host.example.com".to_string());
    config.set("APP_PORT".to_string(), "8000".to_string());
    config.set("APP_URL".to_string(), "app.example.com".to_string());

    let saved = config.serialize();
    let reloaded = Config::from_content("a", saved.as_str());
    assert_eq!(reloaded.get("VPS_HOST"), Some(&"host.example.com".to_string()));
    assert_eq!(reloaded.get("APP_PORT"), Some(&"8000".to_string()));
    assert_eq!(reloaded.get("APP_URL"), Some(&"app.example.com".to_string()));
    assert_eq!(reloaded.serialize(), saved);
}

#[test]
fn test_save_byte_identical_across_insertion_orders() {
    let mut one = Config::new("a");
    one.set("B".to_string(), "2".to_string());
    one.set("A".to_string(), "1".to_string());
    one.set("C".to_string(), "3".to_string());

    let mut two = Config::new("a");
    two.set("C".to_string(), "3".to_string());
    two.set("A".to_string(), "1".to_string());
    two.set("B".to_string(), "2".to_string());

    assert_eq!(one.serialize(), two.serialize());
    assert_eq!(one.serialize(), "A=1\nB=2\nC=3");
}

#[test]
fn test_load_trims_and_skips_malformed_lines() {
    let config = Config::from_content("a", " KEY = spaced value \nno separator line\nX=1");
    assert_eq!(config.get("KEY"), Some(&"spaced value".to_string()));
    assert_eq!(config.get("X"), Some(&"1".to_string()));
    assert_eq!(config.get("no separator line"), None);
}

#[test]
fn test_load_splits_at_first_equals() {
    let config = Config::from_content("a", "KEY=a=b=c");
    assert_eq!(config.get("KEY"), Some(&"a=b=c".to_string()));
}

#[test]
fn test_load_later_duplicate_wins() {
    let config = Config::from_content("a", "K=first\nK=second");
    assert_eq!(config.get("K"), Some(&"second".to_string()));
}
