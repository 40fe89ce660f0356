use dim::config::Config;

#[test]
fn test_config_default() {
    let config = Config::default();
    assert_eq!(config.tab_width, 4);
    assert!(!config.skk_enabled);
    assert_eq!(config.skk_system_dictionary_path, None);
    assert_eq!(config.skk_user_dictionary_path, None);
}

