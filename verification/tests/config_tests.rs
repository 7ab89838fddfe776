use dyn_plug::config::{Config, PluginConfig, ServerConfig};

#[test]
fn test_default_config() {
    let config = Config::default();
    assert_eq!(config.plugins_dir, "target/plugins");
    assert_eq!(config.log_level, "info");
    assert_eq!(config.server.host, "127.0.0.1");
    assert_eq!(config.server.port, 8080);
    assert!(config.server.enabled);
    assert!(config.plugins.is_empty());
}

#[test]
fn test_config_validation() {
    let mut config = Config::default();
    config.log_level = "invalid".to_string();
    config.server.port = 0;
    config.server.host = "".to_string();

    let fixed_config = Config::validate_and_fix_config(config);
    assert_eq!(fixed_config.log_level, "info");
    assert_eq!(fixed_config.server.port, 8080);
    assert_eq!(fixed_config.server.host, "127.0.0.1");
}

#[test]
fn test_config_structs_defaults() {
    let config = Config::default();
    assert_eq!(config.plugins_dir, "target/plugins");
    assert_eq!(config.log_level, "info");
    assert!(config.plugins.is_empty());

    let server = ServerConfig::default();
    assert_eq!(server.host, "127.0.0.1");
    assert_eq!(server.port, 8080);
    assert!(server.enabled);

    let plugin = PluginConfig::default();
    assert!(plugin.enabled);
    assert!(plugin.settings.is_empty());
}

#[test]
fn test_plugin_enable_disable() {
    let mut config = Config::default();

    // Plugin should be enabled by default
    assert!(config.is_plugin_enabled("test_plugin"));

    // Disable plugin
    config.disable_plugin("test_plugin");
    assert!(!config.is_plugin_enabled("test_plugin"));

    // Enable plugin
    config.enable_plugin("test_plugin");
    assert!(config.is_plugin_enabled("test_plugin"));
}

#[test]
fn config_test_plugin_settings() {
    let mut config = Config::default();

    config.set_plugin_setting("test_plugin", "test_key", "test_value");

    let retrieved = config.get_plugin_setting("test_plugin", "test_key");
    assert_eq!(retrieved, Some("test_value".to_string()));
}

#[test]
fn validation_keeps_valid_values() {
    let mut config = Config::default();
    config.log_level = "debug".to_string();
    config.server.host = "0.0.0.0".to_string();
    config.server.port = 9090;
    config.plugins_dir = "custom/plugins".to_string();

    let fixed = Config::validate_and_fix_config(config);
    assert_eq!(fixed.log_level, "debug");
    assert_eq!(fixed.server.host, "0.0.0.0");
    assert_eq!(fixed.server.port, 9090);
    assert_eq!(fixed.plugins_dir, "custom/plugins");
}

#[test]
fn validation_fixes_empty_plugins_dir() {
    let mut config = Config::default();
    config.plugins_dir = "".to_string();
    let fixed = Config::validate_and_fix_config(config);
    assert_eq!(fixed.plugins_dir, "target/plugins");
}

#[test]
fn settings_survive_enable_disable() {
    let mut config = Config::default();
    config.set_plugin_setting("p", "k", "v");
    config.disable_plugin("p");
    config.enable_plugin("p");
    assert_eq!(config.get_plugin_setting("p", "k"), Some("v".to_string()));
}

#[test]
fn settings_overwrite_and_isolation() {
    let mut config = Config::default();
    config.set_plugin_setting("p", "k", "v1");
    config.set_plugin_setting("p", "k", "v2");
    config.set_plugin_setting("p", "other", "x");
    config.set_plugin_setting("q", "k", "qq");

    assert_eq!(config.get_plugin_setting("p", "k"), Some("v2".to_string()));
    assert_eq!(config.get_plugin_setting("p", "other"), Some("x".to_string()));
    assert_eq!(config.get_plugin_setting("q", "k"), Some("qq".to_string()));
    assert_eq!(config.get_plugin_setting("p", "missing"), None);
    assert_eq!(config.get_plugin_setting("missing", "k"), None);
}

#[test]
fn update_server_config_partial() {
    let mut config = Config::default();
    config.update_server_config(Some("0.0.0.0".to_string()), None, Some(false));
    assert_eq!(config.server.host, "0.0.0.0");
    assert_eq!(config.server.port, 8080);
    assert!(!config.server.enabled);
}

#[test]
fn set_plugins_dir_updates_path() {
    let mut config = Config::default();
    config.set_plugins_dir("custom_plugins");
    assert_eq!(config.plugins_dir, "custom_plugins");
}

#[test]
fn get_plugin_config_creates_default_record() {
    let mut config = Config::default();
    let record = config.get_plugin_config("new_plugin");
    assert!(record.enabled);
    assert!(record.settings.is_empty());
    assert!(config.plugins.iter().any(|(name, _)| name == "new_plugin"));
}
