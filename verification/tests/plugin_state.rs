use unreal_plugin_launcher::config::{Config, EngineConfig};
use unreal_plugin_launcher::plugins::{get_plugin_state, plugin_overrides, set_plugin_state};

#[test]
fn unknown_engine_reads_default() {
    let config = Config::new();
    assert_eq!(get_plugin_state(&config, "5.3", "Niagara"), "default");
}

#[test]
fn get_after_set_returns_state() {
    let mut config = Config::new();
    set_plugin_state(&mut config, "5.3", "Niagara", "enable");
    assert_eq!(get_plugin_state(&config, "5.3", "Niagara"), "enable");
    set_plugin_state(&mut config, "5.3", "Niagara", "disable");
    assert_eq!(get_plugin_state(&config, "5.3", "Niagara"), "disable");
    set_plugin_state(&mut config, "5.3", "Niagara", "default");
    assert_eq!(get_plugin_state(&config, "5.3", "Niagara"), "default");
}

#[test]
fn set_to_default_removes_override_but_keeps_engine_entry() {
    let mut config = Config::new();
    set_plugin_state(&mut config, "5.3", "Niagara", "default");
    assert!(config.engines.contains_key("5.3"));
    let engine = config.engines.get("5.3").unwrap();
    assert_eq!(engine.plugins.len(), 0);
    assert!(engine.path.is_none());
}

#[test]
fn set_leaves_other_pairs_unchanged() {
    let mut config = Config::new();
    set_plugin_state(&mut config, "5.3", "Niagara", "enable");
    set_plugin_state(&mut config, "5.4", "Niagara", "disable");
    set_plugin_state(&mut config, "5.3", "Water", "disable");
    assert_eq!(get_plugin_state(&config, "5.3", "Niagara"), "enable");
    assert_eq!(get_plugin_state(&config, "5.4", "Niagara"), "disable");
    assert_eq!(get_plugin_state(&config, "5.3", "Water"), "disable");
    assert_eq!(get_plugin_state(&config, "5.4", "Water"), "default");
}

#[test]
fn last_set_wins() {
    let mut config = Config::new();
    set_plugin_state(&mut config, "5.3", "Niagara", "disable");
    set_plugin_state(&mut config, "5.3", "Niagara", "enable");
    assert_eq!(get_plugin_state(&config, "5.3", "Niagara"), "enable");
    assert_eq!(config.engines.get("5.3").unwrap().plugins.len(), 1);
}

#[test]
fn set_keeps_configured_path() {
    let mut config = Config::new();
    let mut engine = EngineConfig::new();
    engine.path = Some("/opt/UE_5.3".to_string());
    config.engines.insert("5.3".to_string(), engine);
    set_plugin_state(&mut config, "5.3", "Niagara", "enable");
    assert_eq!(config.engines.get("5.3").unwrap().path.as_deref(), Some("/opt/UE_5.3"));
}

#[test]
fn overrides_are_sorted_case_insensitively() {
    let mut config = Config::new();
    set_plugin_state(&mut config, "5.3", "water", "enable");
    set_plugin_state(&mut config, "5.3", "Niagara", "enable");
    set_plugin_state(&mut config, "5.3", "apex", "enable");
    set_plugin_state(&mut config, "5.3", "Zed", "disable");
    set_plugin_state(&mut config, "5.3", "Bolt", "disable");
    let (enable, disable) = plugin_overrides(&config, "5.3");
    assert_eq!(enable, vec!["apex".to_string(), "Niagara".to_string(), "water".to_string()]);
    assert_eq!(disable, vec!["Bolt".to_string(), "Zed".to_string()]);
}

#[test]
fn overrides_of_unknown_engine_are_empty() {
    let mut config = Config::new();
    set_plugin_state(&mut config, "5.3", "Niagara", "enable");
    let (enable, disable) = plugin_overrides(&config, "4.27");
    assert!(enable.is_empty());
    assert!(disable.is_empty());
}

#[test]
fn default_state_is_in_neither_list() {
    let mut config = Config::new();
    set_plugin_state(&mut config, "5.3", "Niagara", "enable");
    set_plugin_state(&mut config, "5.3", "Niagara", "default");
    let (enable, disable) = plugin_overrides(&config, "5.3");
    assert!(enable.is_empty());
    assert!(disable.is_empty());
}

#[test]
fn other_stored_states_are_in_neither_list() {
    let mut config = Config::new();
    let mut engine = EngineConfig::new();
    engine.plugins.insert("Odd".to_string(), "maybe".to_string());
    config.engines.insert("5.3".to_string(), engine);
    assert_eq!(get_plugin_state(&config, "5.3", "Odd"), "maybe");
    let (enable, disable) = plugin_overrides(&config, "5.3");
    assert!(enable.is_empty());
    assert!(disable.is_empty());
}
