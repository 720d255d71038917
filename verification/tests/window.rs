use unreal_plugin_launcher::config::Config;
use unreal_plugin_launcher::engine::EngineInfo;
use unreal_plugin_launcher::gui::{engine_row_label, state_choice_text, LauncherApp, PluginLoad};
use unreal_plugin_launcher::plugins::{get_plugin_state, PluginInfo};

fn engine(id: &str, display: &str, path: &str) -> EngineInfo {
    EngineInfo { id: id.to_string(), display_version: display.to_string(), path: path.to_string() }
}

fn plugin(name: &str, marketplace: bool) -> PluginInfo {
    PluginInfo { name: name.to_string(), is_marketplace: marketplace }
}

fn app() -> LauncherApp {
    LauncherApp::new(
        Config::new(),
        vec![engine("5.3", "5.3", "/opt/UE_5.3"), engine("{GUID}", "5.4", "/src/UE")],
    )
}

#[test]
fn new_window_selects_nothing() {
    let a = app();
    assert!(a.selected.is_none());
    assert!(a.plugins.is_empty());
    assert!(!a.loading_plugins);
    assert_eq!(a.selected_engine_id(), None);
    assert_eq!(a.selected_engine_label(), None);
    assert_eq!(a.plugins_heading(), None);
}

#[test]
fn selecting_scans_then_reuses_cache() {
    let mut a = app();
    match a.select_engine(Some(1)) {
        PluginLoad::Scan { engine_path } => assert_eq!(engine_path, "/src/UE"),
        _ => panic!("expected a scan"),
    }
    assert!(a.loading_plugins);
    assert_eq!(a.loading_version.as_deref(), Some("{GUID}"));
    a.finish_loading(vec![plugin("Water", false)]);
    assert!(!a.loading_plugins);
    assert_eq!(a.plugins.len(), 1);
    assert!(matches!(a.select_engine(Some(1)), PluginLoad::Idle));
    assert!(matches!(a.select_engine(Some(0)), PluginLoad::Scan { .. }));
    a.finish_loading(vec![]);
    match a.select_engine(Some(1)) {
        PluginLoad::FromCache => {},
        _ => panic!("expected the cached list"),
    }
    assert_eq!(a.plugins.len(), 1);
    assert_eq!(a.plugins[0].name, "Water");
}

#[test]
fn deselecting_keeps_scan_running() {
    let mut a = app();
    a.select_engine(Some(0));
    assert!(matches!(a.select_engine(None), PluginLoad::Idle));
    assert!(a.loading_plugins);
    assert!(a.plugins.is_empty());
}

#[test]
fn refresh_forgets_selection_and_cache() {
    let mut a = app();
    a.select_engine(Some(0));
    a.finish_loading(vec![plugin("A", false)]);
    a.refresh_versions(vec![engine("5.3", "5.3", "/opt/UE_5.3")]);
    assert!(a.selected.is_none());
    assert!(a.plugins.is_empty());
    assert_eq!(a.plugin_cache.len(), 0);
    assert_eq!(a.engines.len(), 1);
}

#[test]
fn labels() {
    let mut a = app();
    a.select_engine(Some(1));
    assert_eq!(a.selected_engine_id().as_deref(), Some("{GUID}"));
    assert_eq!(a.selected_engine_label().as_deref(), Some("5.4 ({GUID})"));
    assert_eq!(a.plugins_heading().as_deref(), Some("Plugins for 5.4 ({GUID})"));
    a.select_engine(Some(0));
    assert_eq!(a.selected_engine_label().as_deref(), Some("5.3"));
    assert_eq!(engine_row_label(&a.engines[0]), "5.3 | /opt/UE_5.3");
    assert_eq!(engine_row_label(&a.engines[1]), "5.4 ({GUID}) | /src/UE");
}

#[test]
fn filter_splits_groups() {
    let mut a = app();
    a.select_engine(Some(0));
    a.finish_loading(vec![plugin("Niagara", false), plugin("NiagaraExtras", true), plugin("Water", false)]);
    let (engine_group, market) = a.visible_plugins();
    assert_eq!(engine_group.len(), 2);
    assert_eq!(market.len(), 1);
    a.plugin_filter = "  nIAg ".to_string();
    let (engine_group, market) = a.visible_plugins();
    assert_eq!(engine_group.iter().map(|p| p.name.as_str()).collect::<Vec<_>>(), vec!["Niagara"]);
    assert_eq!(market[0].name, "NiagaraExtras");
    a.plugin_filter = "zzz".to_string();
    let (engine_group, market) = a.visible_plugins();
    assert!(engine_group.is_empty() && market.is_empty());
}

#[test]
fn choosing_states() {
    let mut a = app();
    a.choose_plugin_state("5.3", "Water", "default");
    assert!(!a.config.engines.contains_key("5.3"));
    a.choose_plugin_state("5.3", "Water", "enable");
    assert_eq!(get_plugin_state(&a.config, "5.3", "Water"), "enable");
    a.choose_plugin_state("5.3", "Water", "default");
    assert_eq!(get_plugin_state(&a.config, "5.3", "Water"), "default");
    assert!(a.config.engines.contains_key("5.3"));
    assert_eq!(state_choice_text("enable"), "enable");
    assert_eq!(state_choice_text("disable"), "disable");
    assert_eq!(state_choice_text("default"), "default");
    assert_eq!(state_choice_text("Enable"), "default");
}

#[test]
fn status_reports() {
    let mut a = app();
    a.report_save(Ok(()));
    assert_eq!(a.status, "Configuration saved.");
    a.report_save(Err("disk full".to_string()));
    assert_eq!(a.status, "Save failed: disk full");
    a.report_association(Err("nope".to_string()));
    assert_eq!(a.status, "nope");
    a.report_association(Ok("done".to_string()));
    assert_eq!(a.status, "done");
}

#[test]
fn filter_trims_unicode_white_space() {
    let mut a = app();
    a.select_engine(Some(0));
    a.finish_loading(vec![plugin("Niagara", false), plugin("Water", false)]);
    a.plugin_filter = "\u{3000}WAT\t\u{a0}".to_string();
    let (engine_group, _) = a.visible_plugins();
    assert_eq!(engine_group.len(), 1);
    assert_eq!(engine_group[0].name, "Water");
    a.plugin_filter = " \u{2003} ".to_string();
    let (engine_group, _) = a.visible_plugins();
    assert_eq!(engine_group.len(), 2);
}

#[test]
fn loading_follows_selected_engine() {
    let mut a = app();
    a.select_engine(Some(0));
    assert!(a.loading_plugins);
    assert_eq!(a.loading_version.as_deref(), Some("5.3"));
    a.select_engine(Some(1));
    assert_eq!(a.loading_version.as_deref(), Some("{GUID}"));
    a.finish_loading(vec![plugin("Water", false)]);
    assert!(!a.loading_plugins && a.loading_version.is_none());
    assert!(a.plugin_cache.contains_key("{GUID}"));
    assert!(!a.plugin_cache.contains_key("5.3"));
}
