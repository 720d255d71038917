use unreal_plugin_launcher::plugins::{collect_plugins, is_plugin_descriptor, plugin_from_entry, PluginEntry};

fn entry(components: &[&str], is_file: bool, text: Option<&str>) -> PluginEntry {
    PluginEntry {
        components: components.iter().map(|c| c.to_string()).collect(),
        file_name: components.last().map(|c| c.to_string()),
        is_file,
        text: text.map(|t| t.to_string()),
    }
}

#[test]
fn descriptor_name_comes_from_json() {
    let e = entry(&["/", "opt", "Plugins", "FX", "Niagara.uplugin"], true, Some("{\"Name\": \"NiagaraFX\"}"));
    let p = plugin_from_entry(&e).unwrap();
    assert_eq!(p.name, "NiagaraFX");
    assert!(!p.is_marketplace);
}

#[test]
fn descriptor_without_name_uses_file_stem() {
    let e = entry(&["Plugins", "Water.uplugin"], true, Some("{\"FriendlyName\": \"W\"}"));
    assert_eq!(plugin_from_entry(&e).unwrap().name, "Water");
    let unreadable = entry(&["Plugins", "My.Tool.uplugin"], true, None);
    assert_eq!(plugin_from_entry(&unreadable).unwrap().name, "My.Tool");
    let broken = entry(&["Plugins", "Broken.uplugin"], true, Some("{not json"));
    assert_eq!(plugin_from_entry(&broken).unwrap().name, "Broken");
    let numeric = entry(&["Plugins", "Num.uplugin"], true, Some("{\"Name\": 3}"));
    assert_eq!(plugin_from_entry(&numeric).unwrap().name, "Num");
}

#[test]
fn marketplace_component_ignores_ascii_case() {
    let e = entry(&["Plugins", "marketPLACE", "Tool", "Tool.uplugin"], true, None);
    assert!(plugin_from_entry(&e).unwrap().is_marketplace);
    let e2 = entry(&["Plugins", "Marketplaces", "Tool.uplugin"], true, None);
    assert!(!plugin_from_entry(&e2).unwrap().is_marketplace);
}

#[test]
fn only_uplugin_files_are_descriptors() {
    assert!(plugin_from_entry(&entry(&["Plugins", "Readme.txt"], true, None)).is_none());
    assert!(plugin_from_entry(&entry(&["Plugins", "Dir.uplugin"], false, None)).is_none());
    assert!(plugin_from_entry(&entry(&["Plugins", ".uplugin"], true, None)).is_none());
    assert!(plugin_from_entry(&entry(&["Plugins", "Tool.UPLUGIN"], true, None)).is_none());
    assert!(plugin_from_entry(&entry(&["Plugins", "Tool.uplugin.bak"], true, None)).is_none());
}

#[test]
fn list_is_sorted_and_ascii_case_duplicates_dropped() {
    let entries = vec![
        entry(&["Plugins", "water.uplugin"], true, None),
        entry(&["Plugins", "Niagara.uplugin"], true, None),
        entry(&["Plugins", "Marketplace", "WATER.uplugin"], true, None),
        entry(&["Plugins", "apex.uplugin"], true, None),
        entry(&["Plugins", "notes.txt"], true, None),
        entry(&["Plugins", "Sub"], false, None),
    ];
    let list = collect_plugins(&entries);
    let names: Vec<&str> = list.iter().map(|p| p.name.as_str()).collect();
    assert_eq!(names, vec!["apex", "Niagara", "water"]);
    assert!(!list[2].is_marketplace);
}

#[test]
fn empty_walk_gives_empty_list() {
    assert!(collect_plugins(&Vec::new()).is_empty());
}

#[test]
fn descriptor_file_names() {
    assert!(is_plugin_descriptor("Niagara.uplugin"));
    assert!(is_plugin_descriptor("a.b.uplugin"));
    assert!(!is_plugin_descriptor(".uplugin"));
    assert!(!is_plugin_descriptor("Niagara.uplugin.old"));
    assert!(!is_plugin_descriptor("uplugin"));
}
