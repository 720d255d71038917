use unreal_plugin_launcher::config::{Config, EngineConfig};
use unreal_plugin_launcher::engine::{
    add_engine, build_version_from_json, collect_engines, configured_engine_path, editor_executable,
    engine_association_from_json, find_engine_path, format_build_version, normalize_version_from_folder,
    EngineCandidate, EngineInfo, EngineSource,
};
use unreal_plugin_launcher::paths::Platform;

fn engine(id: &str, display: &str, path: &str) -> EngineInfo {
    EngineInfo { id: id.to_string(), display_version: display.to_string(), path: path.to_string() }
}

#[test]
fn folder_names_are_normalized() {
    assert_eq!(normalize_version_from_folder("UE_5.3").as_deref(), Some("5.3"));
    assert_eq!(normalize_version_from_folder("UnrealEngine-5.4").as_deref(), Some("5.4"));
    assert_eq!(normalize_version_from_folder("UE_"), Some(String::new()));
    assert_eq!(normalize_version_from_folder("Unreal"), None);
    assert_eq!(normalize_version_from_folder("ue_5.3"), None);
}

#[test]
fn build_version_formats() {
    assert_eq!(format_build_version(Some(5), Some(3), Some(2)).as_deref(), Some("5.3.2"));
    assert_eq!(format_build_version(Some(4), Some(27), None).as_deref(), Some("4.27"));
    assert_eq!(format_build_version(None, Some(3), Some(2)), None);
    assert_eq!(format_build_version(Some(5), None, Some(2)), None);
    assert_eq!(format_build_version(Some(18446744073709551615), Some(0), Some(10)).as_deref(), Some("18446744073709551615.0.10"));
}

#[test]
fn build_version_from_build_file() {
    let text = "{\"MajorVersion\": 5, \"MinorVersion\": 3, \"PatchVersion\": 2, \"Changelist\": 1}";
    assert_eq!(build_version_from_json(text).as_deref(), Some("5.3.2"));
    assert_eq!(build_version_from_json("{\"MajorVersion\": 5, \"MinorVersion\": 1}").as_deref(), Some("5.1"));
    assert_eq!(build_version_from_json("{\"MajorVersion\": 5, \"MinorVersion\": 1, \"PatchVersion\": -1}").as_deref(), Some("5.1"));
    assert_eq!(build_version_from_json("{\"MajorVersion\": \"5\", \"MinorVersion\": 1}"), None);
    assert_eq!(build_version_from_json("not json"), None);
}

#[test]
fn engine_association_is_read() {
    assert_eq!(engine_association_from_json("{\"EngineAssociation\": \"5.3\", \"Modules\": []}").as_deref(), Some("5.3"));
    assert_eq!(engine_association_from_json("{\"EngineAssociation\": 5}"), None);
    assert_eq!(engine_association_from_json("{}"), None);
    assert_eq!(engine_association_from_json("["), None);
}

#[test]
fn add_engine_needs_existing_path() {
    let mut engines = Vec::new();
    add_engine(&mut engines, "5.3".to_string(), "5.3.2".to_string(), "/opt/UE_5.3".to_string(), true);
    add_engine(&mut engines, "5.4".to_string(), "5.4".to_string(), "/missing".to_string(), false);
    assert_eq!(engines.len(), 1);
    assert_eq!(engines[0].display_version, "5.3.2");
}

fn candidate(source: EngineSource, name: &str, path: &str, is_dir: bool, text: Option<&str>, exists: bool) -> EngineCandidate {
    EngineCandidate {
        source,
        name: name.to_string(),
        path: path.to_string(),
        is_dir,
        build_version_text: text.map(|t| t.to_string()),
        path_exists: exists,
    }
}

#[test]
fn engines_are_collected_and_sorted() {
    let candidates = vec![
        candidate(EngineSource::Registry, "{GUID-1}", "D:/Source/UE", true, Some("{\"MajorVersion\":5,\"MinorVersion\":4}"), true),
        candidate(EngineSource::Registry, "{GUID-2}", "", true, None, true),
        candidate(EngineSource::InstallFolder, "UE_5.3", "/opt/UE_5.3", true, Some("{\"MajorVersion\":5,\"MinorVersion\":3,\"PatchVersion\":2}"), true),
        candidate(EngineSource::InstallFolder, "UE_4.27", "/opt/UE_4.27", true, None, true),
        candidate(EngineSource::InstallFolder, "Other", "/opt/Other", true, None, true),
        candidate(EngineSource::InstallFolder, "UE_5.0", "/opt/UE_5.0", false, None, true),
        candidate(EngineSource::InstallFolder, "UE_5.1", "/opt/UE_5.1", true, None, false),
        candidate(EngineSource::Registry, "Custom", "/gone", true, None, false),
    ];
    let engines = collect_engines(&candidates);
    let rows: Vec<(&str, &str, &str)> = engines
        .iter()
        .map(|e| (e.id.as_str(), e.display_version.as_str(), e.path.as_str()))
        .collect();
    assert_eq!(
        rows,
        vec![
            ("4.27", "4.27", "/opt/UE_4.27"),
            ("5.3", "5.3.2", "/opt/UE_5.3"),
            ("{GUID-1}", "5.4", "D:/Source/UE"),
        ]
    );
}

#[test]
fn equal_versions_keep_detection_order() {
    let candidates = vec![
        candidate(EngineSource::InstallFolder, "UE_5.3", "/a/UE_5.3", true, None, true),
        candidate(EngineSource::InstallFolder, "UE_5.3", "/b/UE_5.3", true, None, true),
    ];
    let engines = collect_engines(&candidates);
    assert_eq!(engines[0].path, "/a/UE_5.3");
    assert_eq!(engines[1].path, "/b/UE_5.3");
}

#[test]
fn engine_path_prefers_existing_configured_path() {
    let mut config = Config::new();
    let mut e = EngineConfig::new();
    e.path = Some("/custom/5.3".to_string());
    config.engines.insert("5.3".to_string(), e);
    let detected = vec![engine("5.3", "5.3.2", "/opt/UE_5.3")];
    assert_eq!(configured_engine_path(&config, "5.3").as_deref(), Some("/custom/5.3"));
    assert_eq!(find_engine_path("5.3", &config, &detected, true).as_deref(), Some("/custom/5.3"));
    assert_eq!(find_engine_path("5.3", &config, &detected, false).as_deref(), Some("/opt/UE_5.3"));
}

#[test]
fn engine_path_by_id_then_display_version() {
    let config = Config::new();
    let detected = vec![
        engine("{GUID}", "5.4", "/src/UE"),
        engine("5.4", "5.4.1", "/opt/UE_5.4"),
        engine("5.2", "5.2", "/opt/UE_5.2"),
    ];
    assert_eq!(find_engine_path("5.4", &config, &detected, false).as_deref(), Some("/opt/UE_5.4"));
    assert_eq!(find_engine_path("5.4.1", &config, &detected, false).as_deref(), Some("/opt/UE_5.4"));
    assert_eq!(find_engine_path("{GUID}", &config, &detected, false).as_deref(), Some("/src/UE"));
    assert_eq!(find_engine_path("4.27", &config, &detected, true), None);
    assert_eq!(configured_engine_path(&config, "5.4"), None);
}

#[test]
fn editor_executable_per_platform() {
    assert_eq!(
        editor_executable("/opt/UE_5.3", Platform::Linux),
        "/opt/UE_5.3/Engine/Binaries/Linux/UnrealEditor"
    );
    assert_eq!(
        editor_executable("/opt/UE_5.3/", Platform::Other),
        "/opt/UE_5.3/Engine/Binaries/Linux/UnrealEditor"
    );
    assert_eq!(
        editor_executable("C:\\Program Files\\Epic Games\\UE_5.3", Platform::Windows),
        "C:\\Program Files\\Epic Games\\UE_5.3\\Engine\\Binaries\\Win64\\UnrealEditor.exe"
    );
    assert_eq!(
        editor_executable("C:/Epic/UE_5.3/", Platform::Windows),
        "C:/Epic/UE_5.3/Engine\\Binaries\\Win64\\UnrealEditor.exe"
    );
    assert_eq!(
        editor_executable("/Users/Shared/Epic Games/UE_5.3", Platform::MacOs),
        "/Users/Shared/Epic Games/UE_5.3/Engine/Binaries/Mac/UnrealEditor.app/Contents/MacOS/UnrealEditor"
    );
    assert_eq!(editor_executable("", Platform::Linux), "Engine/Binaries/Linux/UnrealEditor");
}
