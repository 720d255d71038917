use unreal_plugin_launcher::paths::{file_extension, file_stem_of, join_path, Platform};
use unreal_plugin_launcher::plugins::sort_by_lowercase;
use unreal_plugin_launcher::string_map::StringMap;
use unreal_plugin_launcher::text::{
    chars_le_exec, chars_of, contains_run_exec, decimal_string, eq_ignore_ascii_case_exec, join_strings, strip_prefix,
};

#[test]
fn code_point_order() {
    assert!(chars_le_exec(&chars_of("abc"), &chars_of("abd")));
    assert!(chars_le_exec(&chars_of("ab"), &chars_of("abc")));
    assert!(!chars_le_exec(&chars_of("b"), &chars_of("abc")));
    assert!(chars_le_exec(&chars_of(""), &chars_of("")));
    assert!(chars_le_exec(&chars_of("Z"), &chars_of("a")));
    assert!(chars_le_exec(&chars_of("z"), &chars_of("é")));
}

#[test]
fn ascii_case_and_search() {
    assert!(eq_ignore_ascii_case_exec(&chars_of("MarketPlace"), &chars_of("marketplace")));
    assert!(!eq_ignore_ascii_case_exec(&chars_of("É"), &chars_of("é")));
    assert!(!eq_ignore_ascii_case_exec(&chars_of("ab"), &chars_of("abc")));
    assert!(contains_run_exec(&chars_of("niagara"), &chars_of("aga")));
    assert!(contains_run_exec(&chars_of("niagara"), &chars_of("")));
    assert!(!contains_run_exec(&chars_of("nia"), &chars_of("niagara")));
}

#[test]
fn decimal_and_join() {
    assert_eq!(decimal_string(0), "0");
    assert_eq!(decimal_string(1907), "1907");
    assert_eq!(join_strings(&vec!["a".to_string(), "b".to_string(), "c".to_string()], ","), "a,b,c");
    assert_eq!(join_strings(&vec![], ","), "");
    assert_eq!(strip_prefix("UE_5.3", "UE_").as_deref(), Some("5.3"));
    assert_eq!(strip_prefix("UE", "UE_"), None);
}

#[test]
fn lowercase_sort_is_stable() {
    let v = vec!["b".to_string(), "A".to_string(), "a".to_string(), "B".to_string(), "Ärger".to_string()];
    assert_eq!(sort_by_lowercase(v), vec!["A", "a", "b", "B", "Ärger"]);
}

#[test]
fn file_names() {
    assert_eq!(file_extension("a.b.uplugin").as_deref(), Some("uplugin"));
    assert_eq!(file_extension("a.").as_deref(), Some(""));
    assert_eq!(file_extension(".hidden"), None);
    assert_eq!(file_extension("plain"), None);
    assert_eq!(file_stem_of("a.b.uplugin"), "a.b");
    assert_eq!(file_stem_of(".hidden"), ".hidden");
    assert_eq!(file_stem_of("plain"), "plain");
    assert_eq!(join_path(Platform::Linux, "/a", "b"), "/a/b");
    assert_eq!(join_path(Platform::Windows, "C:\\a\\", "b"), "C:\\a\\b");
    assert_eq!(join_path(Platform::Windows, "C:", "Engine"), "C:Engine");
    assert_eq!(join_path(Platform::Linux, "C:", "Engine"), "C:/Engine");
    assert_eq!(join_path(Platform::Windows, "1:", "Engine"), "1:\\Engine");
}

#[test]
fn string_map_operations() {
    let mut m: StringMap<u32> = StringMap::new();
    m.insert("a".to_string(), 1);
    m.insert("b".to_string(), 2);
    m.insert("a".to_string(), 3);
    assert_eq!(m.len(), 2);
    assert_eq!(m.get("a"), Some(&3));
    assert_eq!(m.remove("a"), Some(3));
    assert_eq!(m.remove("a"), None);
    assert!(!m.contains_key("a"));
    assert_eq!(*m.value_at(0), 2);
    assert_eq!(m.key_at(0), "b");
}

#[test]
fn ascii_names_sort_case_insensitively() {
    let v = vec!["Beta".to_string(), "alpha".to_string(), "Gamma".to_string(), "delta".to_string()];
    assert_eq!(sort_by_lowercase(v), vec!["alpha", "Beta", "delta", "Gamma"]);
}
