use downloader_core::manifest::{PluginFunction, PluginManifest};
use downloader_core::registry::{host_matches, PluginRegistry};

fn manifest(id: &str, hosts: &[&str], actions: &[&str]) -> PluginManifest {
    PluginManifest {
        id: id.to_string(),
        name: format!("{} provider", id),
        version: "1.0".to_string(),
        supported_hosts: hosts.iter().map(|h| h.to_string()).collect(),
        entry_point: "run.py".to_string(),
        plugin_type: "native".to_string(),
        plugin_function: PluginFunction::Download,
        external_binary: false,
        language: None,
        successful: None,
        install_instruction: None,
        supported_actions: actions.iter().map(|a| a.to_string()).collect(),
        category: "optional".to_string(),
        download_url: None,
        binary_path: None,
    }
}

#[test]
fn wildcard_pattern_matches_subdomains() {
    assert!(host_matches("*.example.com", "cdn.example.com"));
    assert!(host_matches("*.example.com", "a.b.example.com"));
    assert!(!host_matches("*.example.com", "example.com"));
    assert!(!host_matches("*.example.com", "notexample.com"));
}

#[test]
fn exact_pattern_matches_case_insensitively() {
    assert!(host_matches("Example.com", "example.COM"));
    assert!(host_matches("*.Example.COM", "CDN.example.com"));
    assert!(!host_matches("example.com", "other.com"));
}

#[test]
fn register_get_and_remove() {
    let mut reg = PluginRegistry::new();
    reg.register_plugin(manifest("mega", &["mega.nz"], &["download"]));
    reg.register_plugin(manifest("mf", &["*.mediafire.com"], &["download"]));
    assert_eq!(reg.get_plugin_ids(), vec!["mega".to_string(), "mf".to_string()]);
    assert!(reg.get_plugin("mega").is_some());
    assert!(reg.get_plugin("nope").is_none());
    reg.remove_plugin("mega");
    assert!(reg.get_plugin("mega").is_none());
    assert_eq!(reg.get_all_plugins().len(), 1);
}

#[test]
fn reregistering_an_id_replaces_the_manifest() {
    let mut reg = PluginRegistry::new();
    reg.register_plugin(manifest("p", &["a.com"], &["download"]));
    let mut second = manifest("p", &["b.com"], &["download"]);
    second.name = "renamed".to_string();
    reg.register_plugin(second);
    assert_eq!(reg.get_all_plugins().len(), 1);
    assert_eq!(reg.get_plugin("p").unwrap().name, "renamed");
}

#[test]
fn find_plugin_for_action_takes_first_match() {
    let mut reg = PluginRegistry::new();
    reg.register_plugin(manifest("one", &["*.example.com"], &["download"]));
    reg.register_plugin(manifest("two", &["cdn.example.com"], &["download"]));
    let found = reg.find_plugin_for_action("download", Some("cdn.example.com"));
    assert_eq!(found.unwrap().id, "one");
    assert!(reg.find_plugin_for_action("translate", Some("cdn.example.com")).is_none());
    assert!(reg.find_plugin_for_action("download", Some("elsewhere.org")).is_none());
}

#[test]
fn find_plugin_without_host_matches_unconditionally() {
    let mut reg = PluginRegistry::new();
    reg.register_plugin(manifest("one", &["only.example.com"], &["translate"]));
    let found = reg.find_plugin_for_action("translate", None);
    assert_eq!(found.unwrap().id, "one");
}

#[test]
fn find_plugins_by_function_filters() {
    let mut reg = PluginRegistry::new();
    reg.register_plugin(manifest("a", &["x.com"], &["download"]));
    let mut b = manifest("b", &["y.com"], &["translate"]);
    b.plugin_function = PluginFunction::Translate;
    reg.register_plugin(b);
    let mut c = manifest("c", &["z.com"], &["custom"]);
    c.plugin_function = PluginFunction::Custom("patcher".to_string());
    reg.register_plugin(c);
    assert_eq!(reg.find_plugins_by_function(PluginFunction::Download).len(), 1);
    assert_eq!(reg.find_plugins_by_function(PluginFunction::Translate).len(), 1);
    let custom = reg.find_plugins_by_function(PluginFunction::Custom("patcher".to_string()));
    assert_eq!(custom.len(), 1);
    assert_eq!(custom[0].id, "c");
    assert!(reg.find_plugins_by_function(PluginFunction::Custom("other".to_string())).is_empty());
}
