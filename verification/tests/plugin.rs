use snotes::plugin::api::{PluginApi, PluginExportFormat, PluginToolbarButton};
use snotes::plugin::host::{PluginCapability, PluginHost, PluginManifest, PluginState};

#[test]
fn test_api_defaults() {
    assert_eq!(PluginApi::stroke_count(), 0);
    assert_eq!(PluginApi::current_tool(), "pen");
    assert_eq!(PluginApi::current_color(), "#000000");
}

#[test]
fn plugin_api_registrations_refused_without_host() {
    let button = PluginToolbarButton {
        id: "b".to_string(),
        label: "B".to_string(),
        icon: None,
        tooltip: "t".to_string(),
        callback_name: "cb".to_string(),
    };
    assert!(!PluginApi::register_toolbar_button(button));
    let fmt = PluginExportFormat {
        name: "n".to_string(),
        extension: "x".to_string(),
        description: "d".to_string(),
        callback_name: "cb".to_string(),
    };
    assert!(!PluginApi::register_export_format(fmt));
    assert_eq!(PluginApi::get_setting("k"), None);
    assert!(!PluginApi::set_setting("k", "v"));
}

#[test]
fn test_plugin_host_creation() {
    let host = PluginHost::new("/tmp/snotes_test_plugins");
    assert!(host.list_plugins().is_empty());
}

#[test]
fn test_wasm_validation() {
    let mut host = PluginHost::default();
    // Invalid WASM
    assert!(host.load_wasm("bad", b"not wasm").is_err());
    // Valid WASM magic
    assert!(host.load_wasm("good", b"\0asm\x01\x00\x00\x00").is_ok());
}

fn manifest(name: &str) -> PluginManifest {
    PluginManifest {
        name: name.to_string(),
        version: "1.0.0".to_string(),
        author: "Test".to_string(),
        description: "A test plugin".to_string(),
        capabilities: vec![PluginCapability::ReadStrokes],
        module: "plugin.wasm".to_string(),
        icon: None,
        min_app_version: None,
    }
}

#[test]
fn plugin_lifecycle_from_manifest() {
    let mut host = PluginHost::new("/tmp/snotes_test_plugins_lc");
    host.load_from_manifest(manifest("test-plugin"), "/tmp/snotes_test_plugins_lc/test-plugin", true)
        .ok()
        .unwrap();
    assert_eq!(host.list_plugins().len(), 1);
    assert_eq!(host.list_plugins()[0].manifest.name, "test-plugin");

    assert!(host.grant_capability("test-plugin", PluginCapability::ReadStrokes));
    assert!(host.grant_capability("test-plugin", PluginCapability::ReadStrokes));
    assert_eq!(host.list_plugins()[0].granted_capabilities, vec![PluginCapability::ReadStrokes]);
    // WriteStrokes is not declared in the manifest: refused.
    assert!(!host.grant_capability("test-plugin", PluginCapability::WriteStrokes));
    assert!(!host.grant_capability("no-such-plugin", PluginCapability::ReadStrokes));
    assert_eq!(host.list_plugins()[0].granted_capabilities, vec![PluginCapability::ReadStrokes]);

    assert!(host.pause_plugin("test-plugin"));
    assert_eq!(host.list_plugins()[0].state, PluginState::Paused);
    assert!(host.resume_plugin("test-plugin"));
    assert_eq!(host.list_plugins()[0].state, PluginState::Active);
    assert!(!host.resume_plugin("test-plugin"));

    assert!(host.set_plugin_setting("test-plugin", "color", "#ff0000"));
    assert_eq!(host.get_plugin_setting("test-plugin", "color"), Some("#ff0000"));
    assert_eq!(host.get_plugin_setting("test-plugin", "size"), None);

    assert!(host.unload_plugin("test-plugin"));
    assert!(host.list_plugins().is_empty());
    assert!(!host.unload_plugin("test-plugin"));
}

#[test]
fn plugin_missing_module_refused() {
    let mut host = PluginHost::new("plugins");
    let err = host.load_from_manifest(manifest("p"), "plugins/p", false).err().unwrap();
    assert_eq!(err.message(), "WASM module not found: plugins/p/plugin.wasm");
    assert!(host.list_plugins().is_empty());
}

#[test]
fn plugin_wasm_dev_manifest_and_path() {
    let mut host = PluginHost::new("plugins");
    assert!(host.load_wasm("short", b"\0as").is_err());
    host.load_wasm("dev", b"\0asm").ok().unwrap();
    let p = host.get_plugin("dev").unwrap();
    assert_eq!(p.manifest.version, "dev");
    assert_eq!(p.manifest.module, "dev.wasm");
    assert_eq!(p.path, "plugins/dev");
    assert!(host.get_plugin("other").is_none());
    assert_eq!(
        host.load_wasm("bad", b"wasm").err().unwrap().message(),
        "Invalid WASM module: bad magic number"
    );
}

#[test]
fn plugin_events_reach_active_listeners() {
    let mut host = PluginHost::new("plugins");
    host.load_wasm("a", b"\0asm").ok().unwrap();
    host.load_wasm("b", b"\0asm").ok().unwrap();
    assert!(host.register_listener("a", "StrokeAdded"));
    assert!(host.register_listener("b", "StrokeAdded"));
    assert!(!host.register_listener("c", "StrokeAdded"));
    assert_eq!(host.broadcast_event("StrokeAdded", "{}"), vec!["a".to_string(), "b".to_string()]);
    assert!(host.pause_plugin("a"));
    assert_eq!(host.broadcast_event("StrokeAdded", "{}"), vec!["b".to_string()]);
    assert!(host.broadcast_event("PageChanged", "{}").is_empty());
}
