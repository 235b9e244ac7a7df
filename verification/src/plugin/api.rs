//! Plugin API: the interface available to WASM plugins.
//!
//! Plugins import these functions from the host. The host provides
//! implementations that are sandboxed per plugin according to the granted
//! capabilities; the defaults here are what a plugin sees when nothing is
//! connected.

use vstd::prelude::*;

verus! {

/// API surface exposed to plugins via WASM imports.
pub struct PluginApi;

/// Toolbar button registered by a plugin.
pub struct PluginToolbarButton {
    pub id: String,
    pub label: String,
    pub icon: Option<String>,
    pub tooltip: String,
    pub callback_name: String,
}

/// Custom export format registered by a plugin.
pub struct PluginExportFormat {
    pub name: String,
    pub extension: String,
    pub description: String,
    pub callback_name: String,
}

/// Events that plugins can listen to.
pub enum PluginEvent {
    /// A new stroke was added.
    StrokeAdded { stroke_id: String },
    /// A stroke was removed.
    StrokeRemoved { stroke_id: String },
    /// The active page changed.
    PageChanged { page_id: String },
    /// The active tool changed.
    ToolChanged { tool_name: String },
    /// A plugin toolbar button was clicked.
    ButtonClicked { button_id: String },
    /// The document was saved.
    DocumentSaved,
    /// The document was loaded.
    DocumentLoaded,
}

impl PluginApi {
    /// The number of strokes on the current page.
    pub fn stroke_count() -> (res: u32)
        ensures
            res == 0,
    {
        0
    }

    /// The current tool type as a string.
    pub fn current_tool() -> (res: String)
        ensures
            res@ == "pen"@,
    {
        "pen".to_string()
    }

    /// The current stroke color as hex.
    pub fn current_color() -> (res: String)
        ensures
            res@ == "#000000"@,
    {
        "#000000".to_string()
    }

    /// Register a toolbar button; refused while no host is connected.
    pub fn register_toolbar_button(_button: PluginToolbarButton) -> (res: bool)
        ensures
            !res,
    {
        false
    }

    /// Show a notification toast.
    pub fn notify(_message: &str, _duration_ms: u32) {
    }

    /// Show a dialog with a message.
    pub fn show_dialog(_title: &str, _message: &str) {
    }

    /// Register a custom export format; refused while no host is connected.
    pub fn register_export_format(_format: PluginExportFormat) -> (res: bool)
        ensures
            !res,
    {
        false
    }

    /// Get a plugin setting; none is stored while no host is connected.
    pub fn get_setting(_key: &str) -> (res: Option<String>)
        ensures
            res is None,
    {
        None
    }

    /// Set a plugin setting; refused while no host is connected.
    pub fn set_setting(_key: &str, _value: &str) -> (res: bool)
        ensures
            !res,
    {
        false
    }

    /// Clear the canvas overlay.
    pub fn clear_overlay() {
    }

    /// Log a message from a plugin.
    pub fn log(_level: &str, _message: &str) {
    }
}

/// The WASM import/export contract for plugins.
///
/// Plugins export `snotes_init() -> i32` (0 for success),
/// `snotes_on_event(event: *const u8, len: u32)` and `snotes_shutdown()`, and
/// can import `stroke_count`, `get_strokes`, `notify`, `log`, `get_setting` and
/// `set_setting` from the host module `snotes`.
pub struct WasmContract;

} // verus!
