//! Plugin API and host: the guest-side API surface and the lifecycle of
//! sandboxed plugins (loading, capabilities, settings, event listeners).

pub mod api;
pub mod host;
