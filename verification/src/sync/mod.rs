//! Sync: conflict resolution, the WebDAV and Nextcloud clients' rules, the
//! folder watcher, the D-Bus message types and the OCR settings.

pub mod conflict;
pub mod dbus_ipc;
pub mod nextcloud;
pub mod ocr;
pub mod watcher;
pub mod webdav;
