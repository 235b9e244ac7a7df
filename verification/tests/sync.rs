use snotes::sync::conflict::{ConflictAction, ConflictResolver, ConflictStrategy, SyncConflict};
use snotes::sync::dbus_ipc::{DBUS_NAME, DBUS_PATH};
use snotes::sync::nextcloud::{
    check_mkcol_status, check_propfind_status, parse_propfind_entries, NextcloudClient,
    NextcloudConfig, NextcloudError,
};
use snotes::sync::ocr::PageSegMode;
use snotes::sync::watcher::FolderWatcher;
use snotes::sync::webdav::{SyncError, WebDavClient};

#[test]
fn test_conflict_detection() {
    let mut resolver = ConflictResolver::new(ConflictStrategy::KeepBoth);
    let conflict = resolver.detect_conflict("notebook.snotes", 1000, 2000, None, None);
    assert!(conflict.is_some());
}

#[test]
fn test_no_conflict_same_etag() {
    let mut resolver = ConflictResolver::new(ConflictStrategy::KeepBoth);
    let conflict = resolver.detect_conflict("notebook.snotes", 1000, 2000, Some("abc"), Some("abc"));
    assert!(conflict.is_none());
}

#[test]
fn test_resolve_keep_newest() {
    let mut conflict = SyncConflict::new("test.snotes", 2000, 1000);
    let action = conflict.auto_resolve(ConflictStrategy::KeepNewest);
    assert!(matches!(action, ConflictAction::UploadLocal)); // local is newer
}

#[test]
fn test_resolve_keep_both() {
    let mut conflict = SyncConflict::new("test.snotes", 1000, 2000);
    let action = conflict.auto_resolve(ConflictStrategy::KeepBoth);
    assert!(matches!(action, ConflictAction::KeepBothRename { .. }));
}

#[test]
fn test_conflict_path_rename() {
    let renamed = ConflictResolver::conflict_path("/home/user/docs/notes.snotes", "conflict-12345");
    assert!(renamed.contains("conflict-12345"));
    assert!(renamed.ends_with(".snotes"));
}

#[test]
fn test_resolve_all() {
    let mut resolver = ConflictResolver::new(ConflictStrategy::KeepLocal);
    resolver.detect_conflict("a.snotes", 1000, 2000, None, None);
    resolver.detect_conflict("b.snotes", 3000, 1000, None, None);

    let actions = resolver.resolve_all();
    assert_eq!(actions.len(), 2);
    assert!(resolver.unresolved().is_empty());
}

#[test]
fn conflict_same_times_is_no_conflict() {
    let mut resolver = ConflictResolver::new(ConflictStrategy::KeepBoth);
    assert!(resolver.detect_conflict("a", 5, 5, Some("x"), Some("y")).is_none());
    assert!(resolver.conflicts.is_empty());
    let c = resolver.detect_conflict("a", 5, 6, Some("x"), Some("y")).unwrap();
    assert_eq!(c.local_etag.as_deref(), Some("x"));
    assert!(!c.resolved);
}

#[test]
fn conflict_stamp_format() {
    // 1 day, 02:03:04 after the epoch.
    let now = 86400 + 2 * 3600 + 3 * 60 + 4;
    assert_eq!(snotes::sync::conflict::conflict_stamp_at(now), "1-020304");
    assert_eq!(snotes::sync::conflict::conflict_stamp_at(0), "0-000000");
    let mut c = SyncConflict::new("f", 1, 2);
    match c.resolve_at(ConflictStrategy::KeepBoth, now) {
        ConflictAction::KeepBothRename { conflict_suffix } => {
            assert_eq!(conflict_suffix, "conflict-1-020304")
        }
        _ => panic!("expected a rename"),
    }
    assert!(c.resolved);
    assert_eq!(c.resolution, Some(ConflictStrategy::KeepBoth));
}

#[test]
fn conflict_strategies_and_queue() {
    let mut c = SyncConflict::new("f", 1, 2);
    assert!(matches!(c.auto_resolve(ConflictStrategy::KeepNewest), ConflictAction::DownloadRemote));
    assert!(matches!(c.auto_resolve(ConflictStrategy::AskUser), ConflictAction::Pending));
    assert!(matches!(c.auto_resolve(ConflictStrategy::KeepRemote), ConflictAction::DownloadRemote));
    assert_eq!(ConflictStrategy::default(), ConflictStrategy::KeepBoth);

    let mut resolver = ConflictResolver::new(ConflictStrategy::AskUser);
    resolver.detect_conflict("a", 1, 2, None, None);
    resolver.detect_conflict("b", 1, 2, None, None);
    let id = resolver.conflicts[1].id.clone();
    assert!(matches!(resolver.resolve_one(&id, ConflictStrategy::KeepLocal), Some(ConflictAction::UploadLocal)));
    assert!(resolver.resolve_one("missing", ConflictStrategy::KeepLocal).is_none());
    assert_eq!(resolver.unresolved().len(), 1);
    assert_eq!(resolver.unresolved()[0].file_path, "a");
    let actions = resolver.resolve_all();
    assert_eq!(actions.len(), 1);
    assert_eq!(actions[0].0, "a");
    assert!(matches!(actions[0].1, ConflictAction::Pending));
    // AskUser leaves "a" waiting for the user.
    assert_eq!(resolver.unresolved().len(), 1);
    resolver.clear_resolved();
    assert_eq!(resolver.conflicts.len(), 1);
    assert_eq!(resolver.conflicts[0].file_path, "a");
    assert_eq!(resolver.conflicts[0].resolution, Some(ConflictStrategy::AskUser));
}

#[test]
fn ask_user_leaves_conflict_unresolved() {
    let mut c = SyncConflict::new("notes/a.snotes", 10, 20);
    assert!(matches!(c.auto_resolve(ConflictStrategy::AskUser), ConflictAction::Pending));
    assert!(!c.resolved);
    assert_eq!(c.resolution, Some(ConflictStrategy::AskUser));
    assert!(matches!(c.resolve_at(ConflictStrategy::KeepLocal, 0), ConflictAction::UploadLocal));
    assert!(c.resolved);
}

#[test]
fn test_dbus_constants() {
    assert!(DBUS_NAME.starts_with("org.snotes"));
    assert!(DBUS_PATH.starts_with("/org/snotes"));
}

#[test]
fn test_config_defaults() {
    let config = NextcloudConfig::default();
    assert_eq!(config.remote_path, "/S Notes/");
    assert_eq!(config.sync_interval_secs, 300);
    assert!(config.auto_sync);
}

#[test]
fn test_webdav_url() {
    let config = NextcloudConfig {
        server_url: "https://cloud.example.com".to_string(),
        username: "alice".to_string(),
        ..Default::default()
    };
    let client = NextcloudClient::new(config);
    let url = client.webdav_url("/S Notes/notebook1.snotes");
    assert_eq!(url, "https://cloud.example.com/remote.php/dav/files/alice/S Notes/notebook1.snotes");
}

#[test]
fn nextcloud_status_handling() {
    let config = NextcloudConfig {
        server_url: "https://c".to_string(),
        username: "bob".to_string(),
        ..Default::default()
    };
    let mut client = NextcloudClient::new(config);
    assert!(!client.is_connected());
    match client.finish_test_connection(401, "401 Unauthorized") {
        Err(NextcloudError::AuthFailed(m)) => assert_eq!(m, "Invalid credentials"),
        _ => panic!("expected an authentication failure"),
    }
    match client.finish_test_connection(500, "500 Internal Server Error") {
        Err(e) => assert_eq!(e.message(), "API error: Server returned status: 500 Internal Server Error"),
        _ => panic!("expected an API error"),
    }
    assert!(!client.is_connected());
    let caps = client.finish_test_connection(200, "200 OK").ok().unwrap();
    assert!(client.is_connected());
    assert_eq!(caps.webdav_url, "https://c/remote.php/dav/files/bob");
    assert_eq!(caps.max_upload_size, 512 * 1024 * 1024);
    assert!(check_mkcol_status(405, "405").is_ok());
    assert!(check_mkcol_status(404, "404").is_err());
    assert!(check_propfind_status(207, "207").is_ok());
    assert_eq!(client.webdav_url("///x"), "https://c/remote.php/dav/files/bob/x");
}

#[test]
fn propfind_listing_is_read() {
    let xml = "<d:multistatus><d:response><d:href>/dav/files/a/</d:href><d:propstat><d:prop>\
               <d:resourcetype><d:collection/></d:resourcetype></d:prop></d:propstat></d:response>\
               <d:response><d:href>/dav/files/a/n.snotes</d:href></d:response></d:multistatus>";
    let entries = parse_propfind_entries(xml);
    assert_eq!(entries.len(), 2);
    assert_eq!(entries[0].path, "/dav/files/a/");
    assert!(entries[0].is_directory);
    assert_eq!(entries[1].path, "/dav/files/a/n.snotes");
    assert!(!entries[1].is_directory);
    assert!(parse_propfind_entries("<d:href>unterminated").is_empty());
}

#[test]
fn propfind_directory_flag_is_per_entry() {
    let xml = "<d:response><d:href>/S Notes/a.snotes</d:href><d:prop><d:resourcetype/></d:prop></d:response><d:response><d:href>/S Notes/sub/</d:href><d:prop><d:resourcetype><d:collection/></d:resourcetype></d:prop></d:response>";
    let r = parse_propfind_entries(xml);
    assert_eq!(r.len(), 2);
    assert_eq!(r[0].path, "/S Notes/a.snotes");
    assert!(!r[0].is_directory);
    assert_eq!(r[1].path, "/S Notes/sub/");
    assert!(r[1].is_directory);
}

#[test]
fn webdav_requires_connection() {
    let mut client = WebDavClient::new("https://dav", "u");
    assert!(matches!(client.sync(), Err(SyncError::AuthFailed)));
    assert!(client.connect().is_ok());
    assert!(client.sync().is_ok());
    assert_eq!(SyncError::Network("x".to_string()).message(), "Network error: x");
}

#[test]
fn folder_watcher_lifecycle() {
    let mut w = FolderWatcher::new("/tmp/notes");
    w.start();
    w.stop();
}

#[test]
fn test_psm_values() {
    assert_eq!(PageSegMode::Auto.to_tesseract_value(), 3);
    assert_eq!(PageSegMode::SingleLine.to_tesseract_value(), 7);
    assert_eq!(PageSegMode::SingleWord.to_tesseract_value(), 8);
}

#[test]
fn conflict_ids_are_fresh_uuids() {
    let a = SyncConflict::new("a.snotes", 1, 2);
    let b = SyncConflict::new("a.snotes", 1, 2);
    assert_eq!(a.id.len(), 36);
    assert_eq!(a.id.matches('-').count(), 4);
    assert_ne!(a.id, b.id);
    for (i, c) in a.id.chars().enumerate() {
        if i == 8 || i == 13 || i == 18 || i == 23 {
            assert_eq!(c, '-');
        } else {
            assert!(c.is_ascii_digit() || ('a'..='f').contains(&c));
        }
    }
    assert_eq!(a.id.chars().nth(14), Some('4'));
    assert!(matches!(a.id.chars().nth(19), Some('8' | '9' | 'a' | 'b')));
}
