use snotes::document::{move_item, PageTemplate};
use snotes::canvas::CanvasMode;
use snotes::export::{
    ExportFormat, ExportOptions, Exporter, ImageExportError, PdfExportError, PdfImportError,
};
use snotes::history::HistoryStack;
use snotes::ink::{html_escape, CairoBackend, FontWeight, SkiaBackend};
use snotes::input::TabletVendor;
use snotes::storage::autosave::{AutoSaveConfig, AutoSaveManager, DirtyTracker};
use snotes::storage::{compress_strokes, decompress_strokes, StorageError, SCHEMA_SQL};
use uuid::Uuid;

#[test]
fn test_vendor_detection() {
    assert_eq!(TabletVendor::from_vendor_id(0x056a), TabletVendor::Wacom);
    assert_eq!(TabletVendor::from_vendor_id(0x256c), TabletVendor::Huion);
    assert_eq!(TabletVendor::from_vendor_id(0x28bd), TabletVendor::XPPen);
    assert_eq!(TabletVendor::from_vendor_id(0xFFFF), TabletVendor::Unknown);
}

#[test]
fn vendor_names() {
    assert_eq!(TabletVendor::XPPen.display_name(), "XP-Pen");
    assert_eq!(TabletVendor::from_vendor_id(0x05ac).display_name(), "Apple");
}

#[test]
fn test_export_format() {
    assert_eq!(ExportFormat::from_str("pdf"), Some(ExportFormat::Pdf));
    assert_eq!(ExportFormat::from_str("PNG"), Some(ExportFormat::Png));
    assert_eq!(ExportFormat::from_str("svg"), Some(ExportFormat::Svg));
    assert_eq!(ExportFormat::from_str("snotes"), Some(ExportFormat::SNotes));
    assert_eq!(ExportFormat::from_str("docx"), None);

    assert_eq!(ExportFormat::Pdf.extension(), "pdf");
}

#[test]
fn export_path_gets_extension() {
    let options = ExportOptions { format: ExportFormat::Svg, ..Default::default() };
    assert_eq!(Exporter::export(&options).ok().unwrap(), "output.svg");
    assert_eq!(ExportFormat::from_str("SNoTes"), Some(ExportFormat::SNotes));
    assert_eq!(ExportFormat::from_str("pdf "), None);
    let d = ExportOptions::default();
    assert_eq!(d.dpi, 300);
    assert_eq!(d.format, ExportFormat::Pdf);
}

#[test]
fn page_templates() {
    assert_eq!(PageTemplate::all().len(), 7);
    assert_eq!(PageTemplate::MusicStaff.display_name(), "Music Staff");
    assert_eq!(PageTemplate::Cornell.display_name(), "Cornell Notes");
}

#[test]
fn test_undo_redo() {
    let mut history = HistoryStack::new(100);
    history.push("add stroke");
    assert!(history.can_undo());
    assert!(!history.can_redo());
    history.undo();
    assert!(!history.can_undo());
    assert!(history.can_redo());
    history.redo();
    assert!(history.can_undo());
}

#[test]
fn test_redo_cleared_on_new_action() {
    let mut history = HistoryStack::new(100);
    history.push("stroke 1");
    history.undo();
    assert!(history.can_redo());
    history.push("stroke 2");
    assert!(!history.can_redo()); // redo cleared
}

#[test]
fn history_is_bounded_and_restores() {
    let mut history = HistoryStack::new(2);
    history.push(1);
    history.push(2);
    history.push(3);
    assert_eq!(history.undo_count(), 2);
    assert_eq!(history.undo(), Some(3));
    assert_eq!(history.undo(), Some(2));
    assert_eq!(history.undo(), None);
    assert_eq!(history.redo_count(), 2);
    assert_eq!(history.redo(), Some(2));
    assert_eq!(history.undo_count(), 1);
    history.clear();
    assert_eq!(history.redo(), None);
    assert!(!history.can_undo());
}

#[test]
fn test_lz4_roundtrip() {
    let original = b"Hello, S Notes! This is stroke data that gets compressed.";
    let compressed = compress_strokes(original);
    assert!(compressed.len() > 0);
    let decompressed = decompress_strokes(&compressed).ok().unwrap();
    assert_eq!(decompressed, original);
}

#[test]
fn test_lz4_large_data() {
    let original: Vec<u8> = (0..10000).map(|i| (i % 256) as u8).collect();
    let compressed = compress_strokes(&original);
    assert!(compressed.len() < original.len()); // Should compress
    let decompressed = decompress_strokes(&compressed).ok().unwrap();
    assert_eq!(decompressed, original);
}

#[test]
fn test_stroke_compression() {
    let mut fake_data = Vec::new();
    for i in 0..1000 {
        let x = (i as f64 * 0.5).to_le_bytes();
        let y = (i as f64 * 0.3 + 100.0).to_le_bytes();
        let p = (0.5f32).to_le_bytes();
        fake_data.extend_from_slice(&x);
        fake_data.extend_from_slice(&y);
        fake_data.extend_from_slice(&p);
    }

    let compressed = compress_strokes(&fake_data);
    assert!(compressed.len() < fake_data.len()); // Should compress

    let decompressed = decompress_strokes(&compressed).ok().unwrap();
    assert_eq!(decompressed, fake_data);
}

#[test]
fn lz4_malformed_input_is_compression_error() {
    assert!(matches!(decompress_strokes(&[1, 2]), Err(StorageError::Compression(_))));
}

#[test]
fn test_dirty_tracker() {
    let mut tracker = DirtyTracker::new();
    assert!(!tracker.is_dirty());

    tracker.mark_page_dirty(Uuid::new_v4().as_u128());
    assert!(tracker.is_dirty());

    tracker.mark_saved();
    assert!(!tracker.is_dirty());
}

#[test]
fn test_should_save() {
    let config = AutoSaveConfig { interval_secs: 0, ..Default::default() };
    let mut tracker = DirtyTracker::new();

    assert!(!tracker.should_save(&config)); // nothing dirty

    tracker.mark_page_dirty(Uuid::new_v4().as_u128());
    assert!(tracker.should_save(&config)); // dirty + 0 interval
}

#[test]
fn test_auto_save_disabled() {
    let config = AutoSaveConfig { enabled: false, ..Default::default() };
    let mut tracker = DirtyTracker::new();
    tracker.mark_page_dirty(Uuid::new_v4().as_u128());
    assert!(!tracker.should_save(&config));
}

#[test]
fn dirty_tracker_dedups_and_waits_for_interval() {
    let config = AutoSaveConfig::default();
    let mut tracker = DirtyTracker::default();
    let page = Uuid::new_v4().as_u128();
    tracker.mark_page_dirty(page);
    tracker.mark_page_dirty(page);
    assert_eq!(tracker.dirty_pages.len(), 1);
    assert_eq!(tracker.stroke_count_since_save, 2);
    tracker.mark_saved();
    tracker.mark_notebook_dirty(7);
    assert!(tracker.is_dirty());
    assert!(!tracker.should_save_after(&config, 29));
    assert!(tracker.should_save_after(&config, 30));
    assert!(tracker.time_until_save(&config).is_some());
    let left = tracker.time_until_save(&config).unwrap();
    assert!(left <= std::time::Duration::from_secs(30));
    assert!(left > std::time::Duration::from_secs(25));
}

#[test]
fn time_until_save_from_elapsed_nanos() {
    let mut config = AutoSaveConfig::default();
    assert_eq!(config.interval_secs, 30);
    let mut tracker = DirtyTracker::new();
    assert_eq!(tracker.time_until_save_after(&config, 0), None);
    assert!(tracker.time_until_save(&config).is_none());
    tracker.mark_page_dirty(1);
    assert_eq!(tracker.time_until_save_after(&config, 5_000_000_000), Some(0));
    assert_eq!(tracker.time_until_save(&config), Some(std::time::Duration::ZERO));
    tracker.mark_saved();
    tracker.mark_page_dirty(2);
    assert_eq!(tracker.time_until_save_after(&config, 10_000_000_000), Some(20_000_000_000));
    assert_eq!(tracker.time_until_save_after(&config, 29_999_999_999), Some(1));
    assert_eq!(tracker.time_until_save_after(&config, 30_000_000_000), Some(0));
    assert_eq!(tracker.time_until_save_after(&config, 45_000_000_000), Some(0));
    config.enabled = false;
    assert_eq!(tracker.time_until_save_after(&config, 10_000_000_000), None);
}

#[test]
fn auto_save_paths() {
    let m = AutoSaveManager::with_home(AutoSaveConfig::default(), "/home/ann");
    assert_eq!(m.backup_dir, "/home/ann/.local/share/snotes/backups");
    assert_eq!(AutoSaveManager::backup_file_name("nb.snotes", 1700000000), "nb.snotes.1700000000.bak");
}

#[test]
fn text_escaping_and_weights() {
    assert_eq!(html_escape("Test <>&\""), "Test &lt;&gt;&amp;&quot;");
    assert_eq!(FontWeight::SemiBold.to_pango_weight(), 600);
    let mut skia = SkiaBackend::new();
    assert!(skia.init_gpu().is_ok());
    let mut cairo = CairoBackend::new();
    assert!(cairo.init().is_ok());
}

#[test]
fn pages_move_and_move_back() {
    let mut pages = vec!["a", "b", "c", "d"];
    assert!(move_item(&mut pages, 0, 2));
    assert_eq!(pages, vec!["b", "c", "a", "d"]);
    assert!(move_item(&mut pages, 2, 0));
    assert_eq!(pages, vec!["a", "b", "c", "d"]);
    assert!(move_item(&mut pages, 3, 1));
    assert_eq!(pages, vec!["a", "d", "b", "c"]);
    assert!(!move_item(&mut pages, 4, 0));
    assert!(!move_item(&mut pages, 0, 4));
    assert_eq!(pages, vec!["a", "d", "b", "c"]);
}

#[test]
fn template_storage_keys() {
    for t in PageTemplate::all() {
        assert_eq!(PageTemplate::from_storage_key(t.storage_key()), t);
    }
    assert_eq!(PageTemplate::MusicStaff.storage_key(), "musicstaff");
    assert_eq!(PageTemplate::from_storage_key("cornell"), PageTemplate::Cornell);
    assert_eq!(PageTemplate::from_storage_key("Lined"), PageTemplate::Blank);
    assert_eq!(PageTemplate::from_storage_key(""), PageTemplate::Blank);
}

#[test]
fn schema_creates_every_table() {
    for table in ["libraries", "notebooks", "sections", "pages", "layers", "stroke_data", "assets", "settings"] {
        assert!(SCHEMA_SQL.contains(&format!("CREATE TABLE IF NOT EXISTS {} (", table)));
    }
}

#[test]
fn export_and_import_error_messages() {
    assert_eq!(
        PdfImportError::PageNotFound(12, 3).message(),
        "Page 12 not found in PDF (total: 3)"
    );
    assert_eq!(
        PdfImportError::OpenFailed("no such file".to_string()).message(),
        "Failed to open PDF: no such file"
    );
    assert_eq!(PdfImportError::InvalidPdf("bad xref".to_string()).message(), "Invalid PDF: bad xref");
    assert_eq!(ImageExportError::Image("encoder".to_string()).message(), "Image error: encoder");
    assert_eq!(ImageExportError::Failed("x".to_string()).message(), "Export failed: x");
    assert_eq!(PdfExportError::Failed("y".to_string()).message(), "Export failed: y");
    let io = std::io::Error::new(std::io::ErrorKind::Other, "disk full");
    assert_eq!(PdfExportError::Io(io).message(), "IO error: disk full");
}

#[test]
fn canvas_modes_compare_by_size() {
    let a = CanvasMode::FixedPage { width: 800, height: 600 };
    assert_eq!(a, CanvasMode::FixedPage { width: 800, height: 600 });
    assert_ne!(a, CanvasMode::FixedPage { width: 600, height: 800 });
    assert_ne!(a, CanvasMode::Infinite);
}
