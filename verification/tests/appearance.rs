use snotes::color::{format_hex_color, hex_color_is_readable, parse_hex_color};
use snotes::export::encode_ppm;
use snotes::storage::autosave::{backups_to_prune, BackupFile};
use snotes::sync::ocr::{
    languages_from_listing, recognition_result, tesseract_args, OcrError, PageSegMode,
};
use snotes::text::{split_words, starts_with_text, trim_text};
use snotes::themes::{css_for, ThemeColors};

#[test]
fn hex_colors_read() {
    assert_eq!(parse_hex_color("#ff0000"), Some((255, 0, 0, 255)));
    assert_eq!(parse_hex_color("1a73e8"), Some((0x1a, 0x73, 0xe8, 255)));
    assert_eq!(parse_hex_color("##FFfF0066"), Some((255, 255, 0, 0x66)));
    assert_eq!(parse_hex_color("#+f0000"), Some((15, 0, 0, 255)));
    assert_eq!(parse_hex_color("#fff"), None);
    assert_eq!(parse_hex_color("#gg0000"), None);
    assert_eq!(parse_hex_color("#ff0000zz"), None);
    assert_eq!(parse_hex_color("#ff0000f"), Some((255, 0, 0, 255)));
}

#[test]
fn hex_colors_with_wide_characters() {
    assert!(hex_color_is_readable("#ff0000"));
    assert!(!hex_color_is_readable("#a\u{e9}1234"));
    assert!(hex_color_is_readable("#\u{e9}01234"));
    assert_eq!(parse_hex_color("#\u{e9}01234"), None);
}

#[test]
fn hex_colors_written_and_read_back() {
    let text = format_hex_color(0x12, 0xab, 0x00, 0xff);
    assert_eq!(text, "#12ab00ff");
    assert_eq!(parse_hex_color(&text), Some((0x12, 0xab, 0x00, 0xff)));
    assert_eq!(format_hex_color(0, 0, 0, 0), "#00000000");
}

#[test]
fn theme_colors_and_css() {
    let dark = ThemeColors::dark();
    assert_eq!(dark.background, "#1e1e2e");
    assert_eq!(ThemeColors::light().primary, "#1a73e8");
    assert_eq!(ThemeColors::sepia().success, "#6ab04c");
    let css = css_for(&dark, 8);
    assert!(css.contains("background-color"));
    assert!(css.contains("#1e1e2e"));
    assert!(css.contains("border-radius: 8px;"));
    assert!(css.starts_with("\n            @define-color bg_color #1e1e2e;"));
}

#[test]
fn whitespace_helpers() {
    assert_eq!(trim_text("  a b \t\n"), "a b");
    assert_eq!(trim_text("\u{3000}x\u{a0}"), "x");
    assert_eq!(trim_text(" \n "), "");
    assert_eq!(split_words("  hello  big\tworld\n"), vec!["hello", "big", "world"]);
    assert!(split_words(" \t ").is_empty());
    assert!(starts_with_text("notes.snotes.17.bak", "notes.snotes"));
    assert!(!starts_with_text("no", "notes"));
}

#[test]
fn tesseract_command_line() {
    let args = tesseract_args("/tmp/page.png", "eng", PageSegMode::SingleBlock, 300);
    assert_eq!(
        args,
        vec!["/tmp/page.png", "stdout", "-l", "eng", "--psm", "6", "--dpi", "300"]
    );
}

#[test]
fn tesseract_output_read() {
    match recognition_result(true, " Hello  world\n", "") {
        Ok(r) => {
            assert_eq!(r.text, "Hello  world");
            assert_eq!(r.words, vec!["Hello", "world"]);
        }
        Err(_) => panic!("expected a result"),
    }
    match recognition_result(false, "", "bad image") {
        Err(e) => {
            assert!(matches!(e, OcrError::RecognitionFailed(_)));
            assert_eq!(e.message(), "Recognition failed: bad image");
        }
        Ok(_) => panic!("expected an error"),
    }
}

#[test]
fn tesseract_languages_listed() {
    let listing = "List of available languages in \"/usr/share/tessdata/\" (3):\neng\n  deu \n\nosd\r\n";
    assert_eq!(languages_from_listing(listing), vec!["eng", "deu", "osd"]);
    assert!(languages_from_listing("header only").is_empty());
    assert!(languages_from_listing("").is_empty());
}

fn file(name: &str, modified: i128) -> BackupFile {
    BackupFile { name: name.to_string(), modified }
}

#[test]
fn backups_pruned_oldest_first() {
    let files = vec![
        file("a.snotes.1.bak", 100),
        file("other.bak", 500),
        file("a.snotes.3.bak", 300),
        file("a.snotes.2.bak", 200),
        file("a.snotes.4.bak", 300),
    ];
    // newest first: index 2 (300), index 4 (300, listed later), 3 (200), 0 (100)
    assert_eq!(backups_to_prune(&files, "a.snotes", 2), vec![0, 3]);
    assert_eq!(backups_to_prune(&files, "a.snotes", 3), vec![0]);
    assert_eq!(backups_to_prune(&files, "a.snotes", 1), vec![0, 3, 4]);
    assert!(backups_to_prune(&files, "a.snotes", 10).is_empty());
    assert_eq!(backups_to_prune(&files, "a.snotes", 0), vec![0, 2, 3, 4]);
}

#[test]
fn ppm_from_bgra() {
    let data = [1u8, 2, 3, 255, 4, 5, 6, 255, 9, 9, 7, 8, 9, 10, 11, 12];
    let ppm = encode_ppm(&data, 8, 2, 2);
    let mut expected = b"P6\n2 2\n255\n".to_vec();
    expected.extend_from_slice(&[3, 2, 1, 6, 5, 4, 7, 9, 9, 11, 10, 9]);
    assert_eq!(ppm, expected);
    // a pixel whose red byte lies past the buffer is left out
    let short = encode_ppm(&data[..6], 4, 2, 1);
    let mut expected = b"P6\n2 1\n255\n".to_vec();
    expected.extend_from_slice(&[3, 2, 1]);
    assert_eq!(short, expected);
    assert_eq!(encode_ppm(&[], 0, 0, 0), b"P6\n0 0\n255\n".to_vec());
}
