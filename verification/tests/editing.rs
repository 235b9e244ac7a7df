use snotes::ink::TextEditor;
use snotes::storage::search::{
    make_snippet, score_parts, snippet_around, try_make_snippet, MatchType, SearchIndex,
    SearchQuery,
};
use uuid::Uuid;

#[test]
fn test_text_editor() {
    let mut editor = TextEditor::new();
    let mut text = String::new();

    editor.start_editing(Uuid::new_v4().as_u128());
    editor.insert(&mut text, "Hello");
    assert_eq!(text, "Hello");
    assert_eq!(editor.cursor_pos, 5);

    editor.insert(&mut text, " World");
    assert_eq!(text, "Hello World");

    editor.backspace(&mut text);
    assert_eq!(text, "Hello Worl");
}

#[test]
fn editor_backspace_undoes_typed_character() {
    let mut editor = TextEditor::new();
    let mut text = String::from("abcd");
    editor.cursor_pos = 2;
    editor.insert(&mut text, "x");
    assert_eq!(text, "abxcd");
    assert_eq!(editor.cursor_pos, 3);
    editor.backspace(&mut text);
    assert_eq!(text, "abcd");
    assert_eq!(editor.cursor_pos, 2);
}

#[test]
fn editor_selection_is_replaced() {
    let mut editor = TextEditor::new();
    let mut text = String::from("Hello World");
    editor.selection_start = Some(11);
    editor.selection_end = Some(6);
    assert!(editor.has_selection());
    editor.insert(&mut text, "There");
    assert_eq!(text, "Hello There");
    assert_eq!(editor.cursor_pos, 11);
    assert!(!editor.has_selection());

    editor.select_all(text.len());
    editor.backspace(&mut text);
    assert_eq!(text, "");
    assert_eq!(editor.cursor_pos, 0);
}

#[test]
fn editor_backspace_at_start_changes_nothing() {
    let mut editor = TextEditor::new();
    let mut text = String::from("abc");
    editor.backspace(&mut text);
    assert_eq!(text, "abc");
    assert_eq!(editor.cursor_pos, 0);
    editor.cursor_pos = 10;
    editor.backspace(&mut text);
    assert_eq!(text, "abc");
    assert_eq!(editor.cursor_pos, 10);
}

#[test]
fn editor_insert_past_end_appends() {
    let mut editor = TextEditor::new();
    let mut text = String::from("ab");
    editor.cursor_pos = 7;
    editor.insert(&mut text, "é");
    assert_eq!(text, "abé");
    assert_eq!(editor.cursor_pos, 4);
    editor.insert(&mut text, "!");
    assert_eq!(text, "abé!");
    editor.backspace(&mut text);
    assert_eq!(text, "abé");
}

#[test]
fn editor_editing_state() {
    let mut editor = TextEditor::default();
    assert!(!editor.is_editing());
    editor.cursor_pos = 3;
    editor.start_editing(42);
    assert!(editor.is_editing());
    assert_eq!(editor.annotation_id, Some(42));
    assert_eq!(editor.cursor_pos, 0);
    editor.stop_editing();
    assert!(!editor.is_editing());
}

#[test]
fn test_snippet() {
    let snippet = make_snippet(
        "This is a very long text about quantum physics and relativity",
        "quantum",
        40,
    );
    assert!(snippet.contains("quantum"));
}

#[test]
fn snippet_exact_cut() {
    let content = "This is a very long text about quantum physics and relativity";
    let snippet = make_snippet(content, "QUANTUM", 40);
    // match at byte 31: from 21 to 31 + 7 + 30 = 68, cut at the end (61)
    assert_eq!(snippet, "\u{2026}ext about quantum physics and relativity");
    let short = make_snippet(content, "this", 8);
    assert_eq!(short, "This is a \u{2026}");
    let none = make_snippet(content, "chemistry", 7);
    assert_eq!(none, "This is");
    assert_eq!(make_snippet("héllo", "zzz", 3), "hél");
    assert_eq!(snippet_around("abcdefghij", 1, 5, 8), "\u{2026}defghij");
}

#[test]
fn snippet_refused_inside_character() {
    // the match is at byte 2, the cut would start inside "é"
    assert_eq!(try_make_snippet("éab", "ab", 4), None);
    assert_eq!(
        try_make_snippet("abc", "b", 4),
        Some(String::from("abc"))
    );
}

#[test]
fn score_parts_values() {
    assert_eq!(score_parts("physics", "physics", MatchType::NotebookTitle), (150, 20));
    assert_eq!(score_parts("physics 101", "physics", MatchType::SectionTitle), (50, 15));
    assert_eq!(score_parts("intro to physics", "physics", MatchType::TextAnnotation), (0, 5));
    assert_eq!(score_parts("tag", "tag", MatchType::Tag), (150, 10));
    assert_eq!(score_parts("ocr", "x", MatchType::OcrText), (0, 1));
}

fn physics_index(nb: u128) -> SearchIndex {
    let mut index = SearchIndex::new();
    index.index_notebook(nb, "Physics 101");
    index.index_section(nb, "Physics 101", "Mechanics");
    index.index_text(nb, "Physics 101", "Mechanics", 0, "Newton's laws of motion");
    index
}

#[test]
fn search_matches_case_insensitively() {
    let nb = Uuid::new_v4().as_u128();
    let index = physics_index(nb);
    assert_eq!(index.len(), 3);
    assert_eq!(index.matching_entries(&SearchQuery::new("physics")), vec![0]);
    assert_eq!(index.matching_entries(&SearchQuery::new("NEWTON")), vec![2]);
    assert!(index.matching_entries(&SearchQuery::new("chemistry")).is_empty());
    let mut exact = SearchQuery::new("physics");
    exact.case_sensitive = true;
    assert!(index.matching_entries(&exact).is_empty());
}

#[test]
fn search_filters_by_notebook_and_kind() {
    let nb1 = Uuid::new_v4().as_u128();
    let nb2 = nb1.wrapping_add(1);
    let mut index = SearchIndex::new();
    index.index_notebook(nb1, "Math Notes");
    index.index_notebook(nb2, "Math Exercises");
    index.index_ocr(nb2, "Math Exercises", "S", 3, "math by hand");
    let mut query = SearchQuery::new("math");
    query.notebook_filter = Some(nb1);
    assert_eq!(index.matching_entries(&query), vec![0]);
    let mut titles_only = SearchQuery::new("math");
    titles_only.search_ocr = false;
    assert_eq!(index.matching_entries(&titles_only), vec![0, 1]);
    assert_eq!(index.matching_entries(&SearchQuery::new("math")), vec![0, 1, 2]);
    index.clear();
    assert!(index.is_empty());
}
