use snotes::shortcuts::{Action, Shortcut, ShortcutManager, ACTION_COUNT};

#[test]
fn test_shortcut_display() {
    let s = Shortcut::ctrl_shift("z");
    assert_eq!(s.display(), "Ctrl+Shift+z");
    assert_eq!(s.to_gtk_accel(), "<Control><Shift>z");
}

#[test]
fn test_shortcut_manager() {
    let mut sm = ShortcutManager::new();
    assert!(sm.get(&Action::Undo).is_some());
    assert_eq!(sm.get(&Action::Undo).unwrap().display(), "Ctrl+z");

    // Rebind
    sm.set(Action::Undo, Shortcut::ctrl_shift("u"));
    assert_eq!(sm.get(&Action::Undo).unwrap().display(), "Ctrl+Shift+u");

    // Reset
    sm.reset(&Action::Undo);
    assert_eq!(sm.get(&Action::Undo).unwrap().display(), "Ctrl+z");
}

#[test]
fn test_reverse_lookup() {
    let sm = ShortcutManager::new();
    let ctrl_z = Shortcut::ctrl("z");
    assert_eq!(sm.action_for(&ctrl_z), Some(&Action::Undo));
}

#[test]
fn shortcut_plain_key_has_no_modifiers() {
    let s = Shortcut::new("Delete");
    assert_eq!(s.display(), "Delete");
    assert_eq!(s.to_gtk_accel(), "Delete");
    let all = Shortcut { key: "x".to_string(), ctrl: true, shift: true, alt: true, super_key: true };
    assert_eq!(all.display(), "Ctrl+Shift+Alt+Super+x");
    assert_eq!(all.to_gtk_accel(), "<Control><Shift><Alt><Super>x");
}

#[test]
fn shortcut_defaults_cover_documented_keys() {
    let sm = ShortcutManager::new();
    assert_eq!(sm.get(&Action::Redo).unwrap().display(), "Ctrl+Shift+z");
    assert_eq!(sm.get(&Action::ToolPen).unwrap().display(), "p");
    assert_eq!(sm.get(&Action::ZoomIn).unwrap().to_gtk_accel(), "<Control>equal");
    assert_eq!(sm.get(&Action::Fullscreen).unwrap().display(), "F11");
    assert!(sm.get(&Action::ToggleRulers).is_none());
    assert!(sm.get(&Action::ShowShortcuts).is_none());
    assert_eq!(sm.all_bindings().len(), 34);
}

#[test]
fn shortcut_reset_without_default_unbinds() {
    let mut sm = ShortcutManager::new();
    sm.set(Action::ToggleRulers, Shortcut::ctrl("r"));
    assert_eq!(sm.get(&Action::ToggleRulers).unwrap().display(), "Ctrl+r");
    sm.reset(&Action::ToggleRulers);
    assert!(sm.get(&Action::ToggleRulers).is_none());
    assert_eq!(sm.get(&Action::Undo).unwrap().display(), "Ctrl+z");
}

#[test]
fn shortcut_reverse_lookup_unbound_is_none() {
    let sm = ShortcutManager::new();
    assert_eq!(sm.action_for(&Shortcut::ctrl("k")), None);
    assert_eq!(sm.action_for(&Shortcut::new("n")), None);
    assert_eq!(sm.action_for(&Shortcut::new("d")), Some(&Action::ToolPencil));
}

#[test]
fn shortcut_defaults_follow_user_guide() {
    let sm = ShortcutManager::new();
    assert_eq!(sm.get(&Action::ToolPencil).unwrap().display(), "d");
    assert_eq!(sm.get(&Action::ToolRuler).unwrap().display(), "u");
    assert_eq!(sm.get(&Action::NewPage).unwrap().display(), "Ctrl+n");
    assert_eq!(sm.get(&Action::NewNotebook).unwrap().display(), "Ctrl+Shift+n");
    assert_eq!(sm.action_for(&Shortcut::ctrl("n")), Some(&Action::NewPage));
    assert_eq!(sm.action_for(&Shortcut::ctrl_shift("n")), Some(&Action::NewNotebook));
    assert_eq!(sm.get(&Action::NextPage).unwrap().display(), "Page_Down");
    assert_eq!(sm.get(&Action::PrevPage).unwrap().display(), "Page_Up");
}

#[test]
fn shortcut_all_bindings_sorted_by_name() {
    let sm = ShortcutManager::default();
    let all = sm.all_bindings();
    let names: Vec<&str> = all.iter().map(|(a, _)| a.name()).collect();
    let mut sorted = names.clone();
    sorted.sort();
    assert_eq!(names, sorted);
    assert_eq!(names[0], "Copy");
    assert_eq!(ACTION_COUNT, 38);
}
