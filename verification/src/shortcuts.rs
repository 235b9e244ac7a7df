//! Keyboard shortcuts: configurable keybindings with GTK accelerator and
//! human-readable renderings.

use vstd::prelude::*;
use vstd::string::*;

verus! {

/// A keyboard shortcut (e.g. Ctrl+Z).
pub struct Shortcut {
    pub key: String,
    pub ctrl: bool,
    pub shift: bool,
    pub alt: bool,
    pub super_key: bool,
}

/// The mathematical value of a shortcut: its key text and modifier flags.
pub struct ShortcutView {
    pub key: Seq<char>,
    pub ctrl: bool,
    pub shift: bool,
    pub alt: bool,
    pub super_key: bool,
}

impl View for Shortcut {
    type V = ShortcutView;

    open spec fn view(&self) -> ShortcutView {
        ShortcutView {
            key: self.key@,
            ctrl: self.ctrl,
            shift: self.shift,
            alt: self.alt,
            super_key: self.super_key,
        }
    }
}

/// A shortcut value with the given key, Control and Shift flags, and neither
/// Alt nor Super.
pub open spec fn chord(key: Seq<char>, ctrl: bool, shift: bool) -> ShortcutView {
    ShortcutView { key, ctrl, shift, alt: false, super_key: false }
}

/// `text` when `flag` holds, nothing otherwise.
pub open spec fn when(flag: bool, text: Seq<char>) -> Seq<char> {
    if flag {
        text
    } else {
        Seq::empty()
    }
}

/// GTK accelerator syntax, e.g. `<Control><Shift>z`.
pub open spec fn gtk_accel_of(v: ShortcutView) -> Seq<char> {
    when(v.ctrl, "<Control>"@) + when(v.shift, "<Shift>"@) + when(v.alt, "<Alt>"@) + when(
        v.super_key,
        "<Super>"@,
    ) + v.key
}

/// Human-readable form: the active modifier names and the key joined by `+`,
/// e.g. `Ctrl+Shift+z`.
pub open spec fn display_of(v: ShortcutView) -> Seq<char> {
    when(v.ctrl, "Ctrl+"@) + when(v.shift, "Shift+"@) + when(v.alt, "Alt+"@) + when(
        v.super_key,
        "Super+"@,
    ) + v.key
}

impl Clone for Shortcut {
    fn clone(&self) -> (res: Self)
        ensures
            res@ == self@,
    {
        Shortcut {
            key: self.key.clone(),
            ctrl: self.ctrl,
            shift: self.shift,
            alt: self.alt,
            super_key: self.super_key,
        }
    }
}

impl Shortcut {
    /// A plain key with no modifiers.
    pub fn new(key: &str) -> (res: Self)
        ensures
            res@ == chord(key@, false, false),
    {
        Shortcut { key: key.to_string(), ctrl: false, shift: false, alt: false, super_key: false }
    }

    /// Control plus a key.
    pub fn ctrl(key: &str) -> (res: Self)
        ensures
            res@ == chord(key@, true, false),
    {
        Shortcut { key: key.to_string(), ctrl: true, shift: false, alt: false, super_key: false }
    }

    /// Control, Shift and a key.
    pub fn ctrl_shift(key: &str) -> (res: Self)
        ensures
            res@ == chord(key@, true, true),
    {
        Shortcut { key: key.to_string(), ctrl: true, shift: true, alt: false, super_key: false }
    }

    /// Format as a GTK accelerator string (e.g. `<Control><Shift>z`).
    pub fn to_gtk_accel(&self) -> (res: String)
        ensures
            res@ == gtk_accel_of(self@),
    {
        let mut accel = String::new();
        if self.ctrl {
            accel.append("<Control>");
        }
        if self.shift {
            accel.append("<Shift>");
        }
        if self.alt {
            accel.append("<Alt>");
        }
        if self.super_key {
            accel.append("<Super>");
        }
        accel.append(self.key.as_str());
        assert(accel@ =~= gtk_accel_of(self@));
        accel
    }

    /// Format as a human-readable string (e.g. `Ctrl+Shift+Z`).
    pub fn display(&self) -> (res: String)
        ensures
            res@ == display_of(self@),
    {
        let mut text = String::new();
        if self.ctrl {
            text.append("Ctrl+");
        }
        if self.shift {
            text.append("Shift+");
        }
        if self.alt {
            text.append("Alt+");
        }
        if self.super_key {
            text.append("Super+");
        }
        text.append(self.key.as_str());
        assert(text@ =~= display_of(self@));
        text
    }

    /// Whether two shortcuts have the same key and modifiers.
    pub fn same_as(&self, other: &Shortcut) -> (res: bool)
        ensures
            res == (self@ == other@),
    {
        let same_key = self.key == other.key;
        same_key && self.ctrl == other.ctrl && self.shift == other.shift && self.alt == other.alt
            && self.super_key == other.super_key
    }
}


/// Actions that can be bound to shortcuts.
#[derive(Debug, Clone, Copy, PartialEq, Eq, Structural, Hash)]
pub enum Action {
    // File operations
    NewNotebook,
    NewPage,
    Save,
    SaveAs,
    ImportPdf,
    Export,
    // Edit operations
    Undo,
    Redo,
    Cut,
    Copy,
    Paste,
    Delete,
    SelectAll,
    DeselectAll,
    // Tool selection
    ToolPen,
    ToolBrush,
    ToolPencil,
    ToolHighlighter,
    ToolEraser,
    ToolSelect,
    ToolShape,
    ToolText,
    ToolRuler,
    // View
    ZoomIn,
    ZoomOut,
    ZoomFit,
    ZoomReset,
    ToggleGrid,
    ToggleRulers,
    ToggleSidebar,
    Fullscreen,
    // Navigation
    NextPage,
    PrevPage,
    FirstPage,
    LastPage,
    // Misc
    Preferences,
    ShowShortcuts,
    Quit,
}

/// The number of distinct actions.
pub const ACTION_COUNT: usize = 38;

/// The action at a given declaration position.
pub open spec fn action_at(i: int) -> Action {
    seq![
        Action::NewNotebook,
        Action::NewPage,
        Action::Save,
        Action::SaveAs,
        Action::ImportPdf,
        Action::Export,
        Action::Undo,
        Action::Redo,
        Action::Cut,
        Action::Copy,
        Action::Paste,
        Action::Delete,
        Action::SelectAll,
        Action::DeselectAll,
        Action::ToolPen,
        Action::ToolBrush,
        Action::ToolPencil,
        Action::ToolHighlighter,
        Action::ToolEraser,
        Action::ToolSelect,
        Action::ToolShape,
        Action::ToolText,
        Action::ToolRuler,
        Action::ZoomIn,
        Action::ZoomOut,
        Action::ZoomFit,
        Action::ZoomReset,
        Action::ToggleGrid,
        Action::ToggleRulers,
        Action::ToggleSidebar,
        Action::Fullscreen,
        Action::NextPage,
        Action::PrevPage,
        Action::FirstPage,
        Action::LastPage,
        Action::Preferences,
        Action::ShowShortcuts,
        Action::Quit,
    ][i]
}

/// The action at a given position in the alphabetical order of action names.
pub open spec fn action_at_rank(i: int) -> Action {
    seq![
        Action::Copy,
        Action::Cut,
        Action::Delete,
        Action::DeselectAll,
        Action::Export,
        Action::FirstPage,
        Action::Fullscreen,
        Action::ImportPdf,
        Action::LastPage,
        Action::NewNotebook,
        Action::NewPage,
        Action::NextPage,
        Action::Paste,
        Action::Preferences,
        Action::PrevPage,
        Action::Quit,
        Action::Redo,
        Action::Save,
        Action::SaveAs,
        Action::SelectAll,
        Action::ShowShortcuts,
        Action::ToggleGrid,
        Action::ToggleRulers,
        Action::ToggleSidebar,
        Action::ToolBrush,
        Action::ToolEraser,
        Action::ToolHighlighter,
        Action::ToolPen,
        Action::ToolPencil,
        Action::ToolRuler,
        Action::ToolSelect,
        Action::ToolShape,
        Action::ToolText,
        Action::Undo,
        Action::ZoomFit,
        Action::ZoomIn,
        Action::ZoomOut,
        Action::ZoomReset,
    ][i]
}

impl Action {
    /// Declaration position of the action.
    pub open spec fn ordinal(self) -> int {
        match self {
            Action::NewNotebook => 0,
            Action::NewPage => 1,
            Action::Save => 2,
            Action::SaveAs => 3,
            Action::ImportPdf => 4,
            Action::Export => 5,
            Action::Undo => 6,
            Action::Redo => 7,
            Action::Cut => 8,
            Action::Copy => 9,
            Action::Paste => 10,
            Action::Delete => 11,
            Action::SelectAll => 12,
            Action::DeselectAll => 13,
            Action::ToolPen => 14,
            Action::ToolBrush => 15,
            Action::ToolPencil => 16,
            Action::ToolHighlighter => 17,
            Action::ToolEraser => 18,
            Action::ToolSelect => 19,
            Action::ToolShape => 20,
            Action::ToolText => 21,
            Action::ToolRuler => 22,
            Action::ZoomIn => 23,
            Action::ZoomOut => 24,
            Action::ZoomFit => 25,
            Action::ZoomReset => 26,
            Action::ToggleGrid => 27,
            Action::ToggleRulers => 28,
            Action::ToggleSidebar => 29,
            Action::Fullscreen => 30,
            Action::NextPage => 31,
            Action::PrevPage => 32,
            Action::FirstPage => 33,
            Action::LastPage => 34,
            Action::Preferences => 35,
            Action::ShowShortcuts => 36,
            Action::Quit => 37,
        }
    }

    /// Alphabetical position of the action's name.
    pub open spec fn name_rank(self) -> int {
        match self {
            Action::NewNotebook => 9,
            Action::NewPage => 10,
            Action::Save => 17,
            Action::SaveAs => 18,
            Action::ImportPdf => 7,
            Action::Export => 4,
            Action::Undo => 33,
            Action::Redo => 16,
            Action::Cut => 1,
            Action::Copy => 0,
            Action::Paste => 12,
            Action::Delete => 2,
            Action::SelectAll => 19,
            Action::DeselectAll => 3,
            Action::ToolPen => 27,
            Action::ToolBrush => 24,
            Action::ToolPencil => 28,
            Action::ToolHighlighter => 26,
            Action::ToolEraser => 25,
            Action::ToolSelect => 30,
            Action::ToolShape => 31,
            Action::ToolText => 32,
            Action::ToolRuler => 29,
            Action::ZoomIn => 35,
            Action::ZoomOut => 36,
            Action::ZoomFit => 34,
            Action::ZoomReset => 37,
            Action::ToggleGrid => 21,
            Action::ToggleRulers => 22,
            Action::ToggleSidebar => 23,
            Action::Fullscreen => 6,
            Action::NextPage => 11,
            Action::PrevPage => 14,
            Action::FirstPage => 5,
            Action::LastPage => 8,
            Action::Preferences => 13,
            Action::ShowShortcuts => 20,
            Action::Quit => 15,
        }
    }

    /// The action's name as it is written in its declaration.
    pub open spec fn spec_name(self) -> Seq<char> {
        match self {
            Action::NewNotebook => "NewNotebook"@,
            Action::NewPage => "NewPage"@,
            Action::Save => "Save"@,
            Action::SaveAs => "SaveAs"@,
            Action::ImportPdf => "ImportPdf"@,
            Action::Export => "Export"@,
            Action::Undo => "Undo"@,
            Action::Redo => "Redo"@,
            Action::Cut => "Cut"@,
            Action::Copy => "Copy"@,
            Action::Paste => "Paste"@,
            Action::Delete => "Delete"@,
            Action::SelectAll => "SelectAll"@,
            Action::DeselectAll => "DeselectAll"@,
            Action::ToolPen => "ToolPen"@,
            Action::ToolBrush => "ToolBrush"@,
            Action::ToolPencil => "ToolPencil"@,
            Action::ToolHighlighter => "ToolHighlighter"@,
            Action::ToolEraser => "ToolEraser"@,
            Action::ToolSelect => "ToolSelect"@,
            Action::ToolShape => "ToolShape"@,
            Action::ToolText => "ToolText"@,
            Action::ToolRuler => "ToolRuler"@,
            Action::ZoomIn => "ZoomIn"@,
            Action::ZoomOut => "ZoomOut"@,
            Action::ZoomFit => "ZoomFit"@,
            Action::ZoomReset => "ZoomReset"@,
            Action::ToggleGrid => "ToggleGrid"@,
            Action::ToggleRulers => "ToggleRulers"@,
            Action::ToggleSidebar => "ToggleSidebar"@,
            Action::Fullscreen => "Fullscreen"@,
            Action::NextPage => "NextPage"@,
            Action::PrevPage => "PrevPage"@,
            Action::FirstPage => "FirstPage"@,
            Action::LastPage => "LastPage"@,
            Action::Preferences => "Preferences"@,
            Action::ShowShortcuts => "ShowShortcuts"@,
            Action::Quit => "Quit"@,
        }
    }

    /// The action's name as it is written in its declaration.
    pub fn name(&self) -> (res: &'static str)
        ensures
            res@ == self.spec_name(),
    {
        match self {
            Action::NewNotebook => "NewNotebook",
            Action::NewPage => "NewPage",
            Action::Save => "Save",
            Action::SaveAs => "SaveAs",
            Action::ImportPdf => "ImportPdf",
            Action::Export => "Export",
            Action::Undo => "Undo",
            Action::Redo => "Redo",
            Action::Cut => "Cut",
            Action::Copy => "Copy",
            Action::Paste => "Paste",
            Action::Delete => "Delete",
            Action::SelectAll => "SelectAll",
            Action::DeselectAll => "DeselectAll",
            Action::ToolPen => "ToolPen",
            Action::ToolBrush => "ToolBrush",
            Action::ToolPencil => "ToolPencil",
            Action::ToolHighlighter => "ToolHighlighter",
            Action::ToolEraser => "ToolEraser",
            Action::ToolSelect => "ToolSelect",
            Action::ToolShape => "ToolShape",
            Action::ToolText => "ToolText",
            Action::ToolRuler => "ToolRuler",
            Action::ZoomIn => "ZoomIn",
            Action::ZoomOut => "ZoomOut",
            Action::ZoomFit => "ZoomFit",
            Action::ZoomReset => "ZoomReset",
            Action::ToggleGrid => "ToggleGrid",
            Action::ToggleRulers => "ToggleRulers",
            Action::ToggleSidebar => "ToggleSidebar",
            Action::Fullscreen => "Fullscreen",
            Action::NextPage => "NextPage",
            Action::PrevPage => "PrevPage",
            Action::FirstPage => "FirstPage",
            Action::LastPage => "LastPage",
            Action::Preferences => "Preferences",
            Action::ShowShortcuts => "ShowShortcuts",
            Action::Quit => "Quit",
        }
    }

    /// Declaration position of the action.
    pub fn index(&self) -> (res: usize)
        ensures
            res == self.ordinal(),
            res < ACTION_COUNT,
    {
        match self {
            Action::NewNotebook => 0,
            Action::NewPage => 1,
            Action::Save => 2,
            Action::SaveAs => 3,
            Action::ImportPdf => 4,
            Action::Export => 5,
            Action::Undo => 6,
            Action::Redo => 7,
            Action::Cut => 8,
            Action::Copy => 9,
            Action::Paste => 10,
            Action::Delete => 11,
            Action::SelectAll => 12,
            Action::DeselectAll => 13,
            Action::ToolPen => 14,
            Action::ToolBrush => 15,
            Action::ToolPencil => 16,
            Action::ToolHighlighter => 17,
            Action::ToolEraser => 18,
            Action::ToolSelect => 19,
            Action::ToolShape => 20,
            Action::ToolText => 21,
            Action::ToolRuler => 22,
            Action::ZoomIn => 23,
            Action::ZoomOut => 24,
            Action::ZoomFit => 25,
            Action::ZoomReset => 26,
            Action::ToggleGrid => 27,
            Action::ToggleRulers => 28,
            Action::ToggleSidebar => 29,
            Action::Fullscreen => 30,
            Action::NextPage => 31,
            Action::PrevPage => 32,
            Action::FirstPage => 33,
            Action::LastPage => 34,
            Action::Preferences => 35,
            Action::ShowShortcuts => 36,
            Action::Quit => 37,
        }
    }
}

/// The factory binding of an action, if it has one. The keys follow the
/// user guide's shortcut table; New notebook, which the guide does not name,
/// takes Ctrl+Shift+N, since Ctrl+N belongs to New page.
pub open spec fn default_binding(a: Action) -> Option<ShortcutView> {
    match a {
        Action::NewNotebook => Some(chord("n"@, true, true)),
        Action::NewPage => Some(chord("n"@, true, false)),
        Action::Save => Some(chord("s"@, true, false)),
        Action::SaveAs => Some(chord("s"@, true, true)),
        Action::ImportPdf => Some(chord("i"@, true, false)),
        Action::Export => Some(chord("e"@, true, true)),
        Action::Undo => Some(chord("z"@, true, false)),
        Action::Redo => Some(chord("z"@, true, true)),
        Action::Cut => Some(chord("x"@, true, false)),
        Action::Copy => Some(chord("c"@, true, false)),
        Action::Paste => Some(chord("v"@, true, false)),
        Action::Delete => Some(chord("Delete"@, false, false)),
        Action::SelectAll => Some(chord("a"@, true, false)),
        Action::DeselectAll => Some(chord("Escape"@, false, false)),
        Action::ToolPen => Some(chord("p"@, false, false)),
        Action::ToolBrush => Some(chord("b"@, false, false)),
        Action::ToolPencil => Some(chord("d"@, false, false)),
        Action::ToolHighlighter => Some(chord("h"@, false, false)),
        Action::ToolEraser => Some(chord("e"@, false, false)),
        Action::ToolSelect => Some(chord("s"@, false, false)),
        Action::ToolShape => Some(chord("r"@, false, false)),
        Action::ToolText => Some(chord("t"@, false, false)),
        Action::ToolRuler => Some(chord("u"@, false, false)),
        Action::ZoomIn => Some(chord("equal"@, true, false)),
        Action::ZoomOut => Some(chord("minus"@, true, false)),
        Action::ZoomFit => Some(chord("0"@, true, false)),
        Action::ZoomReset => Some(chord("1"@, true, false)),
        Action::ToggleGrid => Some(chord("g"@, true, false)),
        Action::ToggleRulers => None,
        Action::ToggleSidebar => Some(chord("F9"@, false, false)),
        Action::Fullscreen => Some(chord("F11"@, false, false)),
        Action::NextPage => Some(chord("Page_Down"@, false, false)),
        Action::PrevPage => Some(chord("Page_Up"@, false, false)),
        Action::FirstPage => None,
        Action::LastPage => None,
        Action::Preferences => Some(chord("comma"@, true, false)),
        Action::ShowShortcuts => None,
        Action::Quit => Some(chord("q"@, true, false)),
    }
}

/// No two actions share a factory binding, so each factory chord stands for
/// one action only.
pub proof fn lemma_default_bindings_distinct(a: Action, b: Action)
    requires
        a != b,
        default_binding(a) is Some,
    ensures
        default_binding(a) != default_binding(b),
{
    reveal_strlit("0");
    assert("0"@.len() == 1 && "0"@[0] == '0');
    reveal_strlit("1");
    assert("1"@.len() == 1 && "1"@[0] == '1');
    reveal_strlit("Delete");
    assert("Delete"@.len() == 6 && "Delete"@[0] == 'D');
    reveal_strlit("Escape");
    assert("Escape"@.len() == 6 && "Escape"@[0] == 'E');
    reveal_strlit("F11");
    assert("F11"@.len() == 3 && "F11"@[0] == 'F');
    reveal_strlit("F9");
    assert("F9"@.len() == 2 && "F9"@[0] == 'F');
    reveal_strlit("Page_Down");
    assert("Page_Down"@.len() == 9 && "Page_Down"@[0] == 'P');
    reveal_strlit("Page_Up");
    assert("Page_Up"@.len() == 7 && "Page_Up"@[0] == 'P');
    reveal_strlit("a");
    assert("a"@.len() == 1 && "a"@[0] == 'a');
    reveal_strlit("b");
    assert("b"@.len() == 1 && "b"@[0] == 'b');
    reveal_strlit("c");
    assert("c"@.len() == 1 && "c"@[0] == 'c');
    reveal_strlit("comma");
    assert("comma"@.len() == 5 && "comma"@[0] == 'c');
    reveal_strlit("d");
    assert("d"@.len() == 1 && "d"@[0] == 'd');
    reveal_strlit("e");
    assert("e"@.len() == 1 && "e"@[0] == 'e');
    reveal_strlit("equal");
    assert("equal"@.len() == 5 && "equal"@[0] == 'e');
    reveal_strlit("g");
    assert("g"@.len() == 1 && "g"@[0] == 'g');
    reveal_strlit("h");
    assert("h"@.len() == 1 && "h"@[0] == 'h');
    reveal_strlit("i");
    assert("i"@.len() == 1 && "i"@[0] == 'i');
    reveal_strlit("minus");
    assert("minus"@.len() == 5 && "minus"@[0] == 'm');
    reveal_strlit("n");
    assert("n"@.len() == 1 && "n"@[0] == 'n');
    reveal_strlit("p");
    assert("p"@.len() == 1 && "p"@[0] == 'p');
    reveal_strlit("q");
    assert("q"@.len() == 1 && "q"@[0] == 'q');
    reveal_strlit("r");
    assert("r"@.len() == 1 && "r"@[0] == 'r');
    reveal_strlit("s");
    assert("s"@.len() == 1 && "s"@[0] == 's');
    reveal_strlit("t");
    assert("t"@.len() == 1 && "t"@[0] == 't');
    reveal_strlit("u");
    assert("u"@.len() == 1 && "u"@[0] == 'u');
    reveal_strlit("v");
    assert("v"@.len() == 1 && "v"@[0] == 'v');
    reveal_strlit("x");
    assert("x"@.len() == 1 && "x"@[0] == 'x');
    reveal_strlit("z");
    assert("z"@.len() == 1 && "z"@[0] == 'z');
}

/// In a manager holding the factory bindings, the only action bound to an
/// action's factory chord is that action, so looking the chord up finds it.
pub proof fn lemma_factory_chord_finds_its_action(m: ShortcutManager, a: Action)
    requires
        forall|x: Action| #[trigger] m.binding(x) == default_binding(x),
        default_binding(a) is Some,
    ensures
        forall|b: Action| #[trigger] m.binding(b) == default_binding(a) ==> b == a,
{
    assert forall|b: Action| #[trigger] m.binding(b) == default_binding(a) implies b == a by {
        if b != a {
            lemma_default_bindings_distinct(a, b);
        }
    }
}

/// The user guide's file and edit chords: Save is Ctrl+S and Save As is
/// Ctrl+Shift+S; Undo is Ctrl+Z and Redo Ctrl+Shift+Z; New page is Ctrl+N.
pub proof fn lemma_guide_chords()
    ensures
        default_binding(Action::Save) == Some(chord("s"@, true, false)),
        default_binding(Action::SaveAs) == Some(chord("s"@, true, true)),
        default_binding(Action::Undo) == Some(chord("z"@, true, false)),
        default_binding(Action::Redo) == Some(chord("z"@, true, true)),
        default_binding(Action::NewPage) == Some(chord("n"@, true, false)),
{
}

/// The factory binding of an action, built as a shortcut value.
pub fn default_shortcut(a: Action) -> (res: Option<Shortcut>)
    ensures
        match res {
            Some(s) => default_binding(a) == Some(s@),
            None => default_binding(a) is None,
        },
{
    match a {
        Action::NewNotebook => Some(Shortcut::ctrl_shift("n")),
        Action::NewPage => Some(Shortcut::ctrl("n")),
        Action::Save => Some(Shortcut::ctrl("s")),
        Action::SaveAs => Some(Shortcut::ctrl_shift("s")),
        Action::ImportPdf => Some(Shortcut::ctrl("i")),
        Action::Export => Some(Shortcut::ctrl_shift("e")),
        Action::Undo => Some(Shortcut::ctrl("z")),
        Action::Redo => Some(Shortcut::ctrl_shift("z")),
        Action::Cut => Some(Shortcut::ctrl("x")),
        Action::Copy => Some(Shortcut::ctrl("c")),
        Action::Paste => Some(Shortcut::ctrl("v")),
        Action::Delete => Some(Shortcut::new("Delete")),
        Action::SelectAll => Some(Shortcut::ctrl("a")),
        Action::DeselectAll => Some(Shortcut::new("Escape")),
        Action::ToolPen => Some(Shortcut::new("p")),
        Action::ToolBrush => Some(Shortcut::new("b")),
        Action::ToolPencil => Some(Shortcut::new("d")),
        Action::ToolHighlighter => Some(Shortcut::new("h")),
        Action::ToolEraser => Some(Shortcut::new("e")),
        Action::ToolSelect => Some(Shortcut::new("s")),
        Action::ToolShape => Some(Shortcut::new("r")),
        Action::ToolText => Some(Shortcut::new("t")),
        Action::ToolRuler => Some(Shortcut::new("u")),
        Action::ZoomIn => Some(Shortcut::ctrl("equal")),
        Action::ZoomOut => Some(Shortcut::ctrl("minus")),
        Action::ZoomFit => Some(Shortcut::ctrl("0")),
        Action::ZoomReset => Some(Shortcut::ctrl("1")),
        Action::ToggleGrid => Some(Shortcut::ctrl("g")),
        Action::ToggleRulers => None,
        Action::ToggleSidebar => Some(Shortcut::new("F9")),
        Action::Fullscreen => Some(Shortcut::new("F11")),
        Action::NextPage => Some(Shortcut::new("Page_Down")),
        Action::PrevPage => Some(Shortcut::new("Page_Up")),
        Action::FirstPage => None,
        Action::LastPage => None,
        Action::Preferences => Some(Shortcut::ctrl("comma")),
        Action::ShowShortcuts => None,
        Action::Quit => Some(Shortcut::ctrl("q")),
    }
}

/// The action at a declaration position.
pub fn action_from_index(i: usize) -> (res: Action)
    requires
        i < ACTION_COUNT,
    ensures
        res == action_at(i as int),
{
    match i {
        0 => Action::NewNotebook,
        1 => Action::NewPage,
        2 => Action::Save,
        3 => Action::SaveAs,
        4 => Action::ImportPdf,
        5 => Action::Export,
        6 => Action::Undo,
        7 => Action::Redo,
        8 => Action::Cut,
        9 => Action::Copy,
        10 => Action::Paste,
        11 => Action::Delete,
        12 => Action::SelectAll,
        13 => Action::DeselectAll,
        14 => Action::ToolPen,
        15 => Action::ToolBrush,
        16 => Action::ToolPencil,
        17 => Action::ToolHighlighter,
        18 => Action::ToolEraser,
        19 => Action::ToolSelect,
        20 => Action::ToolShape,
        21 => Action::ToolText,
        22 => Action::ToolRuler,
        23 => Action::ZoomIn,
        24 => Action::ZoomOut,
        25 => Action::ZoomFit,
        26 => Action::ZoomReset,
        27 => Action::ToggleGrid,
        28 => Action::ToggleRulers,
        29 => Action::ToggleSidebar,
        30 => Action::Fullscreen,
        31 => Action::NextPage,
        32 => Action::PrevPage,
        33 => Action::FirstPage,
        34 => Action::LastPage,
        35 => Action::Preferences,
        36 => Action::ShowShortcuts,
        37 => Action::Quit,
        _ => Action::Quit,
    }
}

/// The action at a position of the alphabetical order of names.
pub fn action_from_rank(r: usize) -> (res: Action)
    requires
        r < ACTION_COUNT,
    ensures
        res == action_at_rank(r as int),
{
    match r {
        0 => Action::Copy,
        1 => Action::Cut,
        2 => Action::Delete,
        3 => Action::DeselectAll,
        4 => Action::Export,
        5 => Action::FirstPage,
        6 => Action::Fullscreen,
        7 => Action::ImportPdf,
        8 => Action::LastPage,
        9 => Action::NewNotebook,
        10 => Action::NewPage,
        11 => Action::NextPage,
        12 => Action::Paste,
        13 => Action::Preferences,
        14 => Action::PrevPage,
        15 => Action::Quit,
        16 => Action::Redo,
        17 => Action::Save,
        18 => Action::SaveAs,
        19 => Action::SelectAll,
        20 => Action::ShowShortcuts,
        21 => Action::ToggleGrid,
        22 => Action::ToggleRulers,
        23 => Action::ToggleSidebar,
        24 => Action::ToolBrush,
        25 => Action::ToolEraser,
        26 => Action::ToolHighlighter,
        27 => Action::ToolPen,
        28 => Action::ToolPencil,
        29 => Action::ToolRuler,
        30 => Action::ToolSelect,
        31 => Action::ToolShape,
        32 => Action::ToolText,
        33 => Action::Undo,
        34 => Action::ZoomFit,
        35 => Action::ZoomIn,
        36 => Action::ZoomOut,
        37 => Action::ZoomReset,
        _ => Action::ZoomReset,
    }
}

/// The mathematical value of an optional shortcut.
pub open spec fn opt_view(o: Option<Shortcut>) -> Option<ShortcutView> {
    match o {
        Some(s) => Some(s@),
        None => None,
    }
}

/// Every action's position is below the action count, and the action at an
/// action's position is that action.
pub proof fn lemma_action_position(a: Action)
    ensures
        0 <= a.ordinal() < ACTION_COUNT,
        action_at(a.ordinal()) == a,
{
}

/// Positions below the action count name distinct actions, each at its own
/// position.
pub proof fn lemma_position_action(i: int)
    requires
        0 <= i < ACTION_COUNT,
    ensures
        action_at(i).ordinal() == i,
{
}

/// The bound actions among the first `n` names in alphabetical order, each with
/// its shortcut.
pub open spec fn bound_by_name(
    binding: spec_fn(Action) -> Option<ShortcutView>,
    n: int,
) -> Seq<(Action, ShortcutView)>
    decreases n,
{
    if n <= 0 {
        Seq::empty()
    } else {
        let a = action_at_rank(n - 1);
        bound_by_name(binding, n - 1) + match binding(a) {
            Some(s) => seq![(a, s)],
            None => Seq::empty(),
        }
    }
}

/// Whether text `a` comes strictly before text `b` in character order: at the
/// first position where they differ `a` has the smaller character, or `a` is
/// a proper prefix of `b`.
pub open spec fn text_before(a: Seq<char>, b: Seq<char>) -> bool
    decreases a.len(),
{
    if a.len() == 0 {
        b.len() > 0
    } else if b.len() == 0 {
        false
    } else if a[0] != b[0] {
        (a[0] as u32) < (b[0] as u32)
    } else {
        text_before(a.drop_first(), b.drop_first())
    }
}

/// Character order is transitive.
pub proof fn lemma_text_before_transitive(a: Seq<char>, b: Seq<char>, c: Seq<char>)
    requires
        text_before(a, b),
        text_before(b, c),
    ensures
        text_before(a, c),
    decreases a.len(),
{
    if a.len() > 0 && b.len() > 0 && c.len() > 0 && a[0] == b[0] && b[0] == c[0] {
        lemma_text_before_transitive(a.drop_first(), b.drop_first(), c.drop_first());
    }
}

/// Names next to each other in the alphabetical table are in character order.
proof fn lemma_rank_names_adjacent(r: int)
    requires
        0 <= r < ACTION_COUNT - 1,
    ensures
        text_before(action_at_rank(r).spec_name(), action_at_rank(r + 1).spec_name()),
{
    reveal_with_fuel(text_before, 12);
    if r == 0 {
        reveal_strlit("Copy");
        reveal_strlit("Cut");
        assert(text_before("Copy"@, "Cut"@));
    } else if r == 1 {
        reveal_strlit("Cut");
        reveal_strlit("Delete");
        assert(text_before("Cut"@, "Delete"@));
    } else if r == 2 {
        reveal_strlit("Delete");
        reveal_strlit("DeselectAll");
        assert(text_before("Delete"@, "DeselectAll"@));
    } else if r == 3 {
        reveal_strlit("DeselectAll");
        reveal_strlit("Export");
        assert(text_before("DeselectAll"@, "Export"@));
    } else if r == 4 {
        reveal_strlit("Export");
        reveal_strlit("FirstPage");
        assert(text_before("Export"@, "FirstPage"@));
    } else if r == 5 {
        reveal_strlit("FirstPage");
        reveal_strlit("Fullscreen");
        assert(text_before("FirstPage"@, "Fullscreen"@));
    } else if r == 6 {
        reveal_strlit("Fullscreen");
        reveal_strlit("ImportPdf");
        assert(text_before("Fullscreen"@, "ImportPdf"@));
    } else if r == 7 {
        reveal_strlit("ImportPdf");
        reveal_strlit("LastPage");
        assert(text_before("ImportPdf"@, "LastPage"@));
    } else if r == 8 {
        reveal_strlit("LastPage");
        reveal_strlit("NewNotebook");
        assert(text_before("LastPage"@, "NewNotebook"@));
    } else if r == 9 {
        reveal_strlit("NewNotebook");
        reveal_strlit("NewPage");
        assert(text_before("NewNotebook"@, "NewPage"@));
    } else if r == 10 {
        reveal_strlit("NewPage");
        reveal_strlit("NextPage");
        assert(text_before("NewPage"@, "NextPage"@));
    } else if r == 11 {
        reveal_strlit("NextPage");
        reveal_strlit("Paste");
        assert(text_before("NextPage"@, "Paste"@));
    } else if r == 12 {
        reveal_strlit("Paste");
        reveal_strlit("Preferences");
        assert(text_before("Paste"@, "Preferences"@));
    } else if r == 13 {
        reveal_strlit("Preferences");
        reveal_strlit("PrevPage");
        assert(text_before("Preferences"@, "PrevPage"@));
    } else if r == 14 {
        reveal_strlit("PrevPage");
        reveal_strlit("Quit");
        assert(text_before("PrevPage"@, "Quit"@));
    } else if r == 15 {
        reveal_strlit("Quit");
        reveal_strlit("Redo");
        assert(text_before("Quit"@, "Redo"@));
    } else if r == 16 {
        reveal_strlit("Redo");
        reveal_strlit("Save");
        assert(text_before("Redo"@, "Save"@));
    } else if r == 17 {
        reveal_strlit("Save");
        reveal_strlit("SaveAs");
        assert(text_before("Save"@, "SaveAs"@));
    } else if r == 18 {
        reveal_strlit("SaveAs");
        reveal_strlit("SelectAll");
        assert(text_before("SaveAs"@, "SelectAll"@));
    } else if r == 19 {
        reveal_strlit("SelectAll");
        reveal_strlit("ShowShortcuts");
        assert(text_before("SelectAll"@, "ShowShortcuts"@));
    } else if r == 20 {
        reveal_strlit("ShowShortcuts");
        reveal_strlit("ToggleGrid");
        assert(text_before("ShowShortcuts"@, "ToggleGrid"@));
    } else if r == 21 {
        reveal_strlit("ToggleGrid");
        reveal_strlit("ToggleRulers");
        assert(text_before("ToggleGrid"@, "ToggleRulers"@));
    } else if r == 22 {
        reveal_strlit("ToggleRulers");
        reveal_strlit("ToggleSidebar");
        assert(text_before("ToggleRulers"@, "ToggleSidebar"@));
    } else if r == 23 {
        reveal_strlit("ToggleSidebar");
        reveal_strlit("ToolBrush");
        assert(text_before("ToggleSidebar"@, "ToolBrush"@));
    } else if r == 24 {
        reveal_strlit("ToolBrush");
        reveal_strlit("ToolEraser");
        assert(text_before("ToolBrush"@, "ToolEraser"@));
    } else if r == 25 {
        reveal_strlit("ToolEraser");
        reveal_strlit("ToolHighlighter");
        assert(text_before("ToolEraser"@, "ToolHighlighter"@));
    } else if r == 26 {
        reveal_strlit("ToolHighlighter");
        reveal_strlit("ToolPen");
        assert(text_before("ToolHighlighter"@, "ToolPen"@));
    } else if r == 27 {
        reveal_strlit("ToolPen");
        reveal_strlit("ToolPencil");
        assert(text_before("ToolPen"@, "ToolPencil"@));
    } else if r == 28 {
        reveal_strlit("ToolPencil");
        reveal_strlit("ToolRuler");
        assert(text_before("ToolPencil"@, "ToolRuler"@));
    } else if r == 29 {
        reveal_strlit("ToolRuler");
        reveal_strlit("ToolSelect");
        assert(text_before("ToolRuler"@, "ToolSelect"@));
    } else if r == 30 {
        reveal_strlit("ToolSelect");
        reveal_strlit("ToolShape");
        assert(text_before("ToolSelect"@, "ToolShape"@));
    } else if r == 31 {
        reveal_strlit("ToolShape");
        reveal_strlit("ToolText");
        assert(text_before("ToolShape"@, "ToolText"@));
    } else if r == 32 {
        reveal_strlit("ToolText");
        reveal_strlit("Undo");
        assert(text_before("ToolText"@, "Undo"@));
    } else if r == 33 {
        reveal_strlit("Undo");
        reveal_strlit("ZoomFit");
        assert(text_before("Undo"@, "ZoomFit"@));
    } else if r == 34 {
        reveal_strlit("ZoomFit");
        reveal_strlit("ZoomIn");
        assert(text_before("ZoomFit"@, "ZoomIn"@));
    } else if r == 35 {
        reveal_strlit("ZoomIn");
        reveal_strlit("ZoomOut");
        assert(text_before("ZoomIn"@, "ZoomOut"@));
    } else if r == 36 {
        reveal_strlit("ZoomOut");
        reveal_strlit("ZoomReset");
        assert(text_before("ZoomOut"@, "ZoomReset"@));
    }
}

/// The alphabetical table is in character order of the action names.
pub proof fn lemma_rank_names_ordered(r: int, t: int)
    requires
        0 <= r < t < ACTION_COUNT,
    ensures
        text_before(action_at_rank(r).spec_name(), action_at_rank(t).spec_name()),
    decreases t - r,
{
    lemma_rank_names_adjacent(t - 1);
    if r < t - 1 {
        lemma_rank_names_ordered(r, t - 1);
        lemma_text_before_transitive(
            action_at_rank(r).spec_name(),
            action_at_rank(t - 1).spec_name(),
            action_at_rank(t).spec_name(),
        );
    }
}

/// The bound actions listed for the first `n` names come in increasing
/// alphabetical position, each below `n`.
proof fn lemma_bound_by_name_ranks(binding: spec_fn(Action) -> Option<ShortcutView>, n: int)
    requires
        n <= ACTION_COUNT,
    ensures
        forall|k: int|
            0 <= k < bound_by_name(binding, n).len() ==> {
                let a = (#[trigger] bound_by_name(binding, n)[k]).0;
                &&& 0 <= a.name_rank() < n
                &&& action_at_rank(a.name_rank()) == a
            },
        forall|k: int, l: int|
            0 <= k < l < bound_by_name(binding, n).len() ==> (#[trigger] bound_by_name(
                binding,
                n,
            )[k]).0.name_rank() < (#[trigger] bound_by_name(binding, n)[l]).0.name_rank(),
    decreases n,
{
    if n > 0 {
        lemma_bound_by_name_ranks(binding, n - 1);
        let prev = bound_by_name(binding, n - 1);
        let cur = bound_by_name(binding, n);
        let a = action_at_rank(n - 1);
        assert(a.name_rank() == n - 1);
        assert forall|k: int| 0 <= k < prev.len() implies #[trigger] cur[k] == prev[k] by {}
    }
}

/// `all_bindings` lists the bound actions sorted by name: every action's name
/// comes strictly before the names of those after it.
pub proof fn lemma_bindings_sorted_by_name(binding: spec_fn(Action) -> Option<ShortcutView>)
    ensures
        forall|k: int, l: int|
            0 <= k < l < bound_by_name(binding, ACTION_COUNT as int).len() ==> text_before(
                (#[trigger] bound_by_name(binding, ACTION_COUNT as int)[k]).0.spec_name(),
                (#[trigger] bound_by_name(binding, ACTION_COUNT as int)[l]).0.spec_name(),
            ),
{
    let b = bound_by_name(binding, ACTION_COUNT as int);
    lemma_bound_by_name_ranks(binding, ACTION_COUNT as int);
    assert forall|k: int, l: int| 0 <= k < l < b.len() implies text_before(
        (#[trigger] b[k]).0.spec_name(),
        (#[trigger] b[l]).0.spec_name(),
    ) by {
        let rk = b[k].0.name_rank();
        let rl = b[l].0.name_rank();
        lemma_rank_names_ordered(rk, rl);
    }
}

/// Shortcut manager: maps actions to shortcuts.
pub struct ShortcutManager {
    /// One slot per action, at the action's declaration position.
    bindings: Vec<(Action, Option<Shortcut>)>,
}

/// A binding table with one slot per action, in declaration order.
pub open spec fn table_wf(t: Seq<(Action, Option<Shortcut>)>) -> bool {
    &&& t.len() == ACTION_COUNT
    &&& forall|i: int| 0 <= i < ACTION_COUNT ==> #[trigger] t[i].0 == action_at(i)
}

/// The factory binding table.
fn defaults() -> (res: Vec<(Action, Option<Shortcut>)>)
    ensures
        table_wf(res@),
        forall|a: Action| #[trigger] opt_view(res@[a.ordinal()].1) == default_binding(a),
{
    let mut table: Vec<(Action, Option<Shortcut>)> = Vec::new();
    let mut i: usize = 0;
    while i < ACTION_COUNT
        invariant
            i <= ACTION_COUNT,
            table@.len() == i,
            forall|j: int| 0 <= j < i ==> #[trigger] table@[j].0 == action_at(j),
            forall|j: int|
                0 <= j < i ==> #[trigger] opt_view(table@[j].1) == default_binding(action_at(j)),
        decreases ACTION_COUNT - i,
    {
        let a = action_from_index(i);
        table.push((a, default_shortcut(a)));
        i = i + 1;
    }
    assert forall|a: Action| #[trigger]
        opt_view(table@[a.ordinal()].1) == default_binding(a) by {
        lemma_action_position(a);
    }
    table
}

impl ShortcutManager {
    /// The manager holds one slot per action, in declaration order.
    pub closed spec fn wf(&self) -> bool {
        table_wf(self.bindings@)
    }

    /// The shortcut bound to an action, if any.
    pub closed spec fn binding(&self, a: Action) -> Option<ShortcutView> {
        opt_view(self.bindings@[a.ordinal()].1)
    }

    /// All bindings as a function of the action.
    pub open spec fn binding_fn(&self) -> spec_fn(Action) -> Option<ShortcutView> {
        |a: Action| self.binding(a)
    }

    /// A manager holding the factory bindings.
    pub fn new() -> (res: Self)
        ensures
            res.wf(),
            forall|a: Action| #[trigger] res.binding(a) == default_binding(a),
    {
        ShortcutManager { bindings: defaults() }
    }

    /// Get the shortcut for an action.
    pub fn get(&self, action: &Action) -> (res: Option<&Shortcut>)
        requires
            self.wf(),
        ensures
            match res {
                Some(s) => self.binding(*action) == Some(s@),
                None => self.binding(*action) is None,
            },
    {
        proof {
            lemma_action_position(*action);
        }
        self.bindings[action.index()].1.as_ref()
    }

    /// Set a custom shortcut for an action.
    pub fn set(&mut self, action: Action, shortcut: Shortcut)
        requires
            old(self).wf(),
        ensures
            final(self).wf(),
            final(self).binding(action) == Some(shortcut@),
            forall|b: Action| b != action ==> #[trigger] final(self).binding(b) == old(self).binding(b),
    {
        let i = action.index();
        let ghost sv = shortcut@;
        proof {
            lemma_action_position(action);
        }
        self.bindings.set(i, (action, Some(shortcut)));
        assert forall|b: Action| b != action implies #[trigger] self.binding(b) == old(self).binding(b) by {
            lemma_action_position(b);
        }
    }

    /// Reset a specific binding to its factory value; an action without a
    /// factory binding is left unbound.
    pub fn reset(&mut self, action: &Action)
        requires
            old(self).wf(),
        ensures
            final(self).wf(),
            final(self).binding(*action) == default_binding(*action),
            forall|b: Action| b != *action ==> #[trigger] final(self).binding(b) == old(self).binding(b),
    {
        let i = action.index();
        proof {
            lemma_action_position(*action);
        }
        self.bindings.set(i, (*action, default_shortcut(*action)));
        assert forall|b: Action| b != *action implies #[trigger] self.binding(b) == old(self).binding(b) by {
            lemma_action_position(b);
        }
    }

    /// Reset all bindings to their factory values.
    pub fn reset_all(&mut self)
        requires
            old(self).wf(),
        ensures
            final(self).wf(),
            forall|a: Action| #[trigger] final(self).binding(a) == default_binding(a),
    {
        self.bindings = defaults();
    }

    /// Find the action a shortcut is bound to: the first such action in
    /// declaration order.
    pub fn action_for(&self, shortcut: &Shortcut) -> (res: Option<&Action>)
        requires
            self.wf(),
        ensures
            match res {
                Some(a) => {
                    &&& self.binding(*a) == Some(shortcut@)
                    &&& forall|b: Action|
                        b.ordinal() < a.ordinal() ==> #[trigger] self.binding(b) != Some(shortcut@)
                },
                None => forall|b: Action| #[trigger] self.binding(b) != Some(shortcut@),
            },
    {
        let mut i: usize = 0;
        while i < ACTION_COUNT
            invariant
                self.wf(),
                i <= ACTION_COUNT,
                forall|j: int| 0 <= j < i ==> opt_view(#[trigger] self.bindings@[j].1) != Some(shortcut@),
            decreases ACTION_COUNT - i,
        {
            let hit = match &self.bindings[i].1 {
                Some(s) => s.same_as(shortcut),
                None => false,
            };
            if hit {
                proof {
                    lemma_position_action(i as int);
                    assert forall|b: Action| b.ordinal() < self.bindings@[i as int].0.ordinal()
                        implies #[trigger] self.binding(b) != Some(shortcut@) by {
                        lemma_action_position(b);
                    }
                }
                return Some(&self.bindings[i].0);
            }
            i = i + 1;
        }
        assert forall|b: Action| #[trigger] self.binding(b) != Some(shortcut@) by {
            lemma_action_position(b);
        }
        None
    }

    /// All bound actions with their shortcuts, sorted by action name.
    pub fn all_bindings(&self) -> (res: Vec<(&Action, &Shortcut)>)
        requires
            self.wf(),
        ensures
            res@.map_values(|p: (&Action, &Shortcut)| (*p.0, p.1@)) == bound_by_name(
                self.binding_fn(),
                ACTION_COUNT as int,
            ),
    {
        let mut out: Vec<(&Action, &Shortcut)> = Vec::new();
        let mut r: usize = 0;
        while r < ACTION_COUNT
            invariant
                self.wf(),
                r <= ACTION_COUNT,
                out@.map_values(|p: (&Action, &Shortcut)| (*p.0, p.1@)) == bound_by_name(
                    self.binding_fn(),
                    r as int,
                ),
            decreases ACTION_COUNT - r,
        {
            let a = action_from_rank(r);
            let i = a.index();
            proof {
                lemma_action_position(a);
            }
            let ghost before = out@;
            match &self.bindings[i].1 {
                Some(s) => {
                    out.push((&self.bindings[i].0, s));
                },
                None => {},
            }
            assert(out@.map_values(|p: (&Action, &Shortcut)| (*p.0, p.1@)) =~= bound_by_name(
                self.binding_fn(),
                r + 1,
            ));
            r = r + 1;
        }
        out
    }
}

impl Default for ShortcutManager {
    fn default() -> (res: Self)
        ensures
            res.wf(),
            forall|a: Action| #[trigger] res.binding(a) == default_binding(a),
    {
        Self::new()
    }
}

} // verus!
