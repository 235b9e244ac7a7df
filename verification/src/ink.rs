//! Ink: tool and eraser kinds, text-annotation styles, SVG text escaping and
//! the rendering backends' lifecycle.

use vstd::prelude::*;
use vstd::string::*;
use crate::text::chars_of;
use vstd::utf8::*;

verus! {

/// Tool type for strokes.
#[derive(Debug, Clone, Copy, PartialEq, Eq, Structural, Hash)]
pub enum ToolType {
    Pen,
    Brush,
    Pencil,
    Marker,
    Highlighter,
    Eraser,
}

/// Eraser mode.
#[derive(Debug, Clone, Copy, PartialEq, Eq, Structural)]
pub enum EraserMode {
    /// Delete entire strokes that are touched.
    WholeStroke,
    /// Pixel-level erase (splits strokes).
    PixelErase,
}

/// Font weight of a text annotation.
#[derive(Debug, Clone, Copy, PartialEq, Eq, Structural)]
pub enum FontWeight {
    Light,
    Regular,
    Medium,
    SemiBold,
    Bold,
    ExtraBold,
}

/// The Pango weight number of a font weight.
pub open spec fn pango_weight(w: FontWeight) -> i32 {
    match w {
        FontWeight::Light => 300,
        FontWeight::Regular => 400,
        FontWeight::Medium => 500,
        FontWeight::SemiBold => 600,
        FontWeight::Bold => 700,
        FontWeight::ExtraBold => 800,
    }
}

impl FontWeight {
    /// The Pango weight number of this weight.
    pub fn to_pango_weight(&self) -> (res: i32)
        ensures
            res == pango_weight(*self),
    {
        match self {
            FontWeight::Light => 300,
            FontWeight::Regular => 400,
            FontWeight::Medium => 500,
            FontWeight::SemiBold => 600,
            FontWeight::Bold => 700,
            FontWeight::ExtraBold => 800,
        }
    }
}

/// Font style of a text annotation.
#[derive(Debug, Clone, Copy, PartialEq, Eq, Structural)]
pub enum FontStyle {
    Normal,
    Italic,
    Oblique,
}

/// Horizontal alignment of a text annotation.
#[derive(Debug, Clone, Copy, PartialEq, Eq, Structural)]
pub enum TextAlignment {
    Left,
    Center,
    Right,
    Justify,
}

/// The markup-safe form of one character.
pub open spec fn escape_char(c: char) -> Seq<char> {
    if c == '&' {
        "&amp;"@
    } else if c == '<' {
        "&lt;"@
    } else if c == '>' {
        "&gt;"@
    } else if c == '"' {
        "&quot;"@
    } else {
        seq![c]
    }
}

/// The markup-safe form of a text: each `&`, `<`, `>` and `"` replaced by its
/// entity.
pub open spec fn escaped(s: Seq<char>) -> Seq<char>
    decreases s.len(),
{
    if s.len() == 0 {
        Seq::empty()
    } else {
        escaped(s.drop_last()) + escape_char(s.last())
    }
}

/// Escape a text for inclusion in SVG/HTML markup.
pub fn html_escape(s: &str) -> (res: String)
    ensures
        res@ == escaped(s@),
{
    let cs = chars_of(s);
    let mut out = String::new();
    let mut i: usize = 0;
    while i < cs.len()
        invariant
            cs@ == s@,
            i <= cs@.len(),
            out@ == escaped(cs@.take(i as int)),
        decreases cs@.len() - i,
    {
        let c = cs[i];
        assert(cs@.take(i + 1).drop_last() =~= cs@.take(i as int));
        if c == '&' {
            out.append("&amp;");
        } else if c == '<' {
            out.append("&lt;");
        } else if c == '>' {
            out.append("&gt;");
        } else if c == '"' {
            out.append("&quot;");
        } else {
            out.push(c);
        }
        i = i + 1;
    }
    assert(cs@.take(i as int) =~= cs@);
    out
}

/// Skia GPU rendering backend (primary).
pub struct SkiaBackend {
    initialized: bool,
}

impl SkiaBackend {
    /// Whether the GPU context has been set up.
    pub closed spec fn is_initialized(&self) -> bool {
        self.initialized
    }

    /// A backend whose GPU context is not set up yet.
    pub fn new() -> (res: Self)
        ensures
            !res.is_initialized(),
    {
        SkiaBackend { initialized: false }
    }

    /// Set up the GPU context.
    pub fn init_gpu(&mut self) -> (res: Result<(), String>)
        ensures
            res is Ok,
            final(self).is_initialized(),
    {
        self.initialized = true;
        Ok(())
    }
}

/// Cairo CPU rendering backend (fallback).
pub struct CairoBackend {
    initialized: bool,
}

impl CairoBackend {
    /// Whether the backend has been set up.
    pub closed spec fn is_initialized(&self) -> bool {
        self.initialized
    }

    /// A backend that is not set up yet.
    pub fn new() -> (res: Self)
        ensures
            !res.is_initialized(),
    {
        CairoBackend { initialized: false }
    }

    /// Set up the backend.
    pub fn init(&mut self) -> (res: Result<(), String>)
        ensures
            res is Ok,
            final(self).is_initialized(),
    {
        self.initialized = true;
        Ok(())
    }
}


/// The UTF-8 bytes of a text.
pub open spec fn utf8_of(s: Seq<char>) -> Seq<u8> {
    encode_utf8(s)
}

/// `String::insert_str` inserts the bytes of `string` at byte position `idx`,
/// which must be a character boundary (the documented panic otherwise); the
/// result must fit the allocation limit.
pub assume_specification[ String::insert_str ](s: &mut String, idx: usize, string: &str)
    requires
        is_char_boundary(encode_utf8(old(s)@), idx as int),
        encode_utf8(old(s)@).len() + encode_utf8(string@).len() <= isize::MAX,
    ensures
        encode_utf8(final(s)@) == encode_utf8(old(s)@).take(idx as int) + encode_utf8(string@)
            + encode_utf8(old(s)@).skip(idx as int),
;

/// `String::remove` removes and returns the character whose encoding starts
/// at byte position `idx`, which must be a character boundary before the end
/// (the documented panic otherwise).
pub assume_specification[ String::remove ](s: &mut String, idx: usize) -> (res: char)
    requires
        idx < encode_utf8(old(s)@).len(),
        is_char_boundary(encode_utf8(old(s)@), idx as int),
    ensures
        res as u32 == decode_first_scalar(encode_utf8(old(s)@).skip(idx as int)),
        encode_utf8(final(s)@) == encode_utf8(old(s)@).take(idx as int) + encode_utf8(old(s)@).skip(
            idx + length_of_first_scalar(encode_utf8(old(s)@).skip(idx as int)),
        ),
;

/// `String::split_off` splits the string at byte position `at`, which must be
/// a character boundary (the documented panic otherwise), returning the tail.
pub assume_specification[ String::split_off ](s: &mut String, at: usize) -> (res: String)
    requires
        is_char_boundary(encode_utf8(old(s)@), at as int),
    ensures
        encode_utf8(final(s)@) == encode_utf8(old(s)@).take(at as int),
        encode_utf8(res@) == encode_utf8(old(s)@).skip(at as int),
;

/// `String::truncate` shortens the string to `new_len` bytes; a length at or
/// past the end changes nothing, and a shorter one must be a character
/// boundary (the documented panic otherwise).
pub assume_specification[ String::truncate ](s: &mut String, new_len: usize)
    requires
        new_len >= encode_utf8(old(s)@).len() || is_char_boundary(
            encode_utf8(old(s)@),
            new_len as int,
        ),
    ensures
        encode_utf8(final(s)@) == if new_len >= encode_utf8(old(s)@).len() {
            encode_utf8(old(s)@)
        } else {
            encode_utf8(old(s)@).take(new_len as int)
        },
;

/// `String::push_str` appends the bytes of `string`.
pub assume_specification[ String::push_str ](s: &mut String, string: &str)
    ensures
        encode_utf8(final(s)@) == encode_utf8(old(s)@) + encode_utf8(string@),
;

/// Text editing state: which annotation is edited (by the 128-bit value of
/// its UUID), the cursor and the selection, as byte positions in the text.
pub struct TextEditor {
    pub annotation_id: Option<u128>,
    pub cursor_pos: usize,
    pub selection_start: Option<usize>,
    pub selection_end: Option<usize>,
    pub composing: bool,
}

/// The smaller of two numbers.
pub open spec fn min_int(a: int, b: int) -> int {
    if a <= b {
        a
    } else {
        b
    }
}

/// The larger of two numbers.
pub open spec fn max_int(a: int, b: int) -> int {
    if a >= b {
        a
    } else {
        b
    }
}

impl TextEditor {
    /// Both ends of a selection are set.
    pub open spec fn selecting(self) -> bool {
        self.selection_start is Some && self.selection_end is Some
    }

    /// The selected byte range of a text `len` bytes long: from the smaller
    /// to the larger end, both clamped to the text.
    pub open spec fn span(self, len: int) -> (int, int) {
        let a = self.selection_start.unwrap() as int;
        let b = self.selection_end.unwrap() as int;
        (min_int(min_int(a, b), len), min_int(max_int(a, b), len))
    }

    /// Deleting the selection from `bytes` stays on character boundaries.
    pub open spec fn can_delete(self, bytes: Seq<u8>) -> bool {
        self.selecting() ==> {
            let (s, e) = self.span(bytes.len() as int);
            is_char_boundary(bytes, s) && is_char_boundary(bytes, e)
        }
    }

    /// The text after deleting the selection (unchanged without one).
    pub open spec fn bytes_after_delete(self, bytes: Seq<u8>) -> Seq<u8> {
        if self.selecting() {
            let (s, e) = self.span(bytes.len() as int);
            bytes.take(s) + bytes.skip(e)
        } else {
            bytes
        }
    }

    /// The editor after deleting the selection: the cursor at its start and no
    /// selection (unchanged without one).
    pub open spec fn editor_after_delete(self, bytes: Seq<u8>) -> TextEditor {
        if self.selecting() {
            TextEditor {
                cursor_pos: self.span(bytes.len() as int).0 as usize,
                selection_start: None,
                selection_end: None,
                ..self
            }
        } else {
            self
        }
    }

    /// Where an insertion lands: the cursor after deleting the selection,
    /// clamped to the text.
    pub open spec fn insert_pos(self, bytes: Seq<u8>) -> int {
        min_int(
            self.editor_after_delete(bytes).cursor_pos as int,
            self.bytes_after_delete(bytes).len() as int,
        )
    }

    /// The text after inserting `input`: the selection is deleted, then the
    /// input goes in at the insertion point.
    pub open spec fn bytes_after_insert(self, bytes: Seq<u8>, input: Seq<u8>) -> Seq<u8> {
        let b1 = self.bytes_after_delete(bytes);
        let pos = self.insert_pos(bytes);
        b1.take(pos) + input + b1.skip(pos)
    }

    /// The editor after inserting `input`: no selection, and the cursor just
    /// past the inserted bytes.
    pub open spec fn editor_after_insert(self, bytes: Seq<u8>, input: Seq<u8>) -> TextEditor {
        TextEditor {
            cursor_pos: (self.insert_pos(bytes) + input.len()) as usize,
            ..self.editor_after_delete(bytes)
        }
    }

    /// Backspace deletes a character (rather than the selection or nothing).
    pub open spec fn backspace_hits_char(self, bytes: Seq<u8>) -> bool {
        !self.selecting() && self.cursor_pos > 0 && self.cursor_pos <= bytes.len()
    }

    /// The text after a backspace: the selection deleted if there is one, else
    /// the character starting one byte before the cursor, else unchanged.
    pub open spec fn bytes_after_backspace(self, bytes: Seq<u8>) -> Seq<u8> {
        if self.selecting() {
            self.bytes_after_delete(bytes)
        } else if self.backspace_hits_char(bytes) {
            let c = self.cursor_pos as int;
            bytes.take(c - 1) + bytes.skip(c - 1 + length_of_first_scalar(bytes.skip(c - 1)))
        } else {
            bytes
        }
    }

    /// The editor after a backspace: as after deleting the selection, or with
    /// the cursor one byte back, or unchanged.
    pub open spec fn editor_after_backspace(self, bytes: Seq<u8>) -> TextEditor {
        if self.selecting() {
            self.editor_after_delete(bytes)
        } else if self.backspace_hits_char(bytes) {
            TextEditor { cursor_pos: (self.cursor_pos - 1) as usize, ..self }
        } else {
            self
        }
    }

    /// A fresh editor, not editing anything.
    pub fn new() -> (res: Self)
        ensures
            res.annotation_id is None,
            res.cursor_pos == 0,
            res.selection_start is None,
            res.selection_end is None,
            !res.composing,
    {
        TextEditor {
            annotation_id: None,
            cursor_pos: 0,
            selection_start: None,
            selection_end: None,
            composing: false,
        }
    }

    /// Start editing an annotation, with the cursor at the start and no
    /// selection.
    pub fn start_editing(&mut self, annotation_id: u128)
        ensures
            *final(self) == (TextEditor {
                annotation_id: Some(annotation_id),
                cursor_pos: 0,
                selection_start: None,
                selection_end: None,
                ..*old(self)
            }),
    {
        self.annotation_id = Some(annotation_id);
        self.cursor_pos = 0;
        self.selection_start = None;
        self.selection_end = None;
    }

    /// Stop editing.
    pub fn stop_editing(&mut self)
        ensures
            *final(self) == (TextEditor { annotation_id: None, ..*old(self) }),
    {
        self.annotation_id = None;
    }

    /// Whether an annotation is being edited.
    pub fn is_editing(&self) -> (res: bool)
        ensures
            res == self.annotation_id is Some,
    {
        self.annotation_id.is_some()
    }

    /// Whether both ends of a selection are set.
    pub fn has_selection(&self) -> (res: bool)
        ensures
            res == self.selecting(),
    {
        self.selection_start.is_some() && self.selection_end.is_some()
    }

    /// Delete the selected text, leaving the cursor at its start.
    fn delete_selection(&mut self, text: &mut String)
        requires
            old(self).can_delete(utf8_of(old(text)@)),
            utf8_of(old(text)@).len() <= usize::MAX,
        ensures
            utf8_of(final(text)@) == old(self).bytes_after_delete(utf8_of(old(text)@)),
            *final(self) == old(self).editor_after_delete(utf8_of(old(text)@)),
    {
        broadcast use encode_utf8_valid_utf8, valid_utf8_split, is_char_boundary_iff_not_is_continuation_byte, is_char_boundary_start_end_of_seq;

        if let (Some(start), Some(end)) = (self.selection_start, self.selection_end) {
            let ghost b = utf8_of(text@);
            let len = text.as_str().len();
        assert(len as int == utf8_of(text@).len());
            let lo = if start <= end {
                start
            } else {
                end
            };
            let hi = if start <= end {
                end
            } else {
                start
            };
            let s = if lo <= len {
                lo
            } else {
                len
            };
            let e = if hi <= len {
                hi
            } else {
                len
            };
            let tail = text.split_off(e);
            proof {
                let t = b.take(e as int);
                encode_utf8_valid_utf8(old(text)@);
                valid_utf8_split(b, e as int);
                assert(t =~= b.subrange(0, e as int));
                if s < e {
                    assert(t[s as int] == b[s as int]);
                    is_char_boundary_iff_not_is_continuation_byte(b, s as int);
                    is_char_boundary_iff_not_is_continuation_byte(t, s as int);
                }
            }
            text.truncate(s);
            text.push_str(tail.as_str());
            assert(utf8_of(text@) =~= b.take(s as int) + b.skip(e as int));
            self.cursor_pos = s;
            self.selection_start = None;
            self.selection_end = None;
        }
    }

    /// Insert `input` at the cursor, replacing the selection if there is one;
    /// the cursor moves past the inserted text. (The insertion point must be a
    /// character boundary, as `String::insert_str` demands.)
    pub fn insert(&mut self, text: &mut String, input: &str)
        requires
            old(self).can_delete(utf8_of(old(text)@)),
            is_char_boundary(
                old(self).bytes_after_delete(utf8_of(old(text)@)),
                old(self).insert_pos(utf8_of(old(text)@)),
            ),
            utf8_of(old(text)@).len() + utf8_of(input@).len() <= isize::MAX,
        ensures
            utf8_of(final(text)@) == old(self).bytes_after_insert(
                utf8_of(old(text)@),
                utf8_of(input@),
            ),
            *final(self) == old(self).editor_after_insert(utf8_of(old(text)@), utf8_of(input@)),
    {
        broadcast use encode_utf8_valid_utf8;

        if self.has_selection() {
            self.delete_selection(text);
        }
        let len = text.as_str().len();
        assert(len as int == utf8_of(text@).len());
        let pos = if self.cursor_pos <= len {
            self.cursor_pos
        } else {
            len
        };
        let ilen = input.len();
        text.insert_str(pos, input);
        self.cursor_pos = pos + ilen;
    }

    /// Delete the selection, or else the character just before the cursor
    /// (when the cursor is inside the text), moving the cursor back one byte.
    /// (The byte before the cursor must start a character, as `String::remove`
    /// demands.)
    pub fn backspace(&mut self, text: &mut String)
        requires
            old(self).can_delete(utf8_of(old(text)@)),
            utf8_of(old(text)@).len() <= usize::MAX,
            !old(self).selecting() && old(self).cursor_pos > 0 && old(self).cursor_pos <= utf8_of(
                old(text)@,
            ).len() ==> is_char_boundary(utf8_of(old(text)@), old(self).cursor_pos - 1),
        ensures
            utf8_of(final(text)@) == old(self).bytes_after_backspace(utf8_of(old(text)@)),
            *final(self) == old(self).editor_after_backspace(utf8_of(old(text)@)),
            !old(self).selecting() && !old(self).backspace_hits_char(utf8_of(old(text)@))
                ==> final(text)@ == old(text)@,
    {
        if self.has_selection() {
            self.delete_selection(text);
            return;
        }
        let len = text.as_str().len();
        assert(len as int == utf8_of(text@).len());
        if self.cursor_pos > 0 && self.cursor_pos <= len {
            text.remove(self.cursor_pos - 1);
            self.cursor_pos = self.cursor_pos - 1;
        }
    }

    /// Select the whole text of `text_len` bytes.
    pub fn select_all(&mut self, text_len: usize)
        ensures
            *final(self) == (TextEditor {
                selection_start: Some(0),
                selection_end: Some(text_len),
                ..*old(self)
            }),
    {
        self.selection_start = Some(0);
        self.selection_end = Some(text_len);
    }
}

/// Typing one ASCII character and then pressing backspace gives back the text
/// as it was; when the cursor was inside the text, the editor comes back to
/// where it was too.
pub proof fn lemma_backspace_undoes_ascii_insert(ed: TextEditor, bytes: Seq<u8>, ch: u8)
    requires
        !ed.selecting(),
        ch <= 0x7f,
        bytes.len() < usize::MAX,
    ensures
        ed.editor_after_insert(bytes, seq![ch]).bytes_after_backspace(
            ed.bytes_after_insert(bytes, seq![ch]),
        ) == bytes,
        ed.cursor_pos <= bytes.len() ==> ed.editor_after_insert(
            bytes,
            seq![ch],
        ).editor_after_backspace(ed.bytes_after_insert(bytes, seq![ch])) == ed,
{
    let pos = ed.insert_pos(bytes);
    let b2 = ed.bytes_after_insert(bytes, seq![ch]);
    let ed2 = ed.editor_after_insert(bytes, seq![ch]);
    assert(ed2.backspace_hits_char(b2));
    assert(ed2.cursor_pos == pos + 1);
    assert(b2.skip(pos)[0] == ch);
    assert(length_of_first_scalar(b2.skip(pos)) == 1);
    assert(b2.take(pos) =~= bytes.take(pos));
    assert(b2.skip(pos + 1) =~= bytes.skip(pos));
    assert(bytes =~= bytes.take(pos) + bytes.skip(pos));
}

impl Default for TextEditor {
    fn default() -> (res: Self)
        ensures
            res.annotation_id is None,
            res.cursor_pos == 0,
            res.selection_start is None,
            res.selection_end is None,
            !res.composing,
    {
        Self::new()
    }
}

} // verus!
