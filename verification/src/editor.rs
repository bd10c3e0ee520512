//! The one-line text editor shown under a description, used to type paths,
//! filters, names and values.
use vstd::prelude::*;
use crate::keys::Key;
use crate::screen::{ScreenBuffer, set_row};
use crate::text::{chars_of, push_all, push_str, repeated, string_from_chars, utf8_len, utf8_len_of};

verus! {

/// The text being edited and the cursor position (a character index).
#[derive(Debug)]
pub struct LineEditor {
    pub input: Vec<char>,
    pub cursor: usize,
}

/// What a key did to the editor.
#[derive(Debug)]
pub enum EditOutcome {
    /// Keep editing.
    Continue,
    /// Enter: the text is accepted.
    Submit(String),
    /// Esc: editing is abandoned.
    Cancel,
}

/// The text and cursor after a key that neither accepts nor abandons the
/// edit: Left/Right move by one within the text, Home/End jump to its ends,
/// Backspace removes the character before the cursor, Delete the one under
/// it, a character is inserted at the cursor; other keys change nothing.
pub open spec fn edit_key(input: Seq<char>, cursor: int, key: Key) -> (Seq<char>, int) {
    match key {
        Key::Left => (input, if cursor > 0 { cursor - 1 } else { 0 }),
        Key::Right => (input, if cursor + 1 < input.len() { cursor + 1 } else { input.len() as int }),
        Key::Home => (input, 0),
        Key::End => (input, input.len() as int),
        Key::Backspace => if cursor > 0 {
            (input.remove(cursor - 1), cursor - 1)
        } else {
            (input, cursor)
        },
        Key::Delete => if cursor < input.len() {
            (input.remove(cursor), cursor)
        } else {
            (input, cursor)
        },
        Key::Char(c) => (input.insert(cursor, c), cursor + 1),
        _ => (input, cursor),
    }
}

impl LineEditor {
    /// The cursor is within the text.
    pub open spec fn wf(&self) -> bool {
        self.cursor <= self.input.len()
    }

    /// An editor holding `input`, with the cursor after its last character.
    pub fn new(input: &str) -> (res: Self)
        ensures
            res.input@ == input@,
            res.cursor == input@.len(),
            res.wf(),
    {
        let v = chars_of(input);
        let n = v.len();
        LineEditor { input: v, cursor: n }
    }

    /// Applies one key press.
    pub fn handle_key(&mut self, key: Key) -> (out: EditOutcome)
        requires
            old(self).wf(),
            old(self).input.len() < usize::MAX,
        ensures
            final(self).wf(),
            key == Key::Enter ==> *final(self) == *old(self) && (out matches EditOutcome::Submit(
                s,
            ) && s@ == old(self).input@),
            key == Key::Esc ==> *final(self) == *old(self) && out is Cancel,
            key != Key::Enter && key != Key::Esc ==> out is Continue && (
            final(self).input@,
            final(self).cursor as int,
            ) == edit_key(old(self).input@, old(self).cursor as int, key),
    {
        match key {
            Key::Enter => {
                return EditOutcome::Submit(string_from_chars(&self.input));
            },
            Key::Esc => {
                return EditOutcome::Cancel;
            },
            Key::Left => {
                if self.cursor > 0 {
                    self.cursor = self.cursor - 1;
                }
            },
            Key::Right => {
                if self.cursor + 1 < self.input.len() {
                    self.cursor = self.cursor + 1;
                } else {
                    self.cursor = self.input.len();
                }
            },
            Key::Home => {
                self.cursor = 0;
            },
            Key::End => {
                self.cursor = self.input.len();
            },
            Key::Backspace => {
                if self.cursor > 0 {
                    self.cursor = self.cursor - 1;
                    self.input.remove(self.cursor);
                }
            },
            Key::Delete => {
                if self.cursor < self.input.len() {
                    self.input.remove(self.cursor);
                }
            },
            Key::Char(c) => {
                self.input.insert(self.cursor, c);
                self.cursor = self.cursor + 1;
            },
            _ => {},
        }
        EditOutcome::Continue
    }

    /// The edit line: the prompt followed by the text.
    pub fn line(&self, prompt: &str) -> (res: Vec<char>)
        ensures
            res@ == prompt@ + self.input@,
    {
        let mut res: Vec<char> = Vec::new();
        push_str(&mut res, prompt);
        push_all(&mut res, &self.input);
        res
    }

    /// Terminal column of the cursor: the byte length of the prompt plus the
    /// cursor position.
    pub fn cursor_column(&self, prompt: &str) -> (col: usize)
        requires
            utf8_len(prompt@) + self.cursor <= usize::MAX,
        ensures
            col == utf8_len(prompt@) + self.cursor,
    {
        let p = chars_of(prompt);
        utf8_len_of(&p) + self.cursor
    }
}

/// Grid after the editor frame is drawn from row `row`: an empty row, a rule
/// of dashes, the description, (the edit line is row `row + 3`), a rule and
/// an empty row.
pub open spec fn editor_frame_grid(
    g: Seq<Seq<char>>,
    width: nat,
    height: nat,
    row: int,
    description: Seq<char>,
) -> Seq<Seq<char>> {
    let g1 = set_row(g, width, height, row, Seq::empty());
    let g2 = set_row(g1, width, height, row + 1, repeated('-', width));
    let g3 = set_row(g2, width, height, row + 2, description);
    let g4 = set_row(g3, width, height, row + 4, repeated('-', width));
    set_row(g4, width, height, row + 5, Seq::empty())
}

/// Draws the frame of the editor from row `row` of `buf`.
pub fn draw_editor_frame(buf: &mut ScreenBuffer, row: usize, description: &str)
    requires
        old(buf).wf(),
        row + 5 <= usize::MAX,
    ensures
        final(buf).wf(),
        final(buf).width() == old(buf).width(),
        final(buf).height() == old(buf).height(),
        final(buf).grid() == editor_frame_grid(
            old(buf).grid(),
            old(buf).width() as nat,
            old(buf).height() as nat,
            row as int,
            description@,
        ),
{
    let mut rule: Vec<char> = Vec::new();
    crate::text::push_repeat(&mut rule, '-', buf.width());
    assert(rule@ =~= repeated('-', buf.width() as nat));
    let empty: Vec<char> = Vec::new();
    buf.set_line_chars(row, &empty);
    buf.set_line_chars(row + 1, &rule);
    buf.set_line(row + 2, description);
    buf.set_line_chars(row + 4, &rule);
    buf.set_line_chars(row + 5, &empty);
}

/// Draws the edit line (prompt and text) on row `row + 3` of `buf`.
pub fn draw_editor_line(buf: &mut ScreenBuffer, row: usize, prompt: &str, editor: &LineEditor)
    requires
        old(buf).wf(),
        row + 3 <= usize::MAX,
    ensures
        final(buf).wf(),
        final(buf).width() == old(buf).width(),
        final(buf).height() == old(buf).height(),
        final(buf).grid() == set_row(
            old(buf).grid(),
            old(buf).width() as nat,
            old(buf).height() as nat,
            row + 3,
            prompt@ + editor.input@,
        ),
{
    let line = editor.line(prompt);
    buf.set_line_chars(row + 3, &line);
}

/// Typing a character and then deleting it with Backspace gives back the
/// text and cursor that were there before.
pub proof fn lemma_insert_then_backspace(input: Seq<char>, cursor: int, c: char)
    requires
        0 <= cursor <= input.len(),
    ensures
        ({
            let (t1, k1) = edit_key(input, cursor, Key::Char(c));
            edit_key(t1, k1, Key::Backspace)
        }) == (input, cursor),
{
    let (t1, k1) = edit_key(input, cursor, Key::Char(c));
    assert(t1.remove(k1 - 1) =~= input);
}

/// Every key keeps the cursor within the text.
pub proof fn lemma_cursor_stays_in_text(input: Seq<char>, cursor: int, key: Key)
    requires
        0 <= cursor <= input.len(),
    ensures
        0 <= edit_key(input, cursor, key).1 <= edit_key(input, cursor, key).0.len(),
{
}

/// Only Backspace, Delete and typed characters change the text; a typed
/// character lands at the cursor.
pub proof fn lemma_text_changes(input: Seq<char>, cursor: int, key: Key)
    requires
        0 <= cursor <= input.len(),
    ensures
        !(key is Backspace || key is Delete || key is Char) ==> edit_key(input, cursor, key).0
            == input,
        key matches Key::Char(c) ==> edit_key(input, cursor, key).0[cursor] == c,
{
}

/// Each editing key, in terms of the text and cursor before it: Left and
/// Right move the cursor by one character within the text, Home and End to
/// its ends; Backspace removes the character before the cursor and Delete
/// the one under it; a typed character goes in at the cursor, which moves
/// past it. Right then Left comes back where it started unless the cursor
/// was at the end.
pub proof fn lemma_editing_keys(input: Seq<char>, cursor: int, c: char)
    requires
        0 <= cursor <= input.len(),
    ensures
        cursor < input.len() ==> edit_key(input, cursor, Key::Right) == (input, cursor + 1),
        cursor == input.len() ==> edit_key(input, cursor, Key::Right) == (input, cursor),
        cursor > 0 ==> edit_key(input, cursor, Key::Left) == (input, cursor - 1),
        cursor == 0 ==> edit_key(input, cursor, Key::Left) == (input, 0int),
        edit_key(input, cursor, Key::Home) == (input, 0int),
        edit_key(input, cursor, Key::End) == (input, input.len() as int),
        cursor > 0 ==> edit_key(input, cursor, Key::Backspace) == (
            input.take(cursor - 1) + input.skip(cursor),
            cursor - 1,
        ),
        cursor == 0 ==> edit_key(input, cursor, Key::Backspace) == (input, cursor),
        cursor < input.len() ==> edit_key(input, cursor, Key::Delete) == (
            input.take(cursor) + input.skip(cursor + 1),
            cursor,
        ),
        cursor == input.len() ==> edit_key(input, cursor, Key::Delete) == (input, cursor),
        edit_key(input, cursor, Key::Char(c)) == (input.take(cursor) + seq![c] + input.skip(cursor), cursor + 1),
        cursor < input.len() ==> {
            let (t, k) = edit_key(input, cursor, Key::Right);
            edit_key(t, k, Key::Left) == (input, cursor)
        },
{
    if cursor > 0 {
        assert(input.remove(cursor - 1) =~= input.take(cursor - 1) + input.skip(cursor));
    }
    if cursor < input.len() {
        assert(input.remove(cursor) =~= input.take(cursor) + input.skip(cursor + 1));
    }
    assert(input.insert(cursor, c) =~= input.take(cursor) + seq![c] + input.skip(cursor));
}

} // verus!
