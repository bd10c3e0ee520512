//! The two modal dialogs: a message with a row of buttons to choose from,
//! and a full-screen text shown until the user leaves it.
use vstd::prelude::*;
use crate::keys::Key;
use crate::screen::{ScreenBuffer, set_row};
use crate::text::{
    chars_of, lemma_utf8_len_ascii, lemma_utf8_len_concat, lines, push_all, push_repeat, repeated,
    split_lines, utf8_len, utf8_len_of,
};

verus! {

/// The texts of a slice of strings.
pub open spec fn strs_view(b: Seq<&str>) -> Seq<Seq<char>> {
    b.map_values(|s: &str| s@)
}

/// A button: `[ b ] ` when selected, `  b   ` otherwise.
pub open spec fn button_cell(b: Seq<char>, selected: bool) -> Seq<char> {
    if selected {
        seq!['[', ' '] + b + seq![' ', ']', ' ']
    } else {
        seq![' ', ' '] + b + seq![' ', ' ', ' ']
    }
}

/// The row of buttons with button `sel` selected.
pub open spec fn button_line(buttons: Seq<Seq<char>>, sel: int) -> Seq<char>
    decreases buttons.len(),
{
    if buttons.len() == 0 {
        Seq::empty()
    } else {
        button_line(buttons.drop_last(), sel) + button_cell(
            buttons.last(),
            buttons.len() - 1 == sel,
        )
    }
}

/// Bytes that the row of buttons takes: five per button plus its label.
pub open spec fn buttons_bytes(buttons: Seq<Seq<char>>) -> nat
    decreases buttons.len(),
{
    if buttons.len() == 0 {
        0
    } else {
        buttons_bytes(buttons.drop_last()) + 5 + utf8_len(buttons.last())
    }
}

/// Width of the dialog box: the wider of the button row and the message,
/// plus four.
pub open spec fn dialog_width(message: Seq<char>, buttons: Seq<Seq<char>>) -> nat {
    let b = buttons_bytes(buttons);
    let m = utf8_len(message);
    (if b >= m {
        b
    } else {
        m
    }) + 4
}

/// A border row: `l`, `width - 2` copies of `fill`, `r`.
pub open spec fn border(l: char, fill: char, r: char, width: nat) -> Seq<char> {
    seq![l] + repeated(fill, (width - 2) as nat) + seq![r]
}

/// The message row: the message between `|`, with `(w - m) / 2 - 1` spaces
/// before it and the rest after it (`m` its byte length).
pub open spec fn message_row(message: Seq<char>, width: nat) -> Seq<char> {
    let m = utf8_len(message);
    let pad1 = ((width - m) / 2 - 1) as nat;
    let pad2 = (width - m - pad1 - 2) as nat;
    seq!['|'] + repeated(' ', pad1) + message + repeated(' ', pad2) + seq!['|']
}

/// The button row: the buttons between `|`, with the same padding on both
/// sides.
pub open spec fn buttons_row(buttons: Seq<Seq<char>>, sel: int, width: nat) -> Seq<char> {
    let line = button_line(buttons, sel);
    let pad = ((width - buttons_bytes(buttons)) / 2 - 1) as nat;
    seq!['|'] + repeated(' ', pad) + line + repeated(' ', pad) + seq!['|']
}

/// First row of the dialog box on a screen of `height` rows.
pub open spec fn dialog_top(height: nat) -> int {
    (height - 7) / 2
}

/// The grid after the dialog box (all but its button row) is drawn.
pub open spec fn frame_grid(g: Seq<Seq<char>>, w: nat, h: nat, message: Seq<char>, width: nat) -> Seq<
    Seq<char>,
> {
    let top = dialog_top(h);
    let g0 = set_row(g, w, h, top, border('/', '~', '\\', width));
    let g1 = set_row(g0, w, h, top + 1, border('|', ' ', '|', width));
    let g2 = set_row(g1, w, h, top + 2, message_row(message, width));
    let g3 = set_row(g2, w, h, top + 3, border('|', ' ', '|', width));
    let g5 = set_row(g3, w, h, top + 5, border('|', ' ', '|', width));
    set_row(g5, w, h, top + 6, border('\\', '~', '/', width))
}

/// What a key does in the choice dialog.
#[derive(Debug)]
pub enum ChooseStep {
    /// Keep choosing, with this button selected.
    Select(usize),
    /// Enter: this button was chosen.
    Chosen(usize),
    /// Esc or q: nothing was chosen.
    Cancelled,
}

/// Selection after a key in a dialog of `count` buttons: Left and Right move
/// cyclically; other keys keep it.
pub open spec fn choose_move(sel: int, count: int, key: Key) -> int {
    match key {
        Key::Left => (sel + count - 1) % count,
        Key::Right => (sel + 1) % count,
        _ => sel,
    }
}

/// The byte length of the button row is `buttons_bytes`.
pub proof fn lemma_button_line_bytes(buttons: Seq<Seq<char>>, sel: int)
    ensures
        utf8_len(button_line(buttons, sel)) == buttons_bytes(buttons),
    decreases buttons.len(),
{
    if buttons.len() > 0 {
        lemma_button_line_bytes(buttons.drop_last(), sel);
        let b = buttons.last();
        let sel_here = buttons.len() - 1 == sel;
        lemma_utf8_len_concat(button_line(buttons.drop_last(), sel), button_cell(b, sel_here));
        let (l, r) = if sel_here {
            (seq!['[', ' '], seq![' ', ']', ' '])
        } else {
            (seq![' ', ' '], seq![' ', ' ', ' '])
        };
        assert(button_cell(b, sel_here) == l + b + r);
        lemma_utf8_len_concat(l + b, r);
        lemma_utf8_len_concat(l, b);
        lemma_utf8_len_ascii(l);
        lemma_utf8_len_ascii(r);
    }
}

proof fn lemma_buttons_bytes_prefix(buttons: Seq<Seq<char>>, i: int)
    requires
        0 <= i <= buttons.len(),
    ensures
        buttons_bytes(buttons.take(i)) <= buttons_bytes(buttons),
    decreases buttons.len() - i,
{
    if i < buttons.len() {
        lemma_buttons_bytes_prefix(buttons, i + 1);
        assert(buttons.take(i + 1).drop_last() =~= buttons.take(i));
    } else {
        assert(buttons.take(i) =~= buttons);
    }
}

/// Width of the choice dialog for `message` and `buttons`.
pub fn choose_dialog_width(message: &str, buttons: &[&str]) -> (w: usize)
    requires
        dialog_width(message@, strs_view(buttons@)) <= usize::MAX,
    ensures
        w == dialog_width(message@, strs_view(buttons@)),
{
    let ghost bv = strs_view(buttons@);
    let mut total: usize = 0;
    let mut i: usize = 0;
    while i < buttons.len()
        invariant
            i <= buttons.len(),
            bv == strs_view(buttons@),
            total == buttons_bytes(bv.take(i as int)),
            dialog_width(message@, bv) <= usize::MAX,
        decreases buttons.len() - i,
    {
        proof {
            lemma_buttons_bytes_prefix(bv, i + 1);
            assert(bv.take(i + 1).drop_last() =~= bv.take(i as int));
        }
        let label = chars_of(buttons[i]);
        let n = utf8_len_of(&label);
        total = total + 5 + n;
        i = i + 1;
    }
    assert(bv.take(i as int) =~= bv);
    let m_chars = chars_of(message);
    let m = utf8_len_of(&m_chars);
    if total >= m {
        total + 4
    } else {
        m + 4
    }
}

/// `border` as characters.
fn border_exec(l: char, fill: char, r: char, width: usize) -> (res: Vec<char>)
    requires
        width >= 2,
    ensures
        res@ == border(l, fill, r, width as nat),
{
    let mut res: Vec<char> = Vec::new();
    res.push(l);
    push_repeat(&mut res, fill, width - 2);
    res.push(r);
    assert(res@ =~= border(l, fill, r, width as nat));
    res
}

/// Draws the dialog box, all but its button row, centred vertically.
pub fn draw_choose_frame(buf: &mut ScreenBuffer, message: &str, width: usize)
    requires
        old(buf).wf(),
        old(buf).height() >= 7,
        width >= utf8_len(message@) + 4,
    ensures
        final(buf).wf(),
        final(buf).width() == old(buf).width(),
        final(buf).height() == old(buf).height(),
        final(buf).grid() == frame_grid(
            old(buf).grid(),
            old(buf).width() as nat,
            old(buf).height() as nat,
            message@,
            width as nat,
        ),
{
    let top = (buf.height() - 7) / 2;
    let m_chars = chars_of(message);
    let m = utf8_len_of(&m_chars);
    let pad1 = (width - m) / 2 - 1;
    let pad2 = width - m - pad1 - 2;
    let mut mrow: Vec<char> = Vec::new();
    mrow.push('|');
    push_repeat(&mut mrow, ' ', pad1);
    push_all(&mut mrow, &m_chars);
    push_repeat(&mut mrow, ' ', pad2);
    mrow.push('|');
    assert(mrow@ =~= message_row(message@, width as nat));
    let top_row = border_exec('/', '~', '\\', width);
    let blank_row = border_exec('|', ' ', '|', width);
    let bottom_row = border_exec('\\', '~', '/', width);
    buf.set_line_chars(top, &top_row);
    buf.set_line_chars(top + 1, &blank_row);
    buf.set_line_chars(top + 2, &mrow);
    buf.set_line_chars(top + 3, &blank_row);
    buf.set_line_chars(top + 5, &blank_row);
    buf.set_line_chars(top + 6, &bottom_row);
}

/// Draws the button row of the dialog with button `sel` selected.
pub fn draw_choose_buttons(buf: &mut ScreenBuffer, buttons: &[&str], sel: usize, width: usize)
    requires
        old(buf).wf(),
        old(buf).height() >= 7,
        width >= buttons_bytes(strs_view(buttons@)) + 4,
    ensures
        final(buf).wf(),
        final(buf).width() == old(buf).width(),
        final(buf).height() == old(buf).height(),
        final(buf).grid() == set_row(
            old(buf).grid(),
            old(buf).width() as nat,
            old(buf).height() as nat,
            dialog_top(old(buf).height() as nat) + 4,
            buttons_row(strs_view(buttons@), sel as int, width as nat),
        ),
{
    let ghost bv = strs_view(buttons@);
    let mut line: Vec<char> = Vec::new();
    let mut total: usize = 0;
    let mut i: usize = 0;
    while i < buttons.len()
        invariant
            i <= buttons.len(),
            bv == strs_view(buttons@),
            line@ == button_line(bv.take(i as int), sel as int),
            total == buttons_bytes(bv.take(i as int)),
            buttons_bytes(bv) + 4 <= width,
        decreases buttons.len() - i,
    {
        proof {
            lemma_buttons_bytes_prefix(bv, i + 1);
            assert(bv.take(i + 1).drop_last() =~= bv.take(i as int));
        }
        let label = chars_of(buttons[i]);
        let n = utf8_len_of(&label);
        if i == sel {
            line.push('[');
            line.push(' ');
            push_all(&mut line, &label);
            line.push(' ');
            line.push(']');
            line.push(' ');
        } else {
            line.push(' ');
            line.push(' ');
            push_all(&mut line, &label);
            line.push(' ');
            line.push(' ');
            line.push(' ');
        }
        total = total + 5 + n;
        i = i + 1;
        assert(line@ =~= button_line(bv.take(i as int), sel as int));
    }
    assert(bv.take(i as int) =~= bv);
    let pad = (width - total) / 2 - 1;
    let mut row: Vec<char> = Vec::new();
    row.push('|');
    push_repeat(&mut row, ' ', pad);
    push_all(&mut row, &line);
    push_repeat(&mut row, ' ', pad);
    row.push('|');
    assert(row@ =~= buttons_row(bv, sel as int, width as nat));
    let top = (buf.height() - 7) / 2;
    buf.set_line_chars(top + 4, &row);
}

/// Handles a key in a dialog of `count` buttons with button `sel` selected.
pub fn choose_key(sel: usize, count: usize, key: Key) -> (step: ChooseStep)
    requires
        count > 0,
        sel < count,
    ensures
        key is Enter ==> step == ChooseStep::Chosen(sel),
        key is Esc || key == Key::Char('q') || key == Key::Char('Q') ==> step is Cancelled,
        !(key is Enter || key is Esc || key == Key::Char('q') || key == Key::Char('Q'))
            ==> step == ChooseStep::Select(choose_move(sel as int, count as int, key) as usize),
        step matches ChooseStep::Select(s) ==> s < count,
{
    match key {
        Key::Left => {
            let s = if sel == 0 {
                count - 1
            } else {
                sel - 1
            };
            proof {
                lemma_cyclic(sel as int, count as int);
            }
            ChooseStep::Select(s)
        },
        Key::Right => {
            let s = if sel + 1 == count {
                0
            } else {
                sel + 1
            };
            proof {
                lemma_cyclic(sel as int, count as int);
            }
            ChooseStep::Select(s)
        },
        Key::Enter => ChooseStep::Chosen(sel),
        Key::Esc => ChooseStep::Cancelled,
        Key::Char(c) => {
            if c == 'q' || c == 'Q' {
                ChooseStep::Cancelled
            } else {
                ChooseStep::Select(sel)
            }
        },
        _ => ChooseStep::Select(sel),
    }
}

proof fn lemma_cyclic(sel: int, count: int)
    requires
        0 <= sel < count,
    ensures
        (sel + count - 1) % count == if sel == 0 {
            count - 1
        } else {
            sel - 1
        },
        (sel + 1) % count == if sel + 1 == count {
            0
        } else {
            sel + 1
        },
{
    if sel == 0 {
        vstd::arithmetic::div_mod::lemma_small_mod((count - 1) as nat, count as nat);
    } else {
        vstd::arithmetic::div_mod::lemma_mod_add_multiples_vanish(sel - 1, count);
        vstd::arithmetic::div_mod::lemma_small_mod((sel - 1) as nat, count as nat);
    }
    if sel + 1 == count {
        vstd::arithmetic::div_mod::lemma_mod_self_0(count);
    } else {
        vstd::arithmetic::div_mod::lemma_small_mod((sel + 1) as nat, count as nat);
    }
}

/// Moving left and then right (or right and then left) comes back to the
/// same button, and the selection always stays among the buttons.
pub proof fn lemma_choose_left_right(sel: int, count: int)
    requires
        0 <= sel < count,
    ensures
        0 <= choose_move(sel, count, Key::Left) < count,
        0 <= choose_move(sel, count, Key::Right) < count,
        choose_move(choose_move(sel, count, Key::Left), count, Key::Right) == sel,
        choose_move(choose_move(sel, count, Key::Right), count, Key::Left) == sel,
{
    lemma_cyclic(sel, count);
    let l = choose_move(sel, count, Key::Left);
    let r = choose_move(sel, count, Key::Right);
    lemma_cyclic(l, count);
    lemma_cyclic(r, count);
}

/// Whether a key closes the full-screen text: Esc, `q` or `Q`.
pub fn info_key_closes(key: Key) -> (b: bool)
    ensures
        b == (key is Esc || key == Key::Char('q') || key == Key::Char('Q')),
{
    match key {
        Key::Esc => true,
        Key::Char(c) => c == 'q' || c == 'Q',
        _ => false,
    }
}

/// The grid after line `i` of `ls` is written on row `i`, for the first `k`
/// lines.
pub open spec fn message_grid(g: Seq<Seq<char>>, w: nat, h: nat, ls: Seq<Seq<char>>, k: int) -> Seq<
    Seq<char>,
>
    decreases k,
{
    if k <= 0 {
        g
    } else {
        set_row(message_grid(g, w, h, ls, k - 1), w, h, k - 1, ls[k - 1])
    }
}

/// Writes the lines of `message` on the rows from the top, one per row.
pub fn draw_message(buf: &mut ScreenBuffer, message: &str)
    requires
        old(buf).wf(),
    ensures
        final(buf).wf(),
        final(buf).width() == old(buf).width(),
        final(buf).height() == old(buf).height(),
        final(buf).grid() == message_grid(
            old(buf).grid(),
            old(buf).width() as nat,
            old(buf).height() as nat,
            lines(message@),
            lines(message@).len() as int,
        ),
{
    let ls = split_lines(message);
    let ghost lv = ls@.map_values(|l: Vec<char>| l@);
    let mut i: usize = 0;
    while i < ls.len()
        invariant
            i <= ls.len(),
            lv == ls@.map_values(|l: Vec<char>| l@),
            lv == lines(message@),
            buf.wf(),
            buf.width() == old(buf).width(),
            buf.height() == old(buf).height(),
            buf.grid() == message_grid(
                old(buf).grid(),
                old(buf).width() as nat,
                old(buf).height() as nat,
                lv,
                i as int,
            ),
        decreases ls.len() - i,
    {
        assert(lv[i as int] == ls@[i as int]@);
        buf.set_line_chars(i, &ls[i]);
        i = i + 1;
    }
}

} // verus!
