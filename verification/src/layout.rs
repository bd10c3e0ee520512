//! The common layout of the list screens: header lines, a rule, the list
//! rows, a rule and the status line.
use vstd::prelude::*;
use crate::screen::{ScreenBuffer, set_row, place_rows, clear_rows};
use crate::text::{lines, repeated, split_lines};

verus! {

/// Narrowest screen on which the list is drawn.
pub const MIN_WIDTH: usize = 26;

/// `a` if not above `b`, else `b`.
pub open spec fn min_int(a: int, b: int) -> int {
    if a <= b {
        a
    } else {
        b
    }
}

/// Number of list rows drawn: the rows from `top` on, at most `rows`.
pub open spec fn drawn_count(len: int, top: int, rows: int) -> int {
    if top >= len {
        0
    } else {
        min_int(len - top, rows)
    }
}

/// The grid of a screen too narrow for the list: a notice on the first row,
/// the other rows cleared.
pub open spec fn small_grid(g: Seq<Seq<char>>, w: nat, h: nat) -> Seq<Seq<char>> {
    clear_rows(set_row(g, w, h, 0, "Console too small"@), w, h, 1, h as int)
}

/// The grid after the list screen is drawn: the header lines from the top,
/// a rule of dashes, the rows from `top` on that fit, cleared rows up to the
/// last two, a rule and the status line. Nothing but the header is drawn
/// when no list row fits; only a notice when the screen is too narrow.
pub open spec fn list_grid(
    g: Seq<Seq<char>>,
    w: nat,
    h: nat,
    header: Seq<Seq<char>>,
    rows: Seq<Seq<char>>,
    top: int,
    status: Seq<char>,
) -> Seq<Seq<char>> {
    if w < MIN_WIDTH {
        small_grid(g, w, h)
    } else {
        let hc = header.len() as int;
        let g1 = place_rows(g, w, h, 0, header, hc);
        let vh = if h >= hc + 2 {
            h - hc - 2
        } else {
            0
        };
        if vh < 1 {
            g1
        } else {
            let sep = repeated('-', w);
            let g2 = set_row(g1, w, h, hc, sep);
            let count = drawn_count(rows.len() as int, top, vh);
            let g3 = place_rows(g2, w, h, hc + 1, rows.skip(top), count);
            let g4 = clear_rows(g3, w, h, hc + 1 + count, h - 2);
            let g5 = set_row(g4, w, h, h - 2, sep);
            set_row(g5, w, h, h - 1, status)
        }
    }
}

/// Draws a list screen; `rows` are the formatted rows of all shown entries.
pub fn draw_list(buf: &mut ScreenBuffer, header: &str, rows: &Vec<Vec<char>>, top: usize, status: &str)
    requires
        old(buf).wf(),
    ensures
        final(buf).wf(),
        final(buf).width() == old(buf).width(),
        final(buf).height() == old(buf).height(),
        final(buf).grid() == list_grid(
            old(buf).grid(),
            old(buf).width() as nat,
            old(buf).height() as nat,
            lines(header@),
            rows@.map_values(|r: Vec<char>| r@),
            top as int,
            status@,
        ),
{
    let ghost g0 = buf.grid();
    let ghost w = buf.width() as nat;
    let ghost h = buf.height() as nat;
    let ghost rv = rows@.map_values(|r: Vec<char>| r@);
    if buf.width() < MIN_WIDTH {
        buf.set_line(0, "Console too small");
        let mut line: usize = 1;
        while line < buf.height()
            invariant
                1 <= line,
                line <= buf.height() || buf.height() == 0,
                buf.wf(),
                buf.width() == w,
                buf.height() == h,
                buf.grid() == clear_rows(set_row(g0, w, h, 0, "Console too small"@), w, h, 1, line as int),
            decreases buf.height() - line,
        {
            let empty: Vec<char> = Vec::new();
            buf.set_line_chars(line, &empty);
            line = line + 1;
        }
        proof {
            if buf.height() == 0 {
                assert(clear_rows(set_row(g0, w, h, 0, "Console too small"@), w, h, 1, h as int)
                    == set_row(g0, w, h, 0, "Console too small"@));
            }
        }
        return;
    }
    let hl = split_lines(header);
    let ghost hv = hl@.map_values(|l: Vec<char>| l@);
    let hc = hl.len();
    let mut i: usize = 0;
    while i < hc
        invariant
            i <= hc == hl.len(),
            hv == hl@.map_values(|l: Vec<char>| l@),
            buf.wf(),
            buf.width() == w,
            buf.height() == h,
            buf.grid() == place_rows(g0, w, h, 0, hv, i as int),
        decreases hc - i,
    {
        assert(hv[i as int] == hl@[i as int]@);
        buf.set_line_chars(i, &hl[i]);
        i = i + 1;
    }
    let visible_height: usize = if buf.height() >= 2 && buf.height() - 2 >= hc {
        buf.height() - 2 - hc
    } else {
        0
    };
    assert(hv == lines(header@));
    if visible_height < 1 {
        return;
    }
    let mut sep: Vec<char> = Vec::new();
    crate::text::push_repeat(&mut sep, '-', buf.width());
    assert(sep@ =~= repeated('-', w));
    let mut row_y = hc;
    buf.set_line_chars(row_y, &sep);
    row_y = row_y + 1;
    let ghost g2 = buf.grid();
    let count: usize = if top >= rows.len() {
        0
    } else if rows.len() - top <= visible_height {
        rows.len() - top
    } else {
        visible_height
    };
    let mut k: usize = 0;
    while k < count
        invariant
            k <= count,
            count == drawn_count(rows@.len() as int, top as int, visible_height as int),
            count > 0 ==> top + count <= rows.len(),
            rv == rows@.map_values(|r: Vec<char>| r@),
            row_y == hc + 1 + k,
            hc + 1 + count < buf.height(),
            buf.wf(),
            buf.width() == w,
            buf.height() == h,
            buf.grid() == place_rows(g2, w, h, hc + 1, rv.skip(top as int), k as int),
        decreases count - k,
    {
        assert(rv.skip(top as int)[k as int] == rows@[top + k]@);
        buf.set_line_chars(row_y, &rows[top + k]);
        row_y = row_y + 1;
        k = k + 1;
    }
    let ghost g3 = buf.grid();
    let ghost start = row_y as int;
    while row_y < buf.height() - 2
        invariant
            start <= row_y,
            row_y <= buf.height() - 2 || row_y == start,
            buf.height() >= 3,
            buf.wf(),
            buf.width() == w,
            buf.height() == h,
            buf.grid() == clear_rows(g3, w, h, start, row_y as int),
        decreases buf.height() - row_y,
    {
        let empty: Vec<char> = Vec::new();
        buf.set_line_chars(row_y, &empty);
        row_y = row_y + 1;
    }
    proof {
        if start > h - 2 {
            assert(clear_rows(g3, w, h, start, h - 2) == g3);
        } else {
            assert(row_y == h - 2);
        }
        assert(start == hc + 1 + count);
    }
    let last_rule = buf.height() - 2;
    buf.set_line_chars(last_rule, &sep);
    let status_row = buf.height() - 1;
    buf.set_line(status_row, status);
}

} // verus!
