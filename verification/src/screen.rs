//! A character grid for the terminal and the difference between two grids.
//!
//! The screens draw into a "new" grid and then send only the cells that differ
//! from the "old" grid (what the terminal shows) to the terminal.
use vstd::prelude::*;
use crate::text::{chars_of, repeated};

verus! {

/// A `width` x `height` grid of characters.
#[derive(Debug)]
pub struct ScreenBuffer {
    pub width: usize,
    pub height: usize,
    cells: Vec<Vec<char>>,
}

/// `text` cut or padded with spaces to exactly `width` characters.
pub open spec fn fit_line(text: Seq<char>, width: nat) -> Seq<char> {
    if text.len() >= width {
        text.take(width as int)
    } else {
        text + repeated(' ', (width - text.len()) as nat)
    }
}

/// The grid `g` of a `width` x `height` buffer after `set_line(y, text)`.
pub open spec fn set_row(g: Seq<Seq<char>>, width: nat, height: nat, y: int, text: Seq<char>) -> Seq<
    Seq<char>,
> {
    if 0 <= y < height {
        g.update(y, fit_line(text, width))
    } else {
        g
    }
}

/// The grid after line `i` of `ls` is written on row `start + i`, for the
/// first `k` lines.
pub open spec fn place_rows(
    g: Seq<Seq<char>>,
    width: nat,
    height: nat,
    start: int,
    ls: Seq<Seq<char>>,
    k: int,
) -> Seq<Seq<char>>
    decreases k,
{
    if k <= 0 {
        g
    } else {
        set_row(place_rows(g, width, height, start, ls, k - 1), width, height, start + k - 1, ls[k - 1])
    }
}

/// The grid after the rows `from..to` are cleared.
pub open spec fn clear_rows(g: Seq<Seq<char>>, width: nat, height: nat, from: int, to: int) -> Seq<
    Seq<char>,
>
    decreases to - from,
{
    if to <= from {
        g
    } else {
        set_row(clear_rows(g, width, height, from, to - 1), width, height, to - 1, Seq::empty())
    }
}

/// A grid of `height` blank rows of `width` characters.
pub open spec fn blank_grid(width: nat, height: nat) -> Seq<Seq<char>> {
    Seq::new(height, |y: int| repeated(' ', width))
}

/// A run of characters to write at column `x` of row `y`, as (x, y, text).
pub type RunView = (int, int, Seq<char>);

/// A run of characters that differ between the old and the new grid.
#[derive(Debug)]
pub struct DiffRun {
    pub x: usize,
    pub y: usize,
    pub text: Vec<char>,
}

impl DiffRun {
    pub open spec fn view_run(&self) -> RunView {
        (self.x as int, self.y as int, self.text@)
    }
}

/// The runs as (x, y, text) triples.
pub open spec fn runs_view(runs: Seq<DiffRun>) -> Seq<RunView> {
    runs.map_values(|r: DiffRun| r.view_run())
}

/// First column at or after `x` (and before `w`) where the rows differ, else `w`
/// (or `x` when `x >= w`).
pub open spec fn next_diff(o: Seq<char>, n: Seq<char>, w: int, x: int) -> int
    decreases w - x,
{
    if x >= w || o[x] != n[x] {
        x
    } else {
        next_diff(o, n, w, x + 1)
    }
}

/// First column at or after `x` (and before `w`) where the rows agree, else `w`
/// (or `x` when `x >= w`).
pub open spec fn next_same(o: Seq<char>, n: Seq<char>, w: int, x: int) -> int
    decreases w - x,
{
    if x >= w || o[x] == n[x] {
        x
    } else {
        next_same(o, n, w, x + 1)
    }
}

pub proof fn lemma_next_diff_bounds(o: Seq<char>, n: Seq<char>, w: int, x: int)
    ensures
        x <= next_diff(o, n, w, x),
        x <= w ==> next_diff(o, n, w, x) <= w,
        next_diff(o, n, w, x) < w ==> o[next_diff(o, n, w, x)] != n[next_diff(o, n, w, x)],
        forall|i: int| x <= i < next_diff(o, n, w, x) ==> o[i] == n[i],
    decreases w - x,
{
    if !(x >= w || o[x] != n[x]) {
        lemma_next_diff_bounds(o, n, w, x + 1);
    }
}

pub proof fn lemma_next_same_bounds(o: Seq<char>, n: Seq<char>, w: int, x: int)
    ensures
        x <= next_same(o, n, w, x),
        x <= w ==> next_same(o, n, w, x) <= w,
        next_same(o, n, w, x) < w ==> o[next_same(o, n, w, x)] == n[next_same(o, n, w, x)],
        forall|i: int| x <= i < next_same(o, n, w, x) ==> o[i] != n[i],
        x < w && o[x] != n[x] ==> next_same(o, n, w, x) > x,
    decreases w - x,
{
    if !(x >= w || o[x] == n[x]) {
        lemma_next_same_bounds(o, n, w, x + 1);
    }
}

/// The runs that bring row `o` to row `n` on columns `x..w`: from `x`, skip the
/// equal columns, then take the differing columns up to the next equal one;
/// repeat until `w`. A run can be empty when the row ends with equal columns.
pub open spec fn row_runs(o: Seq<char>, n: Seq<char>, w: int, x: int) -> Seq<(int, Seq<char>)>
    decreases w - x,
{
    if x >= w {
        Seq::empty()
    } else {
        let s = next_diff(o, n, w, x);
        let e = next_same(o, n, w, s);
        proof {
            lemma_next_diff_bounds(o, n, w, x);
            lemma_next_same_bounds(o, n, w, s);
        }
        if e <= x {
            Seq::empty()
        } else {
            seq![(s, n.subrange(s, e))] + row_runs(o, n, w, e)
        }
    }
}

/// The runs of row `y`, tagged with the row.
pub open spec fn tag_row(runs: Seq<(int, Seq<char>)>, y: int) -> Seq<RunView> {
    runs.map_values(|r: (int, Seq<char>)| (r.0, y, r.1))
}

/// The runs that bring the first `h` rows of `old` to `new` on the first `w`
/// columns, row by row; rows that are equal as a whole give no run.
pub open spec fn screen_runs(old: Seq<Seq<char>>, new: Seq<Seq<char>>, w: int, h: int) -> Seq<
    RunView,
>
    decreases h,
{
    if h <= 0 {
        Seq::empty()
    } else {
        let y = h - 1;
        let before = screen_runs(old, new, w, y);
        if old[y] == new[y] {
            before
        } else {
            before + tag_row(row_runs(old[y], new[y], w, 0), y)
        }
    }
}

/// `row` with `text` written over it from column `x`.
pub open spec fn write_at(row: Seq<char>, x: int, text: Seq<char>) -> Seq<char> {
    row.take(x) + text + row.skip(x + text.len())
}

/// The grid `g` after writing each run, in order.
pub open spec fn paint(g: Seq<Seq<char>>, runs: Seq<RunView>) -> Seq<Seq<char>>
    decreases runs.len(),
{
    if runs.len() == 0 {
        g
    } else {
        let before = paint(g, runs.drop_last());
        let r = runs.last();
        before.update(r.1, write_at(before[r.1], r.0, r.2))
    }
}

impl ScreenBuffer {
    /// The number of columns.
    pub closed spec fn spec_width(&self) -> usize {
        self.width
    }

    /// The number of rows.
    pub closed spec fn spec_height(&self) -> usize {
        self.height
    }

    /// The number of columns.
    #[verifier::when_used_as_spec(spec_width)]
    pub fn width(&self) -> (w: usize)
        ensures
            w == self.spec_width(),
    {
        self.width
    }

    /// The number of rows.
    #[verifier::when_used_as_spec(spec_height)]
    pub fn height(&self) -> (h: usize)
        ensures
            h == self.spec_height(),
    {
        self.height
    }

    /// The rows of the grid.
    pub closed spec fn grid(&self) -> Seq<Seq<char>> {
        self.cells@.map_values(|r: Vec<char>| r@)
    }

    /// The grid has `height` rows of `width` characters.
    pub open spec fn wf(&self) -> bool {
        &&& self.grid().len() == self.height()
        &&& forall|y: int| 0 <= y < self.height() ==> #[trigger] self.grid()[y].len() == self.width()
    }

    /// A blank grid of `width` x `height` spaces.
    pub fn new(width: usize, height: usize) -> (res: Self)
        ensures
            res.width() == width,
            res.height() == height,
            res.grid() == blank_grid(width as nat, height as nat),
            res.wf(),
    {
        let blank: Vec<char> = vec![' '; width];
        let mut cells: Vec<Vec<char>> = Vec::with_capacity(height);
        let mut i: usize = 0;
        while i < height
            invariant
                i <= height,
                blank@ == repeated(' ', width as nat),
                cells.len() == i,
                forall|k: int| 0 <= k < i ==> #[trigger] cells@[k]@ == repeated(' ', width as nat),
            decreases height - i,
        {
            let row = blank.clone();
            assert(row@ =~= blank@);
            cells.push(row);
            i = i + 1;
        }
        assert(cells@.map_values(|r: Vec<char>| r@) =~= blank_grid(width as nat, height as nat));
        let res = Self { width, height, cells };
        assert(res.grid() == blank_grid(width as nat, height as nat));
        res
    }

    /// Replaces row `y` with `text`, cut or padded with spaces to the width;
    /// does nothing when `y` is not below the height.
    pub fn set_line(&mut self, y: usize, text: &str)
        requires
            y < old(self).height() ==> y < old(self).grid().len(),
        ensures
            final(self).width() == old(self).width(),
            final(self).height() == old(self).height(),
            y >= old(self).height() ==> final(self).grid() == old(self).grid(),
            y < old(self).height() ==> final(self).grid() == old(self).grid().update(
                y as int,
                fit_line(text@, old(self).width() as nat),
            ),
    {
        if y >= self.height() {
            return;
        }
        let chars = chars_of(text);
        self.set_line_chars(y, &chars);
    }

    /// `set_line` with the text given as characters.
    pub fn set_line_chars(&mut self, y: usize, text: &Vec<char>)
        requires
            y < old(self).height() ==> y < old(self).grid().len(),
        ensures
            final(self).width() == old(self).width(),
            final(self).height() == old(self).height(),
            y >= old(self).height() ==> final(self).grid() == old(self).grid(),
            y < old(self).height() ==> final(self).grid() == old(self).grid().update(
                y as int,
                fit_line(text@, old(self).width() as nat),
            ),
    {
        if y >= self.height() {
            return;
        }
        let mut row: Vec<char> = Vec::new();
        let mut i: usize = 0;
        while i < self.width()
            invariant
                i <= self.width(),
                row@ == fit_line(text@, self.width() as nat).take(i as int),
            decreases self.width() - i,
        {
            if i < text.len() {
                row.push(text[i]);
            } else {
                row.push(' ');
            }
            i = i + 1;
            assert(row@ =~= fit_line(text@, self.width() as nat).take(i as int));
        }
        assert(row@ =~= fit_line(text@, self.width() as nat));
        self.cells.set(y, row);
        assert(self.grid() =~= old(self).grid().update(
            y as int,
            fit_line(text@, old(self).width() as nat),
        ));
    }

    /// Row `y` of the grid.
    pub fn row(&self, y: usize) -> (r: &[char])
        requires
            y < self.grid().len(),
        ensures
            r@ == self.grid()[y as int],
    {
        self.cells[y].as_slice()
    }

    /// Row `y` of the grid, for writing in place.
    pub fn row_mut(&mut self, y: usize) -> (r: &mut [char])
        requires
            y < old(self).grid().len(),
        ensures
            r@ == old(self).grid()[y as int],
            final(self).width() == old(self).width(),
            final(self).height() == old(self).height(),
            final(self).grid() == old(self).grid().update(y as int, final(r)@),
    {
        self.cells[y].as_mut_slice()
    }
}


/// Whether two rows are equal (lengths included).
fn rows_equal(a: &Vec<char>, b: &Vec<char>) -> (r: bool)
    ensures
        r == (a@ == b@),
{
    if a.len() != b.len() {
        return false;
    }
    let mut i: usize = 0;
    while i < a.len()
        invariant
            i <= a.len() == b.len(),
            forall|k: int| 0 <= k < i ==> a@[k] == b@[k],
        decreases a.len() - i,
    {
        if a[i] != b[i] {
            return false;
        }
        i = i + 1;
    }
    assert(a@ =~= b@);
    true
}

/// Writing a run after others paints over the grid painted so far.
pub proof fn lemma_paint_push(g: Seq<Seq<char>>, rs: Seq<RunView>, r: RunView)
    ensures
        paint(g, rs.push(r)) == paint(g, rs).update(r.1, write_at(paint(g, rs)[r.1], r.0, r.2)),
{
    assert(rs.push(r).drop_last() =~= rs);
}

/// Run `r` of a row writes, from its column on, only columns where `o` and
/// `n` differ, and writes there the characters of `n`; it ends by `w`.
pub open spec fn run_fits(o: Seq<char>, n: Seq<char>, w: int, r: (int, Seq<char>)) -> bool {
    &&& 0 <= r.0
    &&& r.0 + r.1.len() <= w
    &&& forall|i: int| 0 <= i < r.1.len() ==> o[r.0 + i] != n[r.0 + i] && #[trigger] r.1[i] == n[r.0 + i]
}

/// The runs of a row from column `x` on: each fits, they come left to right
/// without overlapping, and every differing column from `x` on lies in one.
proof fn lemma_row_runs(o: Seq<char>, n: Seq<char>, w: int, x: int)
    requires
        0 <= x,
        o.len() >= w,
        n.len() >= w,
    ensures
        forall|k: int|
            0 <= k < row_runs(o, n, w, x).len() ==> x <= (#[trigger] row_runs(o, n, w, x)[k]).0
                && run_fits(o, n, w, row_runs(o, n, w, x)[k]),
        forall|k1: int, k2: int|
            0 <= k1 < k2 < row_runs(o, n, w, x).len() ==> (#[trigger] row_runs(o, n, w, x)[k1]).0
                + row_runs(o, n, w, x)[k1].1.len() <= (#[trigger] row_runs(o, n, w, x)[k2]).0,
        forall|c: int|
            x <= c < w && #[trigger] o[c] != n[c] ==> exists|k: int|
                0 <= k < row_runs(o, n, w, x).len() && (#[trigger] row_runs(o, n, w, x)[k]).0 <= c
                    < row_runs(o, n, w, x)[k].0 + row_runs(o, n, w, x)[k].1.len(),
    decreases w - x,
{
    let rr = row_runs(o, n, w, x);
    if x < w {
        let s = next_diff(o, n, w, x);
        let e = next_same(o, n, w, s);
        lemma_next_diff_bounds(o, n, w, x);
        lemma_next_same_bounds(o, n, w, s);
        if e > x {
            let head = (s, n.subrange(s, e));
            let rest = row_runs(o, n, w, e);
            lemma_row_runs(o, n, w, e);
            assert(rr == seq![head] + rest);
            assert(run_fits(o, n, w, head));
            assert forall|k: int| 0 <= k < rr.len() implies x <= (#[trigger] rr[k]).0 && run_fits(
                o,
                n,
                w,
                rr[k],
            ) by {
                if k > 0 {
                    assert(rr[k] == rest[k - 1]);
                }
            }
            assert forall|k1: int, k2: int| 0 <= k1 < k2 < rr.len() implies (#[trigger] rr[k1]).0
                + rr[k1].1.len() <= (#[trigger] rr[k2]).0 by {
                assert(rr[k2] == rest[k2 - 1]);
                if k1 > 0 {
                    assert(rr[k1] == rest[k1 - 1]);
                }
            }
            assert forall|c: int| x <= c < w && #[trigger] o[c] != n[c] implies exists|k: int|
                0 <= k < rr.len() && (#[trigger] rr[k]).0 <= c < rr[k].0 + rr[k].1.len() by {
                if c < e {
                    assert(rr[0] == head);
                } else {
                    let k = choose|k: int|
                        0 <= k < rest.len() && (#[trigger] rest[k]).0 <= c < rest[k].0 + rest[k].1.len();
                    assert(rr[k + 1] == rest[k]);
                }
            }
        }
    }
}

/// The runs of the first `h` rows, as the update writes them: each lies on
/// a row that changed and fits there, they come top to bottom and left to
/// right without overlapping, and every differing cell lies in one.
proof fn lemma_screen_runs(old: Seq<Seq<char>>, new: Seq<Seq<char>>, w: int, h: int)
    requires
        0 <= w,
        forall|y: int| 0 <= y < h ==> (#[trigger] old[y]).len() >= w && new[y].len() >= w,
    ensures
        forall|k: int|
            0 <= k < screen_runs(old, new, w, h).len() ==> {
                let r = #[trigger] screen_runs(old, new, w, h)[k];
                &&& 0 <= r.1 < h
                &&& old[r.1] != new[r.1]
                &&& run_fits(old[r.1], new[r.1], w, (r.0, r.2))
            },
        forall|k1: int, k2: int|
            0 <= k1 < k2 < screen_runs(old, new, w, h).len() ==> {
                let a = #[trigger] screen_runs(old, new, w, h)[k1];
                let b = #[trigger] screen_runs(old, new, w, h)[k2];
                a.1 < b.1 || (a.1 == b.1 && a.0 + a.2.len() <= b.0)
            },
        forall|y: int, c: int|
            0 <= y < h && 0 <= c < w && #[trigger] old[y][c] != new[y][c] ==> exists|k: int|
                0 <= k < screen_runs(old, new, w, h).len() && (#[trigger] screen_runs(old, new, w, h)[k]).1
                    == y && screen_runs(old, new, w, h)[k].0 <= c < screen_runs(old, new, w, h)[k].0
                    + screen_runs(old, new, w, h)[k].2.len(),
    decreases h,
{
    if h > 0 {
        let y = h - 1;
        lemma_screen_runs(old, new, w, y);
        let before = screen_runs(old, new, w, y);
        let sr = screen_runs(old, new, w, h);
        if old[y] == new[y] {
            assert(sr == before);
            assert forall|yy: int, c: int|
                0 <= yy < h && 0 <= c < w && #[trigger] old[yy][c] != new[yy][c] implies exists|k: int|
                0 <= k < sr.len() && (#[trigger] sr[k]).1 == yy && sr[k].0 <= c < sr[k].0 + sr[k].2.len() by {
                assert(yy != y);
            }
        } else {
            let rr = row_runs(old[y], new[y], w, 0);
            lemma_row_runs(old[y], new[y], w, 0);
            let tr = tag_row(rr, y);
            assert(sr == before + tr);
            assert forall|k: int| 0 <= k < sr.len() implies {
                let r = #[trigger] sr[k];
                &&& 0 <= r.1 < h
                &&& old[r.1] != new[r.1]
                &&& run_fits(old[r.1], new[r.1], w, (r.0, r.2))
            } by {
                if k >= before.len() {
                    let j = k - before.len();
                    assert(sr[k] == tr[j]);
                    assert(tr[j] == (rr[j].0, y, rr[j].1));
                    assert((rr[j].0, rr[j].1) == rr[j]);
                } else {
                    assert(sr[k] == before[k]);
                }
            }
            assert forall|k1: int, k2: int| 0 <= k1 < k2 < sr.len() implies {
                let a = #[trigger] sr[k1];
                let b = #[trigger] sr[k2];
                a.1 < b.1 || (a.1 == b.1 && a.0 + a.2.len() <= b.0)
            } by {
                if k2 < before.len() {
                    assert(sr[k1] == before[k1]);
                    assert(sr[k2] == before[k2]);
                } else if k1 < before.len() {
                    assert(sr[k1] == before[k1]);
                    assert(sr[k2] == tr[k2 - before.len()]);
                } else {
                    let j1 = k1 - before.len();
                    let j2 = k2 - before.len();
                    assert(sr[k1] == tr[j1]);
                    assert(sr[k2] == tr[j2]);
                    assert(rr[j1].0 + rr[j1].1.len() <= rr[j2].0);
                }
            }
            assert forall|yy: int, c: int|
                0 <= yy < h && 0 <= c < w && #[trigger] old[yy][c] != new[yy][c] implies exists|k: int|
                0 <= k < sr.len() && (#[trigger] sr[k]).1 == yy && sr[k].0 <= c < sr[k].0 + sr[k].2.len() by {
                if yy < y {
                    let k = choose|k: int|
                        0 <= k < before.len() && (#[trigger] before[k]).1 == yy && before[k].0 <= c
                            < before[k].0 + before[k].2.len();
                    assert(sr[k] == before[k]);
                } else {
                    assert(old[y][c] != new[y][c]);
                    let j = choose|j: int| 0 <= j < rr.len() && (#[trigger] rr[j]).0 <= c < rr[j].0 + rr[j].1.len();
                    assert(sr[before.len() + j] == tr[j]);
                }
            }
        }
    }
}

/// Position `i` of run `r` lies on a row below `h` that changed, within the
/// first `w` columns, on a cell where `old` and `new` differ, and writes the
/// character of `new` there.
pub open spec fn written_cell_ok(old: Seq<Seq<char>>, new: Seq<Seq<char>>, w: int, h: int, r: RunView, i: int) -> bool {
    &&& 0 <= r.1 < h
    &&& old[r.1] != new[r.1]
    &&& 0 <= r.0 && r.0 + r.2.len() <= w
    &&& old[r.1][r.0 + i] != new[r.1][r.0 + i]
    &&& r.2[i] == new[r.1][r.0 + i]
}

/// What the update writes: each run lies on a row that changed, and each
/// character it writes lands on a cell where the old and the new grid
/// differ and is the new grid's character there; every such cell is written
/// by exactly one run, at exactly one position of it; rows that did not
/// change get no run.
pub proof fn lemma_runs_write_each_differing_cell_once(
    old: Seq<Seq<char>>,
    new: Seq<Seq<char>>,
    w: int,
    h: int,
)
    requires
        0 <= w,
        forall|y: int| 0 <= y < h ==> (#[trigger] old[y]).len() >= w && new[y].len() >= w,
    ensures
        forall|k: int, i: int|
            0 <= k < screen_runs(old, new, w, h).len() && 0 <= i < screen_runs(old, new, w, h)[k].2.len()
                ==> #[trigger] written_cell_ok(old, new, w, h, screen_runs(old, new, w, h)[k], i),
        forall|y: int, c: int|
            0 <= y < h && 0 <= c < w && #[trigger] old[y][c] != new[y][c] ==> exists|k: int|
                0 <= k < screen_runs(old, new, w, h).len() && (#[trigger] screen_runs(old, new, w, h)[k]).1
                    == y && screen_runs(old, new, w, h)[k].0 <= c < screen_runs(old, new, w, h)[k].0
                    + screen_runs(old, new, w, h)[k].2.len(),
        forall|k1: int, i1: int, k2: int, i2: int|
            #![trigger screen_runs(old, new, w, h)[k1].2[i1], screen_runs(old, new, w, h)[k2].2[i2]]
            0 <= k1 < screen_runs(old, new, w, h).len() && 0 <= k2 < screen_runs(old, new, w, h).len()
                && 0 <= i1 < screen_runs(old, new, w, h)[k1].2.len() && 0 <= i2 < screen_runs(old, new, w, h)[k2].2.len() && screen_runs(old, new, w, h)[k1].1
                == screen_runs(old, new, w, h)[k2].1 && screen_runs(old, new, w, h)[k1].0 + i1
                == screen_runs(old, new, w, h)[k2].0 + i2 ==> k1 == k2 && i1 == i2,
        forall|k: int|
            0 <= k < screen_runs(old, new, w, h).len() ==> old[(
            #[trigger] screen_runs(old, new, w, h)[k]).1] != new[screen_runs(old, new, w, h)[k].1],
{
    lemma_screen_runs(old, new, w, h);
    let sr = screen_runs(old, new, w, h);
    assert forall|k: int, i: int|
        0 <= k < sr.len() && 0 <= i < sr[k].2.len() implies #[trigger] written_cell_ok(old, new, w, h, sr[k], i) by {
        let r = sr[k];
        assert(run_fits(old[r.1], new[r.1], w, (r.0, r.2)));
        assert((r.0, r.2).1[i] == r.2[i]);
    }
    assert forall|k1: int, i1: int, k2: int, i2: int|
        #![trigger sr[k1].2[i1], sr[k2].2[i2]]
        0 <= k1 < sr.len() && 0 <= k2 < sr.len() && 0 <= i1 < sr[k1].2.len() && 0 <= i2 < sr[k2].2.len() && sr[k1].1 == sr[k2].1 && sr[k1].0 + i1 == sr[k2].0 + i2 implies k1
        == k2 && i1 == i2 by {
        if k1 < k2 {
            let a = sr[k1];
            let b = sr[k2];
            assert(a.1 < b.1 || (a.1 == b.1 && a.0 + a.2.len() <= b.0));
        } else if k2 < k1 {
            let a = sr[k2];
            let b = sr[k1];
            assert(a.1 < b.1 || (a.1 == b.1 && a.0 + a.2.len() <= b.0));
        }
    }
}

/// Rows that already agree give no run.
pub proof fn lemma_equal_rows_have_no_runs(g: Seq<Seq<char>>, ng: Seq<Seq<char>>, w: int, h: int)
    requires
        forall|y: int| 0 <= y < h ==> #[trigger] g[y] == ng[y],
    ensures
        screen_runs(g, ng, w, h).len() == 0,
    decreases h,
{
    if h > 0 {
        lemma_equal_rows_have_no_runs(g, ng, w, h - 1);
    }
}

/// A second update right after one between grids of the same width writes
/// nothing: `synced` is the grid that the first update leaves (see
/// `sync_diff`).
pub proof fn lemma_second_sync_is_empty(
    old: Seq<Seq<char>>,
    synced: Seq<Seq<char>>,
    new: Seq<Seq<char>>,
    w: int,
    h: int,
)
    requires
        0 <= w,
        forall|y: int| 0 <= y < h ==> (#[trigger] old[y]).len() == w,
        forall|y: int| 0 <= y < h ==> #[trigger] synced[y] == new[y] + old[y].skip(w),
    ensures
        screen_runs(synced, new, w, h).len() == 0,
{
    assert forall|y: int| 0 <= y < h implies #[trigger] synced[y] == new[y] by {
        assert(old[y].skip(w) =~= Seq::<char>::empty());
        assert(new[y] + Seq::<char>::empty() =~= new[y]);
    }
    lemma_equal_rows_have_no_runs(synced, new, w, h);
}

/// Brings `shown` (what the terminal shows) up to date with `new` and returns the runs that were copied.
///
/// The runs are what the terminal needs to show `new` where it shows `old`:
/// written over the old grid, in order, they give the updated grid, which
/// holds the new grid on the first `new.width()` columns of its first
/// `new.height()` rows.
pub fn sync_diff(shown: &mut ScreenBuffer, new: &ScreenBuffer) -> (runs: Vec<DiffRun>)
    requires
        old(shown).wf(),
        new.wf(),
        old(shown).height() >= new.height(),
        old(shown).width() >= new.width(),
    ensures
        final(shown).width() == old(shown).width(),
        final(shown).height() == old(shown).height(),
        final(shown).wf(),
        runs_view(runs@) == screen_runs(
            old(shown).grid(),
            new.grid(),
            new.width() as int,
            new.height() as int,
        ),
        final(shown).grid() == paint(old(shown).grid(), runs_view(runs@)),
        forall|y: int|
            0 <= y < new.height() ==> #[trigger] final(shown).grid()[y] == new.grid()[y] + old(shown).grid()[y].skip(new.width() as int),
        forall|y: int|
            new.height() <= y < old(shown).height() ==> #[trigger] final(shown).grid()[y] == old(shown).grid()[y],
{
    let ghost orig = shown.grid();
    let ghost ng = new.grid();
    let w = new.width();
    let mut runs: Vec<DiffRun> = Vec::new();
    let mut y: usize = 0;
    while y < new.height()
        invariant
            new.wf(),
            w == new.width(),
            ng == new.grid(),
            y <= new.height() <= shown.height(),
            shown.width() >= w,
            shown.width() == old(shown).width(),
            shown.height() == old(shown).height(),
            shown.wf(),
            orig == old(shown).grid(),
            orig.len() == shown.height(),
            forall|k: int| 0 <= k < orig.len() ==> #[trigger] orig[k].len() == shown.width(),
            runs_view(runs@) == screen_runs(orig, ng, w as int, y as int),
            shown.grid() == paint(orig, runs_view(runs@)),
            forall|k: int| 0 <= k < y ==> #[trigger] shown.grid()[k] == ng[k] + orig[k].skip(w as int),
            forall|k: int| y <= k < shown.height() ==> #[trigger] shown.grid()[k] == orig[k],
        decreases new.height() - y,
    {
        assert(shown.grid()[y as int] == shown.cells@[y as int]@);
        assert(ng[y as int] == new.cells@[y as int]@);
        if rows_equal(&shown.cells[y], &new.cells[y]) {
            assert(orig[y as int] == ng[y as int]);
            assert(orig[y as int].skip(w as int) =~= Seq::<char>::empty());
            assert(ng[y as int] + orig[y as int].skip(w as int) =~= ng[y as int]);
            y = y + 1;
            continue;
        }
        let ghost o = orig[y as int];
        let ghost n = ng[y as int];
        let ghost before = runs_view(runs@);
        let ghost mut done: Seq<(int, Seq<char>)> = Seq::empty();
        let mut cur = shown.cells[y].clone();
        assert(cur@ =~= o);
        let mut x: usize = 0;
        while x < w
            invariant
                new.wf(),
                w == new.width(),
                ng == new.grid(),
                y < new.height() <= shown.height(),
                shown.width() >= w,
                shown.wf(),
                o == orig[y as int],
                n == ng[y as int],
                o == shown.cells@[y as int]@,
                n == new.cells@[y as int]@,
                o.len() == shown.width(),
                n.len() == w,
                x <= w,
                cur@.len() == o.len(),
                cur@ == n.take(x as int) + o.skip(x as int),
                done + row_runs(o, n, w as int, x as int) == row_runs(o, n, w as int, 0),
                runs_view(runs@) == before + tag_row(done, y as int),
                paint(orig, runs_view(runs@)) == paint(orig, before).update(y as int, cur@),
                paint(orig, before)[y as int] == o,
                y < paint(orig, before).len(),
            decreases w - x,
        {
            proof {
                lemma_next_diff_bounds(o, n, w as int, x as int);
            }
            let ghost x0 = x as int;
            while x < w && shown.cells[y][x] == new.cells[y][x]
                invariant
                    x0 <= x <= w,
                    y < shown.cells@.len(),
                    y < new.cells@.len(),
                    o == shown.cells@[y as int]@,
                    n == new.cells@[y as int]@,
                    o.len() >= w,
                    n.len() == w,
                    next_diff(o, n, w as int, x0) == next_diff(o, n, w as int, x as int),
                decreases w - x,
            {
                x = x + 1;
            }
            let start = x;
            proof {
                lemma_next_same_bounds(o, n, w as int, start as int);
            }
            while x < w && shown.cells[y][x] != new.cells[y][x]
                invariant
                    start <= x <= w,
                    y < shown.cells@.len(),
                    y < new.cells@.len(),
                    o == shown.cells@[y as int]@,
                    n == new.cells@[y as int]@,
                    o.len() >= w,
                    n.len() == w,
                    next_same(o, n, w as int, start as int) == next_same(o, n, w as int, x as int),
                decreases w - x,
            {
                x = x + 1;
            }
            assert(row_runs(o, n, w as int, x0) == seq![(start as int, n.subrange(start as int, x as int))]
                + row_runs(o, n, w as int, x as int));
            // copy the run into the row and record it
            let mut text: Vec<char> = Vec::new();
            let mut i: usize = start;
            let ghost cur0 = cur@;
            while i < x
                invariant
                    start <= i <= x <= w,
                    y < new.cells@.len(),
                    n == new.cells@[y as int]@,
                    n.len() == w,
                    cur@.len() == cur0.len(),
                    cur0.len() >= w,
                    text@ == n.subrange(start as int, i as int),
                    cur@ == cur0.take(start as int) + n.subrange(start as int, i as int) + cur0.skip(i as int),
                decreases x - i,
            {
                let c = new.cells[y][i];
                cur.set(i, c);
                text.push(c);
                i = i + 1;
                assert(text@ =~= n.subrange(start as int, i as int));
                assert(cur@ =~= cur0.take(start as int) + n.subrange(start as int, i as int) + cur0.skip(i as int));
            }
            let ghost run: RunView = (start as int, y as int, text@);
            proof {
                assert(forall|k: int| x0 <= k < start ==> o[k] == n[k]);
                assert(cur@ =~= n.take(x as int) + o.skip(x as int));
                assert(write_at(cur0, start as int, text@) =~= cur@);
            }
            let r = DiffRun { x: start, y: y, text: text };
            let ghost runs_before = runs@;
            runs.push(r);
            proof {
                assert(runs_view(runs@) =~= runs_view(runs_before).push(run));
                lemma_paint_push(orig, runs_view(runs_before), run);
                done = done.push((start as int, n.subrange(start as int, x as int)));
                assert(tag_row(done, y as int) =~= tag_row(done.drop_last(), y as int).push(run));
                assert(done + row_runs(o, n, w as int, x as int) =~= done.drop_last() + row_runs(o, n, w as int, x0));
                assert(paint(orig, runs_view(runs@)) =~= paint(orig, before).update(y as int, cur@));
            }
        }
        proof {
            assert(done =~= done + row_runs(o, n, w as int, x as int));
            assert(row_runs(o, n, w as int, 0) == done);
            assert(screen_runs(orig, ng, w as int, y + 1) == screen_runs(orig, ng, w as int, y as int) + tag_row(row_runs(o, n, w as int, 0), y as int));
            assert(n.take(w as int) =~= n);
        }
        shown.cells.set(y, cur);
        proof {
            assert(shown.grid() =~= paint(orig, runs_view(runs@)));
        }
        y = y + 1;
    }
    runs
}

} // verus!
