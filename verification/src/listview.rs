//! The scrolling, filterable list that every screen shows: which entries
//! pass the filter, which one is selected, and which part is on screen.
use vstd::prelude::*;
use crate::text::{chars_of, contains, contains_exec, lower, to_lower};

verus! {

/// Entry `i` passes `filter`: its lowercased name contains the filter, or it
/// is the first entry and the first entry is always kept.
pub open spec fn passes(names: Seq<Seq<char>>, filter: Seq<char>, keep_first: bool, i: int) -> bool {
    (keep_first && i == 0) || contains(lower(names[i]), filter)
}

/// The indices below `n` of the entries that pass `filter`, in order.
pub open spec fn filtered(names: Seq<Seq<char>>, filter: Seq<char>, keep_first: bool, n: int) -> Seq<
    int,
>
    decreases n,
{
    if n <= 0 {
        Seq::empty()
    } else {
        let before = filtered(names, filter, keep_first, n - 1);
        if passes(names, filter, keep_first, n - 1) {
            before.push(n - 1)
        } else {
            before
        }
    }
}

/// The texts of a vector of strings.
pub open spec fn strings_view(v: Seq<String>) -> Seq<Seq<char>> {
    v.map_values(|s: String| s@)
}

/// The indices as integers.
pub open spec fn indices_view(v: Seq<usize>) -> Seq<int> {
    v.map_values(|i: usize| i as int)
}

/// Cursor movements in a list.
#[derive(Clone, Copy, Debug, PartialEq, Eq, Structural)]
pub enum Nav {
    Down,
    Up,
    PageDown,
    PageUp,
    Home,
    End,
}

/// The selection after a movement in a list of `len` shown entries with a
/// page of `page` rows; the selection does not go past the last entry
/// (nor below 0).
pub open spec fn nav_target(sel: int, len: int, page: int, nav: Nav) -> int {
    let last = if len > 0 {
        len - 1
    } else {
        0
    };
    match nav {
        Nav::Down => if sel + 1 < last {
            sel + 1
        } else {
            last
        },
        Nav::Up => if sel >= 1 {
            sel - 1
        } else {
            0
        },
        Nav::PageDown => if sel + page < last {
            sel + page
        } else {
            last
        },
        Nav::PageUp => if sel >= page {
            sel - page
        } else {
            0
        },
        Nav::Home => 0,
        Nav::End => last,
    }
}

/// `a - b`, or 0 when `b > a`.
pub open spec fn sat_sub(a: int, b: int) -> int {
    if a >= b {
        a - b
    } else {
        0
    }
}

/// The list rows that fit on a screen of `height` rows under `header_lines`
/// header lines (three rows go to the rules and the status line).
pub open spec fn rows_for(height: int, header_lines: int) -> int {
    sat_sub(height, 3 + header_lines)
}

/// First shown row after scrolling so that the selection is on screen: the
/// old first row, moved up to the selection, or down so that the selection
/// is the last of `rows` rows.
pub open spec fn scrolled_top(top: int, sel: int, rows: int) -> int {
    let t = if top <= sel {
        top
    } else {
        sel
    };
    let low = sat_sub(sel, sat_sub(rows, 1));
    if t >= low {
        t
    } else {
        low
    }
}

/// The entry that a click on screen row `row` selects, if any: rows below
/// the header and its rule, counted from the first shown entry.
pub open spec fn click_target(row: int, header_lines: int, top: int, rows: int, len: int) -> Option<
    int,
> {
    let toprows = header_lines + 1;
    if row >= toprows && row - 2 < rows && row - toprows + top < len {
        Some(row - toprows + top)
    } else {
        None
    }
}

/// The state of a list on screen.
#[derive(Debug)]
pub struct ListView {
    /// Indices of the entries that pass the filter, in order.
    pub shown: Vec<usize>,
    /// Position of the selected entry in `shown`.
    pub selected: usize,
    /// Position in `shown` of the first entry on screen.
    pub top: usize,
    /// Number of list rows on screen.
    pub visible_height: usize,
    /// The filter, in lower case.
    pub filter: String,
}

/// The indices of the entries whose lowercased name contains `filter`
/// (and the first entry when `keep_first`), in order.
pub fn filter_entries(names: &Vec<String>, filter: &str, keep_first: bool) -> (res: Vec<usize>)
    ensures
        indices_view(res@) == filtered(strings_view(names@), filter@, keep_first, names@.len() as int),
{
    let f = chars_of(filter);
    let ghost nv = strings_view(names@);
    let mut res: Vec<usize> = Vec::new();
    let mut i: usize = 0;
    while i < names.len()
        invariant
            i <= names.len(),
            f@ == filter@,
            nv == strings_view(names@),
            indices_view(res@) == filtered(nv, filter@, keep_first, i as int),
        decreases names.len() - i,
    {
        let keep = if keep_first && i == 0 {
            true
        } else {
            let name = chars_of(names[i].as_str());
            let low = to_lower(&name);
            contains_exec(&low, &f)
        };
        assert(nv[i as int] == names@[i as int]@);
        let ghost before = res@;
        if keep {
            res.push(i);
            assert(indices_view(res@) =~= indices_view(before).push(i as int));
        }
        i = i + 1;
    }
    res
}

/// The filtered indices increase, stay below `n` and are exactly the
/// entries that pass the filter.
pub proof fn lemma_filtered_exact(names: Seq<Seq<char>>, filter: Seq<char>, keep_first: bool, n: int)
    requires
        0 <= n <= names.len(),
    ensures
        forall|a: int, b: int|
            0 <= a < b < filtered(names, filter, keep_first, n).len() ==> #[trigger] filtered(
                names,
                filter,
                keep_first,
                n,
            )[a] < #[trigger] filtered(names, filter, keep_first, n)[b],
        forall|a: int|
            0 <= a < filtered(names, filter, keep_first, n).len() ==> 0 <= #[trigger] filtered(
                names,
                filter,
                keep_first,
                n,
            )[a] < n && passes(names, filter, keep_first, filtered(names, filter, keep_first, n)[a]),
        forall|i: int|
            0 <= i < n && passes(names, filter, keep_first, i) ==> #[trigger] filtered(
                names,
                filter,
                keep_first,
                n,
            ).contains(i),
    decreases n,
{
    if n > 0 {
        lemma_filtered_exact(names, filter, keep_first, n - 1);
        let before = filtered(names, filter, keep_first, n - 1);
        assert forall|i: int|
            0 <= i < n && passes(names, filter, keep_first, i) implies #[trigger] filtered(
            names,
            filter,
            keep_first,
            n,
        ).contains(i) by {
            if i < n - 1 {
                assert(before.contains(i));
                let k = choose|k: int| 0 <= k < before.len() && before[k] == i;
                if passes(names, filter, keep_first, n - 1) {
                    assert(filtered(names, filter, keep_first, n)[k] == i);
                } else {
                    assert(filtered(names, filter, keep_first, n) == before);
                }
            } else {
                assert(filtered(names, filter, keep_first, n).last() == i);
            }
        }
    }
}

/// With an empty filter every entry is shown.
pub proof fn lemma_empty_filter_shows_all(names: Seq<Seq<char>>, keep_first: bool, n: int)
    requires
        0 <= n <= names.len(),
    ensures
        filtered(names, Seq::empty(), keep_first, n) == Seq::new(n as nat, |i: int| i),
    decreases n,
{
    if n > 0 {
        lemma_empty_filter_shows_all(names, keep_first, n - 1);
        assert(lower(names[n - 1]).subrange(0, 0) =~= Seq::<char>::empty());
        assert(crate::text::occurs_at(lower(names[n - 1]), Seq::empty(), 0));
        assert(filtered(names, Seq::empty(), keep_first, n) =~= Seq::new(n as nat, |i: int| i));
    } else {
        assert(filtered(names, Seq::empty(), keep_first, n) =~= Seq::new(n as nat, |i: int| i));
    }
}

impl ListView {
    /// An empty list with nothing selected and no filter.
    pub fn new() -> (res: Self)
        ensures
            res.shown@.len() == 0,
            res.selected == 0,
            res.top == 0,
            res.visible_height == 0,
            res.filter@.len() == 0,
    {
        ListView {
            shown: Vec::new(),
            selected: 0,
            top: 0,
            visible_height: 0,
            filter: String::new(),
        }
    }

    /// Shows the entries that pass the current filter.
    pub fn apply_filter(&mut self, names: &Vec<String>, keep_first: bool)
        ensures
            indices_view(final(self).shown@) == filtered(
                strings_view(names@),
                old(self).filter@,
                keep_first,
                names@.len() as int,
            ),
            final(self).selected == old(self).selected,
            final(self).top == old(self).top,
            final(self).visible_height == old(self).visible_height,
            final(self).filter == old(self).filter,
    {
        self.shown = filter_entries(names, self.filter.as_str(), keep_first);
    }

    /// Sets the filter (lowercased), shows the entries that pass it and
    /// selects the first one.
    pub fn set_filter(&mut self, names: &Vec<String>, filter: &str, keep_first: bool)
        ensures
            final(self).filter@ == lower(filter@),
            indices_view(final(self).shown@) == filtered(
                strings_view(names@),
                lower(filter@),
                keep_first,
                names@.len() as int,
            ),
            final(self).selected == 0,
            final(self).top == old(self).top,
            final(self).visible_height == old(self).visible_height,
    {
        let f = chars_of(filter);
        let low = to_lower(&f);
        self.filter = crate::text::string_from_chars(&low);
        self.apply_filter(names, keep_first);
        self.selected = 0;
    }

    /// After the entries were loaded anew: the filter is applied again and
    /// the selection is kept, moved back to the last entry if needed.
    pub fn reload(&mut self, names: &Vec<String>)
        ensures
            indices_view(final(self).shown@) == filtered(
                strings_view(names@),
                old(self).filter@,
                false,
                names@.len() as int,
            ),
            final(self).selected == if old(self).selected < sat_sub(final(self).shown@.len() as int, 1) {
                old(self).selected as int
            } else {
                sat_sub(final(self).shown@.len() as int, 1)
            },
            final(self).top == old(self).top,
            final(self).visible_height == old(self).visible_height,
            final(self).filter == old(self).filter,
    {
        self.apply_filter(names, false);
        let last = if self.shown.len() > 0 {
            self.shown.len() - 1
        } else {
            0
        };
        if self.selected > last {
            self.selected = last;
        }
    }

    /// Selects the entry at position `sel` again, or the last shown entry
    /// when fewer are shown.
    pub fn select_clamped(&mut self, sel: usize)
        ensures
            final(self).selected == if sel < sat_sub(old(self).shown@.len() as int, 1) {
                sel as int
            } else {
                sat_sub(old(self).shown@.len() as int, 1)
            },
            final(self).shown == old(self).shown,
            final(self).top == old(self).top,
            final(self).visible_height == old(self).visible_height,
            final(self).filter == old(self).filter,
    {
        let last = if self.shown.len() > 0 {
            self.shown.len() - 1
        } else {
            0
        };
        self.selected = if sel < last {
            sel
        } else {
            last
        };
    }

    /// After a registry key was loaded: the first entry is selected, the
    /// filter is cleared when asked, and the entries that pass it (the first
    /// entry always does) are shown.
    pub fn reset_after_load(&mut self, names: &Vec<String>, reset_filter: bool)
        ensures
            final(self).selected == 0,
            final(self).filter@ == if reset_filter {
                Seq::<char>::empty()
            } else {
                old(self).filter@
            },
            indices_view(final(self).shown@) == filtered(
                strings_view(names@),
                final(self).filter@,
                true,
                names@.len() as int,
            ),
            final(self).top == old(self).top,
            final(self).visible_height == old(self).visible_height,
    {
        self.selected = 0;
        if reset_filter {
            self.filter = String::new();
        }
        self.apply_filter(names, true);
    }

    /// Moves the selection.
    pub fn navigate(&mut self, nav: Nav)
        requires
            nav is Down ==> old(self).selected + 1 <= usize::MAX,
            nav is PageDown ==> old(self).selected + old(self).visible_height <= usize::MAX,
        ensures
            final(self).selected == nav_target(
                old(self).selected as int,
                old(self).shown@.len() as int,
                old(self).visible_height as int,
                nav,
            ),
            final(self).shown == old(self).shown,
            final(self).top == old(self).top,
            final(self).visible_height == old(self).visible_height,
            final(self).filter == old(self).filter,
    {
        let last = if self.shown.len() > 0 {
            self.shown.len() - 1
        } else {
            0
        };
        match nav {
            Nav::Down => {
                let s = self.selected + 1;
                self.selected = if s < last {
                    s
                } else {
                    last
                };
            },
            Nav::Up => {
                self.selected = if self.selected >= 1 {
                    self.selected - 1
                } else {
                    0
                };
            },
            Nav::PageDown => {
                let s = self.selected + self.visible_height;
                self.selected = if s < last {
                    s
                } else {
                    last
                };
            },
            Nav::PageUp => {
                self.selected = if self.selected >= self.visible_height {
                    self.selected - self.visible_height
                } else {
                    0
                };
            },
            Nav::Home => {
                self.selected = 0;
            },
            Nav::End => {
                self.selected = last;
            },
        }
    }

    /// Before drawing: sets the number of list rows for a screen of `height`
    /// rows and scrolls so that the selection is on screen.
    pub fn scroll(&mut self, height: usize, header_lines: usize)
        requires
            header_lines + 3 <= usize::MAX,
        ensures
            final(self).visible_height == rows_for(height as int, header_lines as int),
            final(self).top == scrolled_top(
                old(self).top as int,
                old(self).selected as int,
                final(self).visible_height as int,
            ),
            final(self).selected == old(self).selected,
            final(self).shown == old(self).shown,
            final(self).filter == old(self).filter,
    {
        let reserved = 3 + header_lines;
        self.visible_height = if height >= reserved {
            height - reserved
        } else {
            0
        };
        let t = if self.top <= self.selected {
            self.top
        } else {
            self.selected
        };
        let span = if self.visible_height >= 1 {
            self.visible_height - 1
        } else {
            0
        };
        let low = if self.selected >= span {
            self.selected - span
        } else {
            0
        };
        self.top = if t >= low {
            t
        } else {
            low
        };
    }

    /// Selects the entry under a click on screen row `row`; tells whether the
    /// selection changed.
    pub fn click(&mut self, row: usize, header_lines: usize) -> (hit: bool)
        requires
            !(header_lines == 0 && row == 1),
            header_lines + 1 <= usize::MAX,
            row + old(self).top <= usize::MAX,
        ensures
            hit == click_target(
                row as int,
                header_lines as int,
                old(self).top as int,
                old(self).visible_height as int,
                old(self).shown@.len() as int,
            ) is Some,
            hit ==> final(self).selected == click_target(
                row as int,
                header_lines as int,
                old(self).top as int,
                old(self).visible_height as int,
                old(self).shown@.len() as int,
            )->0,
            !hit ==> final(self).selected == old(self).selected,
            final(self).shown == old(self).shown,
            final(self).top == old(self).top,
            final(self).visible_height == old(self).visible_height,
            final(self).filter == old(self).filter,
    {
        let toprows = header_lines + 1;
        if row >= toprows && row - 2 < self.visible_height && row - toprows + self.top
            < self.shown.len() {
            self.selected = row - toprows + self.top;
            true
        } else {
            false
        }
    }

    /// The index of the selected entry, if the selection is on a shown entry.
    pub fn selected_entry(&self) -> (res: Option<usize>)
        ensures
            self.selected < self.shown@.len() ==> res == Some(self.shown@[self.selected as int]),
            self.selected >= self.shown@.len() ==> res is None,
    {
        if self.selected < self.shown.len() {
            Some(self.shown[self.selected])
        } else {
            None
        }
    }
}

/// After scrolling, the selection is at or below the first shown row and,
/// when at least one row fits, within the rows on screen.
pub proof fn lemma_scroll_shows_selection(top: int, sel: int, rows: int)
    requires
        0 <= top,
        0 <= sel,
        0 <= rows,
    ensures
        scrolled_top(top, sel, rows) <= sel,
        rows >= 1 ==> sel < scrolled_top(top, sel, rows) + rows,
        0 <= scrolled_top(top, sel, rows),
{
}

/// Every movement keeps the selection on a shown entry of a list that is
/// not empty.
pub proof fn lemma_nav_stays_in_list(sel: int, len: int, page: int, nav: Nav)
    requires
        0 <= sel < len,
        0 <= page,
    ensures
        0 <= nav_target(sel, len, page, nav) < len,
{
}

/// Home then End selects the last entry; End then Home the first; Down from
/// the last entry stays on it.
pub proof fn lemma_nav_ends(sel: int, len: int, page: int)
    requires
        0 <= sel < len,
        0 <= page,
    ensures
        nav_target(nav_target(sel, len, page, Nav::Home), len, page, Nav::End) == len - 1,
        nav_target(nav_target(sel, len, page, Nav::End), len, page, Nav::Home) == 0,
        nav_target(len - 1, len, page, Nav::Down) == len - 1,
{
}

/// A clicked entry is a shown entry.
pub proof fn lemma_click_in_list(row: int, header_lines: int, top: int, rows: int, len: int)
    requires
        0 <= top,
    ensures
        click_target(row, header_lines, top, rows, len) matches Some(i) ==> 0 <= i < len,
{
}

/// An entry is listed exactly when it is the kept first entry or its
/// lowercased name holds the filter text at some position.
pub proof fn lemma_filter_finds_substrings(names: Seq<Seq<char>>, filter: Seq<char>, keep_first: bool, n: int)
    requires
        0 <= n <= names.len(),
    ensures
        forall|i: int|
            0 <= i < n ==> (#[trigger] filtered(names, filter, keep_first, n).contains(i) <==> ((keep_first
                && i == 0) || exists|k: int|
                0 <= k && k + filter.len() <= lower(names[i]).len() && #[trigger] lower(names[i]).subrange(
                    k,
                    k + filter.len(),
                ) == filter)),
{
    lemma_filtered_exact(names, filter, keep_first, n);
    let fl = filtered(names, filter, keep_first, n);
    assert forall|i: int| 0 <= i < n implies (#[trigger] fl.contains(i) <==> ((keep_first && i == 0)
        || exists|k: int|
        0 <= k && k + filter.len() <= lower(names[i]).len() && #[trigger] lower(names[i]).subrange(
            k,
            k + filter.len(),
        ) == filter)) by {
        if fl.contains(i) {
            let a = choose|a: int| 0 <= a < fl.len() && fl[a] == i;
            assert(passes(names, filter, keep_first, fl[a]));
            if !(keep_first && i == 0) {
                let k = choose|k: int| crate::text::occurs_at(lower(names[i]), filter, k);
                assert(lower(names[i]).subrange(k, k + filter.len()) == filter);
            }
        }
        if (keep_first && i == 0) || exists|k: int|
            0 <= k && k + filter.len() <= lower(names[i]).len() && #[trigger] lower(names[i]).subrange(
                k,
                k + filter.len(),
            ) == filter {
            if !(keep_first && i == 0) {
                let k = choose|k: int|
                    0 <= k && k + filter.len() <= lower(names[i]).len() && #[trigger] lower(names[i]).subrange(
                        k,
                        k + filter.len(),
                    ) == filter;
                assert(crate::text::occurs_at(lower(names[i]), filter, k));
            }
            assert(passes(names, filter, keep_first, i));
        }
    }
}

/// Each movement, in terms of the selection before it: Up and Down move by
/// one entry, PageUp and PageDown by a page, all stopping at the ends; Home
/// goes to the first entry and End to the last. Down then Up, and Up then
/// Down, come back where they started when they did not stop at an end.
pub proof fn lemma_nav_moves(sel: int, len: int, page: int)
    requires
        0 <= sel < len,
        0 <= page,
    ensures
        sel >= 1 ==> nav_target(sel, len, page, Nav::Up) == sel - 1,
        sel == 0 ==> nav_target(sel, len, page, Nav::Up) == 0,
        sel + 1 < len ==> nav_target(sel, len, page, Nav::Down) == sel + 1,
        sel + 1 == len ==> nav_target(sel, len, page, Nav::Down) == sel,
        sel >= page ==> nav_target(sel, len, page, Nav::PageUp) == sel - page,
        sel < page ==> nav_target(sel, len, page, Nav::PageUp) == 0,
        sel + page < len ==> nav_target(sel, len, page, Nav::PageDown) == sel + page,
        sel + page >= len ==> nav_target(sel, len, page, Nav::PageDown) == len - 1,
        nav_target(sel, len, page, Nav::Home) == 0,
        nav_target(sel, len, page, Nav::End) == len - 1,
        sel + 1 < len ==> nav_target(nav_target(sel, len, page, Nav::Down), len, page, Nav::Up) == sel,
        sel >= 1 ==> nav_target(nav_target(sel, len, page, Nav::Up), len, page, Nav::Down) == sel,
{
}

} // verus!
