use native::screen::{sync_diff, ScreenBuffer};

fn row_text(b: &ScreenBuffer, y: usize) -> String {
    b.row(y).iter().collect()
}

#[test]
fn new_buffer_is_blank() {
    let b = ScreenBuffer::new(4, 2);
    assert_eq!(b.width, 4);
    assert_eq!(b.height, 2);
    assert_eq!(row_text(&b, 0), "    ");
    assert_eq!(row_text(&b, 1), "    ");
}

#[test]
fn set_line_pads_and_cuts() {
    let mut b = ScreenBuffer::new(5, 3);
    b.set_line(0, "ab");
    b.set_line(1, "abcdefgh");
    assert_eq!(row_text(&b, 0), "ab   ");
    assert_eq!(row_text(&b, 1), "abcde");
    assert_eq!(row_text(&b, 2), "     ");
}

#[test]
fn set_line_below_height_is_ignored() {
    let mut b = ScreenBuffer::new(3, 1);
    b.set_line(1, "xyz");
    b.set_line(7, "xyz");
    assert_eq!(row_text(&b, 0), "   ");
}

#[test]
fn set_line_counts_characters_not_bytes() {
    let mut b = ScreenBuffer::new(3, 1);
    b.set_line(0, "äöüß");
    assert_eq!(row_text(&b, 0), "äöü");
}

#[test]
fn row_mut_writes_in_place() {
    let mut b = ScreenBuffer::new(3, 2);
    b.row_mut(1)[2] = 'x';
    assert_eq!(row_text(&b, 1), "  x");
    assert_eq!(row_text(&b, 0), "   ");
}

#[test]
fn sync_diff_of_equal_buffers_is_empty() {
    let mut old = ScreenBuffer::new(4, 2);
    let new = ScreenBuffer::new(4, 2);
    let runs = sync_diff(&mut old, &new);
    assert!(runs.is_empty());
}

#[test]
fn sync_diff_finds_runs_and_syncs() {
    let mut old = ScreenBuffer::new(6, 2);
    old.set_line(0, "abcdef");
    let mut new = ScreenBuffer::new(6, 2);
    new.set_line(0, "aXcdYZ");
    new.set_line(1, "  q   ");
    let runs = sync_diff(&mut old, &new);
    let got: Vec<(usize, usize, String)> =
        runs.iter().map(|r| (r.x, r.y, r.text.iter().collect())).collect();
    assert_eq!(
        got,
        vec![
            (1, 0, "X".to_string()),
            (4, 0, "YZ".to_string()),
            (2, 1, "q".to_string()),
            (6, 1, "".to_string()),
        ]
    );
    assert_eq!(row_text(&old, 0), "aXcdYZ");
    assert_eq!(row_text(&old, 1), "  q   ");
}

#[test]
fn sync_diff_runs_repaint_old_screen() {
    let mut old = ScreenBuffer::new(5, 3);
    old.set_line(0, "hello");
    old.set_line(2, "world");
    let mut new = ScreenBuffer::new(5, 3);
    new.set_line(0, "help!");
    new.set_line(1, "x");
    let before: Vec<Vec<char>> = (0..3).map(|y| old.row(y).to_vec()).collect();
    let runs = sync_diff(&mut old, &new);
    let mut screen = before;
    for r in &runs {
        for (i, c) in r.text.iter().enumerate() {
            screen[r.y][r.x + i] = *c;
        }
    }
    for y in 0..3 {
        assert_eq!(screen[y], new.row(y).to_vec());
        assert_eq!(old.row(y).to_vec(), new.row(y).to_vec());
    }
}

#[test]
fn sync_diff_keeps_wider_old_tail() {
    let mut old = ScreenBuffer::new(4, 2);
    old.set_line(0, "abcd");
    let mut new = ScreenBuffer::new(2, 1);
    new.set_line(0, "xy");
    sync_diff(&mut old, &new);
    assert_eq!(row_text(&old, 0), "xycd");
    assert_eq!(row_text(&old, 1), "    ");
}

#[test]
fn second_sync_writes_nothing() {
    let mut old = ScreenBuffer::new(5, 2);
    old.set_line(1, "stale");
    let mut new = ScreenBuffer::new(5, 2);
    new.set_line(0, "fresh");
    assert!(!sync_diff(&mut old, &new).is_empty());
    assert!(sync_diff(&mut old, &new).is_empty());
}

#[test]
fn runs_cover_each_changed_cell_once() {
    let mut old = ScreenBuffer::new(8, 3);
    old.set_line(0, "abcdefgh");
    old.set_line(2, "same row");
    let mut new = ScreenBuffer::new(8, 3);
    new.set_line(0, "aXcdeYZh");
    new.set_line(1, "q  r");
    new.set_line(2, "same row");
    let before: Vec<Vec<char>> = (0..3).map(|y| old.row(y).to_vec()).collect();
    let runs = sync_diff(&mut old, &new);
    let mut written = vec![vec![0; 8]; 3];
    for r in &runs {
        assert_ne!(r.y, 2);
        for (i, c) in r.text.iter().enumerate() {
            assert_ne!(before[r.y][r.x + i], new.row(r.y)[r.x + i]);
            assert_eq!(*c, new.row(r.y)[r.x + i]);
            written[r.y][r.x + i] += 1;
        }
    }
    for y in 0..3 {
        for x in 0..8 {
            let differs = before[y][x] != new.row(y)[x];
            assert_eq!(written[y][x], if differs { 1 } else { 0 });
        }
    }
}
