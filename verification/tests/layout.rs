use native::layout::draw_list;
use native::screen::ScreenBuffer;

fn rows(b: &ScreenBuffer) -> Vec<String> {
    (0..b.height).map(|y| b.row(y).iter().collect()).collect()
}

fn chars(s: &str) -> Vec<char> {
    s.chars().collect()
}

#[test]
fn list_screen_layout() {
    let mut b = ScreenBuffer::new(26, 8);
    let list = vec![chars("> one"), chars("  two"), chars("  three")];
    draw_list(&mut b, "Title\n filter", &list, 1, "3 items");
    let pad = |s: &str| format!("{:<26}", s);
    assert_eq!(
        rows(&b),
        vec![
            pad("Title"),
            pad(" filter"),
            "-".repeat(26),
            pad("  two"),
            pad("  three"),
            pad(""),
            "-".repeat(26),
            pad("3 items"),
        ]
    );
}

#[test]
fn narrow_screen_shows_notice() {
    let mut b = ScreenBuffer::new(25, 3);
    b.set_line(2, "old");
    draw_list(&mut b, "Title", &vec![chars("row")], 0, "status");
    let pad = |s: &str| format!("{:<25}", s);
    assert_eq!(rows(&b), vec![pad("Console too small"), pad(""), pad("")]);
}

#[test]
fn no_room_for_rows_draws_header_only() {
    let mut b = ScreenBuffer::new(30, 3);
    b.set_line(2, "kept");
    draw_list(&mut b, "A\nB", &vec![chars("row")], 0, "status");
    let pad = |s: &str| format!("{:<30}", s);
    assert_eq!(rows(&b), vec![pad("A"), pad("B"), pad("kept")]);
}
