use native::listview::{filter_entries, ListView, Nav};

fn names(v: &[&str]) -> Vec<String> {
    v.iter().map(|s| s.to_string()).collect()
}

#[test]
fn filter_is_case_insensitive_on_names() {
    let n = names(&["Alpha", "beta", "GAMMA", "alphabet"]);
    assert_eq!(filter_entries(&n, "alpha", false), vec![0, 3]);
    assert_eq!(filter_entries(&n, "", false), vec![0, 1, 2, 3]);
    assert_eq!(filter_entries(&n, "zzz", false), Vec::<usize>::new());
    assert_eq!(filter_entries(&n, "zzz", true), vec![0]);
}

#[test]
fn set_filter_lowercases_and_selects_first() {
    let n = names(&["..", "Software", "System"]);
    let mut l = ListView::new();
    l.selected = 2;
    l.set_filter(&n, "SOFT", true);
    assert_eq!(l.filter, "soft");
    assert_eq!(l.shown, vec![0, 1]);
    assert_eq!(l.selected, 0);
}

#[test]
fn navigation_stays_in_list() {
    let mut l = ListView::new();
    l.shown = vec![0, 1, 2, 3, 4];
    l.visible_height = 3;
    l.navigate(Nav::Down);
    assert_eq!(l.selected, 1);
    l.navigate(Nav::PageDown);
    assert_eq!(l.selected, 4);
    l.navigate(Nav::Down);
    assert_eq!(l.selected, 4);
    l.navigate(Nav::PageUp);
    assert_eq!(l.selected, 1);
    l.navigate(Nav::PageUp);
    assert_eq!(l.selected, 0);
    l.navigate(Nav::Up);
    assert_eq!(l.selected, 0);
    l.navigate(Nav::End);
    assert_eq!(l.selected, 4);
    l.navigate(Nav::Home);
    assert_eq!(l.selected, 0);
}

#[test]
fn navigation_in_empty_list() {
    let mut l = ListView::new();
    l.navigate(Nav::Down);
    assert_eq!(l.selected, 0);
    l.navigate(Nav::End);
    assert_eq!(l.selected, 0);
    assert_eq!(l.selected_entry(), None);
}

#[test]
fn scroll_keeps_selection_visible() {
    let mut l = ListView::new();
    l.shown = (0..50).collect();
    l.selected = 30;
    l.scroll(10, 1);
    assert_eq!(l.visible_height, 6);
    assert_eq!(l.top, 25);
    l.selected = 3;
    l.scroll(10, 1);
    assert_eq!(l.top, 3);
    l.scroll(2, 1);
    assert_eq!(l.visible_height, 0);
}

#[test]
fn click_selects_row_under_mouse() {
    let mut l = ListView::new();
    l.shown = (0..10).collect();
    l.visible_height = 5;
    l.top = 2;
    assert!(l.click(3, 1));
    assert_eq!(l.selected, 3);
    assert!(!l.click(1, 1));
    assert_eq!(l.selected, 3);
    assert!(!l.click(7, 1));
    assert!(l.click(6, 1));
    assert_eq!(l.selected, 6);
}

#[test]
fn click_without_header() {
    let mut l = ListView::new();
    l.shown = (0..10).collect();
    l.visible_height = 5;
    assert!(!l.click(0, 0));
    assert!(l.click(2, 0));
    assert_eq!(l.selected, 1);
    assert!(l.click(6, 0));
    assert_eq!(l.selected, 5);
    assert!(!l.click(7, 0));
}

#[test]
fn reload_clamps_selection() {
    let n = names(&["a", "b"]);
    let mut l = ListView::new();
    l.selected = 5;
    l.reload(&n);
    assert_eq!(l.shown, vec![0, 1]);
    assert_eq!(l.selected, 1);
}

#[test]
fn reset_after_load_keeps_parent_row() {
    let n = names(&["..", "Run", "Policies"]);
    let mut l = ListView::new();
    l.filter = "pol".to_string();
    l.selected = 2;
    l.reset_after_load(&n, false);
    assert_eq!(l.shown, vec![0, 2]);
    assert_eq!(l.selected, 0);
    l.reset_after_load(&n, true);
    assert_eq!(l.filter, "");
    assert_eq!(l.shown, vec![0, 1, 2]);
    assert_eq!(l.selected_entry(), Some(0));
}
