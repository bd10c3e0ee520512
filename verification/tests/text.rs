use native::text::{split_lines, trim};

#[test]
fn trim_keeps_short_text() {
    assert_eq!(trim("hello", 5), "hello");
    assert_eq!(trim("", 0), "");
}

#[test]
fn trim_shortens_with_dots() {
    assert_eq!(trim("hello world", 8), "hello...");
    assert_eq!(trim("abcdef", 5), "ab...");
}

#[test]
fn trim_cuts_at_character_boundary() {
    // each 'é' takes two bytes; "éé" would need 4 bytes but only 3 remain
    assert_eq!(trim("ééééé", 6), "é...");
}

#[test]
fn trimmed_text_fits_budget() {
    for max in 3..12 {
        let t = trim("the quick brown fox", max);
        assert!(t.len() <= max);
    }
}

#[test]
fn lines_like_std() {
    for s in ["", "a", "a\n", "a\nb", "a\r\nb\r\n", "\n\n", "x\r", "a\n\nb\r"] {
        let got: Vec<String> = split_lines(s).iter().map(|l| l.iter().collect()).collect();
        let want: Vec<String> = s.lines().map(|l| l.to_string()).collect();
        assert_eq!(got, want, "{:?}", s);
    }
}
