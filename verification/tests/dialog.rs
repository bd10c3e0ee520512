use native::dialog::{
    choose_dialog_width, choose_key, draw_choose_buttons, draw_choose_frame, draw_message,
    info_key_closes, ChooseStep,
};
use native::keys::Key;
use native::screen::ScreenBuffer;

fn rows(b: &ScreenBuffer) -> Vec<String> {
    (0..b.height).map(|y| b.row(y).iter().collect()).collect()
}

#[test]
fn dialog_width_from_buttons_or_message() {
    assert_eq!(choose_dialog_width("Do you want to delete", &["Yes", "No"]), 25);
    assert_eq!(choose_dialog_width("Hi", &["Yes", "No"]), 19);
}

#[test]
fn dialog_frame_and_buttons() {
    let mut b = ScreenBuffer::new(20, 9);
    let w = choose_dialog_width("Hi", &["Yes", "No"]);
    draw_choose_frame(&mut b, "Hi", w);
    draw_choose_buttons(&mut b, &["Yes", "No"], 1, w);
    assert_eq!(
        rows(&b),
        vec![
            "                    ",
            "/~~~~~~~~~~~~~~~~~\\ ",
            "|                 | ",
            "|       Hi        | ",
            "|                 | ",
            "|   Yes   [ No ]  | ",
            "|                 | ",
            "\\~~~~~~~~~~~~~~~~~/ ",
            "                    ",
        ]
    );
}

#[test]
fn choose_keys_cycle() {
    assert!(matches!(choose_key(0, 3, Key::Left), ChooseStep::Select(2)));
    assert!(matches!(choose_key(2, 3, Key::Right), ChooseStep::Select(0)));
    assert!(matches!(choose_key(1, 3, Key::Right), ChooseStep::Select(2)));
    assert!(matches!(choose_key(1, 3, Key::Left), ChooseStep::Select(0)));
    assert!(matches!(choose_key(1, 3, Key::Up), ChooseStep::Select(1)));
    assert!(matches!(choose_key(1, 3, Key::Enter), ChooseStep::Chosen(1)));
    assert!(matches!(choose_key(1, 3, Key::Esc), ChooseStep::Cancelled));
    assert!(matches!(choose_key(1, 3, Key::Char('Q')), ChooseStep::Cancelled));
    assert!(matches!(choose_key(1, 3, Key::Char('x')), ChooseStep::Select(1)));
}

#[test]
fn choose_left_then_right_returns() {
    for n in 1..5usize {
        for s in 0..n {
            let l = match choose_key(s, n, Key::Left) {
                ChooseStep::Select(x) => x,
                _ => panic!(),
            };
            match choose_key(l, n, Key::Right) {
                ChooseStep::Select(x) => assert_eq!(x, s),
                _ => panic!(),
            }
        }
    }
}

#[test]
fn info_dialog_keys_and_text() {
    assert!(info_key_closes(Key::Esc));
    assert!(info_key_closes(Key::Char('q')));
    assert!(info_key_closes(Key::Char('Q')));
    assert!(!info_key_closes(Key::Enter));
    let mut b = ScreenBuffer::new(5, 3);
    b.set_line(2, "old");
    draw_message(&mut b, "one\r\ntwo\n");
    assert_eq!(rows(&b), vec!["one  ", "two  ", "old  "]);
}
