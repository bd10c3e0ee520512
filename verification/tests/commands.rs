use native::keymap::{
    is_filter, is_help, is_quit, is_reload, list_command, nav_of, parse_simple_args, ListCommand,
    Screen, SimpleStart,
};
use native::keys::{Key, MOD_ALT, MOD_CONTROL, MOD_NONE, MOD_SHIFT};
use native::listview::Nav;
use native::regedit::{regedit_command, RegeditCommand};

#[test]
fn quit_help_reload_filter_keys() {
    assert!(is_quit(Key::Char('q'), MOD_NONE));
    assert!(is_quit(Key::Esc, MOD_NONE));
    assert!(is_quit(Key::F(10), MOD_NONE));
    assert!(is_quit(Key::Char('0'), MOD_ALT));
    assert!(is_quit(Key::Char('c'), MOD_CONTROL));
    assert!(!is_quit(Key::Char('c'), MOD_NONE));
    assert!(is_help(Key::Char('?'), MOD_SHIFT));
    assert!(is_help(Key::F(1), MOD_NONE));
    assert!(is_help(Key::Char('1'), MOD_ALT));
    assert!(!is_help(Key::Char('1'), MOD_NONE));
    assert!(is_reload(Key::F(5), MOD_NONE));
    assert!(is_reload(Key::Char('r'), MOD_CONTROL));
    assert!(is_reload(Key::Char('5'), MOD_ALT));
    assert!(!is_reload(Key::Char('5'), MOD_NONE));
    assert!(!is_reload(Key::F(5), MOD_SHIFT));
    assert!(is_filter(Key::Char('f'), MOD_CONTROL));
    assert!(!is_filter(Key::Char('f'), MOD_ALT));
}

#[test]
fn movement_keys() {
    assert_eq!(nav_of(Key::Down, MOD_NONE), Some(Nav::Down));
    assert_eq!(nav_of(Key::PageUp, MOD_NONE), Some(Nav::PageUp));
    assert_eq!(nav_of(Key::End, MOD_NONE), Some(Nav::End));
    assert_eq!(nav_of(Key::Down, MOD_SHIFT), None);
    assert_eq!(nav_of(Key::Char('j'), MOD_NONE), None);
}

#[test]
fn list_screen_commands() {
    assert_eq!(list_command(Screen::Services, Key::Char(' '), MOD_NONE), ListCommand::Toggle);
    assert_eq!(list_command(Screen::Services, Key::Char('i'), MOD_NONE), ListCommand::Ignore);
    assert_eq!(list_command(Screen::Tasks, Key::Char('i'), MOD_NONE), ListCommand::Details);
    assert_eq!(list_command(Screen::Firewall, Key::Delete, MOD_NONE), ListCommand::Delete);
    assert_eq!(list_command(Screen::Firewall, Key::Char('8'), MOD_ALT), ListCommand::Delete);
    assert_eq!(list_command(Screen::Tasks, Key::F(8), MOD_NONE), ListCommand::Ignore);
    assert_eq!(list_command(Screen::Tasks, Key::Char('5'), MOD_ALT), ListCommand::Reload);
    assert_eq!(list_command(Screen::Services, Key::Char('5'), MOD_ALT), ListCommand::Reload);
    assert_eq!(list_command(Screen::Firewall, Key::Char('5'), MOD_ALT), ListCommand::Reload);
    assert_eq!(list_command(Screen::Tasks, Key::Home, MOD_NONE), ListCommand::Move(Nav::Home));
    assert_eq!(list_command(Screen::Firewall, Key::Char('f'), MOD_NONE), ListCommand::Filter);
    assert_eq!(list_command(Screen::Firewall, Key::Char('q'), MOD_NONE), ListCommand::Quit);
    assert_eq!(list_command(Screen::Services, Key::Char('h'), MOD_NONE), ListCommand::Help);
    assert_eq!(list_command(Screen::Services, Key::Char('r'), MOD_NONE), ListCommand::Reload);
}

#[test]
fn registry_editor_commands() {
    assert_eq!(regedit_command(Key::Char('g'), MOD_NONE), RegeditCommand::Goto);
    assert_eq!(regedit_command(Key::Enter, MOD_NONE), RegeditCommand::Enter);
    assert_eq!(regedit_command(Key::F(4), MOD_NONE), RegeditCommand::Edit);
    assert_eq!(regedit_command(Key::Char('6'), MOD_ALT), RegeditCommand::Rename);
    assert_eq!(regedit_command(Key::F(7), MOD_NONE), RegeditCommand::Create);
    assert_eq!(regedit_command(Key::Char('8'), MOD_ALT), RegeditCommand::Delete);
    assert_eq!(regedit_command(Key::Char('5'), MOD_ALT), RegeditCommand::Reload);
    assert_eq!(regedit_command(Key::Up, MOD_NONE), RegeditCommand::Move(Nav::Up));
    assert_eq!(regedit_command(Key::Char('x'), MOD_NONE), RegeditCommand::Ignore);
}

#[test]
fn simple_command_lines() {
    let args = |v: &[&str]| -> Vec<String> { v.iter().map(|s| s.to_string()).collect() };
    assert_eq!(parse_simple_args(&args(&[])), Ok(SimpleStart::Run));
    assert_eq!(parse_simple_args(&args(&["--help"])), Ok(SimpleStart::Help));
    assert_eq!(parse_simple_args(&args(&["/?", "x"])), Ok(SimpleStart::Help));
    assert_eq!(parse_simple_args(&args(&["-x", "--help"])), Err("-x".to_string()));
}
