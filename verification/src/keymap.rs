//! Keys shared by the list screens: leaving, help, reloading, moving and
//! filtering.
use vstd::prelude::*;
use crate::keys::{Key, MOD_ALT, MOD_CONTROL, MOD_NONE};
use crate::listview::Nav;
use crate::regedit::str_equal;

verus! {

/// q, Esc, F10, Alt-0 or Ctrl-C: leave the program.
pub open spec fn quit_key(key: Key, mods: u8) -> bool {
    key == Key::Char('q') || key == Key::Esc || key == Key::F(10) || (key == Key::Char('0')
        && mods == MOD_ALT) || (key == Key::Char('c') && mods == MOD_CONTROL)
}

/// ?, h, F1 or Alt-1: show the help text.
pub open spec fn help_key(key: Key, mods: u8) -> bool {
    key == Key::Char('?') || key == Key::Char('h') || key == Key::F(1) || (key == Key::Char('1')
        && mods == MOD_ALT)
}

/// F5, Alt-5, r or Ctrl-R: load the list again.
pub open spec fn reload_key(key: Key, mods: u8) -> bool {
    (key == Key::F(5) && mods == MOD_NONE) || (key == Key::Char('5') && mods == MOD_ALT)
        || (key == Key::Char('r') && mods == MOD_NONE) || (key == Key::Char('r') && mods
        == MOD_CONTROL)
}

/// f or Ctrl-F: type a filter.
pub open spec fn filter_key(key: Key, mods: u8) -> bool {
    (key == Key::Char('f') && mods == MOD_NONE) || (key == Key::Char('f') && mods == MOD_CONTROL)
}

/// The movement for an arrow, page or Home/End key pressed alone.
pub open spec fn nav_key(key: Key, mods: u8) -> Option<Nav> {
    if mods != MOD_NONE {
        None
    } else {
        match key {
            Key::Down => Some(Nav::Down),
            Key::Up => Some(Nav::Up),
            Key::PageDown => Some(Nav::PageDown),
            Key::PageUp => Some(Nav::PageUp),
            Key::Home => Some(Nav::Home),
            Key::End => Some(Nav::End),
            _ => None,
        }
    }
}

/// Whether the key leaves the program.
pub fn is_quit(key: Key, mods: u8) -> (b: bool)
    ensures
        b == quit_key(key, mods),
{
    match key {
        Key::Char(c) => c == 'q' || (c == '0' && mods == MOD_ALT) || (c == 'c' && mods
            == MOD_CONTROL),
        Key::Esc => true,
        Key::F(n) => n == 10,
        _ => false,
    }
}

/// Whether the key shows the help text.
pub fn is_help(key: Key, mods: u8) -> (b: bool)
    ensures
        b == help_key(key, mods),
{
    match key {
        Key::Char(c) => c == '?' || c == 'h' || (c == '1' && mods == MOD_ALT),
        Key::F(n) => n == 1,
        _ => false,
    }
}

/// Whether the key reloads the list.
pub fn is_reload(key: Key, mods: u8) -> (b: bool)
    ensures
        b == reload_key(key, mods),
{
    match key {
        Key::F(n) => n == 5 && mods == MOD_NONE,
        Key::Char(c) => (c == '5' && mods == MOD_ALT) || (c == 'r' && (mods == MOD_NONE
            || mods == MOD_CONTROL)),
        _ => false,
    }
}

/// Whether the key asks for a filter.
pub fn is_filter(key: Key, mods: u8) -> (b: bool)
    ensures
        b == filter_key(key, mods),
{
    match key {
        Key::Char(c) => c == 'f' && (mods == MOD_NONE || mods == MOD_CONTROL),
        _ => false,
    }
}

/// The movement that the key asks for, if any.
pub fn nav_of(key: Key, mods: u8) -> (n: Option<Nav>)
    ensures
        n == nav_key(key, mods),
{
    if mods != MOD_NONE {
        return None;
    }
    match key {
        Key::Down => Some(Nav::Down),
        Key::Up => Some(Nav::Up),
        Key::PageDown => Some(Nav::PageDown),
        Key::PageUp => Some(Nav::PageUp),
        Key::Home => Some(Nav::Home),
        Key::End => Some(Nav::End),
        _ => None,
    }
}

/// The keys that leave, the keys that show help and the keys that reload are
/// distinct.
pub proof fn lemma_command_keys_distinct(key: Key, mods: u8)
    ensures
        !(quit_key(key, mods) && help_key(key, mods)),
        !(quit_key(key, mods) && reload_key(key, mods)),
        !(help_key(key, mods) && reload_key(key, mods)),
        !(filter_key(key, mods) && (quit_key(key, mods) || help_key(key, mods) || reload_key(key, mods))),
        nav_key(key, mods) is Some ==> !(quit_key(key, mods) || help_key(key, mods) || reload_key(key, mods) || filter_key(key, mods)),
{
}


/// The list screens other than the registry editor.
#[derive(Clone, Copy, Debug, PartialEq, Eq, Structural)]
pub enum Screen {
    Services,
    Tasks,
    Firewall,
}

/// The commands of the services, tasks and firewall screens.
#[derive(Clone, Copy, Debug, PartialEq, Eq, Structural)]
pub enum ListCommand {
    Quit,
    Help,
    Reload,
    Move(Nav),
    /// Start or stop, enable or disable the selected entry.
    Toggle,
    /// Show the details of the selected task.
    Details,
    /// Delete the selected firewall rule.
    Delete,
    Filter,
    Ignore,
}

/// The command of a key on a list screen: the common keys, Space to toggle,
/// `i` for task details, F8, Delete or Alt-8 to delete a firewall rule.
pub open spec fn list_command_of(screen: Screen, key: Key, mods: u8) -> ListCommand {
    if quit_key(key, mods) {
        ListCommand::Quit
    } else if help_key(key, mods) {
        ListCommand::Help
    } else if reload_key(key, mods) {
        ListCommand::Reload
    } else if nav_key(key, mods) is Some {
        ListCommand::Move(nav_key(key, mods)->0)
    } else if key == Key::Char(' ') && mods == MOD_NONE {
        ListCommand::Toggle
    } else if screen == Screen::Tasks && key == Key::Char('i') && mods == MOD_NONE {
        ListCommand::Details
    } else if screen == Screen::Firewall && ((key == Key::F(8) && mods == MOD_NONE) || (key
        == Key::Delete && mods == MOD_NONE) || (key == Key::Char('8') && mods == MOD_ALT)) {
        ListCommand::Delete
    } else if filter_key(key, mods) {
        ListCommand::Filter
    } else {
        ListCommand::Ignore
    }
}

/// The command of a key on a list screen.
pub fn list_command(screen: Screen, key: Key, mods: u8) -> (c: ListCommand)
    ensures
        c == list_command_of(screen, key, mods),
{
    if is_quit(key, mods) {
        return ListCommand::Quit;
    }
    if is_help(key, mods) {
        return ListCommand::Help;
    }
    if is_reload(key, mods) {
        return ListCommand::Reload;
    }
    if let Some(n) = nav_of(key, mods) {
        return ListCommand::Move(n);
    }
    if key == Key::Char(' ') && mods == MOD_NONE {
        return ListCommand::Toggle;
    }
    if screen == Screen::Tasks && key == Key::Char('i') && mods == MOD_NONE {
        return ListCommand::Details;
    }
    if screen == Screen::Firewall && ((key == Key::F(8) && mods == MOD_NONE) || (key == Key::Delete
        && mods == MOD_NONE) || (key == Key::Char('8') && mods == MOD_ALT)) {
        return ListCommand::Delete;
    }
    if is_filter(key, mods) {
        return ListCommand::Filter;
    }
    ListCommand::Ignore
}

/// How a program that only knows `--help` was started.
#[derive(Clone, Copy, Debug, PartialEq, Eq, Structural)]
pub enum SimpleStart {
    Help,
    Run,
}

/// The outcome of the command line of a program that only knows `--help`:
/// help at the first help argument, refusal at the first other argument.
pub open spec fn simple_args_of(args: Seq<Seq<char>>) -> Result<SimpleStart, Seq<char>>
    decreases args.len(),
{
    if args.len() == 0 {
        Ok(SimpleStart::Run)
    } else if crate::regedit::is_help_arg(args[0]) {
        Ok(SimpleStart::Help)
    } else {
        Err(args[0])
    }
}

/// Reads the command line (without the program name) of the services, tasks
/// and firewall programs; an argument that is refused is returned.
pub fn parse_simple_args(args: &Vec<String>) -> (res: Result<SimpleStart, String>)
    ensures
        match res {
            Ok(s) => simple_args_of(args@.map_values(|a: String| a@)) == Ok::<SimpleStart, Seq<char>>(s),
            Err(a) => simple_args_of(args@.map_values(|a: String| a@)) == Err::<SimpleStart, Seq<char>>(a@),
        },
{
    if args.len() == 0 {
        return Ok(SimpleStart::Run);
    }
    let a = args[0].as_str();
    assert(args@.map_values(|a: String| a@)[0] == a@);
    if str_equal(a, "--help") || str_equal(a, "-h") || str_equal(a, "?") || str_equal(a, "/?") {
        Ok(SimpleStart::Help)
    } else {
        Err(String::from_str(a))
    }
}

} // verus!
