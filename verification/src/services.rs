//! The services screen: its rows and the wait for a service to change state.
use vstd::prelude::*;
use crate::regedit::marker;
use crate::text::{chars_of, padded, push_padded, push_str, trim_chars, trimmed};

verus! {

/// State of a stopped service.
pub const SERVICE_STOPPED: u32 = 1;
/// State of a running service.
pub const SERVICE_RUNNING: u32 = 4;
/// Number of status checks made before giving up on a state change. The
/// checks are half a second apart, so a service that never reaches the new
/// state is waited for about 42 minutes.
pub const MAX_ATTEMPTS: u32 = 5000;

/// A service as listed.
#[derive(Debug)]
pub struct Service {
    /// The name shown.
    pub name: String,
    /// The service name used to open it, NUL-terminated UTF-16.
    pub internal_name: Vec<u16>,
    /// How the service starts.
    pub startup_type: u32,
    /// Whether it is running.
    pub is_running: bool,
}

/// How a service starts, in words.
pub open spec fn startup_name(t: u32) -> Seq<char> {
    if t == 0 {
        "Boot"@
    } else if t == 1 {
        "System"@
    } else if t == 2 {
        "Automatic"@
    } else if t == 3 {
        "Manual"@
    } else if t == 4 {
        "Disabled"@
    } else {
        "Unknown"@
    }
}

/// How a service starts, in words.
pub fn startup_name_exec(t: u32) -> (s: &'static str)
    ensures
        s@ == startup_name(t),
{
    if t == 0 {
        "Boot"
    } else if t == 1 {
        "System"
    } else if t == 2 {
        "Automatic"
    } else if t == 3 {
        "Manual"
    } else if t == 4 {
        "Disabled"
    } else {
        "Unknown"
    }
}

/// Width of the name column on a screen `width` wide: half of what is left
/// after the marker, the state column and the separators.
pub open spec fn name_width(width: int) -> int {
    (width - 14) / 2
}

/// Width of the second free column: the other half.
pub open spec fn second_width(width: int) -> int {
    (width - 14) - (width - 14) / 2
}

/// A row of the services list.
pub open spec fn service_row_text(
    name: Seq<char>,
    running: bool,
    startup: u32,
    selected: bool,
    width: int,
) -> Seq<char> {
    let w = name_width(width);
    seq![marker(selected), ' '] + padded(trimmed(name, w), w) + seq![' '] + padded(
        if running {
            "Running"@
        } else {
            Seq::empty()
        },
        10,
    ) + seq![' '] + startup_name(startup)
}

/// A row of the services list on a screen `width` wide.
pub fn service_row(s: &Service, selected: bool, width: usize) -> (res: Vec<char>)
    requires
        width >= 26,
    ensures
        res@ == service_row_text(s.name@, s.is_running, s.startup_type, selected, width as int),
{
    let w = (width - 14) / 2;
    let mut v: Vec<char> = Vec::new();
    v.push(if selected { '>' } else { ' ' });
    v.push(' ');
    let name = chars_of(s.name.as_str());
    let t = trim_chars(&name, w);
    push_padded(&mut v, &t, w);
    v.push(' ');
    let state: Vec<char> = if s.is_running {
        chars_of("Running")
    } else {
        Vec::new()
    };
    push_padded(&mut v, &state, 10);
    v.push(' ');
    push_str(&mut v, startup_name_exec(s.startup_type));
    assert(v@ =~= service_row_text(s.name@, s.is_running, s.startup_type, selected, width as int));
    v
}

/// The rows of the services list for the shown entries, the one at position
/// `selected` marked.
pub fn service_rows(services: &Vec<Service>, shown: &Vec<usize>, selected: usize, width: usize) -> (res:
    Vec<Vec<char>>)
    requires
        width >= 26,
        forall|k: int| 0 <= k < shown@.len() ==> #[trigger] shown@[k] < services@.len(),
    ensures
        res@.len() == shown@.len(),
        forall|k: int|
            0 <= k < shown@.len() ==> #[trigger] res@[k]@ == service_row_text(
                services@[shown@[k] as int].name@,
                services@[shown@[k] as int].is_running,
                services@[shown@[k] as int].startup_type,
                k == selected,
                width as int,
            ),
{
    let mut res: Vec<Vec<char>> = Vec::new();
    let mut k: usize = 0;
    while k < shown.len()
        invariant
            k <= shown.len(),
            width >= 26,
            res@.len() == k,
            forall|j: int| 0 <= j < shown@.len() ==> #[trigger] shown@[j] < services@.len(),
            forall|j: int|
                0 <= j < k ==> #[trigger] res@[j]@ == service_row_text(
                    services@[shown@[j] as int].name@,
                    services@[shown@[j] as int].is_running,
                    services@[shown@[j] as int].startup_type,
                    j == selected,
                    width as int,
                ),
        decreases shown.len() - k,
    {
        let line = service_row(&services[shown[k]], k == selected, width);
        res.push(line);
        k = k + 1;
    }
    res
}

/// What to do after checking the state of a service that was started or
/// stopped.
#[derive(Clone, Copy, Debug, PartialEq, Eq, Structural)]
pub enum WaitStep {
    /// The service reached the new state.
    Done,
    /// Too many checks: stop waiting.
    GiveUp,
    /// Check again later; this many checks were made.
    Again(u32),
}

/// The next step of the wait after the `attempts`-th unsuccessful checks
/// and a check that found `state`: a service that was running is done once
/// stopped, one that was stopped once running.
pub open spec fn wait_step_of(was_running: bool, state: u32, attempts: u32) -> WaitStep {
    if (was_running && state == SERVICE_STOPPED) || (!was_running && state == SERVICE_RUNNING) {
        WaitStep::Done
    } else if attempts + 1 >= MAX_ATTEMPTS {
        WaitStep::GiveUp
    } else {
        WaitStep::Again((attempts + 1) as u32)
    }
}

/// The next step of the wait for a service to change state.
pub fn wait_step(was_running: bool, state: u32, attempts: u32) -> (s: WaitStep)
    requires
        attempts < MAX_ATTEMPTS,
    ensures
        s == wait_step_of(was_running, state, attempts),
{
    if (was_running && state == SERVICE_STOPPED) || (!was_running && state == SERVICE_RUNNING) {
        WaitStep::Done
    } else if attempts + 1 >= MAX_ATTEMPTS {
        WaitStep::GiveUp
    } else {
        WaitStep::Again(attempts + 1)
    }
}

/// The wait ends: every step either ends it or counts one more check, and
/// no more than `MAX_ATTEMPTS` checks are made.
pub proof fn lemma_wait_ends(was_running: bool, state: u32, attempts: u32)
    requires
        attempts < MAX_ATTEMPTS,
    ensures
        wait_step_of(was_running, state, attempts) matches WaitStep::Again(a) ==> a == attempts + 1
            && a < MAX_ATTEMPTS,
{
}

} // verus!
