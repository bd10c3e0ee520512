//! The scheduled tasks screen: its rows, the folder paths of tasks, and the
//! details shown for one task.
use vstd::prelude::*;
use crate::regedit::marker;
use crate::services::{name_width, second_width};
use crate::text::{
    chars_of, decimal_zero_padded, hex_digits, padded, push_all, push_decimal_zero_padded,
    push_hex, push_padded, push_signed_decimal, push_str, signed_decimal, string_from_chars,
    trim_chars, trimmed,
};
use crate::regvalue::{trim_white, trim_white_exec};

verus! {

/// A scheduled task as listed.
#[derive(Debug)]
pub struct TaskEntry {
    pub name: String,
    /// The folder of the task, such as `\Microsoft\Windows\`.
    pub path: String,
    pub enabled: bool,
}

/// `s` with every backslash written as a slash.
pub open spec fn slashed(s: Seq<char>) -> Seq<char> {
    Seq::new(s.len(), |i: int| if s[i] == '\\' { '/' } else { s[i] })
}

/// A row of the task list: marker, name, whether enabled, folder (with
/// slashes).
pub open spec fn task_row_text(name: Seq<char>, path: Seq<char>, enabled: bool, selected: bool, width: int) -> Seq<
    char,
> {
    let w = name_width(width);
    let p = second_width(width);
    seq![marker(selected), ' '] + padded(trimmed(name, w), w) + seq![' '] + padded(
        if enabled {
            "Enabled"@
        } else {
            "Disabled"@
        },
        10,
    ) + seq![' '] + padded(slashed(trimmed(path, p)), p)
}

/// A row of the task list on a screen `width` wide.
pub fn task_row(t: &TaskEntry, selected: bool, width: usize) -> (res: Vec<char>)
    requires
        width >= 26,
    ensures
        res@ == task_row_text(t.name@, t.path@, t.enabled, selected, width as int),
{
    let rem = width - 14;
    let w = rem / 2;
    let p = rem - w;
    let mut v: Vec<char> = Vec::new();
    v.push(if selected { '>' } else { ' ' });
    v.push(' ');
    let name = chars_of(t.name.as_str());
    let tn = trim_chars(&name, w);
    push_padded(&mut v, &tn, w);
    v.push(' ');
    let state = chars_of(if t.enabled { "Enabled" } else { "Disabled" });
    push_padded(&mut v, &state, 10);
    v.push(' ');
    let path = chars_of(t.path.as_str());
    let mut tp = trim_chars(&path, p);
    let ghost before = tp@;
    let mut i: usize = 0;
    while i < tp.len()
        invariant
            i <= tp.len() == before.len(),
            forall|k: int| 0 <= k < i ==> tp@[k] == (if before[k] == '\\' { '/' } else { before[k] }),
            forall|k: int| i <= k < tp.len() ==> tp@[k] == before[k],
        decreases tp.len() - i,
    {
        if tp[i] == '\\' {
            tp.set(i, '/');
        }
        i = i + 1;
    }
    assert(tp@ =~= slashed(before));
    push_padded(&mut v, &tp, p);
    assert(v@ =~= task_row_text(t.name@, t.path@, t.enabled, selected, width as int));
    v
}

/// The rows of the task list for the shown tasks, the one at position
/// `selected` marked.
pub fn task_rows(tasks: &Vec<TaskEntry>, shown: &Vec<usize>, selected: usize, width: usize) -> (res: Vec<
    Vec<char>,
>)
    requires
        width >= 26,
        forall|k: int| 0 <= k < shown@.len() ==> #[trigger] shown@[k] < tasks@.len(),
    ensures
        res@.len() == shown@.len(),
        forall|k: int|
            0 <= k < shown@.len() ==> #[trigger] res@[k]@ == task_row_text(
                tasks@[shown@[k] as int].name@,
                tasks@[shown@[k] as int].path@,
                tasks@[shown@[k] as int].enabled,
                k == selected,
                width as int,
            ),
{
    let mut res: Vec<Vec<char>> = Vec::new();
    let mut k: usize = 0;
    while k < shown.len()
        invariant
            k <= shown.len(),
            width >= 26,
            res@.len() == k,
            forall|j: int| 0 <= j < shown@.len() ==> #[trigger] shown@[j] < tasks@.len(),
            forall|j: int|
                0 <= j < k ==> #[trigger] res@[j]@ == task_row_text(
                    tasks@[shown@[j] as int].name@,
                    tasks@[shown@[j] as int].path@,
                    tasks@[shown@[j] as int].enabled,
                    j == selected,
                    width as int,
                ),
        decreases shown.len() - k,
    {
        let line = task_row(&tasks[shown[k]], k == selected, width);
        res.push(line);
        k = k + 1;
    }
    res
}

/// The folder path of subfolder `name` of folder `path`: the name and a
/// backslash appended.
pub fn subfolder_path(path: &str, name: &str) -> (res: String)
    ensures
        res@ == path@ + name@ + seq!['\\'],
{
    let mut v = chars_of(path);
    let n = chars_of(name);
    push_all(&mut v, &n);
    v.push('\\');
    string_from_chars(&v)
}

/// A date and time as the task scheduler gives it.
#[derive(Debug)]
pub struct SystemTime {
    pub year: u16,
    pub month: u16,
    pub day: u16,
    pub hour: u16,
    pub minute: u16,
    pub second: u16,
}

/// `YYYY-MM-DD hh:mm:ss`, each field zero-padded to its width.
pub open spec fn systemtime_text(st: SystemTime) -> Seq<char> {
    decimal_zero_padded(st.year as nat, 4) + seq!['-'] + decimal_zero_padded(st.month as nat, 2)
        + seq!['-'] + decimal_zero_padded(st.day as nat, 2) + seq![' '] + decimal_zero_padded(
        st.hour as nat,
        2,
    ) + seq![':'] + decimal_zero_padded(st.minute as nat, 2) + seq![':'] + decimal_zero_padded(
        st.second as nat,
        2,
    )
}

/// A date and time as `YYYY-MM-DD hh:mm:ss`.
pub fn format_systemtime(st: &SystemTime) -> (res: String)
    ensures
        res@ == systemtime_text(*st),
{
    let mut v: Vec<char> = Vec::new();
    push_decimal_zero_padded(&mut v, st.year as u64, 4);
    v.push('-');
    push_decimal_zero_padded(&mut v, st.month as u64, 2);
    v.push('-');
    push_decimal_zero_padded(&mut v, st.day as u64, 2);
    v.push(' ');
    push_decimal_zero_padded(&mut v, st.hour as u64, 2);
    v.push(':');
    push_decimal_zero_padded(&mut v, st.minute as u64, 2);
    v.push(':');
    push_decimal_zero_padded(&mut v, st.second as u64, 2);
    assert(v@ =~= systemtime_text(*st));
    string_from_chars(&v)
}

/// The kind of a trigger, in words.
pub open spec fn trigger_type_name(t: i32) -> Seq<char> {
    if t == 0 {
        "Event"@
    } else if t == 1 {
        "Time"@
    } else if t == 2 {
        "Daily"@
    } else if t == 3 {
        "Weekly"@
    } else if t == 4 {
        "Monthly"@
    } else if t == 5 {
        "Monthly Day-of-Week"@
    } else if t == 6 {
        "Idle"@
    } else if t == 7 {
        "Registration"@
    } else if t == 8 {
        "Boot"@
    } else if t == 9 {
        "Logon"@
    } else if t == 11 {
        "Session State Change"@
    } else {
        "Unknown"@
    }
}

/// The kind of a trigger, in words.
pub fn trigger_type_name_exec(t: i32) -> (s: &'static str)
    ensures
        s@ == trigger_type_name(t),
{
    if t == 0 {
        "Event"
    } else if t == 1 {
        "Time"
    } else if t == 2 {
        "Daily"
    } else if t == 3 {
        "Weekly"
    } else if t == 4 {
        "Monthly"
    } else if t == 5 {
        "Monthly Day-of-Week"
    } else if t == 6 {
        "Idle"
    } else if t == 7 {
        "Registration"
    } else if t == 8 {
        "Boot"
    } else if t == 9 {
        "Logon"
    } else if t == 11 {
        "Session State Change"
    } else {
        "Unknown"
    }
}


/// A trigger of a task: its kind and its start and end (each `None` where
/// it could not be read).
#[derive(Debug)]
pub struct TriggerInfo {
    pub kind: Option<i32>,
    pub start: Option<String>,
    pub end: Option<String>,
}

/// An action of a task.
#[derive(Debug)]
pub enum ActionInfo {
    /// Runs a program; a part that could not be read is empty.
    Exec { program: String, arguments: String, working_dir: String },
    /// Another kind of action.
    Other,
}

/// The triggers or actions of a task, as far as they could be read.
#[derive(Debug)]
pub enum Items<T> {
    /// The collection could not be queried (the error text).
    Unavailable(String),
    /// Its size could not be read (the error text).
    CountFailed(String),
    /// Its size, and each item (`None` where the item could not be read).
    Counted(i32, Vec<Option<T>>),
}

/// The definition of a task, as far as it could be read.
#[derive(Debug)]
pub struct DefinitionInfo {
    /// Author and description, or the error text.
    pub registration: Result<(Option<String>, Option<String>), String>,
    pub triggers: Items<TriggerInfo>,
    pub actions: Items<ActionInfo>,
}

/// What is shown about a task, as far as it could be read.
#[derive(Debug)]
pub struct TaskDetails {
    pub name: Option<String>,
    pub location: Option<String>,
    pub enabled: Option<bool>,
    /// The definition, or the error text.
    pub definition: Result<DefinitionInfo, String>,
    pub next_run: SystemTime,
    /// The system message and the code of the last result, or the error
    /// text.
    pub last_result: Result<(String, i32), String>,
}

/// The text of a string that may be missing.
pub open spec fn text_or(o: Option<String>, default: Seq<char>) -> Seq<char> {
    match o {
        Some(s) => s@,
        None => default,
    }
}

/// The kind of a trigger in words; "Unknown" where it could not be read.
pub open spec fn kind_text(kind: Option<i32>) -> Seq<char> {
    match kind {
        Some(t) => trigger_type_name(t),
        None => "Unknown"@,
    }
}

/// The lines about one trigger.
pub open spec fn trigger_text(t: TriggerInfo) -> Seq<char> {
    " Trigger type:   "@ + kind_text(t.kind) + "\n"@ + " StartBoundary:  "@ + text_or(
        t.start,
        "N/A"@,
    ) + "\n"@ + " EndBoundary:    "@ + text_or(t.end, "N/A"@) + "\n"@
}

/// The lines about one action.
pub open spec fn action_text(a: ActionInfo) -> Seq<char> {
    match a {
        ActionInfo::Exec { program, arguments, working_dir } => " Exec Action:\n   Program:      "@
            + program@ + "\n   Arguments:    "@ + arguments@ + "\n   WorkingDir:   "@ + working_dir@
            + "\n"@,
        ActionInfo::Other => "Non-exec action (unsupported)\n"@,
    }
}

/// The line for an item that could not be read.
pub open spec fn missing_item_text(i: int) -> Seq<char> {
    "Unable to get item:   "@ + signed_decimal(i) + "\n"@
}

/// The lines about the first `k` triggers.
pub open spec fn triggers_text(v: Seq<Option<TriggerInfo>>, k: int) -> Seq<char>
    decreases k,
{
    if k <= 0 {
        Seq::empty()
    } else {
        triggers_text(v, k - 1) + match v[k - 1] {
            Some(t) => trigger_text(t),
            None => missing_item_text(k),
        }
    }
}

/// The lines about the first `k` actions.
pub open spec fn actions_text(v: Seq<Option<ActionInfo>>, k: int) -> Seq<char>
    decreases k,
{
    if k <= 0 {
        Seq::empty()
    } else {
        actions_text(v, k - 1) + match v[k - 1] {
            Some(a) => action_text(a),
            None => missing_item_text(k),
        }
    }
}

/// The items hold one entry for each of the counted items.
pub open spec fn items_complete<T>(items: Items<T>) -> bool {
    match items {
        Items::Counted(c, v) => v@.len() == (if c > 0 {
            c as int
        } else {
            0
        }),
        _ => true,
    }
}

/// The lines about the triggers.
pub open spec fn trigger_section(items: Items<TriggerInfo>) -> Seq<char> {
    match items {
        Items::Unavailable(e) => "Unable to query triggers:   "@ + e@ + "\n"@,
        Items::CountFailed(e) => "Trigger count:   "@ + e@ + "\n"@,
        Items::Counted(c, v) => "Trigger count:   "@ + signed_decimal(c as int) + "\n"@
            + triggers_text(v@, v@.len() as int),
    }
}

/// The lines about the actions.
pub open spec fn action_section(items: Items<ActionInfo>) -> Seq<char> {
    match items {
        Items::Unavailable(e) => "Unable to query actions ("@ + e@ + ")\n"@,
        Items::CountFailed(e) => "Actions count:   "@ + e@ + "\n"@,
        Items::Counted(c, v) => "Action count:    "@ + signed_decimal(c as int) + "\n"@
            + actions_text(v@, v@.len() as int),
    }
}

/// The lines about the definition of a task.
pub open spec fn definition_text(d: Result<DefinitionInfo, String>) -> Seq<char> {
    match d {
        Err(e) => "Unable to query task definition ("@ + e@ + ")\n"@,
        Ok(def) => (match def.registration {
            Err(e) => "Unable to query task registrationinfo ("@ + e@ + ")\n"@,
            Ok((author, description)) => "Author:          "@ + text_or(author, "N/A"@) + "\n"@
                + "Description:     "@ + text_or(description, "N/A"@) + "\n"@,
        }) + trigger_section(def.triggers) + action_section(def.actions),
    }
}

/// The text shown about a task: name, location, status, the definition
/// (author, description, triggers, actions), next run and last result (the
/// system message without surrounding white space, and the code as eight
/// hexadecimal digits).
pub open spec fn details_text(d: TaskDetails) -> Seq<char> {
    "Name:            "@ + text_or(d.name, "<unknown>"@) + "\n"@ + "Location:        "@ + text_or(
        d.location,
        "<unknown>"@,
    ) + "\n"@ + "Status:          "@ + (match d.enabled {
        Some(true) => "Enabled"@,
        Some(false) => "Disabled"@,
        None => "<unknown>"@,
    }) + "\n"@ + definition_text(d.definition) + "Next run:        "@ + systemtime_text(d.next_run)
        + "\n"@ + match d.last_result {
        Ok((msg, code)) => "Last result:     "@ + trim_white(msg@) + " (0x"@ + hex_digits(
            (if code < 0 {
                code + 0x1_0000_0000
            } else {
                code as int
            }) as nat,
            8,
        ) + ")\n"@,
        Err(e) => "Last result:     "@ + e@ + "\n"@,
    }
}

fn push_text_or(v: &mut Vec<char>, o: &Option<String>, default: &str)
    ensures
        final(v)@ == old(v)@ + text_or(*o, default@),
{
    match o {
        Some(s) => push_str(v, s.as_str()),
        None => push_str(v, default),
    }
}

fn push_trigger_section(v: &mut Vec<char>, items: &Items<TriggerInfo>)
    requires
        items_complete(*items),
    ensures
        final(v)@ == old(v)@ + trigger_section(*items),
{
    match items {
        Items::Unavailable(e) => {
            push_str(v, "Unable to query triggers:   ");
            push_str(v, e.as_str());
            push_str(v, "\n");
        },
        Items::CountFailed(e) => {
            push_str(v, "Trigger count:   ");
            push_str(v, e.as_str());
            push_str(v, "\n");
        },
        Items::Counted(c, list) => {
            push_str(v, "Trigger count:   ");
            push_signed_decimal(v, *c);
            push_str(v, "\n");
            let ghost head = v@;
            let mut i: usize = 0;
            while i < list.len()
                invariant
                    i <= list.len() <= i32::MAX,
                    v@ == head + triggers_text(list@, i as int),
                decreases list.len() - i,
            {
                match &list[i] {
                    Some(t) => {
                        push_str(v, " Trigger type:   ");
                        match t.kind {
                            Some(k) => push_str(v, trigger_type_name_exec(k)),
                            None => push_str(v, "Unknown"),
                        }
                        push_str(v, "\n");
                        push_str(v, " StartBoundary:  ");
                        push_text_or(v, &t.start, "N/A");
                        push_str(v, "\n");
                        push_str(v, " EndBoundary:    ");
                        push_text_or(v, &t.end, "N/A");
                        push_str(v, "\n");
                    },
                    None => {
                        push_str(v, "Unable to get item:   ");
                        push_signed_decimal(v, (i + 1) as i32);
                        push_str(v, "\n");
                    },
                }
                i = i + 1;
                assert(v@ =~= head + triggers_text(list@, i as int));
            }
        },
    }
    assert(v@ =~= old(v)@ + trigger_section(*items));
}

fn push_action_section(v: &mut Vec<char>, items: &Items<ActionInfo>)
    requires
        items_complete(*items),
    ensures
        final(v)@ == old(v)@ + action_section(*items),
{
    match items {
        Items::Unavailable(e) => {
            push_str(v, "Unable to query actions (");
            push_str(v, e.as_str());
            push_str(v, ")\n");
        },
        Items::CountFailed(e) => {
            push_str(v, "Actions count:   ");
            push_str(v, e.as_str());
            push_str(v, "\n");
        },
        Items::Counted(c, list) => {
            push_str(v, "Action count:    ");
            push_signed_decimal(v, *c);
            push_str(v, "\n");
            let ghost head = v@;
            let mut i: usize = 0;
            while i < list.len()
                invariant
                    i <= list.len() <= i32::MAX,
                    v@ == head + actions_text(list@, i as int),
                decreases list.len() - i,
            {
                match &list[i] {
                    Some(ActionInfo::Exec { program, arguments, working_dir }) => {
                        push_str(v, " Exec Action:\n   Program:      ");
                        push_str(v, program.as_str());
                        push_str(v, "\n   Arguments:    ");
                        push_str(v, arguments.as_str());
                        push_str(v, "\n   WorkingDir:   ");
                        push_str(v, working_dir.as_str());
                        push_str(v, "\n");
                    },
                    Some(ActionInfo::Other) => {
                        push_str(v, "Non-exec action (unsupported)\n");
                    },
                    None => {
                        push_str(v, "Unable to get item:   ");
                        push_signed_decimal(v, (i + 1) as i32);
                        push_str(v, "\n");
                    },
                }
                i = i + 1;
                assert(v@ =~= head + actions_text(list@, i as int));
            }
        },
    }
    assert(v@ =~= old(v)@ + action_section(*items));
}

fn push_head(v: &mut Vec<char>, d: &TaskDetails)
    ensures
        final(v)@ == old(v)@ + "Name:            "@ + text_or(d.name, "<unknown>"@) + "\n"@
            + "Location:        "@ + text_or(d.location, "<unknown>"@) + "\n"@
            + "Status:          "@ + (match d.enabled {
            Some(true) => "Enabled"@,
            Some(false) => "Disabled"@,
            None => "<unknown>"@,
        }) + "\n"@,
{
    push_str(v, "Name:            ");
    push_text_or(v, &d.name, "<unknown>");
    push_str(v, "\n");
    push_str(v, "Location:        ");
    push_text_or(v, &d.location, "<unknown>");
    push_str(v, "\n");
    push_str(v, "Status:          ");
    match d.enabled {
        Some(true) => push_str(v, "Enabled"),
        Some(false) => push_str(v, "Disabled"),
        None => push_str(v, "<unknown>"),
    }
    push_str(v, "\n");
}

fn push_definition(v: &mut Vec<char>, d: &Result<DefinitionInfo, String>)
    requires
        d matches Ok(def) ==> items_complete(def.triggers) && items_complete(def.actions),
    ensures
        final(v)@ == old(v)@ + definition_text(*d),
{
    match d {
        Err(e) => {
            push_str(v, "Unable to query task definition (");
            push_str(v, e.as_str());
            push_str(v, ")\n");
        },
        Ok(def) => {
            match &def.registration {
                Err(e) => {
                    push_str(v, "Unable to query task registrationinfo (");
                    push_str(v, e.as_str());
                    push_str(v, ")\n");
                },
                Ok((author, description)) => {
                    push_str(v, "Author:          ");
                    push_text_or(v, author, "N/A");
                    push_str(v, "\n");
                    push_str(v, "Description:     ");
                    push_text_or(v, description, "N/A");
                    push_str(v, "\n");
                },
            }
            push_trigger_section(v, &def.triggers);
            push_action_section(v, &def.actions);
        },
    }
    assert(v@ =~= old(v)@ + definition_text(*d));
}

fn push_tail(v: &mut Vec<char>, d: &TaskDetails)
    ensures
        final(v)@ == old(v)@ + "Next run:        "@ + systemtime_text(d.next_run) + "\n"@
            + match d.last_result {
            Ok((msg, code)) => "Last result:     "@ + trim_white(msg@) + " (0x"@ + hex_digits(
                (if code < 0 {
                    code + 0x1_0000_0000
                } else {
                    code as int
                }) as nat,
                8,
            ) + ")\n"@,
            Err(e) => "Last result:     "@ + e@ + "\n"@,
        },
{
    push_str(v, "Next run:        ");
    let t = format_systemtime(&d.next_run);
    push_str(v, t.as_str());
    push_str(v, "\n");
    match &d.last_result {
        Ok((msg, code)) => {
            push_str(v, "Last result:     ");
            let m = chars_of(msg.as_str());
            let tm = trim_white_exec(&m);
            push_all(v, &tm);
            push_str(v, " (0x");
            let bits: u64 = if *code < 0 {
                (*code as i64 + 0x1_0000_0000i64) as u64
            } else {
                *code as u64
            };
            push_hex(v, bits, 8);
            push_str(v, ")\n");
        },
        Err(e) => {
            push_str(v, "Last result:     ");
            push_str(v, e.as_str());
            push_str(v, "\n");
        },
    }
}

/// The text shown about a task.
pub fn task_details_message(d: &TaskDetails) -> (res: String)
    requires
        d.definition matches Ok(def) ==> items_complete(def.triggers) && items_complete(
            def.actions,
        ),
    ensures
        res@ == details_text(*d),
{
    let mut v: Vec<char> = Vec::new();
    push_head(&mut v, d);
    push_definition(&mut v, &d.definition);
    push_tail(&mut v, d);
    assert(v@ =~= details_text(*d));
    string_from_chars(&v)
}

} // verus!
