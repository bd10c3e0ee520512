//! The registry editor screen: its rows, how they are shown, and what its
//! keys, menus and command line mean.
use vstd::prelude::*;
use crate::keys::{Key, MOD_ALT, MOD_NONE};
use crate::keymap::{
    filter_key, help_key, is_filter, is_help, is_quit, is_reload, nav_key, nav_of, quit_key,
    reload_key,
};
use crate::listview::Nav;
use crate::regpath::{child_of, child_path, parent_of, parent_path, parse_path, parsed_path, HiveId};
use crate::regvalue::{
    decode_utf16_lossy, display_value, displayed_value, utf16_decode, REG_BINARY, REG_DWORD,
    REG_DWORD_BIG_ENDIAN, REG_EXPAND_SZ, REG_MULTI_SZ, REG_NONE, REG_QWORD, REG_SZ,
};
use crate::text::{
    chars_of, padded, push_all, push_padded, push_str, string_from_chars, trim_chars, trimmed,
    utf8_len, utf8_len_of,
};

verus! {

/// What a row of the registry list stands for.
#[derive(Clone, Copy, Debug, PartialEq, Eq, Structural)]
pub enum RowKind {
    /// The `..` row: the parent key.
    Up,
    /// A subkey.
    Key,
    /// A value of the given type.
    Value(u32),
}

/// A row of the registry list.
#[derive(Debug)]
pub struct RegistryRow {
    pub name: String,
    pub value_display: String,
    pub kind: RowKind,
}

/// A value as read from the registry: its name in UTF-16, its type and its
/// data.
#[derive(Debug)]
pub struct RawValue {
    pub name: Vec<u16>,
    pub kind: u32,
    pub data: Vec<u8>,
}

/// A row as (name, shown value, kind).
pub type RowView = (Seq<char>, Seq<char>, RowKind);

/// The rows as (name, shown value, kind) triples.
pub open spec fn rows_view(rows: Seq<RegistryRow>) -> Seq<RowView> {
    rows.map_values(|r: RegistryRow| (r.name@, r.value_display@, r.kind))
}

/// The rows of a key: `..`, then its subkeys, then its values with their
/// data as shown.
pub open spec fn key_rows(subkeys: Seq<Seq<u16>>, values: Seq<RawValue>) -> Seq<RowView> {
    seq![(".."@, Seq::<char>::empty(), RowKind::Up)] + subkeys.map_values(|k: Seq<u16>| (utf16_decode(k), Seq::<char>::empty(), RowKind::Key))
        + values.map_values(
        |v: RawValue| (utf16_decode(v.name@), displayed_value(v.kind, v.data@), RowKind::Value(v.kind)),
    )
}

/// The rows of a key from its subkey names and its values.
pub fn build_rows(subkeys: &Vec<Vec<u16>>, values: &Vec<RawValue>) -> (rows: Vec<RegistryRow>)
    ensures
        rows_view(rows@) == key_rows(subkeys@.map_values(|k: Vec<u16>| k@), values@),
{
    let ghost target = key_rows(subkeys@.map_values(|k: Vec<u16>| k@), values@);
    let mut rows: Vec<RegistryRow> = Vec::new();
    rows.push(RegistryRow { name: String::from_str(".."), value_display: String::new(), kind: RowKind::Up });
    let mut i: usize = 0;
    while i < subkeys.len()
        invariant
            i <= subkeys.len(),
            target == key_rows(subkeys@.map_values(|k: Vec<u16>| k@), values@),
            rows_view(rows@) == target.take(1 + i),
        decreases subkeys.len() - i,
    {
        let name = decode_utf16_lossy(&subkeys[i]);
        assert(target[1 + i] == (name@, Seq::<char>::empty(), RowKind::Key));
        let ghost before = rows_view(rows@);
        rows.push(RegistryRow { name: string_from_chars(&name), value_display: String::new(), kind: RowKind::Key });
        assert(rows_view(rows@) =~= before.push((name@, Seq::<char>::empty(), RowKind::Key)));
        i = i + 1;
        assert(rows_view(rows@) =~= target.take(1 + i));
    }
    let mut j: usize = 0;
    while j < values.len()
        invariant
            j <= values.len(),
            target == key_rows(subkeys@.map_values(|k: Vec<u16>| k@), values@),
            rows_view(rows@) == target.take(1 + subkeys.len() + j),
        decreases values.len() - j,
    {
        let v = &values[j];
        let name = decode_utf16_lossy(&v.name);
        let shown = display_value(v.kind, v.data.as_slice());
        assert(target[1 + subkeys.len() + j] == (name@, shown@, RowKind::Value(v.kind)));
        let ghost before = rows_view(rows@);
        let ghost entry = (name@, shown@, RowKind::Value(v.kind));
        rows.push(RegistryRow { name: string_from_chars(&name), value_display: shown, kind: RowKind::Value(v.kind) });
        assert(rows_view(rows@) =~= before.push(entry));
        j = j + 1;
        assert(rows_view(rows@) =~= target.take(1 + subkeys.len() + j));
    }
    assert(target.take(1 + subkeys.len() + j) =~= target);
    rows
}

/// The type column of a row.
pub open spec fn kind_label(kind: RowKind) -> Seq<char> {
    match kind {
        RowKind::Up => Seq::empty(),
        RowKind::Key => Seq::empty(),
        RowKind::Value(t) => if t == REG_DWORD {
            "DWord"@
        } else if t == REG_DWORD_BIG_ENDIAN {
            "DWord (big endian)"@
        } else if t == REG_QWORD {
            "QWord"@
        } else if t == REG_BINARY {
            "Binary"@
        } else if t == REG_SZ {
            "String"@
        } else if t == REG_EXPAND_SZ {
            "String(String)"@
        } else if t == REG_MULTI_SZ {
            "Multiline String"@
        } else if t == REG_NONE {
            "NONE"@
        } else {
            "???"@
        },
    }
}

/// The type column of a row.
pub fn kind_label_exec(kind: RowKind) -> (s: &'static str)
    ensures
        s@ == kind_label(kind),
{
    match kind {
        RowKind::Up => {
            proof { reveal_strlit(""); }
            ""
        },
        RowKind::Key => {
            proof { reveal_strlit(""); }
            ""
        },
        RowKind::Value(t) => if t == REG_DWORD {
            "DWord"
        } else if t == REG_DWORD_BIG_ENDIAN {
            "DWord (big endian)"
        } else if t == REG_QWORD {
            "QWord"
        } else if t == REG_BINARY {
            "Binary"
        } else if t == REG_SZ {
            "String"
        } else if t == REG_EXPAND_SZ {
            "String(String)"
        } else if t == REG_MULTI_SZ {
            "Multiline String"
        } else if t == REG_NONE {
            "NONE"
        } else {
            "???"
        },
    }
}

/// The selection marker of a row.
pub open spec fn marker(selected: bool) -> char {
    if selected {
        '>'
    } else {
        ' '
    }
}

/// A row of the registry list: marker, name trimmed and padded to
/// `name_width`, type padded to 20, shown value.
pub open spec fn registry_row_text(r: RowView, selected: bool, name_width: int) -> Seq<char> {
    seq![marker(selected), ' '] + padded(trimmed(r.0, name_width), name_width) + seq![' ']
        + padded(kind_label(r.2), 20) + seq![' '] + r.1
}

/// Width of the name column: the longest name in bytes, plus five.
pub open spec fn name_column(rows: Seq<RowView>) -> nat
    decreases rows.len(),
{
    if rows.len() == 0 {
        5
    } else {
        let before = name_column(rows.drop_last());
        let here = utf8_len(rows.last().0) + 5;
        if here > before {
            here
        } else {
            before
        }
    }
}

proof fn lemma_name_column_prefix(rows: Seq<RowView>, i: int)
    requires
        0 <= i <= rows.len(),
    ensures
        name_column(rows.take(i)) <= name_column(rows),
    decreases rows.len() - i,
{
    if i < rows.len() {
        lemma_name_column_prefix(rows, i + 1);
        assert(rows.take(i + 1).drop_last() =~= rows.take(i));
    } else {
        assert(rows.take(i) =~= rows);
    }
}

/// Every name fits in the name column, so no name is shortened.
pub proof fn lemma_names_fit(rows: Seq<RowView>, i: int)
    requires
        0 <= i < rows.len(),
    ensures
        utf8_len(rows[i].0) + 5 <= name_column(rows),
        trimmed(rows[i].0, name_column(rows) as int) == rows[i].0,
    decreases rows.len(),
{
    if i < rows.len() - 1 {
        lemma_names_fit(rows.drop_last(), i);
    }
}

/// Width of the name column of the registry list.
pub fn name_column_exec(rows: &Vec<RegistryRow>) -> (w: usize)
    requires
        name_column(rows_view(rows@)) <= usize::MAX,
    ensures
        w == name_column(rows_view(rows@)),
{
    let ghost rv = rows_view(rows@);
    let mut w: usize = 5;
    let mut i: usize = 0;
    while i < rows.len()
        invariant
            i <= rows.len(),
            rv == rows_view(rows@),
            w == name_column(rv.take(i as int)),
            name_column(rv) <= usize::MAX,
        decreases rows.len() - i,
    {
        proof {
            lemma_name_column_prefix(rv, i + 1);
            assert(rv.take(i + 1).drop_last() =~= rv.take(i as int));
            lemma_name_column_bound(rv.take(i + 1));
        }
        let name = chars_of(rows[i].name.as_str());
        let n = utf8_len_of(&name);
        let here = n + 5;
        if here > w {
            w = here;
        }
        i = i + 1;
    }
    assert(rv.take(i as int) =~= rv);
    w
}

proof fn lemma_name_column_bound(rows: Seq<RowView>)
    requires
        rows.len() > 0,
    ensures
        utf8_len(rows.last().0) + 5 <= name_column(rows),
{
}

/// A row of the registry list.
pub fn registry_row(r: &RegistryRow, selected: bool, name_width: usize) -> (res: Vec<char>)
    requires
        name_width >= 3,
    ensures
        res@ == registry_row_text((r.name@, r.value_display@, r.kind), selected, name_width as int),
{
    let mut v: Vec<char> = Vec::new();
    v.push(if selected { '>' } else { ' ' });
    v.push(' ');
    let name = chars_of(r.name.as_str());
    let t = trim_chars(&name, name_width);
    push_padded(&mut v, &t, name_width);
    v.push(' ');
    let label = chars_of(kind_label_exec(r.kind));
    push_padded(&mut v, &label, 20);
    v.push(' ');
    push_str(&mut v, r.value_display.as_str());
    assert(v@ =~= registry_row_text((r.name@, r.value_display@, r.kind), selected, name_width as int));
    v
}

/// The rows of the registry list for the shown entries, the one at
/// position `selected` marked.
pub fn registry_rows(rows: &Vec<RegistryRow>, shown: &Vec<usize>, selected: usize) -> (res: Vec<
    Vec<char>,
>)
    requires
        name_column(rows_view(rows@)) <= usize::MAX,
        forall|k: int| 0 <= k < shown@.len() ==> #[trigger] shown@[k] < rows@.len(),
    ensures
        res@.len() == shown@.len(),
        forall|k: int|
            0 <= k < shown@.len() ==> #[trigger] res@[k]@ == registry_row_text(
                rows_view(rows@)[shown@[k] as int],
                k == selected,
                name_column(rows_view(rows@)) as int,
            ),
{
    let w = name_column_exec(rows);
    let mut res: Vec<Vec<char>> = Vec::new();
    let mut k: usize = 0;
    while k < shown.len()
        invariant
            k <= shown.len(),
            w == name_column(rows_view(rows@)),
            w >= 5,
            res@.len() == k,
            forall|j: int| 0 <= j < shown@.len() ==> #[trigger] shown@[j] < rows@.len(),
            forall|j: int|
                0 <= j < k ==> #[trigger] res@[j]@ == registry_row_text(
                    rows_view(rows@)[shown@[j] as int],
                    j == selected,
                    w as int,
                ),
        decreases shown.len() - k,
    {
        let r = &rows[shown[k]];
        let line = registry_row(r, k == selected, w);
        res.push(line);
        k = k + 1;
    }
    res
}

/// What Enter does on a row.
#[derive(Debug)]
pub enum EnterAction {
    /// Go to this key path (the parent, or a subkey) in the same hive.
    Open(String),
    /// At the top of a hive, `..` asks for another hive.
    ChooseHive,
    /// Nothing happens on a value.
    Nothing,
}

/// What Enter does on a row of kind `kind` named `name` in key `path`.
pub fn enter_action(kind: RowKind, path: &str, name: &str) -> (a: EnterAction)
    ensures
        kind is Up && path@.len() > 0 ==> (a matches EnterAction::Open(p) && p@ == parent_path(
            path@,
        )),
        kind is Up && path@.len() == 0 ==> a is ChooseHive,
        kind is Key ==> (a matches EnterAction::Open(p) && p@ == child_path(path@, name@)),
        kind is Value ==> a is Nothing,
{
    match kind {
        RowKind::Up => {
            if path.is_empty() {
                EnterAction::ChooseHive
            } else {
                EnterAction::Open(parent_of(path))
            }
        },
        RowKind::Key => EnterAction::Open(child_of(path, name)),
        RowKind::Value(_) => EnterAction::Nothing,
    }
}

/// The commands of the registry editor.
#[derive(Clone, Copy, Debug, PartialEq, Eq, Structural)]
pub enum RegeditCommand {
    Quit,
    Help,
    Reload,
    Goto,
    Move(Nav),
    Enter,
    Edit,
    Rename,
    Create,
    Delete,
    Filter,
    Ignore,
}

/// The command of a key in the registry editor.
pub open spec fn regedit_command_of(key: Key, mods: u8) -> RegeditCommand {
    if quit_key(key, mods) {
        RegeditCommand::Quit
    } else if help_key(key, mods) {
        RegeditCommand::Help
    } else if reload_key(key, mods) {
        RegeditCommand::Reload
    } else if key == Key::Char('g') && mods == MOD_NONE {
        RegeditCommand::Goto
    } else if nav_key(key, mods) is Some {
        RegeditCommand::Move(nav_key(key, mods)->0)
    } else if key == Key::Enter && mods == MOD_NONE {
        RegeditCommand::Enter
    } else if (key == Key::F(4) && mods == MOD_NONE) || (key == Key::Char('4') && mods == MOD_ALT) {
        RegeditCommand::Edit
    } else if (key == Key::F(6) && mods == MOD_NONE) || (key == Key::Char('6') && mods == MOD_ALT) {
        RegeditCommand::Rename
    } else if (key == Key::F(7) && mods == MOD_NONE) || (key == Key::Char('7') && mods == MOD_ALT) {
        RegeditCommand::Create
    } else if (key == Key::F(8) && mods == MOD_NONE) || (key == Key::Char('8') && mods == MOD_ALT) {
        RegeditCommand::Delete
    } else if filter_key(key, mods) {
        RegeditCommand::Filter
    } else {
        RegeditCommand::Ignore
    }
}

/// The command of a key in the registry editor.
pub fn regedit_command(key: Key, mods: u8) -> (c: RegeditCommand)
    ensures
        c == regedit_command_of(key, mods),
{
    if is_quit(key, mods) {
        return RegeditCommand::Quit;
    }
    if is_help(key, mods) {
        return RegeditCommand::Help;
    }
    if is_reload(key, mods) {
        return RegeditCommand::Reload;
    }
    if key == Key::Char('g') && mods == MOD_NONE {
        return RegeditCommand::Goto;
    }
    if let Some(n) = nav_of(key, mods) {
        return RegeditCommand::Move(n);
    }
    if key == Key::Enter && mods == MOD_NONE {
        return RegeditCommand::Enter;
    }
    if (key == Key::F(4) && mods == MOD_NONE) || (key == Key::Char('4') && mods == MOD_ALT) {
        return RegeditCommand::Edit;
    }
    if (key == Key::F(6) && mods == MOD_NONE) || (key == Key::Char('6') && mods == MOD_ALT) {
        return RegeditCommand::Rename;
    }
    if (key == Key::F(7) && mods == MOD_NONE) || (key == Key::Char('7') && mods == MOD_ALT) {
        return RegeditCommand::Create;
    }
    if (key == Key::F(8) && mods == MOD_NONE) || (key == Key::Char('8') && mods == MOD_ALT) {
        return RegeditCommand::Delete;
    }
    if is_filter(key, mods) {
        return RegeditCommand::Filter;
    }
    RegeditCommand::Ignore
}

/// What to create, chosen in the creation menu.
#[derive(Clone, Copy, Debug, PartialEq, Eq, Structural)]
pub enum CreateChoice {
    Cancel,
    /// A key; volatile when asked for.
    NewKey(bool),
    /// A value of the given type.
    NewValue(u32),
    /// A label that is not in the menu.
    Unknown,
}

/// The labels of the creation menu, in order.
pub open spec fn create_labels() -> Seq<Seq<char>> {
    seq![
        "Key"@,
        "String Value"@,
        "Dword Value"@,
        "Qword Value"@,
        "Expandable String Value"@,
        "Binary Value"@,
        "Multiline String Value"@,
        "None Value"@,
        "Big-Endian Dword Value"@,
        "Volatile Key"@,
        "Cancel"@,
    ]
}

/// The labels of the creation menu, in order.
pub fn create_menu() -> (labels: Vec<&'static str>)
    ensures
        labels@.map_values(|s: &str| s@) == create_labels(),
{
    let labels = vec![
        "Key",
        "String Value",
        "Dword Value",
        "Qword Value",
        "Expandable String Value",
        "Binary Value",
        "Multiline String Value",
        "None Value",
        "Big-Endian Dword Value",
        "Volatile Key",
        "Cancel",
    ];
    assert(labels@.map_values(|s: &str| s@) =~= create_labels());
    labels
}

/// What a label of the creation menu creates: each value label a value of
/// its type; "Key" and "Volatile Key" both an ordinary key, since a key is
/// made volatile only for the label "Key(Volatile)", which the menu does not
/// offer.
pub open spec fn create_choice_of(label: Seq<char>) -> CreateChoice {
    if label == "Cancel"@ {
        CreateChoice::Cancel
    } else if label == "Key"@ || label == "Volatile Key"@ {
        CreateChoice::NewKey(label == "Key(Volatile)"@)
    } else if label == "String Value"@ {
        CreateChoice::NewValue(REG_SZ)
    } else if label == "Dword Value"@ {
        CreateChoice::NewValue(REG_DWORD)
    } else if label == "Big-Endian Dword Value"@ {
        CreateChoice::NewValue(REG_DWORD_BIG_ENDIAN)
    } else if label == "Qword Value"@ {
        CreateChoice::NewValue(REG_QWORD)
    } else if label == "Binary Value"@ {
        CreateChoice::NewValue(REG_BINARY)
    } else if label == "None Value"@ {
        CreateChoice::NewValue(REG_NONE)
    } else if label == "Multiline String Value"@ {
        CreateChoice::NewValue(REG_MULTI_SZ)
    } else if label == "Expandable String Value"@ {
        CreateChoice::NewValue(REG_EXPAND_SZ)
    } else {
        CreateChoice::Unknown
    }
}

/// Whether two texts are equal.
pub fn str_equal(a: &str, b: &str) -> (r: bool)
    ensures
        r == (a@ == b@),
{
    let x = chars_of(a);
    let y = chars_of(b);
    if x.len() != y.len() {
        return false;
    }
    let mut i: usize = 0;
    while i < x.len()
        invariant
            i <= x.len() == y.len(),
            x@ == a@,
            y@ == b@,
            forall|k: int| 0 <= k < i ==> x@[k] == y@[k],
        decreases x.len() - i,
    {
        if x[i] != y[i] {
            assert(x@[i as int] != y@[i as int]);
            return false;
        }
        i = i + 1;
    }
    assert(x@ =~= y@);
    true
}

/// What a label of the creation menu creates.
pub fn create_choice(label: &str) -> (c: CreateChoice)
    ensures
        c == create_choice_of(label@),
{
    if str_equal(label, "Cancel") {
        CreateChoice::Cancel
    } else if str_equal(label, "Key") || str_equal(label, "Volatile Key") {
        CreateChoice::NewKey(str_equal(label, "Key(Volatile)"))
    } else if str_equal(label, "String Value") {
        CreateChoice::NewValue(REG_SZ)
    } else if str_equal(label, "Dword Value") {
        CreateChoice::NewValue(REG_DWORD)
    } else if str_equal(label, "Big-Endian Dword Value") {
        CreateChoice::NewValue(REG_DWORD_BIG_ENDIAN)
    } else if str_equal(label, "Qword Value") {
        CreateChoice::NewValue(REG_QWORD)
    } else if str_equal(label, "Binary Value") {
        CreateChoice::NewValue(REG_BINARY)
    } else if str_equal(label, "None Value") {
        CreateChoice::NewValue(REG_NONE)
    } else if str_equal(label, "Multiline String Value") {
        CreateChoice::NewValue(REG_MULTI_SZ)
    } else if str_equal(label, "Expandable String Value") {
        CreateChoice::NewValue(REG_EXPAND_SZ)
    } else {
        CreateChoice::Unknown
    }
}

/// The text first offered for a new value: `0` for numbers, else nothing.
pub fn new_value_default(kind: u32) -> (s: &'static str)
    ensures
        s@ == if kind == REG_DWORD || kind == REG_QWORD || kind == REG_DWORD_BIG_ENDIAN {
            "0"@
        } else {
            ""@
        },
{
    if kind == REG_DWORD || kind == REG_QWORD || kind == REG_DWORD_BIG_ENDIAN {
        "0"
    } else {
        ""
    }
}

/// Whether a value of type `kind` can be edited, and the note shown about
/// it: strings and numbers are edited silently; multi-strings and binary
/// data are edited with a note; other types are refused.
pub open spec fn edit_check_of(kind: u32) -> (Seq<char>, bool) {
    if kind == REG_SZ || kind == REG_EXPAND_SZ || kind == REG_QWORD || kind == REG_DWORD || kind
        == REG_DWORD_BIG_ENDIAN {
        (""@, true)
    } else if kind == REG_MULTI_SZ {
        ("editing multiline strings is not supported yet"@, true)
    } else if kind == REG_BINARY || kind == REG_NONE {
        ("editing binary is not supported yet"@, true)
    } else {
        ("editing ??? is not supported yet"@, false)
    }
}

/// Whether a value of type `kind` can be edited, and the note shown about it.
pub fn edit_check(kind: u32) -> (r: (&'static str, bool))
    ensures
        (r.0@, r.1) == edit_check_of(kind),
{
    if kind == REG_SZ || kind == REG_EXPAND_SZ || kind == REG_QWORD || kind == REG_DWORD || kind
        == REG_DWORD_BIG_ENDIAN {
        ("", true)
    } else if kind == REG_MULTI_SZ {
        ("editing multiline strings is not supported yet", true)
    } else if kind == REG_BINARY || kind == REG_NONE {
        ("editing binary is not supported yet", true)
    } else {
        ("editing ??? is not supported yet", false)
    }
}

/// The header of the registry editor: its title, then the location.
pub fn regedit_header(h: HiveId, path: &str) -> (res: String)
    ensures
        res@ == "Regedit TUI\n "@ + crate::regpath::location_text(h, path@),
{
    let mut v: Vec<char> = Vec::new();
    push_str(&mut v, "Regedit TUI\n ");
    let loc = crate::regpath::location_of(h, path);
    let l = chars_of(loc.as_str());
    push_all(&mut v, &l);
    string_from_chars(&v)
}

/// How the registry editor was started.
#[derive(Debug)]
pub enum RegeditStart {
    /// Show the help text and stop.
    Help,
    /// Open this key.
    Open(HiveId, String),
}

/// A command line that the registry editor refuses.
#[derive(Debug)]
pub enum ArgError {
    /// `--path` without a value.
    MissingPath,
    /// `--path` with a value whose hive is unknown.
    InvalidHive(String),
    /// An argument that is not an option.
    Unrecognized(String),
}

/// `--help`, `-h`, `?` or `/?`.
pub open spec fn is_help_arg(a: Seq<char>) -> bool {
    a == "--help"@ || a == "-h"@ || a == "?"@ || a == "/?"@
}

/// The outcome of the arguments from `i` on, starting from key `path` in
/// `hive`.
pub open spec fn regedit_args_from(
    args: Seq<Seq<char>>,
    i: int,
    hive: HiveId,
    path: Seq<char>,
) -> Result<(bool, HiveId, Seq<char>), (int, Seq<char>)>
    decreases args.len() - i,
{
    if i >= args.len() {
        Ok((false, hive, path))
    } else if is_help_arg(args[i]) {
        Ok((true, hive, path))
    } else if args[i] == "--path"@ {
        if i + 1 >= args.len() {
            Err((0, Seq::empty()))
        } else {
            match parsed_path(args[i + 1]) {
                (Some(h), p) => regedit_args_from(args, i + 2, h, p),
                (None, _) => Err((1, args[i + 1])),
            }
        }
    } else {
        Err((2, args[i]))
    }
}

/// Reads the command line of the registry editor (without the program
/// name): help stops at once; each `--path` value sets the key to open;
/// anything else is refused. The key defaults to the top of HKCU.
pub fn parse_regedit_args(args: &Vec<String>) -> (res: Result<RegeditStart, ArgError>)
    ensures
        ({
            let spec_res = regedit_args_from(
                args@.map_values(|a: String| a@),
                0,
                HiveId::CurrentUser,
                Seq::empty(),
            );
            match res {
                Ok(RegeditStart::Help) => spec_res matches Ok((true, _, _)),
                Ok(RegeditStart::Open(h, p)) => spec_res == Ok::<
                    (bool, HiveId, Seq<char>),
                    (int, Seq<char>),
                >((false, h, p@)),
                Err(ArgError::MissingPath) => spec_res == Err::<
                    (bool, HiveId, Seq<char>),
                    (int, Seq<char>),
                >((0, Seq::empty())),
                Err(ArgError::InvalidHive(v)) => spec_res == Err::<
                    (bool, HiveId, Seq<char>),
                    (int, Seq<char>),
                >((1, v@)),
                Err(ArgError::Unrecognized(v)) => spec_res == Err::<
                    (bool, HiveId, Seq<char>),
                    (int, Seq<char>),
                >((2, v@)),
            }
        }),
{
    let ghost av = args@.map_values(|a: String| a@);
    let mut hive = HiveId::CurrentUser;
    let mut path = String::new();
    let mut i: usize = 0;
    while i < args.len()
        invariant
            i <= args.len(),
            av == args@.map_values(|a: String| a@),
            regedit_args_from(av, i as int, hive, path@) == regedit_args_from(
                av,
                0,
                HiveId::CurrentUser,
                Seq::empty(),
            ),
        decreases args.len() - i,
    {
        let a = args[i].as_str();
        assert(av[i as int] == a@);
        if str_equal(a, "--help") || str_equal(a, "-h") || str_equal(a, "?") || str_equal(a, "/?") {
            return Ok(RegeditStart::Help);
        } else if str_equal(a, "--path") {
            if i + 1 >= args.len() {
                return Err(ArgError::MissingPath);
            }
            let value = args[i + 1].as_str();
            assert(av[i + 1] == value@);
            let (h, p) = parse_path(value);
            match h {
                Some(h) => {
                    hive = h;
                    path = p;
                    i = i + 2;
                },
                None => {
                    return Err(ArgError::InvalidHive(String::from_str(value)));
                },
            }
        } else {
            return Err(ArgError::Unrecognized(String::from_str(a)));
        }
    }
    Ok(RegeditStart::Open(hive, path))
}

/// Each label of the creation menu creates what it names: the value labels
/// a value of the type they name (string 1, expandable string 2, binary 3,
/// DWORD 4, big-endian DWORD 5, multi-string 7, QWORD 11, none 0), the key
/// labels a key, Cancel nothing; two different value labels never give the
/// same type.
pub proof fn lemma_menu_creates_what_it_names()
    ensures
        create_choice_of("String Value"@) == CreateChoice::NewValue(1),
        create_choice_of("Expandable String Value"@) == CreateChoice::NewValue(2),
        create_choice_of("Binary Value"@) == CreateChoice::NewValue(3),
        create_choice_of("Dword Value"@) == CreateChoice::NewValue(4),
        create_choice_of("Big-Endian Dword Value"@) == CreateChoice::NewValue(5),
        create_choice_of("Multiline String Value"@) == CreateChoice::NewValue(7),
        create_choice_of("Qword Value"@) == CreateChoice::NewValue(11),
        create_choice_of("None Value"@) == CreateChoice::NewValue(0),
        create_choice_of("Key"@) is NewKey,
        create_choice_of("Volatile Key"@) is NewKey,
        create_choice_of("Cancel"@) is Cancel,
        forall|i: int, j: int|
            0 <= i < j < create_labels().len() && create_choice_of(create_labels()[i]) is NewValue
                && create_choice_of(create_labels()[j]) is NewValue ==> #[trigger] create_choice_of(
                create_labels()[i],
            ) != #[trigger] create_choice_of(create_labels()[j]),
{
    reveal_strlit("String Value");
    reveal_strlit("Expandable String Value");
    reveal_strlit("Binary Value");
    reveal_strlit("Dword Value");
    reveal_strlit("Big-Endian Dword Value");
    reveal_strlit("Multiline String Value");
    reveal_strlit("Qword Value");
    reveal_strlit("None Value");
    reveal_strlit("Key");
    reveal_strlit("Volatile Key");
    reveal_strlit("Cancel");
    reveal_strlit("Key(Volatile)");
    let l = create_labels();
    assert(l.len() == 11);
    assert(("Key"@).len() == 3);
    assert(("String Value"@).len() == 12);
    assert(("Dword Value"@).len() == 11);
    assert(("Qword Value"@).len() == 11);
    assert(("Expandable String Value"@).len() == 23);
    assert(("Binary Value"@).len() == 12);
    assert(("Multiline String Value"@).len() == 22);
    assert(("None Value"@).len() == 10);
    assert(("Big-Endian Dword Value"@).len() == 22);
    assert(("Volatile Key"@).len() == 12);
    assert(("Cancel"@).len() == 6);
    assert(("Key(Volatile)"@).len() == 13);
    assert(("Key"@)[0] == 'K');
    assert(("String Value"@)[0] == 'S');
    assert(("Dword Value"@)[0] == 'D');
    assert(("Qword Value"@)[0] == 'Q');
    assert(("Expandable String Value"@)[0] == 'E');
    assert(("Binary Value"@)[0] == 'B');
    assert(("Multiline String Value"@)[0] == 'M');
    assert(("None Value"@)[0] == 'N');
    assert(("Big-Endian Dword Value"@)[0] == 'B');
    assert(("Volatile Key"@)[0] == 'V');
    assert(("Cancel"@)[0] == 'C');
    assert(("Key(Volatile)"@)[0] == 'K');
    assert(l[0] == "Key"@);
    assert(l[1] == "String Value"@);
    assert(l[2] == "Dword Value"@);
    assert(l[3] == "Qword Value"@);
    assert(l[4] == "Expandable String Value"@);
    assert(l[5] == "Binary Value"@);
    assert(l[6] == "Multiline String Value"@);
    assert(l[7] == "None Value"@);
    assert(l[8] == "Big-Endian Dword Value"@);
    assert(l[9] == "Volatile Key"@);
    assert(l[10] == "Cancel"@);
    assert(create_choice_of(l[0]) is NewKey);
    assert(create_choice_of(l[1]) == CreateChoice::NewValue(1));
    assert(create_choice_of(l[2]) == CreateChoice::NewValue(4));
    assert(create_choice_of(l[3]) == CreateChoice::NewValue(11));
    assert(create_choice_of(l[4]) == CreateChoice::NewValue(2));
    assert(create_choice_of(l[5]) == CreateChoice::NewValue(3));
    assert(create_choice_of(l[6]) == CreateChoice::NewValue(7));
    assert(create_choice_of(l[7]) == CreateChoice::NewValue(0));
    assert(create_choice_of(l[8]) == CreateChoice::NewValue(5));
    assert(create_choice_of(l[9]) is NewKey);
    assert(create_choice_of(l[10]) is Cancel);
}

} // verus!
