use native::regedit::{
    build_rows, create_choice, create_menu, edit_check, enter_action, kind_label_exec,
    name_column_exec, new_value_default, parse_regedit_args, regedit_header, registry_rows,
    ArgError, CreateChoice, EnterAction, RawValue, RegeditStart, RowKind,
};
use native::regpath::{child_of, location_of, parent_of, parse_path, HiveId};
use native::regvalue::{
    display_value, encode_value, EncodeError, REG_BINARY, REG_DWORD, REG_DWORD_BIG_ENDIAN,
    REG_EXPAND_SZ, REG_MULTI_SZ, REG_NONE, REG_QWORD, REG_SZ,
};

fn utf16(s: &str) -> Vec<u16> {
    s.encode_utf16().collect()
}

#[test]
fn parse_path_long_and_short_names() {
    assert_eq!(
        parse_path("HKEY_LOCAL_MACHINE\\Software\\Microsoft"),
        (Some(HiveId::LocalMachine), "Software\\Microsoft".to_string())
    );
    assert_eq!(parse_path("HKCU:\\Control Panel\\"), (Some(HiveId::CurrentUser), "Control Panel".to_string()));
    assert_eq!(parse_path("HKU\\S-1-5-18"), (Some(HiveId::Users), "S-1-5-18".to_string()));
    assert_eq!(parse_path("HKCC:"), (Some(HiveId::CurrentConfig), "".to_string()));
    assert_eq!(parse_path("HKEY_CLASSES_ROOT"), (Some(HiveId::ClassesRoot), "".to_string()));
    assert_eq!(parse_path("HKXX:\\foo"), (None, "\\foo".to_string()));
    assert_eq!(parse_path("nothing"), (None, "".to_string()));
}

#[test]
fn location_roundtrip() {
    for h in [HiveId::LocalMachine, HiveId::CurrentUser, HiveId::ClassesRoot, HiveId::Users, HiveId::CurrentConfig] {
        let loc = location_of(h, "Software\\A:B");
        assert_eq!(parse_path(&loc), (Some(h), "Software\\A:B".to_string()));
    }
    assert_eq!(location_of(HiveId::Users, "x"), "HKU:\\x");
}

#[test]
fn parent_and_child_paths() {
    assert_eq!(child_of("", "Software"), "Software");
    assert_eq!(child_of("Software", "Microsoft"), "Software\\Microsoft");
    assert_eq!(parent_of("Software\\Microsoft"), "Software");
    assert_eq!(parent_of("Software"), "");
    assert_eq!(parent_of(&child_of("A\\B", "C")), "A\\B");
}

#[test]
fn display_numbers() {
    assert_eq!(display_value(REG_DWORD, &[0x1A, 0, 0, 0]), "0x0000001A");
    assert_eq!(display_value(REG_DWORD_BIG_ENDIAN, &[0, 0, 1, 2]), "0x00000102");
    assert_eq!(display_value(REG_QWORD, &[1, 2, 3, 4, 5, 6, 7, 8]), "0x0807060504030201");
    assert_eq!(display_value(REG_DWORD, &[1, 2]), "invalid dword: 2 bytes");
    assert_eq!(display_value(REG_DWORD_BIG_ENDIAN, &[]), "invalid big endian dword: 0 bytes");
    assert_eq!(display_value(REG_QWORD, &[0; 4]), "invalid qword: 4 bytes");
}

#[test]
fn display_strings_and_others() {
    let mut b = Vec::new();
    for u in utf16("héllo 😀\0") {
        b.extend_from_slice(&u.to_le_bytes());
    }
    assert_eq!(display_value(REG_SZ, &b), "héllo 😀");
    let mut m = Vec::new();
    for u in utf16("a\0b\0\0") {
        m.extend_from_slice(&u.to_le_bytes());
    }
    assert_eq!(display_value(REG_MULTI_SZ, &m), "a b");
    assert_eq!(display_value(REG_EXPAND_SZ, &[0x00, 0xD8, 0x41, 0x00]), "\u{FFFD}A");
    assert_eq!(display_value(REG_BINARY, &[1, 2, 3]), "3 bytes");
    assert_eq!(display_value(REG_NONE, &[]), "");
    assert_eq!(display_value(REG_NONE, &[9]), "<unable to parse none value>, 1 bytes");
    assert_eq!(display_value(6, &[9, 9]), "<unable to parse value>, 2 bytes");
}

#[test]
fn encode_values() {
    assert_eq!(encode_value(REG_DWORD, " 0x1A "), Ok(vec![0x1A, 0, 0, 0]));
    assert_eq!(encode_value(REG_DWORD, "+10"), Ok(vec![10, 0, 0, 0]));
    assert_eq!(encode_value(REG_DWORD_BIG_ENDIAN, "258"), Ok(vec![0, 0, 1, 2]));
    assert_eq!(encode_value(REG_QWORD, "0XFFFFFFFFFFFFFFFF"), Ok(vec![0xFF; 8]));
    assert_eq!(encode_value(REG_DWORD, "4294967296"), Err(EncodeError::InvalidNumber));
    assert_eq!(encode_value(REG_DWORD, "-1"), Err(EncodeError::InvalidNumber));
    assert_eq!(encode_value(REG_DWORD, ""), Err(EncodeError::InvalidNumber));
    assert_eq!(encode_value(REG_DWORD, "0x"), Err(EncodeError::InvalidNumber));
    assert_eq!(encode_value(REG_DWORD, "12a"), Err(EncodeError::InvalidNumber));
    assert_eq!(encode_value(REG_SZ, "Hi"), Ok(vec![b'H', 0, b'i', 0, 0, 0]));
    assert_eq!(encode_value(REG_BINARY, "é"), Ok(vec![0xC3, 0xA9]));
    assert_eq!(encode_value(REG_NONE, ""), Ok(vec![]));
    assert_eq!(encode_value(6, "x"), Err(EncodeError::UnsupportedType(6)));
}

#[test]
fn encode_matches_std_parsing() {
    for t in ["0", "42", " 7\t", "0x10", "0Xff", "+5", "99999999999", "0x+1", "1 2", "\u{3000}8"] {
        let tt = t.trim();
        let (radix, digits) = match tt.strip_prefix("0x").or_else(|| tt.strip_prefix("0X")) {
            Some(h) => (16, h),
            None => (10, tt),
        };
        let want = u32::from_str_radix(digits, radix).map(|v| v.to_le_bytes().to_vec()).map_err(|_| EncodeError::InvalidNumber);
        assert_eq!(encode_value(REG_DWORD, t), want, "{:?}", t);
    }
}

#[test]
fn string_value_roundtrip() {
    for t in ["", "plain", "ünïcödé", "emoji 😀 here"] {
        for kind in [REG_SZ, REG_EXPAND_SZ, REG_MULTI_SZ] {
            let b = encode_value(kind, t).unwrap();
            assert_eq!(display_value(kind, &b), t);
        }
    }
}

#[test]
fn number_value_roundtrip() {
    let b = encode_value(REG_DWORD, "0x1A").unwrap();
    assert_eq!(display_value(REG_DWORD, &b), "0x0000001A");
    let b = encode_value(REG_DWORD_BIG_ENDIAN, "305419896").unwrap();
    assert_eq!(display_value(REG_DWORD_BIG_ENDIAN, &b), "0x12345678");
    let b = encode_value(REG_QWORD, "1").unwrap();
    assert_eq!(display_value(REG_QWORD, &b), "0x0000000000000001");
}

#[test]
fn rows_of_a_key() {
    let values = vec![
        RawValue { name: utf16("Count"), kind: REG_DWORD, data: vec![5, 0, 0, 0] },
        RawValue { name: utf16(""), kind: REG_SZ, data: vec![b'x', 0, 0, 0] },
    ];
    let rows = build_rows(&vec![utf16("Sub")], &values);
    let got: Vec<(String, String, RowKind)> =
        rows.iter().map(|r| (r.name.clone(), r.value_display.clone(), r.kind)).collect();
    assert_eq!(
        got,
        vec![
            ("..".to_string(), "".to_string(), RowKind::Up),
            ("Sub".to_string(), "".to_string(), RowKind::Key),
            ("Count".to_string(), "0x00000005".to_string(), RowKind::Value(REG_DWORD)),
            ("".to_string(), "x".to_string(), RowKind::Value(REG_SZ)),
        ]
    );
    assert_eq!(name_column_exec(&rows), 10);
    let lines: Vec<String> = registry_rows(&rows, &vec![0, 2], 1).iter().map(|l| l.iter().collect()).collect();
    assert_eq!(
        lines,
        vec![
            format!("  {:<10} {:<20} ", "..", ""),
            "> Count      DWord                0x00000005".to_string(),
        ]
    );
}

#[test]
fn type_labels() {
    assert_eq!(kind_label_exec(RowKind::Up), "");
    assert_eq!(kind_label_exec(RowKind::Key), "");
    assert_eq!(kind_label_exec(RowKind::Value(REG_DWORD_BIG_ENDIAN)), "DWord (big endian)");
    assert_eq!(kind_label_exec(RowKind::Value(REG_EXPAND_SZ)), "String(String)");
    assert_eq!(kind_label_exec(RowKind::Value(42)), "???");
}

#[test]
fn enter_on_rows() {
    assert!(matches!(enter_action(RowKind::Up, "A\\B", "..").clone_path(), Some(p) if p == "A"));
    assert!(matches!(enter_action(RowKind::Up, "", ".."), EnterAction::ChooseHive));
    assert!(matches!(enter_action(RowKind::Key, "A", "C").clone_path(), Some(p) if p == "A\\C"));
    assert!(matches!(enter_action(RowKind::Value(REG_SZ), "A", "v"), EnterAction::Nothing));
}

trait OpenPath {
    fn clone_path(&self) -> Option<String>;
}

impl OpenPath for EnterAction {
    fn clone_path(&self) -> Option<String> {
        match self {
            EnterAction::Open(p) => Some(p.clone()),
            _ => None,
        }
    }
}

#[test]
fn create_menu_choices() {
    let menu = create_menu();
    assert_eq!(menu.len(), 11);
    assert_eq!(create_choice(menu[0]), CreateChoice::NewKey(false));
    assert_eq!(create_choice("Volatile Key"), CreateChoice::NewKey(false));
    assert_eq!(create_choice("Dword Value"), CreateChoice::NewValue(REG_DWORD));
    assert_eq!(create_choice("Big-Endian Dword Value"), CreateChoice::NewValue(REG_DWORD_BIG_ENDIAN));
    assert_eq!(create_choice("Cancel"), CreateChoice::Cancel);
    assert_eq!(create_choice("Other"), CreateChoice::Unknown);
    assert_eq!(new_value_default(REG_QWORD), "0");
    assert_eq!(new_value_default(REG_SZ), "");
}

#[test]
fn edit_checks() {
    assert_eq!(edit_check(REG_SZ), ("", true));
    assert_eq!(edit_check(REG_MULTI_SZ), ("editing multiline strings is not supported yet", true));
    assert_eq!(edit_check(REG_BINARY), ("editing binary is not supported yet", true));
    assert_eq!(edit_check(6), ("editing ??? is not supported yet", false));
}

#[test]
fn regedit_command_line() {
    let a = |v: &[&str]| v.iter().map(|s| s.to_string()).collect::<Vec<_>>();
    assert!(matches!(parse_regedit_args(&a(&[])), Ok(RegeditStart::Open(HiveId::CurrentUser, p)) if p.is_empty()));
    assert!(matches!(parse_regedit_args(&a(&["/?"])), Ok(RegeditStart::Help)));
    assert!(matches!(parse_regedit_args(&a(&["--path", "HKLM\\Software"])), Ok(RegeditStart::Open(HiveId::LocalMachine, p)) if p == "Software"));
    assert!(matches!(parse_regedit_args(&a(&["--path"])), Err(ArgError::MissingPath)));
    assert!(matches!(parse_regedit_args(&a(&["--path", "XX:\\a"])), Err(ArgError::InvalidHive(v)) if v == "XX:\\a"));
    assert!(matches!(parse_regedit_args(&a(&["-x"])), Err(ArgError::Unrecognized(v)) if v == "-x"));
    assert!(matches!(parse_regedit_args(&a(&["--path", "HKU", "--help"])), Ok(RegeditStart::Help)));
}

#[test]
fn regedit_header_text() {
    assert_eq!(regedit_header(HiveId::LocalMachine, "Software"), "Regedit TUI\n HKLM:\\Software");
}
