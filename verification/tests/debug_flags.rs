use wqpl::debug_flags::{debug_help_table, DebugFlags, AST, INST, TOKEN, WQDB_1};

#[test]
fn parse_debug_spec_supports_named_flags() {
    let flags = DebugFlags::parse("inst,token,wqdb-1").unwrap();
    assert!(flags.contains(INST));
    assert!(flags.contains(TOKEN));
    assert!(flags.contains(WQDB_1));
    assert!(!flags.contains(AST));
}

#[test]
fn parse_debug_spec_supports_oneshot_default_alias() {
    let flags = DebugFlags::parse("").unwrap();
    assert_eq!(flags, DebugFlags::from_alias(1).unwrap());
}

#[test]
fn parse_debug_spec_rejects_invalid_numeric_alias() {
    assert!(DebugFlags::parse("7").is_err());
}

#[test]
fn debug_alias_table_lists_supported_aliases() {
    let table = debug_help_table(DebugFlags::empty());
    assert!(table.contains("| 0      | off"));
    assert!(table.contains("| 4      | inst,ast,token,wqdb-1,wqdb-2 |"));
}

#[test]
fn debug_help_table_is_tabular() {
    let table = debug_help_table(DebugFlags::from_names(&["token", "inst"]));
    assert!(table.contains("| spec   |"));
    assert!(table.contains("active"));
    assert!(table.contains("token,inst"));
    assert!(table.contains("inst,ast,token,wqdb-1,wqdb-2"));
}

#[test]
fn parse_debug_spec_supports_compact_alias_shortcut() {
    let flags = DebugFlags::parse("1").unwrap();
    assert_eq!(flags, DebugFlags::from_alias(1).unwrap());
}

#[test]
fn debug_help_table_exact_layout() {
    let table = debug_help_table(DebugFlags::empty());
    let first = table.lines().next().unwrap();
    assert_eq!(first, "+--------+------------------------------+");
    assert_eq!(table.lines().count(), 10);
    assert!(table.contains("| active | off                          |"));
}

#[test]
fn unknown_debug_flag_is_reported() {
    let e = DebugFlags::parse("inst,bogus").unwrap_err();
    assert_eq!(e, "invalid debug flag 'bogus'");
}
