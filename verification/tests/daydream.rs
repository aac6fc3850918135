use wqpl::desserts::daydream::{parse_args, Command, ExecSource, ParseOutcome, Parsed, RuntimeFlags};

fn v(xs: &[&str]) -> Vec<String> {
    xs.iter().map(|s| s.to_string()).collect()
}

fn ok(p: ParseOutcome) -> Parsed {
    match p {
        ParseOutcome::Succeed(parsed) => parsed,
        other => panic!("expected Ok(..), got: {other:?}"),
    }
}

fn err(p: ParseOutcome) -> (String, i32) {
    match p {
        ParseOutcome::Error { msg, code } => (msg, code),
        other => panic!("expected Error(..), got: {other:?}"),
    }
}

#[test]
fn help_and_version_short_circuit() {
    assert!(matches!(parse_args(&v(&["--help"])), ParseOutcome::ShowHelp));
    assert!(matches!(parse_args(&v(&["--version"])), ParseOutcome::ShowVersion));
    assert!(matches!(parse_args(&v(&["foo.wq", "-h"])), ParseOutcome::ShowHelp));
}

#[test]
fn script_and_extras_error() {
    let p = ok(parse_args(&v(&["main.wq"])));
    assert!(matches!(p.command, Command::Script(_)));
    let (m, c) = err(parse_args(&v(&["main.wq", "extra", "stuff"])));
    assert_eq!(c, 2);
    assert!(m.contains("unexpected positional"));
}

#[test]
fn fmt_happy_path_and_mode_errors() {
    let p = ok(parse_args(&v(&["fmt", "--nbc", "f.wq"])));
    match p.command {
        Command::Fmt { script, opts } => {
            assert_eq!(script, "f.wq".to_string());
            assert!(opts.nbc);
            assert!(!opts.nlcd);
            assert!(!opts.olw);
        }
        _ => panic!("expected Fmt"),
    }
    let (m, _) = err(parse_args(&v(&["fmt"])));
    assert!(m.contains("fmt: missing <script>"));

    let (m, _) = err(parse_args(&v(&["fmt", "f.wq", "extra"])));
    assert!(m.starts_with("fmt:"));
    assert!(m.contains("unexpected positional"));

    let (m, _) = err(parse_args(&v(&["fmt", "-d3", "f.wq"])));
    assert!(m.contains("fmt: runtime flags"));
}

#[test]
fn exec_inline_stdin_and_extras() {
    let p = ok(parse_args(&v(&["exec", "1+1"])));
    assert!(matches!(p.command, Command::Exec(ExecSource::Inline(_))));

    let p = ok(parse_args(&v(&["exec", "-"])));
    assert!(matches!(p.command, Command::Exec(ExecSource::Stdin)));

    let (m, _) = err(parse_args(&v(&["exec", "1+1", "oops"])));
    assert!(m.contains("unexpected positional"));
}

#[test]
fn debug_forms_and_last_wins() {
    let p = ok(parse_args(&v(&["-d3", "a.wq"])));
    assert_eq!(p.runtime.debug_level, 3);

    let p = ok(parse_args(&v(&["-d", "7", "a.wq"])));
    assert_eq!(p.runtime.debug_level, 7);

    let p = ok(parse_args(&v(&["-d", "a.wq"])));
    assert_eq!(p.runtime.debug_level, 1);

    let p = ok(parse_args(&v(&["-d1", "-d9", "a.wq"])));
    assert_eq!(p.runtime.debug_level, 9);
}

#[test]
fn dashdash_stops_flag_parsing() {
    let (m, _) = err(parse_args(&v(&["-d", "2", "--", "-file", "rest"])));
    assert!(m.contains("unexpected positional") && m.contains("rest"));
}

#[test]
fn repl_default_when_empty() {
    let p = ok(parse_args(&v(&[])));
    assert!(matches!(p.command, Command::Repl));
}

#[test]
fn unknown_flags_are_reported() {
    let (m, _) = err(parse_args(&v(&["--bogus", "a.wq"])));
    assert!(m.contains("unknown flags") && m.contains("--bogus"));
}

#[test]
fn unknown_flags_are_joined_in_order() {
    let (m, c) = err(parse_args(&v(&["--x", "-dz", "a.wq"])));
    assert_eq!(m, "unknown flags: --x, -dz");
    assert_eq!(c, 2);
}

#[test]
fn runtime_flag_defaults() {
    let p = ok(parse_args(&v(&["--no-bt", "-w", "a.wq"])));
    assert!(p.runtime.wqdb);
    assert!(!p.runtime.bt);
    let n = RuntimeFlags::new();
    assert!(n.bt && !n.wqdb && n.debug_level == 0);
    let d = RuntimeFlags::default();
    assert!(!d.bt);
}
