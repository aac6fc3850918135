use wqpl::builtins::Builtins;
use wqpl::repl::{builtins_listing, classify, ReplCommand};

#[test]
fn prompt_commands_are_recognised() {
    assert_eq!(classify("!exit"), ReplCommand::Exit);
    assert_eq!(classify("!!"), ReplCommand::Exit);
    assert_eq!(classify("!bye"), ReplCommand::Bye);
    assert_eq!(classify("!hl"), ReplCommand::Highlight);
    assert_eq!(classify("!"), ReplCommand::Bfn(None));
    assert_eq!(classify("!bfn  pure extra"), ReplCommand::Bfn(Some("pure".to_string())));
    assert_eq!(classify("!i"), ReplCommand::Interpreters);
    assert_eq!(classify("!i fast"), ReplCommand::Interpreter(Some("fast".to_string())));
    assert_eq!(classify("!t."), ReplCommand::TimeOnce);
    assert_eq!(classify("!h len"), ReplCommand::Help(Some("len".to_string())));
    assert_eq!(classify("!help"), ReplCommand::Help(None));
    assert_eq!(classify("!debug"), ReplCommand::DebugTable);
    assert_eq!(classify("!d"), ReplCommand::DebugToggle);
}

#[test]
fn debug_commands_take_their_specification() {
    assert_eq!(classify("!d. inst,ast"), ReplCommand::DebugOnce("inst,ast".to_string()));
    assert_eq!(classify("!debug 3"), ReplCommand::DebugSet("3".to_string()));
    assert_eq!(classify("!d2"), ReplCommand::DebugSet("2".to_string()));
}

#[test]
fn other_lines_are_code_or_empty() {
    assert_eq!(classify(""), ReplCommand::Empty);
    assert_eq!(classify("1+2"), ReplCommand::Code);
    assert_eq!(classify("!hx"), ReplCommand::Code);
}

#[test]
fn builtins_listing_has_six_columns() {
    let b = Builtins::new();
    let text = builtins_listing(&b);
    let mut names = b.list_functions();
    names.sort();
    let first_line = text.lines().next().unwrap();
    let words: Vec<&str> = first_line.split_whitespace().collect();
    assert_eq!(words, names[..6].iter().map(|s| s.as_str()).collect::<Vec<_>>());
    assert!(text.ends_with('\n'));
}
