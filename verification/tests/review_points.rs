use wqpl::repl::{after_read, apply_command, classify, BufferAction, ReadOutcome, ReplModes};
use wqpl::apps::formatter::{FormatConfig, Formatter};
use wqpl::astnode::BinaryOperator;
use wqpl::builtins::core_builtins::raise;
use wqpl::builtins::dict::{has_key, idx_to_key, key_to_idx, keys};
use wqpl::builtins::core_builtins::hex;
use wqpl::token::TokenType;
use wqpl::builtins::list::reverse;
use wqpl::debug_flags::DebugFlags;
use wqpl::error::WqErrorType;
use wqpl::interpreters::default::fastpath::{fp_floor_div, fp_int_binary_op, FastPath};
use wqpl::lexer::Lexer;
use wqpl::value::{str_value_of, Value};

#[test]
fn raise_without_argument_is_an_arity_error() {
    let e = raise(&[]).unwrap_err();
    assert_eq!(e.kind, WqErrorType::Arity);
    let e = raise(&[str_value_of("a"), str_value_of("b")]).unwrap_err();
    assert_eq!(e.kind, WqErrorType::Arity);
}

#[test]
fn raise_with_a_message_is_a_raise_error() {
    let e = raise(&[str_value_of("boom")]).unwrap_err();
    assert_eq!(e.kind, WqErrorType::Raise);
    assert_eq!(e.msg, "boom");
}

#[test]
fn fast_path_hands_on_float_divisions() {
    let r = fp_int_binary_op(BinaryOperator::Divide, &Value::Int(6), &Value::Int(3));
    assert!(matches!(r, FastPath::Float(BinaryOperator::Divide, 6, 3)));
    let r = fp_int_binary_op(BinaryOperator::DivideDot, &Value::Int(1), &Value::Int(0));
    assert!(matches!(r, FastPath::Float(BinaryOperator::DivideDot, 1, 0)));
    let r = fp_int_binary_op(BinaryOperator::ModuloDot, &Value::Int(7), &Value::Int(2));
    assert!(matches!(r, FastPath::Float(BinaryOperator::ModuloDot, 7, 2)));
    let r = fp_int_binary_op(BinaryOperator::Divide, &Value::Int(1), &Value::Int(0));
    assert!(matches!(r, FastPath::Slow));
}

#[test]
fn fast_path_on_integers() {
    let r = fp_int_binary_op(BinaryOperator::Add, &Value::Int(i64::MAX), &Value::Int(1));
    assert!(matches!(r, FastPath::Slow));
    let r = fp_int_binary_op(BinaryOperator::Modulo, &Value::Int(-7), &Value::Int(2));
    assert!(matches!(r, FastPath::Value(Value::Int(-1))));
    let r = fp_int_binary_op(BinaryOperator::LessThan, &Value::Int(1), &Value::Int(2));
    assert!(matches!(r, FastPath::Value(Value::Bool(true))));
    let r = fp_int_binary_op(BinaryOperator::Power, &Value::Int(2), &Value::Int(3));
    assert!(matches!(r, FastPath::Slow));
    let r = fp_int_binary_op(BinaryOperator::Add, &Value::Int(1), &Value::Float("1.0".to_string()));
    assert!(matches!(r, FastPath::Slow));
}

#[test]
fn key_position_round_trip() {
    let d = Value::Dict(vec![
        ("a".to_string(), Value::Int(1)),
        ("b".to_string(), Value::Int(2)),
    ]);
    let p = key_to_idx(&[Value::Symbol("b".to_string()), d.clone()]).unwrap();
    assert_eq!(p, Value::Int(1));
    let k = idx_to_key(&[p, d]).unwrap();
    assert_eq!(k, Value::Symbol("b".to_string()));
}

#[test]
fn flag_names_round_trip() {
    let f = DebugFlags::from_names(&["inst", "token"]);
    let names = f.display_names();
    assert_eq!(names, vec!["token", "inst"]);
    assert_eq!(DebugFlags::from_names(&names).bits(), f.bits());
}

#[test]
fn reverse_twice_gives_the_value_back() {
    let v = Value::List(vec![Value::Char('a'), Value::Int(1)]);
    let once = reverse(&[v.clone()]).unwrap();
    assert_eq!(reverse(&[once]).unwrap(), v);
    let ints = Value::List(vec![Value::Int(1), Value::Int(2), Value::Int(3)]);
    let once = reverse(&[ints]).unwrap();
    assert_eq!(once, Value::IntList(vec![3, 2, 1]));
    assert_eq!(reverse(&[once]).unwrap(), Value::IntList(vec![1, 2, 3]));
}

#[test]
fn context_keeps_the_tokens() {
    let plain = Lexer::new("1+x").tokenize().unwrap();
    let ctx = Lexer::new("1+x").with_ctx("y:0\n1+x", 4).tokenize().unwrap();
    assert_eq!(plain.len(), ctx.len());
    for (a, b) in plain.iter().zip(ctx.iter()) {
        assert_eq!(a.token_type, b.token_type);
        assert_eq!((a.byte_start, a.byte_end), (b.byte_start, b.byte_end));
    }
}

#[test]
fn script_keeps_meta_lines_and_formats_code() {
    let fmt = Formatter::new(FormatConfig::default());
    assert_eq!(fmt.format_script("// c\n\n!p\n").unwrap(), "!p");
    assert_eq!(fmt.format_script("").unwrap(), "");
    assert!(fmt.format_script("\"abc").is_err());
    let out = fmt.format_script("!p\n1+2\n").unwrap();
    let code = fmt.format_source("1+2").unwrap();
    assert_eq!(out, format!("!p\n{}", code));
}

#[test]
fn prompt_commands_toggle_modes() {
    let m = ReplModes::new(false);
    let m = apply_command(m, &classify("!t"));
    assert!(m.time);
    let m = apply_command(m, &classify("!time"));
    assert!(!m.time);
    let m = apply_command(m, &classify("!w."));
    assert!(m.wqdb_once && !m.wqdb);
    let m2 = apply_command(m, &classify("1+2"));
    assert_eq!(m2, m);
}

#[test]
fn incomplete_input_keeps_the_buffer() {
    let mut m = ReplModes::new(false);
    m.time_once = true;
    let (n, a) = after_read(m, ReadOutcome::Incomplete);
    assert_eq!(a, BufferAction::KeepWithNewline);
    assert_eq!(n.line_number, 1);
    assert!(!n.time_once);
    let (n, a) = after_read(n, ReadOutcome::Finished);
    assert_eq!(a, BufferAction::Clear);
    assert_eq!(n.line_number, 2);
}

#[test]
fn floor_division_rounds_down() {
    let d = |a: i64, b: i64| fp_floor_div(&Value::Int(a), &Value::Int(b));
    assert_eq!(d(7, 2), Some(Value::Int(3)));
    assert_eq!(d(-7, 2), Some(Value::Int(-4)));
    assert_eq!(d(7, -2), Some(Value::Int(-4)));
    assert_eq!(d(-7, -2), Some(Value::Int(3)));
    assert_eq!(d(-6, 3), Some(Value::Int(-2)));
    assert_eq!(d(i64::MIN, 1), Some(Value::Int(i64::MIN)));
    assert_eq!(d(1, 0), None);
    let big = num_bigint::BigInt::from(i64::MAX) + num_bigint::BigInt::from(1);
    assert_eq!(d(i64::MIN, -1), Some(Value::BigInt(big)));
    assert_eq!(fp_floor_div(&Value::Int(1), &Value::Bool(true)), None);
}

#[test]
fn lexing_errors_are_syntax_errors() {
    assert_eq!(Lexer::new("\"abc").tokenize().unwrap_err().kind, WqErrorType::Syntax);
    let long = "1".repeat(400) + ".0";
    assert_eq!(Lexer::new(&long).tokenize().unwrap_err().kind, WqErrorType::Syntax);
}

#[test]
fn big_integer_tokens_hold_their_value() {
    let ts = Lexer::new("9223372036854775808").tokenize().unwrap();
    let big = num_bigint::BigInt::from(i64::MAX) + num_bigint::BigInt::from(1);
    assert_eq!(ts[0].token_type, TokenType::BigInteger(big));
    assert!(matches!(ts.last().unwrap().token_type, TokenType::Eof));
    assert!(ts[..ts.len() - 1].iter().all(|t| !matches!(t.token_type, TokenType::Eof)));
}

#[test]
fn argument_errors_name_the_argument() {
    let e = hex(&[Value::Int(1), Value::Int(255)]).unwrap_err();
    assert_eq!(e.kind, WqErrorType::Domain);
    assert_eq!(e.notes[0], "at arg #0");
    let e = keys(&[Value::Int(1)]).unwrap_err();
    assert_eq!(e.notes[0], "at arg #0");
    assert_eq!(e.msg, "expected dict");
    let d = Value::Dict(vec![("a".to_string(), Value::Int(1))]);
    let e = has_key(&[Value::Int(1), d.clone()]).unwrap_err();
    assert_eq!(e.notes[0], "at arg #0");
    let e = has_key(&[Value::Symbol("a".to_string()), Value::Int(1)]).unwrap_err();
    assert_eq!(e.notes[0], "at arg #1");
    assert_eq!(has_key(&[Value::Symbol("a".to_string()), d]).unwrap(), Value::Bool(true));
}
