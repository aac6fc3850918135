use wqpl::builtins::str_builtins::{fmt, graphemes, is_whitespace, to_str, trim, trim_end, trim_start, words};
use wqpl::builtins::string::format_string;
use wqpl::value::{str_value_of, Value};

fn s(text: &str) -> Value {
    Value::List(text.chars().map(Value::Char).collect())
}

#[test]
fn str_interpolation() {
    let test = s("x = {}");
    let res = fmt(&[test, Value::Int(5)]).unwrap();
    assert_eq!(res, s("x = 5"));
}

#[test]
fn str_escape_braces() {
    let res = fmt(&[s("{{}}")]).unwrap();
    assert_eq!(res, s("{}"));
}

#[test]
fn test_graphemes() {
    assert_eq!(graphemes(&[s("hello")]).unwrap(), Value::Int(5));
    assert_eq!(graphemes(&[s("café")]).unwrap(), Value::Int(4));
    assert_eq!(graphemes(&[s("👨‍👩‍👧‍👦")]).unwrap(), Value::Int(1));
}

#[test]
fn newline_escape() {
    let res = format_string(&[s("\\n")]).unwrap();
    assert_eq!(res, s("\n"));
}

#[test]
fn escape_backslash_n() {
    let res = format_string(&[s("\\\\n")]).unwrap();
    assert_eq!(res, s("\\n"));
}

#[test]
fn string_interpolation() {
    let res = format_string(&[s("x = {}"), Value::Int(5)]).unwrap();
    assert_eq!(res, s("x = 5"));
}

#[test]
fn string_escape_braces() {
    let res = format_string(&[s("{{}}")]).unwrap();
    assert_eq!(res, s("{}"));
}

#[test]
fn format_string_argument_count_errors() {
    assert!(format_string(&[s("{} {}"), Value::Int(1)]).is_err());
    assert!(format_string(&[s("{}"), Value::Int(1), Value::Int(2)]).is_err());
    assert!(format_string(&[]).is_err());
    assert_eq!(format_string(&[s("a{b}c")]).unwrap(), s("a{b}c"));
}

#[test]
fn fmt_errors() {
    assert!(fmt(&[]).is_err());
    assert!(fmt(&[s("{")]).is_err());
    assert!(fmt(&[s("}")]).is_err());
    assert!(fmt(&[s("{}")]).is_err());
    assert!(fmt(&[Value::Int(3)]).is_err());
}

#[test]
fn fmt_puts_strings_raw() {
    let res = fmt(&[s("<{}|{}>"), s("ab"), Value::Char('c')]).unwrap();
    assert_eq!(res, s("<ab|c>"));
}

#[test]
fn words_drop_whitespace_pieces() {
    let res = words(&[s("The quick  fox")]).unwrap();
    assert_eq!(res, Value::List(vec![s("The"), s("quick"), s("fox")]));
}

#[test]
fn trims() {
    assert_eq!(trim(&[s("  a b \n")]).unwrap(), s("a b"));
    assert_eq!(trim_start(&[s("  a ")]).unwrap(), s("a "));
    assert_eq!(trim_end(&[s("  a ")]).unwrap(), s("  a"));
    assert!(trim(&[Value::Int(1)]).is_err());
}

#[test]
fn to_str_of_string_and_int() {
    assert_eq!(to_str(&[s("hi")]).unwrap(), s("hi"));
    assert_eq!(to_str(&[Value::Int(42)]).unwrap(), str_value_of("42"));
}

#[test]
fn whitespace_query() {
    assert_eq!(is_whitespace(&[Value::Char(' ')]).unwrap(), Value::Bool(true));
    assert_eq!(is_whitespace(&[Value::Char('x')]).unwrap(), Value::Bool(false));
    assert!(is_whitespace(&[Value::Int(1)]).is_err());
}
