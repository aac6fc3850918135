use wqpl::builtins::core_builtins::bfn;
use wqpl::builtins::Builtins;
use wqpl::builtins::system::show_table;
use wqpl::collate::{sort_texts, text_le_exec};
use wqpl::colored::{format_msg, msg_color, Color, Colorize, MsgType};
use wqpl::value::Value;

fn chars(s: &str) -> Vec<char> {
    s.chars().collect()
}

#[test]
fn bfn_lists_enabled_builtins_sorted() {
    let b = Builtins::new();
    let r = bfn(&b, &[]).unwrap();
    let names: Vec<String> = match r {
        Value::List(items) => items
            .iter()
            .map(|v| match v {
                Value::List(cs) => cs
                    .iter()
                    .map(|c| match c {
                        Value::Char(ch) => *ch,
                        _ => panic!("not a char"),
                    })
                    .collect(),
                _ => panic!("not a string"),
            })
            .collect(),
        _ => panic!("not a list"),
    };
    let mut expected = b.list_functions();
    expected.sort();
    assert_eq!(names, expected);
    assert!(names.contains(&"len".to_string()));
    assert!(bfn(&b, &[Value::Int(1)]).is_err());
}

#[test]
fn texts_sort_by_code_point() {
    let v = vec![chars("b"), chars("ab"), chars("a"), chars("B")];
    let s = sort_texts(v);
    assert_eq!(s, vec![chars("B"), chars("a"), chars("ab"), chars("b")]);
    assert!(text_le_exec(&chars("a"), &chars("ab")));
    assert!(!text_le_exec(&chars("b"), &chars("ab")));
}

#[test]
fn messages_are_laid_out_over_lines() {
    let m: String = format_msg("one\ntwo\r\nthree\n").into_iter().collect();
    assert_eq!(m, "\u{258D} one\n  two\n  three");
    let e: String = format_msg("").into_iter().collect();
    assert_eq!(e, "");
    assert_eq!(msg_color(MsgType::Error), Some(Color::Red));
    assert_eq!(msg_color(MsgType::Success), None);
}

#[test]
fn plain_styles_keep_the_text() {
    let s = "hello".to_string();
    assert_eq!(s.red(), "hello");
    assert_eq!(s.color(Color::Purple), "hello");
    assert_eq!(s.bold(), "hello");
}

#[test]
fn show_table_of_dict_of_columns() {
    let d = Value::Dict(vec![
        ("bb".to_string(), Value::Int(3)),
        ("a".to_string(), Value::IntList(vec![1, 22])),
    ]);
    let lines = show_table(&[d]).unwrap();
    assert_eq!(lines, vec!["a  bb".to_string(), "1  3".to_string(), "22".to_string()]);
}

#[test]
fn show_table_of_list_of_dicts() {
    let l = Value::List(vec![
        Value::Dict(vec![("x".to_string(), Value::Int(1))]),
        Value::Dict(vec![("y".to_string(), Value::Int(2)), ("x".to_string(), Value::Int(3))]),
    ]);
    let lines = show_table(&[l]).unwrap();
    assert_eq!(lines, vec!["x y".to_string(), "1".to_string(), "3 2".to_string()]);
    assert!(show_table(&[Value::Int(1)]).is_err());
    assert!(show_table(&[Value::List(vec![Value::Int(1)])]).is_err());
    assert!(show_table(&[]).is_err());
}
