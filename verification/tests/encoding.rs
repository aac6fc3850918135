use wqpl::builtins::encoding::{decode, decode_outcome, encode};
use wqpl::value::{str_value_of, Value};

#[test]
fn encode_decode_roundtrip() {
    let s = str_value_of("héllo");
    let b = encode(&[str_value_of("utf-8"), s.clone()]).unwrap();
    let d = decode(&[str_value_of("utf-8"), b]).unwrap();
    assert_eq!(d, s);
}

#[test]
fn encode_gives_byte_values() {
    let b = encode(&[str_value_of("latin1"), str_value_of("é")]).unwrap();
    assert_eq!(b, Value::IntList(vec![0xe9]));
    let u = encode(&[str_value_of("utf-8"), str_value_of("é")]).unwrap();
    assert_eq!(u, Value::IntList(vec![0xc3, 0xa9]));
}

#[test]
fn unknown_codec_and_mode_are_errors() {
    assert!(encode(&[str_value_of("no-such-codec"), str_value_of("a")]).is_err());
    assert!(decode(&[str_value_of("utf-8"), str_value_of("x"), Value::IntList(vec![65])]).is_err());
    assert!(decode(&[str_value_of("utf-8"), Value::IntList(vec![300])]).is_err());
}

#[test]
fn strict_decode_refuses_malformed_bytes() {
    assert!(decode(&[str_value_of("utf-8"), Value::IntList(vec![0xff])]).is_err());
    let r = decode(&[str_value_of("utf-8"), str_value_of("r"), Value::IntList(vec![0xff])]).unwrap();
    assert_eq!(r, str_value_of("\u{FFFD}"));
}

#[test]
fn decode_outcome_by_mode() {
    let strict: Vec<char> = "s".chars().collect();
    assert!(decode_outcome(&strict, "x".to_string(), true).is_err());
    assert_eq!(decode_outcome(&strict, "x".to_string(), false).unwrap(), str_value_of("x"));
}
