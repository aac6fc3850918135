//! Type builtins with a plain and a detailed type name.

use vstd::prelude::*;
use crate::builtins::typeb::{symbol_name, symbol_name_v, valid_symbol_name, is_valid_symbol_name, text_val, is_error};
use crate::error::{WqError, WqErrorType, WqResult};
use crate::text::{append_chars, append_str, chars_of, decimal_digits, string_from_chars, usize_to_decimal};
use crate::value::{Value, Val, type_label_v, is_str_v, str_value_of};

verus! {

/// The detailed name of a model's type: an integer list is `intlist`.
pub open spec fn type_name_verbose_v(v: Val) -> Seq<char> {
    match v {
        Val::IntList(_) => "intlist"@,
        _ => type_label_v(v),
    }
}

/// The message of an argument-count error: `<name> expects <expected>, got <n>`.
pub open spec fn arity_msg_v(name: Seq<char>, expected: Seq<char>, n: nat) -> Seq<char> {
    name + " expects "@ + expected + ", got "@ + decimal_digits(n)
}

/// An argument-count error.
pub fn arity_error(name: &str, expected: &str, got: usize) -> (e: WqError)
    ensures
        is_error(e, WqErrorType::Arity, arity_msg_v(name@, expected@, got as nat)),
{
    let mut m = chars_of(name);
    append_str(&mut m, " expects ");
    append_str(&mut m, expected);
    append_str(&mut m, ", got ");
    let d = usize_to_decimal(got);
    append_chars(&mut m, &d);
    WqError::new(WqErrorType::Arity).msg(string_from_chars(m.as_slice()).as_str())
}

fn type_name_verbose(v: &Value) -> (r: &'static str)
    ensures
        r@ == type_name_verbose_v(v@),
{
    match v {
        Value::IntList(_) => "intlist",
        _ => v.type_label(),
    }
}

/// `type[x]` with the detailed type name.
pub fn type_of_verbose(args: &[Value]) -> (r: WqResult<Value>)
    ensures
        args@.len() != 1 ==> (r matches Err(e) && is_error(e, WqErrorType::Arity, arity_msg_v("type"@, "1 argument"@, args@.len()))),
        args@.len() == 1 ==> (r matches Ok(v) && v@ == text_val(type_name_verbose_v(args@[0]@))),
{
    if args.len() != 1 {
        return Err(arity_error("type", "1 argument", args.len()));
    }
    Ok(str_value_of(type_name_verbose(&args[0])))
}

/// `type[x]` with the plain type name.
pub fn type_of_simple(args: &[Value]) -> (r: WqResult<Value>)
    ensures
        args@.len() != 1 ==> (r matches Err(e) && is_error(e, WqErrorType::Arity, arity_msg_v("type"@, "1 argument"@, args@.len()))),
        args@.len() == 1 ==> (r matches Ok(v) && v@ == text_val(type_label_v(args@[0]@))),
{
    if args.len() != 1 {
        return Err(arity_error("type", "1 argument", args.len()));
    }
    Ok(str_value_of(args[0].type_label()))
}

/// `symbol[x]`: the symbol named by a symbol, a character or a string.
pub fn to_symbol(args: &[Value]) -> (r: WqResult<Value>)
    ensures
        args@.len() != 1 ==> (r matches Err(e) && is_error(e, WqErrorType::Arity, arity_msg_v("symbol"@, "1 argument"@, args@.len()))),
        args@.len() == 1 ==> match symbol_name_v(args@[0]@) {
            None => r matches Err(e) && is_error(e, WqErrorType::Type, "symbol expects a string"@),
            Some(name) => if valid_symbol_name(name) {
                r matches Ok(v) && v@ == Val::Symbol(name)
            } else {
                r matches Err(e) && is_error(e, WqErrorType::Domain, "invalid symbol name: "@ + name)
            },
        },
{
    if args.len() != 1 {
        return Err(arity_error("symbol", "1 argument", args.len()));
    }
    match symbol_name(&args[0]) {
        None => Err(WqError::new(WqErrorType::Type).msg("symbol expects a string")),
        Some(name) => {
            if !is_valid_symbol_name(&name) {
                let mut m = chars_of("invalid symbol name: ");
                append_chars(&mut m, &name);
                return Err(WqError::new(WqErrorType::Domain).msg(string_from_chars(m.as_slice()).as_str()));
            }
            Ok(Value::Symbol(string_from_chars(name.as_slice())))
        },
    }
}

/// `isnull[x]`: whether the argument is the unit.
pub fn is_null(args: &[Value]) -> (r: WqResult<Value>)
    ensures
        args@.len() != 1 ==> (r matches Err(e) && is_error(e, WqErrorType::Arity, arity_msg_v("isnull"@, "1 argument"@, args@.len()))),
        args@.len() == 1 ==> (r matches Ok(v) && v@ == Val::Bool(args@[0]@ is Null)),
{
    if args.len() != 1 {
        return Err(arity_error("isnull", "1 argument", args.len()));
    }
    match &args[0] {
        Value::Null => Ok(Value::Bool(true)),
        _ => Ok(Value::Bool(false)),
    }
}

} // verus!
