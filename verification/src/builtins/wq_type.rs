//! Type builtins of the registry: `type`, `symbol`, `atom?`, `unit?`.

use vstd::prelude::*;
use crate::builtin_table::{TYPE, SYMBOL, ATOM_Q, UNIT_Q};
use crate::builtins::typeb::text_val;
use crate::builtins::wqerror_helper::{check_arity, is_arity_error, builtin_src, builtin_src_v};
use crate::error::{WqError, WqErrorType, WqResult};
use crate::text::string_from_chars;
use crate::value::{Value, Val, type_label_v, text_of_v, is_empty_v, is_atom_v, str_value_of};

verus! {

/// `type[x]`: the name of the type of the argument, as a string.
pub fn type_of(args: &[Value]) -> (r: WqResult<Value>)
    ensures
        args@.len() != 1 ==> (r matches Err(e) && is_arity_error(e, TYPE as int, seq![1usize], args@.len())),
        args@.len() == 1 ==> (r matches Ok(v) && v@ == text_val(type_label_v(args@[0]@))),
{
    let arity: [usize; 1] = [1];
    assert(arity@ =~= seq![1usize]);
    check_arity(TYPE, &arity, args)?;
    Ok(str_value_of(args[0].type_label()))
}

/// `symbol[x]`: a symbol as it is; the symbol named by a string or a character otherwise.
/// An empty value is refused.
pub fn to_symbol(args: &[Value]) -> (r: WqResult<Value>)
    ensures
        args@.len() != 1 ==> (r matches Err(e) && is_arity_error(e, SYMBOL as int, seq![1usize], args@.len())),
        args@.len() == 1 ==> if is_empty_v(args@[0]@) {
            r matches Err(e) && e.kind == WqErrorType::Domain && e.msg@ == "symbol cannot be empty"@
        } else if args@[0]@ is Symbol {
            r matches Ok(v) && v@ == args@[0]@
        } else {
            match text_of_v(args@[0]@) {
                Some(t) => r matches Ok(v) && v@ == Val::Symbol(t),
                None => r matches Err(e) && e.src@ == builtin_src_v(SYMBOL as int),
            }
        },
{
    let arity: [usize; 1] = [1];
    assert(arity@ =~= seq![1usize]);
    check_arity(SYMBOL, &arity, args)?;
    let input = &args[0];
    if input.is_empty() {
        return Err(WqError::new(WqErrorType::Domain).src(builtin_src(SYMBOL).as_str()).msg(
            "symbol cannot be empty",
        ));
    }
    match input {
        Value::Symbol(_) => {
            return Ok(input.clone());
        },
        _ => {},
    }
    match input.try_to_string() {
        Ok(name) => Ok(Value::Symbol(name)),
        Err(e) => Err(e.src(builtin_src(SYMBOL).as_str()).at_arg(0)),
    }
}

/// `atom?[x]`: whether the argument is neither a list nor a dictionary.
pub fn is_atom(args: &[Value]) -> (r: WqResult<Value>)
    ensures
        args@.len() != 1 ==> (r matches Err(e) && is_arity_error(e, ATOM_Q as int, seq![1usize], args@.len())),
        args@.len() == 1 ==> (r matches Ok(v) && v@ == Val::Bool(is_atom_v(args@[0]@))),
{
    let arity: [usize; 1] = [1];
    assert(arity@ =~= seq![1usize]);
    check_arity(ATOM_Q, &arity, args)?;
    Ok(Value::Bool(args[0].is_atom()))
}

/// `unit?[x]`: whether the argument is the unit or an empty list or dictionary.
pub fn is_unit(args: &[Value]) -> (r: WqResult<Value>)
    ensures
        args@.len() != 1 ==> (r matches Err(e) && is_arity_error(e, UNIT_Q as int, seq![1usize], args@.len())),
        args@.len() == 1 ==> (r matches Ok(v) && v@ == Val::Bool(is_empty_v(args@[0]@))),
{
    let arity: [usize; 1] = [1];
    assert(arity@ =~= seq![1usize]);
    check_arity(UNIT_Q, &arity, args)?;
    Ok(Value::Bool(args[0].is_empty()))
}

} // verus!
