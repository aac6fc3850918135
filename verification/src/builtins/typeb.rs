//! Type and character-code builtins in their self-contained form: each checks its own
//! argument count and raises plain errors.

use vstd::prelude::*;
use crate::error::{WqError, WqErrorType, WqResult};
use crate::lexspec::is_scalar;
use crate::text::{append_chars, chars_of, string_from_chars, unicode_alphanumeric, is_alphanumeric, char_at_index};
use crate::value::{Value, Val, vals, char_vals, char_val, is_str_v, chars_of_v, type_label_v, display_v, str_value, str_value_of, lemma_vals_push, lemma_list_view};

verus! {

/// Why a conversion of a value failed: a number out of range, or a value of the wrong type.
#[derive(Debug, Clone, Copy, PartialEq, Eq, Structural)]
pub enum ConvFail {
    Domain,
    Type,
}

/// The character with a code (the code taken modulo 2^32, as `as u32` does), if it is a
/// Unicode scalar value.
pub open spec fn code_char_v(n: i64) -> Option<char> {
    if is_scalar((n as u32) as int) {
        Some((n as u32) as char)
    } else {
        None
    }
}

/// The characters of the codes `ns[..k]`; the first code that is no character fails.
pub open spec fn chr_ints_v(ns: Seq<i64>, k: int) -> Result<Seq<Val>, ConvFail>
    decreases k,
{
    if k <= 0 || k > ns.len() {
        Ok(Seq::empty())
    } else {
        match chr_ints_v(ns, k - 1) {
            Err(e) => Err(e),
            Ok(p) => match code_char_v(ns[k - 1]) {
                Some(c) => Ok(p.push(char_val(c))),
                None => Err(ConvFail::Domain),
            },
        }
    }
}

/// The characters of the elements `items[..k]`, which must be integer codes.
pub open spec fn chr_items_v(items: Seq<Val>, k: int) -> Result<Seq<Val>, ConvFail>
    decreases k,
{
    if k <= 0 || k > items.len() {
        Ok(Seq::empty())
    } else {
        match chr_items_v(items, k - 1) {
            Err(e) => Err(e),
            Ok(p) => match items[k - 1] {
                Val::Int(n) => match code_char_v(n) {
                    Some(c) => Ok(p.push(char_val(c))),
                    None => Err(ConvFail::Domain),
                },
                _ => Err(ConvFail::Type),
            },
        }
    }
}

/// The character of a code, or the list of the characters of a list of codes.
pub open spec fn chr_v(v: Val) -> Result<Val, ConvFail> {
    match v {
        Val::Int(n) => match code_char_v(n) {
            Some(c) => Ok(Val::Char(c)),
            None => Err(ConvFail::Domain),
        },
        Val::IntList(ns) => match chr_ints_v(ns, ns.len() as int) {
            Ok(cs) => Ok(Val::List(cs)),
            Err(e) => Err(e),
        },
        Val::List(items) => match chr_items_v(items, items.len() as int) {
            Ok(cs) => Ok(Val::List(cs)),
            Err(e) => Err(e),
        },
        _ => Err(ConvFail::Type),
    }
}

/// The code of a character.
pub open spec fn char_code(c: char) -> i64 {
    (c as u32) as i64
}

/// The codes of the characters of a text.
pub open spec fn codes_of(s: Seq<char>) -> Seq<i64> {
    Seq::new(s.len(), |i: int| char_code(s[i]))
}

/// The code of a character, or the codes of a list of characters or of a symbol's name.
pub open spec fn ord_v(v: Val) -> Option<Val> {
    match v {
        Val::Char(c) => Some(Val::Int(char_code(c))),
        Val::List(items) => if is_str_v(v) {
            Some(Val::IntList(codes_of(chars_of_v(items))))
        } else {
            None
        },
        Val::Symbol(s) => Some(Val::IntList(codes_of(s))),
        _ => None,
    }
}

/// Whether a character may stand in a symbol: a letter or digit, `_` or `?`.
pub open spec fn symbol_char(c: char) -> bool {
    unicode_alphanumeric(c) || c == '_' || c == '?'
}

/// The name a value gives a symbol: a symbol's own, a character, or a string.
pub open spec fn symbol_name_v(v: Val) -> Option<Seq<char>> {
    match v {
        Val::Symbol(s) => Some(s),
        Val::Char(c) => Some(seq![c]),
        Val::List(items) => if is_str_v(v) {
            Some(chars_of_v(items))
        } else {
            None
        },
        _ => None,
    }
}

/// Whether a name is a valid symbol name: not empty, and made of symbol characters.
pub open spec fn valid_symbol_name(s: Seq<char>) -> bool {
    s.len() > 0 && forall|i: int| 0 <= i < s.len() ==> #[trigger] symbol_char(s[i])
}

/// The string value of a text.
pub open spec fn text_val(t: Seq<char>) -> Val {
    Val::List(char_vals(t))
}

/// An error with a class and a message.
pub open spec fn is_error(e: WqError, kind: WqErrorType, msg: Seq<char>) -> bool {
    e.kind == kind && e.msg@ == msg
}

/// Converts a code to a character.
pub fn code_char(n: i64) -> (r: Option<char>)
    ensures
        r == code_char_v(n),
{
    let u = n as u32;
    crate::lexer::char_from_u32(u)
}

/// The character of a code, or the list of the characters of a list of codes.
pub fn chr_value(v: &Value) -> (r: Result<Value, ConvFail>)
    ensures
        match chr_v(v@) {
            Ok(w) => r matches Ok(x) && x@ == w,
            Err(e) => r == Err::<Value, ConvFail>(e),
        },
{
    match v {
        Value::Int(n) => match code_char(*n) {
            Some(c) => Ok(Value::Char(c)),
            None => Err(ConvFail::Domain),
        },
        Value::IntList(ns) => {
            let mut out: Vec<Value> = Vec::new();
            let mut i: usize = 0;
            assert(vals(out@) =~= Seq::<Val>::empty());
            while i < ns.len()
                invariant
                    i <= ns.len(),
                    v@ == Val::IntList(ns@),
                    chr_ints_v(ns@, i as int) == Ok::<Seq<Val>, ConvFail>(vals(out@)),
                decreases ns.len() - i,
            {
                match code_char(ns[i]) {
                    Some(c) => {
                        let x = Value::Char(c);
                        let ghost before = out@;
                        out.push(x);
                        proof {
                            lemma_vals_push(before, x);
                        }
                    },
                    None => {
                        proof {
                            lemma_chr_ints_err(ns@, i as int + 1, ns@.len() as int);
                        }
                        return Err(ConvFail::Domain);
                    },
                }
                i += 1;
            }
            proof {
                lemma_list_view(out);
            }
            Ok(Value::List(out))
        },
        Value::List(items) => {
            proof {
                lemma_list_view(*items);
            }
            let mut out: Vec<Value> = Vec::new();
            let mut i: usize = 0;
            assert(vals(out@) =~= Seq::<Val>::empty());
            while i < items.len()
                invariant
                    i <= items.len(),
                    v@ == Val::List(vals(items@)),
                    chr_items_v(vals(items@), i as int) == Ok::<Seq<Val>, ConvFail>(vals(out@)),
                decreases items.len() - i,
            {
                match &items[i] {
                    Value::Int(n) => match code_char(*n) {
                        Some(c) => {
                            let x = Value::Char(c);
                            let ghost before = out@;
                            out.push(x);
                            proof {
                                lemma_vals_push(before, x);
                            }
                        },
                        None => {
                            proof {
                                lemma_chr_items_err(vals(items@), i as int + 1, items@.len() as int);
                            }
                            return Err(ConvFail::Domain);
                        },
                    },
                    _ => {
                        proof {
                            lemma_chr_items_err(vals(items@), i as int + 1, items@.len() as int);
                        }
                        return Err(ConvFail::Type);
                    },
                }
                i += 1;
            }
            proof {
                lemma_list_view(out);
            }
            Ok(Value::List(out))
        },
        _ => Err(ConvFail::Type),
    }
}

proof fn lemma_chr_ints_err(ns: Seq<i64>, k: int, n: int)
    requires
        1 <= k <= n <= ns.len(),
        chr_ints_v(ns, k) is Err,
    ensures
        chr_ints_v(ns, n) == chr_ints_v(ns, k),
    decreases n - k,
{
    if k < n {
        lemma_chr_ints_err(ns, k + 1, n);
    }
}

proof fn lemma_chr_items_err(items: Seq<Val>, k: int, n: int)
    requires
        1 <= k <= n <= items.len(),
        chr_items_v(items, k) is Err,
    ensures
        chr_items_v(items, n) == chr_items_v(items, k),
    decreases n - k,
{
    if k < n {
        lemma_chr_items_err(items, k + 1, n);
    }
}

/// The code of a character.
fn code_of(c: char) -> (r: i64)
    ensures
        r == char_code(c),
{
    let u = c as u32;
    u as i64
}

/// The codes of the characters of a text.
fn codes_chars(s: &Vec<char>) -> (r: Vec<i64>)
    ensures
        r@ == codes_of(s@),
{
    let mut out: Vec<i64> = Vec::new();
    let mut i: usize = 0;
    while i < s.len()
        invariant
            i <= s.len(),
            out@ =~= codes_of(s@.take(i as int)),
        decreases s.len() - i,
    {
        let c = char_at_index(s, i);
        out.push(code_of(c));
        assert(codes_of(s@.take(i + 1)) =~= codes_of(s@.take(i as int)).push(char_code(c)));
        i += 1;
    }
    assert(s@.take(s@.len() as int) =~= s@);
    out
}

/// The code of a character, or the codes of a string or of a symbol's name.
pub fn ord_value(v: &Value) -> (r: Option<Value>)
    ensures
        match ord_v(v@) {
            Some(w) => r matches Some(x) && x@ == w,
            None => r is None,
        },
{
    match v {
        Value::Char(c) => Some(Value::Int(code_of(*c))),
        Value::List(items) => {
            if !v.is_str() {
                return None;
            }
            let t = v.display_chars();
            let cs = codes_chars(&t);
            Some(Value::IntList(cs))
        },
        Value::Symbol(s) => {
            let t = chars_of(s.as_str());
            let cs = codes_chars(&t);
            Some(Value::IntList(cs))
        },
        _ => None,
    }
}

/// The name a value gives a symbol.
pub fn symbol_name(v: &Value) -> (r: Option<Vec<char>>)
    ensures
        match symbol_name_v(v@) {
            Some(t) => r matches Some(x) && x@ == t,
            None => r is None,
        },
{
    match v {
        Value::Symbol(s) => Some(chars_of(s.as_str())),
        Value::Char(c) => {
            let mut out: Vec<char> = Vec::new();
            out.push(*c);
            assert(out@ =~= seq![*c]);
            Some(out)
        },
        Value::List(_) => if v.is_str() {
            Some(v.display_chars())
        } else {
            None
        },
        _ => None,
    }
}

/// Whether a name is a valid symbol name.
pub fn is_valid_symbol_name(s: &Vec<char>) -> (r: bool)
    ensures
        r == valid_symbol_name(s@),
{
    if s.len() == 0 {
        return false;
    }
    let mut i: usize = 0;
    while i < s.len()
        invariant
            i <= s.len(),
            forall|k: int| 0 <= k < i ==> #[trigger] symbol_char(s@[k]),
        decreases s.len() - i,
    {
        let c = s[i];
        if !(is_alphanumeric(c) || c == '_' || c == '?') {
            assert(!symbol_char(s@[i as int]));
            return false;
        }
        i += 1;
    }
    true
}

/// An error with a class and a message.
fn plain_error(kind: WqErrorType, msg: &str) -> (e: WqError)
    ensures
        is_error(e, kind, msg@),
{
    WqError::new(kind).msg(msg)
}

/// `type[x]`: the name of the type of the argument, as a string.
pub fn type_of(args: &[Value]) -> (r: WqResult<Value>)
    ensures
        args@.len() != 1 ==> (r matches Err(e) && is_error(e, WqErrorType::Arity, "type expects 1 argument"@)),
        args@.len() == 1 ==> (r matches Ok(v) && v@ == text_val(type_label_v(args@[0]@))),
{
    if args.len() != 1 {
        return Err(plain_error(WqErrorType::Arity, "type expects 1 argument"));
    }
    Ok(str_value_of(args[0].type_label()))
}

/// `symbol[x]`: the symbol named by a symbol, a character or a string; the name must be
/// non-empty and made of letters, digits, `_` and `?`.
pub fn to_symbol(args: &[Value]) -> (r: WqResult<Value>)
    ensures
        args@.len() != 1 ==> (r matches Err(e) && is_error(e, WqErrorType::Arity, "symbol expects 1 argument"@)),
        args@.len() == 1 ==> match symbol_name_v(args@[0]@) {
            None => r matches Err(e) && is_error(e, WqErrorType::Type, "symbol expects a string"@),
            Some(name) => if valid_symbol_name(name) {
                r matches Ok(v) && v@ == Val::Symbol(name)
            } else {
                r matches Err(e) && is_error(e, WqErrorType::Domain, "invalid symbol name: "@ + name)
            },
        },
{
    if args.len() != 1 {
        return Err(plain_error(WqErrorType::Arity, "symbol expects 1 argument"));
    }
    match symbol_name(&args[0]) {
        None => Err(plain_error(WqErrorType::Type, "symbol expects a string")),
        Some(name) => {
            if !is_valid_symbol_name(&name) {
                let mut m = chars_of("invalid symbol name: ");
                append_chars(&mut m, &name);
                return Err(WqError::new(WqErrorType::Domain).msg(string_from_chars(m.as_slice()).as_str()));
            }
            Ok(Value::Symbol(string_from_chars(name.as_slice())))
        },
    }
}

/// `string[x]`: a character or a string as it is; any other value as its text.
pub fn to_string(args: &[Value]) -> (r: WqResult<Value>)
    ensures
        args@.len() != 1 ==> (r matches Err(e) && is_error(e, WqErrorType::Arity, "string expects 1 argument"@)),
        args@.len() == 1 ==> (r matches Ok(v) && v@ == match args@[0]@ {
            Val::Char(c) => Val::Char(c),
            _ => if is_str_v(args@[0]@) {
                args@[0]@
            } else {
                text_val(display_v(args@[0]@))
            },
        }),
{
    if args.len() != 1 {
        return Err(plain_error(WqErrorType::Arity, "string expects 1 argument"));
    }
    match &args[0] {
        Value::Char(c) => Ok(Value::Char(*c)),
        a => {
            if a.is_str() {
                Ok(a.clone())
            } else {
                let t = a.display_chars();
                Ok(str_value(&t))
            }
        },
    }
}

/// `chr[xs]`: the character of a code, or the characters of a list of codes.
pub fn chr(args: &[Value]) -> (r: WqResult<Value>)
    ensures
        args@.len() != 1 ==> (r matches Err(e) && is_error(e, WqErrorType::Arity, "chr expects 1 argument"@)),
        args@.len() == 1 ==> match chr_v(args@[0]@) {
            Ok(w) => r matches Ok(v) && v@ == w,
            Err(ConvFail::Domain) => r matches Err(e) && is_error(e, WqErrorType::Domain, "invalid char code"@),
            Err(ConvFail::Type) => r matches Err(e) && e.kind == WqErrorType::Type,
        },
{
    if args.len() != 1 {
        return Err(plain_error(WqErrorType::Arity, "chr expects 1 argument"));
    }
    match chr_value(&args[0]) {
        Ok(v) => Ok(v),
        Err(ConvFail::Domain) => Err(plain_error(WqErrorType::Domain, "invalid char code")),
        Err(ConvFail::Type) => match &args[0] {
            Value::List(_) => Err(plain_error(WqErrorType::Type, "chr expects integers or list of integers")),
            _ => Err(plain_error(WqErrorType::Type, "chr expects an integer")),
        },
    }
}

/// `ord[x]`: the code of a character, or the codes of a string or of a symbol's name.
pub fn ord(args: &[Value]) -> (r: WqResult<Value>)
    ensures
        args@.len() != 1 ==> (r matches Err(e) && is_error(e, WqErrorType::Arity, "ord expects 1 argument"@)),
        args@.len() == 1 ==> match ord_v(args@[0]@) {
            Some(w) => r matches Ok(v) && v@ == w,
            None => r matches Err(e) && e.kind == WqErrorType::Type,
        },
{
    if args.len() != 1 {
        return Err(plain_error(WqErrorType::Arity, "ord expects 1 argument"));
    }
    match ord_value(&args[0]) {
        Some(v) => Ok(v),
        None => match &args[0] {
            Value::List(_) => Err(plain_error(WqErrorType::Type, "ord expects characters or list of characters")),
            _ => Err(plain_error(WqErrorType::Type, "ord expects a character or string")),
        },
    }
}

/// `isnull[x]`: whether the argument is the unit.
pub fn is_null(args: &[Value]) -> (r: WqResult<Value>)
    ensures
        args@.len() != 1 ==> (r matches Err(e) && is_error(e, WqErrorType::Arity, "isnull expects 1 argument"@)),
        args@.len() == 1 ==> (r matches Ok(v) && v@ == Val::Bool(args@[0]@ is Null)),
{
    if args.len() != 1 {
        return Err(plain_error(WqErrorType::Arity, "isnull expects 1 argument"));
    }
    match &args[0] {
        Value::Null => Ok(Value::Bool(true)),
        _ => Ok(Value::Bool(false)),
    }
}

} // verus!
