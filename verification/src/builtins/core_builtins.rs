//! Core builtins: output text, the input prompt, character codes, number bases, raising.

use vstd::prelude::*;
use crate::builtin_table::{INPUT, BFN, CHR, ORD, INT, BIN, OCT, HEX, RAISE, BUILTIN_COUNT};
use crate::bigint::{bigint_from_str_radix, bigint_neg, bigint_to_i64, bigint_value, str_radix_accepts, str_radix_value};
use crate::builtins::{Builtins, enabled_names};
use crate::collate::{sort_texts, text_order, texts_of};
use crate::builtins::typeb::{ConvFail, chr_v, ord_v, chr_value, ord_value, text_val};
use crate::builtins::wqerror_helper::{check_arity, is_arity_error, is_type_mismatch, arity_ok, type_mismatch, builtin_src, builtin_src_v};
use crate::error::{WqError, WqErrorType, WqResult};
use crate::text::{append_chars, append_str, chars_of, string_from_chars, char_at_index, trim_chars, trim_v, sub_chars};
use crate::value::{Value, Val, vals, text_of_v, display_v, str_value, lemma_vals_push, lemma_list_view};

verus! {

/// The text a value is written as: a string-like value as its characters, any other as its
/// text.
pub open spec fn out_text_v(v: Val) -> Seq<char> {
    match text_of_v(v) {
        Some(t) => t,
        None => display_v(v),
    }
}

/// The text a value is written as.
pub fn out_text(v: &Value) -> (r: String)
    ensures
        r@ == out_text_v(v@),
{
    match v.try_to_string() {
        Ok(s) => s,
        Err(_) => {
            let t = v.display_chars();
            string_from_chars(t.as_slice())
        },
    }
}

/// `print[value*]`: the texts to write, one for each argument, with nothing between them;
/// the builtin's value is the unit.
pub fn print(args: &[Value]) -> (r: Vec<String>)
    ensures
        r@.len() == args@.len(),
        forall|i: int| 0 <= i < r@.len() ==> (#[trigger] r@[i])@ == out_text_v(args@[i]@),
{
    let mut out: Vec<String> = Vec::new();
    let mut i: usize = 0;
    while i < args.len()
        invariant
            i <= args.len(),
            out@.len() == i,
            forall|k: int| 0 <= k < i ==> (#[trigger] out@[k])@ == out_text_v(args@[k]@),
        decreases args.len() - i,
    {
        out.push(out_text(&args[i]));
        i += 1;
    }
    out
}

/// `echo[value*]`: the lines to write, one for each argument (one empty line for none);
/// the builtin's value is the unit.
pub fn echo(args: &[Value]) -> (r: Vec<String>)
    ensures
        args@.len() == 0 ==> r@.len() == 1 && r@[0]@.len() == 0,
        args@.len() > 0 ==> r@.len() == args@.len() && forall|i: int|
            0 <= i < r@.len() ==> (#[trigger] r@[i])@ == out_text_v(args@[i]@),
{
    if args.len() == 0 {
        let mut out: Vec<String> = Vec::new();
        out.push(String::new());
        return out;
    }
    print(args)
}

/// `input[prompt?]`: the prompt to show before reading a line (empty without an argument).
/// The line read is the builtin's value, as a string; the unit at the end of input.
pub fn input(args: &[Value]) -> (r: WqResult<String>)
    ensures
        !arity_ok(seq![0usize, 1usize], args@.len()) ==> (r matches Err(e) && is_arity_error(
            e,
            INPUT as int,
            seq![0usize, 1usize],
            args@.len(),
        )),
        args@.len() == 0 ==> (r matches Ok(p) && p@.len() == 0),
        args@.len() == 1 ==> match text_of_v(args@[0]@) {
            Some(t) => r matches Ok(p) && p@ == t,
            None => r matches Err(e) && e.src@ == builtin_src_v(INPUT as int),
        },
{
    let arity: [usize; 2] = [0, 1];
    assert(arity@ =~= seq![0usize, 1usize]);
    check_arity(INPUT, &arity, args)?;
    if args.len() == 1 {
        match args[0].try_to_string() {
            Ok(s) => Ok(s),
            Err(e) => Err(e.src(builtin_src(INPUT).as_str())),
        }
    } else {
        Ok(String::new())
    }
}

/// What `chr` and `ord` raise where a conversion fails.
pub open spec fn conv_error_ok(e: WqError, id: int, f: ConvFail) -> bool {
    &&& e.src@ == builtin_src_v(id)
    &&& e.kind == match f {
        ConvFail::Domain => WqErrorType::Domain,
        ConvFail::Type => WqErrorType::Type,
    }
}

/// `chr[xs]`: the character of a code, or the characters of a list of codes.
pub fn chr(args: &[Value]) -> (r: WqResult<Value>)
    ensures
        args@.len() != 1 ==> (r matches Err(e) && is_arity_error(e, CHR as int, seq![1usize], args@.len())),
        args@.len() == 1 ==> match chr_v(args@[0]@) {
            Ok(w) => r matches Ok(v) && v@ == w,
            Err(f) => r matches Err(e) && conv_error_ok(e, CHR as int, f),
        },
{
    let arity: [usize; 1] = [1];
    assert(arity@ =~= seq![1usize]);
    check_arity(CHR, &arity, args)?;
    match chr_value(&args[0]) {
        Ok(v) => Ok(v),
        Err(ConvFail::Domain) => Err(WqError::new(WqErrorType::Domain).src(builtin_src(CHR).as_str()).msg(
            "invalid char code",
        )),
        Err(ConvFail::Type) => Err(WqError::new(WqErrorType::Type).src(builtin_src(CHR).as_str()).msg(
            "expected int or list of ints",
        )),
    }
}

/// `ord[xs]`: the code of a character, or the codes of a string or a symbol's name.
pub fn ord(args: &[Value]) -> (r: WqResult<Value>)
    ensures
        args@.len() != 1 ==> (r matches Err(e) && is_arity_error(e, ORD as int, seq![1usize], args@.len())),
        args@.len() == 1 ==> match ord_v(args@[0]@) {
            Some(w) => r matches Ok(v) && v@ == w,
            None => r matches Err(e) && conv_error_ok(e, ORD as int, ConvFail::Type),
        },
{
    let arity: [usize; 1] = [1];
    assert(arity@ =~= seq![1usize]);
    check_arity(ORD, &arity, args)?;
    match ord_value(&args[0]) {
        Some(v) => Ok(v),
        None => Err(WqError::new(WqErrorType::Type).src(builtin_src(ORD).as_str()).msg(
            "expected char or string",
        )),
    }
}

/// The digit of a value below 16.
pub open spec fn digit_char(d: nat) -> char {
    if d < 10 {
        ((d + '0' as nat) as u32) as char
    } else {
        ((d - 10 + 'a' as nat) as u32) as char
    }
}

/// The digits of a number in a radix, most significant first.
pub open spec fn radix_digits(n: nat, radix: nat) -> Seq<char>
    decreases n,
{
    if radix < 2 || n < radix {
        seq![digit_char(n)]
    } else {
        proof {
            assert(n / radix < n) by (nonlinear_arith)
                requires
                    radix >= 2,
                    n >= radix,
            ;
        }
        radix_digits(n / radix, radix).push(digit_char(n % radix))
    }
}

/// The prefix of a radix: `0b`, `0o` or `0x`.
pub open spec fn radix_prefix(radix: nat) -> Seq<char> {
    if radix == 2 {
        "0b"@
    } else if radix == 8 {
        "0o"@
    } else {
        "0x"@
    }
}

/// An integer in a radix: a `-` for a negative number, the prefix where asked for, then the
/// digits of its magnitude.
pub open spec fn radix_text(n: i64, radix: nat, prefix: bool) -> Seq<char> {
    (if n < 0 { "-"@ } else { Seq::empty() }) + (if prefix { radix_prefix(radix) } else { Seq::empty() })
        + radix_digits(if n < 0 { (-(n as int)) as nat } else { n as nat }, radix)
}

/// The texts of the integers `ns[..k]` in a radix.
pub open spec fn radix_list_v(ns: Seq<i64>, radix: nat, prefix: bool, k: int) -> Seq<Val>
    decreases k,
{
    if k <= 0 || k > ns.len() {
        Seq::empty()
    } else {
        radix_list_v(ns, radix, prefix, k - 1).push(text_val(radix_text(ns[k - 1], radix, prefix)))
    }
}

/// An integer, or a list of integers, in a radix.
pub open spec fn radix_v(v: Val, radix: nat, prefix: bool) -> Option<Val> {
    match v {
        Val::Int(n) => Some(text_val(radix_text(n, radix, prefix))),
        Val::IntList(ns) => Some(Val::List(radix_list_v(ns, radix, prefix, ns.len() as int))),
        _ => None,
    }
}

fn digit_of(d: u64) -> (c: char)
    requires
        d < 16,
    ensures
        c == digit_char(d as nat),
{
    if d < 10 {
        let b: u8 = (d as u8) + 48;
        b as char
    } else {
        let b: u8 = (d as u8) - 10 + 97;
        b as char
    }
}

fn digits_in_radix(n: u64, radix: u64) -> (r: Vec<char>)
    requires
        radix == 2 || radix == 8 || radix == 16,
    ensures
        r@ == radix_digits(n as nat, radix as nat),
    decreases n,
{
    if n < radix {
        let mut v: Vec<char> = Vec::new();
        v.push(digit_of(n));
        v
    } else {
        let mut v = digits_in_radix(n / radix, radix);
        v.push(digit_of(n % radix));
        v
    }
}

fn radix_chars(n: i64, radix: u64, prefix: bool) -> (r: Vec<char>)
    requires
        radix == 2 || radix == 8 || radix == 16,
    ensures
        r@ == radix_text(n, radix as nat, prefix),
{
    let mut out: Vec<char> = Vec::new();
    if n < 0 {
        append_str(&mut out, "-");
    }
    if prefix {
        if radix == 2 {
            append_str(&mut out, "0b");
        } else if radix == 8 {
            append_str(&mut out, "0o");
        } else {
            append_str(&mut out, "0x");
        }
    }
    let m: u64 = if n < 0 {
        if n == i64::MIN {
            0x8000_0000_0000_0000u64
        } else {
            (-n) as u64
        }
    } else {
        n as u64
    };
    let d = digits_in_radix(m, radix);
    append_chars(&mut out, &d);
    assert(out@ =~= radix_text(n, radix as nat, prefix));
    out
}

/// An integer, or a list of integers, in a radix.
fn radix_value(v: &Value, radix: u64, prefix: bool) -> (r: Option<Value>)
    requires
        radix == 2 || radix == 8 || radix == 16,
    ensures
        match radix_v(v@, radix as nat, prefix) {
            Some(w) => r matches Some(x) && x@ == w,
            None => r is None,
        },
{
    match v {
        Value::Int(n) => {
            let t = radix_chars(*n, radix, prefix);
            Some(str_value(&t))
        },
        Value::IntList(ns) => {
            let mut out: Vec<Value> = Vec::new();
            let mut i: usize = 0;
            assert(vals(out@) =~= radix_list_v(ns@, radix as nat, prefix, 0));
            while i < ns.len()
                invariant
                    i <= ns.len(),
                    radix == 2 || radix == 8 || radix == 16,
                    vals(out@) == radix_list_v(ns@, radix as nat, prefix, i as int),
                decreases ns.len() - i,
            {
                let t = radix_chars(ns[i], radix, prefix);
                let x = str_value(&t);
                let ghost before = out@;
                out.push(x);
                proof {
                    lemma_vals_push(before, x);
                }
                i += 1;
            }
            proof {
                lemma_list_view(out);
            }
            Some(Value::List(out))
        },
        _ => None,
    }
}

/// What `bin`, `oct` and `hex` give: with one argument the prefixed text; with two, the
/// first (a boolean) says whether to prefix the second.
pub open spec fn radix_builtin_ok(id: int, radix: nat, args: Seq<Value>, r: WqResult<Value>) -> bool {
    if !(args.len() == 1 || args.len() == 2) {
        r matches Err(e) && is_arity_error(e, id, seq![1usize, 2usize], args.len())
    } else if args.len() == 2 && !(args[0]@ is Bool) {
        r matches Err(e) && is_type_mismatch(e, id, 0, "bool"@, args[0]@)
    } else {
        let target = args[args.len() - 1]@;
        let prefix = if args.len() == 2 { args[0]@->Bool_0 } else { true };
        match radix_v(target, radix, prefix) {
            Some(w) => r matches Ok(v) && v@ == w,
            None => r matches Err(e) && e.kind == WqErrorType::Domain && e.src@ == builtin_src_v(id) && e.msg@
                == "expected int"@ && e.notes@.len() == 0,
        }
    }
}

fn radix_builtin(id: usize, radix: u64, args: &[Value]) -> (r: WqResult<Value>)
    requires
        id < crate::builtin_table::BUILTIN_COUNT,
        radix == 2 || radix == 8 || radix == 16,
    ensures
        radix_builtin_ok(id as int, radix as nat, args@, r),
{
    let arity: [usize; 2] = [1, 2];
    assert(arity@ =~= seq![1usize, 2usize]);
    check_arity(id, &arity, args)?;
    let (target, prefix) = if args.len() == 1 {
        (&args[0], true)
    } else {
        match &args[0] {
            Value::Bool(b) => (&args[1], *b),
            other => {
                return Err(type_mismatch(id, 0, "bool", other));
            },
        }
    };
    match radix_value(target, radix, prefix) {
        Some(v) => Ok(v),
        None => Err(WqError::new(WqErrorType::Domain).src(builtin_src(id).as_str()).msg("expected int")),
    }
}

/// `bin[prefix?;xs]`: integers in binary.
pub fn bin(args: &[Value]) -> (r: WqResult<Value>)
    ensures
        radix_builtin_ok(BIN as int, 2, args@, r),
{
    radix_builtin(BIN, 2, args)
}

/// `oct[prefix?;xs]`: integers in octal.
pub fn oct(args: &[Value]) -> (r: WqResult<Value>)
    ensures
        radix_builtin_ok(OCT as int, 8, args@, r),
{
    radix_builtin(OCT, 8, args)
}

/// `hex[prefix?;xs]`: integers in hexadecimal, lower-case digits.
pub fn hex(args: &[Value]) -> (r: WqResult<Value>)
    ensures
        radix_builtin_ok(HEX as int, 16, args@, r),
{
    radix_builtin(HEX, 16, args)
}

/// `raise[msg]`: always an error of class `Raise`, with the message given.
pub fn raise(args: &[Value]) -> (r: WqResult<Value>)
    ensures
        r is Err,
        !arity_ok(seq![1usize], args@.len()) ==> (r matches Err(e) && is_arity_error(
            e,
            RAISE as int,
            seq![1usize],
            args@.len(),
        )),
        args@.len() == 1 ==> match text_of_v(args@[0]@) {
            Some(t) => r matches Err(e) && e.kind == WqErrorType::Raise && e.src@ == builtin_src_v(RAISE as int)
                && e.msg@ == t,
            None => r matches Err(e) && e.kind == WqErrorType::Type && e.src@ == builtin_src_v(RAISE as int),
        },
{
    let arity: [usize; 1] = [1];
    assert(arity@ =~= seq![1usize]);
    check_arity(RAISE, &arity, args)?;
    match args[0].try_to_string() {
        Ok(m) => Err(WqError::new(WqErrorType::Raise).src(builtin_src(RAISE).as_str()).msg(m.as_str())),
        Err(e) => Err(e.src(builtin_src(RAISE).as_str())),
    }
}

/// The string values of some texts.
pub open spec fn text_vals(ts: Seq<Seq<char>>) -> Seq<Val> {
    ts.map_values(|t: Seq<char>| text_val(t))
}

/// What `bfn[]` gives: the names of the enabled builtins, in the order of code points.
pub open spec fn bfn_ok(builtins: Seq<bool>, args: Seq<Value>, r: WqResult<Value>) -> bool {
    if args.len() != 0 {
        r matches Err(e) && is_arity_error(e, BFN as int, seq![0usize], args.len())
    } else {
        r matches Ok(v) && v@ == Val::List(text_vals(enabled_names(builtins, BUILTIN_COUNT as int).sort_by(text_order())))
    }
}

/// `bfn[]`: the names of the builtins that are enabled, sorted.
pub fn bfn(builtins: &Builtins, args: &[Value]) -> (r: WqResult<Value>)
    ensures
        bfn_ok(builtins@, args@, r),
{
    let arity: [usize; 1] = [0];
    assert(arity@ =~= seq![0usize]);
    check_arity(BFN, &arity, args)?;
    let n = args.len();
    proof {
        if n != 0 {
            assert(forall|i: int| 0 <= i < arity@.len() ==> arity@[i] != n);
            assert(!arity@.contains(n));
        }
    }
    assert(args@.len() == 0);
    let names = builtins.list_functions();
    let mut texts: Vec<Vec<char>> = Vec::new();
    let mut i: usize = 0;
    while i < names.len()
        invariant
            i <= names@.len(),
            texts@.len() == i,
            forall|q: int| 0 <= q < i ==> (#[trigger] texts@[q])@ == names@[q]@,
        decreases names.len() - i,
    {
        texts.push(chars_of(names[i].as_str()));
        i += 1;
    }
    assert(texts_of(texts@) =~= enabled_names(builtins@, BUILTIN_COUNT as int));
    let ghost en = texts_of(texts@);
    let sorted = sort_texts(texts);
    let ghost ts = texts_of(sorted@);
    assert(ts == en.sort_by(text_order()));
    let mut out: Vec<Value> = Vec::new();
    let mut j: usize = 0;
    while j < sorted.len()
        invariant
            ts == texts_of(sorted@),
            j <= sorted@.len(),
            vals(out@) =~= text_vals(ts.take(j as int)),
        decreases sorted.len() - j,
    {
        let x = str_value(&sorted[j]);
        let ghost before = out@;
        out.push(x);
        proof {
            lemma_vals_push(before, x);
            assert(text_vals(ts.take(j + 1)) =~= text_vals(ts.take(j as int)).push(text_val(ts[j as int])));
        }
        j += 1;
    }
    assert(ts.take(sorted@.len() as int) =~= ts);
    assert(vals(out@) == text_vals(ts));
    proof {
        lemma_list_view(out);
    }
    Ok(Value::List(out))
}

/// Whether a value is the integer `n`: an integer where an `i64` holds it, a big integer
/// otherwise.
pub open spec fn is_int_value(v: Val, n: int) -> bool {
    if i64::MIN <= n <= i64::MAX {
        v == Val::Int(n as i64)
    } else {
        v == Val::BigInt(n)
    }
}

/// The integer value of a big integer: an integer where an `i64` holds it.
pub fn from_bigint(b: num_bigint::BigInt) -> (r: Value)
    ensures
        is_int_value(r@, bigint_value(b)),
{
    match bigint_to_i64(&b) {
        Some(n) => Value::Int(n),
        None => Value::BigInt(b),
    }
}

/// A literal without the prefix of its base (`0x`, `0b`, `0o`, either case) where the base
/// is 16, 2 or 8.
pub open spec fn without_base_prefix(s: Seq<char>, base: u32) -> Seq<char> {
    let marks: (char, char) = if base == 16 { ('x', 'X') } else if base == 2 { ('b', 'B') } else { ('o', 'O') };
    if (base == 16 || base == 2 || base == 8) && s.len() >= 2 && s[0] == '0' && (s[1] == marks.0 || s[1] == marks.1) {
        s.subrange(2, s.len() as int)
    } else {
        s
    }
}

/// What a text gives as an integer literal of a base: `None` for a blank text; `Err` where
/// no digit is left, or the digits are refused; the integer otherwise. One leading sign is
/// read, then the base's prefix; underscores are dropped.
pub open spec fn int_literal_v(t: Seq<char>, base: u32) -> Option<Result<int, bool>> {
    let s = trim_v(t);
    if s.len() == 0 {
        None
    } else {
        let neg = s[0] == '-';
        let rest = if s[0] == '+' || s[0] == '-' { s.drop_first() } else { s };
        let digits = without_base_prefix(rest, base).filter(|c: char| c != '_');
        if digits.len() == 0 {
            Some(Err(true))
        } else if !str_radix_accepts(digits, base) {
            Some(Err(false))
        } else {
            let v = str_radix_value(digits, base);
            Some(Ok(if neg { -v } else { v }))
        }
    }
}

/// What `int[x]` and `int[x;base]` give: an integer as it is (a base is then an error); the
/// integer that a string spells in the base (10 by default), the unit for a blank string.
pub open spec fn int_ok(args: Seq<Value>, r: WqResult<Value>) -> bool {
    if !(args.len() == 1 || args.len() == 2) {
        r matches Err(e) && is_arity_error(e, INT as int, seq![1usize, 2usize], args.len())
    } else if args.len() == 2 && !(args[1]@ matches Val::Int(b) && 2 <= b <= 36) {
        r matches Err(e) && e.kind == WqErrorType::Domain && e.src@ == builtin_src_v(INT as int) && e.msg@
            == "expected valid base"@
    } else {
        let base: u32 = if args.len() == 2 { args[1]@->Int_0 as u32 } else { 10 };
        match args[0]@ {
            Val::Int(n) => if args.len() == 2 {
                r matches Err(e) && e.kind == WqErrorType::Domain && e.msg@ == "unexpected base"@
            } else {
                r matches Ok(v) && v@ == Val::Int(n)
            },
            Val::BigInt(b) => if args.len() == 2 {
                r matches Err(e) && e.kind == WqErrorType::Domain && e.msg@ == "unexpected base"@
            } else {
                r matches Ok(v) && v@ == Val::BigInt(b)
            },
            a => match text_of_v(a) {
                None => r matches Err(e) && e.kind == WqErrorType::Type && e.src@ == builtin_src_v(INT as int),
                Some(t) => match int_literal_v(t, base) {
                    None => r matches Ok(v) && v@ == Val::Null,
                    Some(Err(_)) => r matches Err(e) && e.kind == WqErrorType::Domain && e.src@ == builtin_src_v(
                        INT as int,
                    ) && e.msg@ == "expected valid int literal"@,
                    Some(Ok(n)) => r matches Ok(v) && is_int_value(v@, n),
                },
            },
        }
    }
}

fn unexpected_base() -> (e: WqError)
    ensures
        e.kind == WqErrorType::Domain,
        e.msg@ == "unexpected base"@,
{
    WqError::new(WqErrorType::Domain).src(builtin_src(INT).as_str()).msg("unexpected base").attach_note(
        String::from_str("base should not be provided when converting int"),
    ).at_arg(1)
}

/// `int[x]`, `int[x;base]` (the builtin `int`): an integer from an integer or from the text
/// of one.
pub fn to_int(args: &[Value]) -> (r: WqResult<Value>)
    ensures
        int_ok(args@, r),
{
    let arity: [usize; 2] = [1, 2];
    assert(arity@ =~= seq![1usize, 2usize]);
    check_arity(INT, &arity, args)?;
    let mut base: u32 = 10;
    let has_base = args.len() == 2;
    if has_base {
        match &args[1] {
            Value::Int(b) if 2 <= *b && *b <= 36 => {
                base = *b as u32;
            },
            other => {
                let mut note = chars_of("got ");
                append_chars(&mut note, &other.display_chars());
                return Err(
                    WqError::new(WqErrorType::Domain).src(builtin_src(INT).as_str()).msg("expected valid base").attach_note(
                        String::from_str("valid base is int in 2..=36"),
                    ).at_arg(1).attach_note(string_from_chars(note.as_slice())),
                );
            },
        }
    }
    match &args[0] {
        Value::Int(n) => {
            if has_base {
                Err(unexpected_base())
            } else {
                Ok(Value::Int(*n))
            }
        },
        Value::BigInt(b) => {
            if has_base {
                Err(unexpected_base())
            } else {
                Ok(Value::BigInt(b.clone()))
            }
        },
        v => {
            let text = match v.try_to_string() {
                Ok(t) => t,
                Err(e) => {
                    return Err(e.src(builtin_src(INT).as_str()));
                },
            };
            let tc = chars_of(text.as_str());
            let s = trim_chars(&tc);
            if s.len() == 0 {
                return Ok(Value::unit());
            }
            let neg = s[0] == '-';
            let rest = if s[0] == '+' || s[0] == '-' { sub_chars(&s, 1, s.len()) } else { sub_chars(&s, 0, s.len()) };
            assert(rest@ =~= (if s@[0] == '+' || s@[0] == '-' { s@.drop_first() } else { s@ }));
            let (m1, m2) = if base == 16 { ('x', 'X') } else if base == 2 { ('b', 'B') } else { ('o', 'O') };
            let body = if (base == 16 || base == 2 || base == 8) && rest.len() >= 2 && rest[0] == '0' && (rest[1] == m1
                || rest[1] == m2) {
                sub_chars(&rest, 2, rest.len())
            } else {
                sub_chars(&rest, 0, rest.len())
            };
            assert(body@ =~= without_base_prefix(rest@, base));
            let mut digits: Vec<char> = Vec::new();
            let mut i: usize = 0;
            while i < body.len()
                invariant
                    i <= body@.len(),
                    digits@ == body@.take(i as int).filter(|c: char| c != '_'),
                decreases body.len() - i,
            {
                proof {
                    body@.take(i as int).lemma_filter_push(body@[i as int], |c: char| c != '_');
                    assert(body@.take(i + 1) =~= body@.take(i as int).push(body@[i as int]));
                }
                if body[i] != '_' {
                    digits.push(body[i]);
                }
                i += 1;
            }
            assert(body@.take(body@.len() as int) =~= body@);
            if digits.len() == 0 {
                return Err(
                    WqError::new(WqErrorType::Domain).src(builtin_src(INT).as_str()).msg("expected valid int literal").at_arg(
                        0,
                    ).attach_note(String::from_str("digits are required after optional sign or prefix")),
                );
            }
            let ds = string_from_chars(digits.as_slice());
            match bigint_from_str_radix(ds.as_str(), base) {
                Ok(mag) => {
                    let m = if neg { bigint_neg(&mag) } else { mag };
                    Ok(from_bigint(m))
                },
                Err(msg) => {
                    let mut note = chars_of("original error: ");
                    append_str(&mut note, msg.as_str());
                    Err(
                        WqError::new(WqErrorType::Domain).src(builtin_src(INT).as_str()).msg("expected valid int literal").at_arg(
                            0,
                        ).attach_note(string_from_chars(note.as_slice())),
                    )
                },
            }
        },
    }
}

} // verus!
