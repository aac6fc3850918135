//! `decode` and `encode`: between byte lists and strings, through a named codec.

use vstd::prelude::*;
use crate::builtin_table::{DECODE, ENCODE};
use crate::builtins::typeb::text_val;
use crate::builtins::wqerror_helper::{check_arity, is_arity_error, builtin_src, builtin_src_v};
use crate::error::{WqError, WqErrorType, WqResult};
use crate::text::{append_chars, append_str, chars_of, chars_eq_str, string_from_chars};
use crate::value::{Value, Val, text_of_v, str_value, lemma_list_view};
use encoding_rs::Encoding;

verus! {

/// Whether `encoding_rs` knows a codec label (after its own trimming and case folding).
pub uninterp spec fn known_label_v(label: Seq<char>) -> bool;

/// What `encoding_rs` makes of some bytes in the codec of a label: the text, and whether a
/// malformed sequence was replaced.
pub uninterp spec fn decode_v(label: Seq<char>, bytes: Seq<u8>) -> (Seq<char>, bool);

/// What `encoding_rs` makes of a text in the codec of a label: the bytes, and whether a
/// character could not be mapped.
pub uninterp spec fn encode_v(label: Seq<char>, text: Seq<char>) -> (Seq<u8>, bool);

/// Looks a codec label up with `encoding_rs::Encoding::for_label` (on the label's UTF-8
/// bytes) and decodes the bytes with `Encoding::decode_without_bom_handling`: `None` where
/// the label is unknown, else the text and whether a malformed sequence was replaced, which
/// depend on the label and the bytes alone. The crate panics only where its buffer size
/// overflows `usize`, which the bound on the input rules out.
#[verifier::external_body]
fn decode_bytes(label: &str, bytes: &[u8]) -> (r: Option<(String, bool)>)
    requires
        bytes@.len() <= usize::MAX / 8,
    ensures
        r is Some <==> known_label_v(label@),
        r matches Some((t, h)) ==> (t@, h) == decode_v(label@, bytes@),
{
    match Encoding::for_label(label.as_bytes()) {
        Some(enc) => {
            let (text, had_errors) = enc.decode_without_bom_handling(bytes);
            Some((text.into_owned(), had_errors))
        },
        None => None,
    }
}

/// Looks a codec label up with `encoding_rs::Encoding::for_label` (on the label's UTF-8
/// bytes) and encodes the text with `Encoding::encode`: `None` where the label is unknown,
/// else the bytes and whether a character could not be mapped, which depend on the label and
/// the text alone. The crate panics only where its buffer size overflows `usize`, which the
/// bound on the input rules out.
#[verifier::external_body]
fn encode_text(label: &str, s: &str) -> (r: Option<(Vec<u8>, bool)>)
    requires
        s@.len() <= usize::MAX / 64,
    ensures
        r is Some <==> known_label_v(label@),
        r matches Some((b, h)) ==> (b@, h) == encode_v(label@, s@),
{
    match Encoding::for_label(label.as_bytes()) {
        Some(enc) => {
            let (bytes, _used, had_errors) = enc.encode(s);
            Some((bytes.into_owned(), had_errors))
        },
        None => None,
    }
}

/// Whether a model is an integer that fits in a byte.
pub open spec fn byte_val(v: Val) -> bool {
    v matches Val::Int(n) && 0 <= n <= 255
}

/// The bytes that a value stands for: a list of integers, each from 0 to 255.
pub open spec fn bytes_of_v(v: Val) -> Option<Seq<u8>> {
    match v {
        Val::IntList(ns) => if forall|i: int| 0 <= i < ns.len() ==> 0 <= #[trigger] ns[i] <= 255 {
            Some(Seq::new(ns.len(), |i: int| ns[i] as u8))
        } else {
            None
        },
        Val::List(items) => if forall|i: int| 0 <= i < items.len() ==> byte_val(#[trigger] items[i]) {
            Some(Seq::new(items.len(), |i: int| items[i]->Int_0 as u8))
        } else {
            None
        },
        _ => None,
    }
}

/// The bytes that a value stands for.
fn value_bytes(v: &Value) -> (r: Option<Vec<u8>>)
    ensures
        match bytes_of_v(v@) {
            Some(b) => r matches Some(x) && x@ == b,
            None => r is None,
        },
{
    match v {
        Value::IntList(ns) => {
            let mut out: Vec<u8> = Vec::new();
            let mut i: usize = 0;
            while i < ns.len()
                invariant
                    v@ == Val::IntList(ns@),
                    i <= ns@.len(),
                    out@.len() == i,
                    forall|j: int| 0 <= j < i ==> 0 <= #[trigger] ns@[j] <= 255,
                    forall|j: int| 0 <= j < i ==> out@[j] == ns@[j] as u8,
                decreases ns.len() - i,
            {
                let n = ns[i];
                if n < 0 || n > 255 {
                    assert(!(0 <= ns@[i as int] <= 255));
                    return None;
                }
                out.push(n as u8);
                i += 1;
            }
            assert(out@ =~= Seq::new(ns@.len(), |j: int| ns@[j] as u8));
            Some(out)
        },
        Value::List(items) => {
            proof {
                lemma_list_view(*items);
            }
            let mut out: Vec<u8> = Vec::new();
            let mut i: usize = 0;
            while i < items.len()
                invariant
                    v@ == Val::List(crate::value::vals(items@)),
                    i <= items@.len(),
                    out@.len() == i,
                    forall|j: int| 0 <= j < i ==> byte_val(#[trigger] items@[j]@),
                    forall|j: int| 0 <= j < i ==> out@[j] == items@[j]@->Int_0 as u8,
                decreases items.len() - i,
            {
                assert(crate::value::vals(items@)[i as int] == items@[i as int]@);
                match &items[i] {
                    Value::Int(n) => {
                        if *n < 0 || *n > 255 {
                            assert(!byte_val(crate::value::vals(items@)[i as int]));
                            return None;
                        }
                        out.push(*n as u8);
                    },
                    _ => {
                        assert(!byte_val(crate::value::vals(items@)[i as int]));
                        return None;
                    },
                }
                i += 1;
            }
            assert(forall|j: int| 0 <= j < items@.len() ==> byte_val(#[trigger] crate::value::vals(items@)[j]));
            assert(out@ =~= Seq::new(items@.len(), |j: int| crate::value::vals(items@)[j]->Int_0 as u8));
            Some(out)
        },
        _ => None,
    }
}

/// The strict mode (`s`), which refuses a malformed or unmappable input, and the replacing
/// mode (`r`), which puts a stand-in for it.
pub open spec fn mode_strict(m: Seq<char>) -> bool {
    m == "s"@
}

pub open spec fn mode_replace(m: Seq<char>) -> bool {
    m == "r"@
}

/// What a decode gives once the codec has turned the bytes into `text`, with `had_errors`
/// telling whether it replaced a malformed sequence: the text, but an error in strict mode
/// where a sequence was malformed, and for a mode that is neither strict nor replacing.
pub open spec fn decode_outcome_ok(mode: Seq<char>, text: Seq<char>, had_errors: bool, r: WqResult<Value>) -> bool {
    if mode_strict(mode) {
        if had_errors {
            r matches Err(e) && e.kind == WqErrorType::Encode && e.src@ == builtin_src_v(DECODE as int)
                && e.msg@ == "strict mode decode error"@
        } else {
            r matches Ok(v) && v@ == text_val(text)
        }
    } else if mode_replace(mode) {
        r matches Ok(v) && v@ == text_val(text)
    } else {
        r matches Err(e) && e.kind == WqErrorType::Domain && e.src@ == builtin_src_v(DECODE as int)
            && e.msg@ == "expected valid decode mode"@
    }
}

fn mode_error(id: usize) -> (e: WqError)
    requires
        id < crate::builtin_table::BUILTIN_COUNT,
    ensures
        e.kind == WqErrorType::Domain,
        e.src@ == builtin_src_v(id as int),
        e.msg@ == "expected valid decode mode"@,
{
    WqError::new(WqErrorType::Domain).src(builtin_src(id).as_str()).msg("expected valid decode mode").attach_note(
        String::from_str("valid mode is s (strict) or r (replace)"),
    )
}

/// The result of a decode, from what the codec gave.
pub fn decode_outcome(mode: &Vec<char>, text: String, had_errors: bool) -> (r: WqResult<Value>)
    ensures
        decode_outcome_ok(mode@, text@, had_errors, r),
{
    if chars_eq_str(mode, "s") {
        if had_errors {
            return Err(WqError::new(WqErrorType::Encode).src(builtin_src(DECODE).as_str()).msg("strict mode decode error"));
        }
        let t = chars_of(text.as_str());
        Ok(str_value(&t))
    } else if chars_eq_str(mode, "r") {
        let t = chars_of(text.as_str());
        Ok(str_value(&t))
    } else {
        Err(mode_error(DECODE))
    }
}

/// What an encode gives once the codec has turned the text into `bytes`, with `had_errors`
/// telling whether a character could not be mapped: the bytes as integers, but an error in
/// strict mode where one could not, and for a mode that is neither strict nor replacing.
pub open spec fn encode_outcome_ok(mode: Seq<char>, bytes: Seq<u8>, had_errors: bool, r: WqResult<Value>) -> bool {
    if (mode_strict(mode) && !had_errors) || mode_replace(mode) {
        r matches Ok(v) && v@ == Val::IntList(Seq::new(bytes.len(), |i: int| bytes[i] as i64))
    } else if mode_strict(mode) {
        r matches Err(e) && e.kind == WqErrorType::Encode && e.src@ == builtin_src_v(ENCODE as int)
            && e.msg@ == "strict mode encode error"@
    } else {
        r matches Err(e) && e.kind == WqErrorType::Domain && e.src@ == builtin_src_v(ENCODE as int)
            && e.msg@ == "expected valid decode mode"@
    }
}

/// The result of an encode, from what the codec gave.
pub fn encode_outcome(mode: &Vec<char>, bytes: Vec<u8>, had_errors: bool) -> (r: WqResult<Value>)
    ensures
        encode_outcome_ok(mode@, bytes@, had_errors, r),
{
    proof {
        reveal_strlit("s");
        reveal_strlit("r");
        assert("s"@[0] != "r"@[0]);
        assert("s"@ != "r"@);
    }
    if chars_eq_str(mode, "s") && had_errors {
        return Err(WqError::new(WqErrorType::Encode).src(builtin_src(ENCODE).as_str()).msg("strict mode encode error"));
    }
    if !chars_eq_str(mode, "s") && !chars_eq_str(mode, "r") {
        return Err(mode_error(ENCODE));
    }
    let mut out: Vec<i64> = Vec::new();
    let mut i: usize = 0;
    while i < bytes.len()
        invariant
            i <= bytes@.len(),
            out@ =~= Seq::new(i as nat, |j: int| bytes@[j] as i64),
        decreases bytes.len() - i,
    {
        out.push(bytes[i] as i64);
        i += 1;
    }
    Ok(Value::IntList(out))
}

/// The error for a codec that `encoding_rs` does not know.
pub open spec fn is_codec_error(e: WqError, id: int, codec: Seq<char>) -> bool {
    &&& e.kind == WqErrorType::Encode
    &&& e.src@ == builtin_src_v(id)
    &&& e.msg@ == "unsupported codec '"@ + codec + "'"@
}

fn codec_error(id: usize, codec: &Vec<char>) -> (e: WqError)
    requires
        id < crate::builtin_table::BUILTIN_COUNT,
    ensures
        is_codec_error(e, id as int, codec@),
{
    let mut m = chars_of("unsupported codec '");
    append_chars(&mut m, codec);
    append_str(&mut m, "'");
    let ms = string_from_chars(m.as_slice());
    WqError::new(WqErrorType::Encode).src(builtin_src(id).as_str()).msg(ms.as_str())
}

/// The error for an argument of the wrong kind.
pub open spec fn is_arg_error(e: WqError, id: int) -> bool {
    e.src@ == builtin_src_v(id)
}

/// The text of an argument of a codec builtin.
fn text_arg(id: usize, v: &Value, pos: usize) -> (r: WqResult<Vec<char>>)
    requires
        id < crate::builtin_table::BUILTIN_COUNT,
    ensures
        match text_of_v(v@) {
            Some(t) => r matches Ok(x) && x@ == t,
            None => r matches Err(e) && e.kind == WqErrorType::Type && is_arg_error(e, id as int),
        },
{
    match v.try_to_string() {
        Ok(s) => Ok(chars_of(s.as_str())),
        Err(e) => Err(e.src(builtin_src(id).as_str()).at_arg(pos)),
    }
}

/// What `decode[codec;mode?;bytes]` gives: the errors for its arguments, in order, and for
/// an unknown codec; with a known codec, the outcome of what the codec makes of the bytes in
/// the mode given (strict by default).
pub open spec fn decode_ok(args: Seq<Value>, r: WqResult<Value>) -> bool {
    if !(args.len() == 2 || args.len() == 3) {
        r matches Err(e) && is_arity_error(e, DECODE as int, seq![2usize, 3usize], args.len())
    } else {
        let b = args[args.len() - 1]@;
        match text_of_v(args[0]@) {
            None => r matches Err(e) && e.kind == WqErrorType::Type && is_arg_error(e, DECODE as int),
            Some(codec) => if args.len() == 3 && text_of_v(args[1]@) is None {
                r matches Err(e) && e.kind == WqErrorType::Type && is_arg_error(e, DECODE as int)
            } else if bytes_of_v(b) is None {
                r matches Err(e) && e.kind == WqErrorType::Domain && is_arg_error(e, DECODE as int)
            } else if !known_label_v(codec) {
                r matches Err(e) && is_codec_error(e, DECODE as int, codec)
            } else {
                let mode = if args.len() == 3 { text_of_v(args[1]@)->Some_0 } else { "s"@ };
                let (text, had_errors) = decode_v(codec, bytes_of_v(b)->Some_0);
                decode_outcome_ok(mode, text, had_errors, r)
            },
        }
    }
}

fn bytes_error(id: usize, pos: usize) -> (e: WqError)
    requires
        id < crate::builtin_table::BUILTIN_COUNT,
    ensures
        e.kind == WqErrorType::Domain,
        is_arg_error(e, id as int),
{
    WqError::new(WqErrorType::Domain).src(builtin_src(id).as_str()).msg("expected list<int> of bytes").at_arg(pos)
}

/// `decode[codec;mode?;bytes]`: the string that a list of bytes stands for in a codec.
pub fn decode(args: &[Value]) -> (r: WqResult<Value>)
    requires
        (args@.len() == 2 || args@.len() == 3) ==> (bytes_of_v(args@[args@.len() - 1]@) matches Some(b) ==> b.len()
            <= usize::MAX / 8),
    ensures
        decode_ok(args@, r),
{
    let arity: [usize; 2] = [2, 3];
    assert(arity@ =~= seq![2usize, 3usize]);
    check_arity(DECODE, &arity, args)?;
    let last = args.len() - 1;
    let codec = text_arg(DECODE, &args[0], 0)?;
    let mode = if args.len() == 3 {
        text_arg(DECODE, &args[1], 1)?
    } else {
        chars_of("s")
    };
    let bytes = match value_bytes(&args[last]) {
        Some(b) => b,
        None => {
            return Err(bytes_error(DECODE, last));
        },
    };
    let label = string_from_chars(codec.as_slice());
    let (text, had_errors) = match decode_bytes(label.as_str(), bytes.as_slice()) {
        Some(d) => d,
        None => {
            return Err(codec_error(DECODE, &codec));
        },
    };
    proof {
        reveal_strlit("s");
        reveal_strlit("r");
        assert("s"@[0] != "r"@[0]);
        assert("s"@ != "r"@);
    }
    decode_outcome(&mode, text, had_errors)
}

/// What `encode[codec;mode?;s]` gives: the errors for its arguments, in order, and for an
/// unknown codec; with a known codec, the outcome of what the codec makes of the string in
/// the mode given (strict by default).
pub open spec fn encode_ok(args: Seq<Value>, r: WqResult<Value>) -> bool {
    if !(args.len() == 2 || args.len() == 3) {
        r matches Err(e) && is_arity_error(e, ENCODE as int, seq![2usize, 3usize], args.len())
    } else {
        match text_of_v(args[0]@) {
            None => r matches Err(e) && e.kind == WqErrorType::Type && is_arg_error(e, ENCODE as int),
            Some(codec) => if args.len() == 3 && text_of_v(args[1]@) is None {
                r matches Err(e) && e.kind == WqErrorType::Type && is_arg_error(e, ENCODE as int)
            } else if text_of_v(args[args.len() - 1]@) is None {
                r matches Err(e) && e.kind == WqErrorType::Type && is_arg_error(e, ENCODE as int)
            } else if !known_label_v(codec) {
                r matches Err(e) && is_codec_error(e, ENCODE as int, codec)
            } else {
                let mode = if args.len() == 3 { text_of_v(args[1]@)->Some_0 } else { "s"@ };
                let (bytes, had_errors) = encode_v(codec, text_of_v(args[args.len() - 1]@)->Some_0);
                encode_outcome_ok(mode, bytes, had_errors, r)
            },
        }
    }
}

/// `encode[codec;mode?;s]`: the bytes that stand for a string in a codec.
pub fn encode(args: &[Value]) -> (r: WqResult<Value>)
    requires
        (args@.len() == 2 || args@.len() == 3) ==> (text_of_v(args@[args@.len() - 1]@) matches Some(t) ==> t.len()
            <= usize::MAX / 64),
    ensures
        encode_ok(args@, r),
{
    let arity: [usize; 2] = [2, 3];
    assert(arity@ =~= seq![2usize, 3usize]);
    check_arity(ENCODE, &arity, args)?;
    let last = args.len() - 1;
    let codec = text_arg(ENCODE, &args[0], 0)?;
    let mode = if args.len() == 3 {
        text_arg(ENCODE, &args[1], 1)?
    } else {
        chars_of("s")
    };
    let text = text_arg(ENCODE, &args[last], last)?;
    let label = string_from_chars(codec.as_slice());
    let s = string_from_chars(text.as_slice());
    let (bytes, had_errors) = match encode_text(label.as_str(), s.as_str()) {
        Some(d) => d,
        None => {
            return Err(codec_error(ENCODE, &codec));
        },
    };
    proof {
        reveal_strlit("s");
        reveal_strlit("r");
        assert("s"@[0] != "r"@[0]);
        assert("s"@ != "r"@);
    }
    encode_outcome(&mode, bytes, had_errors)
}

} // verus!
