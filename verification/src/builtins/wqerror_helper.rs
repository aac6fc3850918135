//! The errors that builtins raise: wrong argument counts and argument types.

use vstd::prelude::*;
use crate::builtin_table::{BUILTIN_COUNT, builtin_name, builtin_name_v, builtin_usage, builtin_usage_v};
use crate::error::{WqError, WqErrorType, WqResult};
use crate::text::{append_chars, append_str, chars_of, decimal_digits, string_from_chars, usize_to_decimal};
use crate::value::{Value, type_label_v};

verus! {

/// How a builtin names itself as the source of an error: `bfn '<name>'`.
pub open spec fn builtin_src_v(id: int) -> Seq<char> {
    "bfn '"@ + builtin_name_v(id) + "'"@
}

/// The text of the accepted argument counts: `1`, `1 or 2`, `1, 2, or 3`.
pub open spec fn arity_text(arity: Seq<usize>) -> Seq<char> {
    if arity.len() == 1 {
        decimal_digits(arity[0] as nat)
    } else if arity.len() == 2 {
        decimal_digits(arity[0] as nat) + " or "@ + decimal_digits(arity[1] as nat)
    } else {
        comma_list(arity.drop_last()) + ", or "@ + decimal_digits(arity.last() as nat)
    }
}

/// Numbers separated by `, `.
pub open spec fn comma_list(ns: Seq<usize>) -> Seq<char>
    decreases ns.len(),
{
    if ns.len() == 0 {
        Seq::empty()
    } else if ns.len() == 1 {
        decimal_digits(ns[0] as nat)
    } else {
        comma_list(ns.drop_last()) + ", "@ + decimal_digits(ns.last() as nat)
    }
}

/// The message of an argument-count error.
pub open spec fn arity_msg(arity: Seq<usize>, n: nat) -> Seq<char> {
    "expected "@ + arity_text(arity) + (if arity.len() == 1 && arity[0] == 1 { " arg"@ } else { " args"@ })
        + ", got "@ + decimal_digits(n)
}

/// Whether `check_arity` accepts `n` arguments: the list is empty or holds `n`.
pub open spec fn arity_ok(arity: Seq<usize>, n: nat) -> bool {
    arity.len() == 0 || arity.contains(n as usize)
}

/// Whether an error is the argument-count error of a builtin.
pub open spec fn is_arity_error(e: WqError, id: int, arity: Seq<usize>, n: nat) -> bool {
    &&& e.kind == WqErrorType::Arity
    &&& e.src@ == builtin_src_v(id)
    &&& e.msg@ == arity_msg(arity, n)
    &&& e.notes@.len() == 1
    &&& e.notes@[0]@ == builtin_usage_v(id)
}

/// How a builtin names itself as the source of an error.
pub fn builtin_src(id: usize) -> (r: String)
    requires
        id < BUILTIN_COUNT,
    ensures
        r@ == builtin_src_v(id as int),
{
    let mut v = chars_of("bfn '");
    append_str(&mut v, builtin_name(id));
    append_str(&mut v, "'");
    string_from_chars(v.as_slice())
}

/// The numbers of `ns[..k]` separated by `, `.
fn comma_list_chars(ns: &[usize], k: usize) -> (r: Vec<char>)
    requires
        k <= ns@.len(),
    ensures
        r@ == comma_list(ns@.take(k as int)),
    decreases k,
{
    if k == 0 {
        assert(ns@.take(0).len() == 0);
        return Vec::new();
    }
    let d = usize_to_decimal(ns[k - 1]);
    if k == 1 {
        assert(ns@.take(1)[0] == ns@[0]);
        return d;
    }
    let mut v = comma_list_chars(ns, k - 1);
    append_str(&mut v, ", ");
    append_chars(&mut v, &d);
    assert(ns@.take(k as int).drop_last() =~= ns@.take(k - 1));
    v
}

/// Checks the number of arguments of a builtin against the counts it accepts; an empty list
/// accepts any count.
pub fn check_arity(builtin: usize, arity: &[usize], args: &[Value]) -> (r: WqResult<()>)
    requires
        builtin < BUILTIN_COUNT,
    ensures
        arity_ok(arity@, args@.len()) ==> r is Ok,
        !arity_ok(arity@, args@.len()) ==> (r matches Err(e) && is_arity_error(e, builtin as int, arity@, args@.len())),
{
    let n = args.len();
    let mut found = false;
    let mut i: usize = 0;
    while i < arity.len()
        invariant
            i <= arity@.len(),
            found <==> exists|k: int| 0 <= k < i && arity@[k] == n,
        decreases arity.len() - i,
    {
        if arity[i] == n {
            found = true;
        }
        i += 1;
    }
    if arity.len() == 0 || found {
        return Ok(());
    }
    assert(!arity@.contains(n)) by {
        if arity@.contains(n) {
            let k = choose|k: int| 0 <= k < arity@.len() && arity@[k] == n;
            assert(arity@[k] == n);
        }
    }
    let mut m = chars_of("expected ");
    if arity.len() == 1 {
        let d = usize_to_decimal(arity[0]);
        append_chars(&mut m, &d);
    } else if arity.len() == 2 {
        let d0 = usize_to_decimal(arity[0]);
        let d1 = usize_to_decimal(arity[1]);
        append_chars(&mut m, &d0);
        append_str(&mut m, " or ");
        append_chars(&mut m, &d1);
    } else {
        let head = comma_list_chars(arity, arity.len() - 1);
        let d = usize_to_decimal(arity[arity.len() - 1]);
        append_chars(&mut m, &head);
        append_str(&mut m, ", or ");
        append_chars(&mut m, &d);
        assert(arity@.take(arity@.len() - 1) =~= arity@.drop_last());
    }
    if arity.len() == 1 && arity[0] == 1 {
        append_str(&mut m, " arg");
    } else {
        append_str(&mut m, " args");
    }
    append_str(&mut m, ", got ");
    let dn = usize_to_decimal(n);
    append_chars(&mut m, &dn);
    let e = WqError::new(WqErrorType::Arity).src(builtin_src(builtin).as_str()).msg(
        string_from_chars(m.as_slice()).as_str(),
    ).attach_note(builtin_usage(builtin).to_string());
    assert(m@ =~= arity_msg(arity@, n as nat));
    Err(e)
}

/// Whether `e` is the error of a builtin for its argument at `pos`, which should have been
/// `expected` and was `got`: a domain error with the message `expected <what>`, then notes
/// for the position, the type that was given, and the usage.
pub open spec fn is_type_mismatch(e: WqError, builtin: int, pos: nat, expected: Seq<char>, got: crate::value::Val) -> bool {
    &&& e.kind == WqErrorType::Domain
    &&& e.src@ == builtin_src_v(builtin)
    &&& e.msg@ == "expected "@ + expected
    &&& e.notes@.len() == 3
    &&& e.notes@[0]@ == "at arg #"@ + decimal_digits(pos)
    &&& e.notes@[1]@ == "got "@ + type_label_v(got)
    &&& e.notes@[2]@ == "usage: "@ + builtin_usage_v(builtin)
}

/// The error for an argument of the wrong type.
pub fn type_mismatch(builtin: usize, pos: usize, expected: &str, got: &Value) -> (e: WqError)
    requires
        builtin < BUILTIN_COUNT,
    ensures
        is_type_mismatch(e, builtin as int, pos as nat, expected@, got@),
{
    let mut m = chars_of("expected ");
    append_str(&mut m, expected);
    let mut got_note = chars_of("got ");
    append_str(&mut got_note, got.type_label());
    let mut usage = chars_of("usage: ");
    append_str(&mut usage, builtin_usage(builtin));
    WqError::new(WqErrorType::Domain).src(builtin_src(builtin).as_str()).msg(
        string_from_chars(m.as_slice()).as_str(),
    ).at_arg(pos).attach_note(string_from_chars(got_note.as_slice())).attach_note(
        string_from_chars(usage.as_slice()),
    )
}

impl WqError {
    /// Adds the note `at arg #<pos>`.
    pub fn at_arg(self, pos: usize) -> (e: WqError)
        ensures
            e.kind == self.kind,
            e.src == self.src,
            e.msg == self.msg,
            e.notes@.len() == self.notes@.len() + 1,
            forall|i: int| 0 <= i < self.notes@.len() ==> e.notes@[i] == self.notes@[i],
            e.notes@.last()@ == "at arg #"@ + decimal_digits(pos as nat),
    {
        let mut v = chars_of("at arg #");
        let d = usize_to_decimal(pos);
        append_chars(&mut v, &d);
        self.attach_note(string_from_chars(v.as_slice()))
    }
}

} // verus!
