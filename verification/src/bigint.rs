//! Arbitrary-precision integers, through `num_bigint`.

use vstd::prelude::*;
use num_traits::Num;

verus! {

#[verifier::external_type_specification]
#[verifier::external_body]
pub struct ExBigInt(num_bigint::BigInt);

/// `Clone::clone` of `BigInt` copies the integer: the clone equals the original.
pub assume_specification[ <num_bigint::BigInt as Clone>::clone ](b: &num_bigint::BigInt) -> (r: num_bigint::BigInt)
    ensures
        r == *b,
;

/// Whether `c` is a digit of the given radix (`0-9`, then `a-z` or `A-Z`).
pub open spec fn radix_digit_value(c: char) -> int {
    if '0' <= c && c <= '9' {
        c as int - '0' as int
    } else if 'a' <= c && c <= 'z' {
        c as int - 'a' as int + 10
    } else if 'A' <= c && c <= 'Z' {
        c as int - 'A' as int + 10
    } else {
        99
    }
}

pub open spec fn is_radix_digit(c: char, radix: u32) -> bool {
    radix_digit_value(c) < radix
}

pub open spec fn all_radix_digits(ds: Seq<char>, radix: u32) -> bool {
    forall|i: int| 0 <= i < ds.len() ==> #[trigger] is_radix_digit(ds[i], radix)
}

/// The value of a digit string in a radix, most significant digit first.
pub open spec fn digits_value(ds: Seq<char>, radix: int) -> int
    decreases ds.len(),
{
    if ds.len() == 0 {
        0
    } else {
        digits_value(ds.drop_last(), radix) * radix + radix_digit_value(ds.last())
    }
}

/// The integer that a `BigInt` holds.
pub uninterp spec fn bigint_value(b: num_bigint::BigInt) -> int;

/// What `BigInt::from_str_radix` returns for a string it accepts.
pub uninterp spec fn bigint_from_digits(digits: Seq<char>, radix: u32) -> num_bigint::BigInt;

/// A string without the sign that `BigInt::from_str_radix` reads: a `-` that no `+`
/// follows, then a `+` that no other `+` follows.
pub open spec fn radix_body(s: Seq<char>) -> Seq<char> {
    let a = if s.len() > 0 && s[0] == '-' && !(s.len() > 1 && s[1] == '+') { s.drop_first() } else { s };
    if a.len() > 0 && a[0] == '+' && !(a.len() > 1 && a[1] == '+') {
        a.drop_first()
    } else {
        a
    }
}

/// Whether `BigInt::from_str_radix` accepts a string: after the sign, at least one
/// character, the first no underscore, and each a digit of the radix or an underscore.
pub open spec fn str_radix_accepts(s: Seq<char>, radix: u32) -> bool {
    let b = radix_body(s);
    &&& b.len() > 0
    &&& b[0] != '_'
    &&& forall|i: int| 0 <= i < b.len() ==> b[i] == '_' || #[trigger] is_radix_digit(b[i], radix)
}

/// The value of an accepted string: its digits without the underscores, negated after a
/// leading `-`.
pub open spec fn str_radix_value(s: Seq<char>, radix: u32) -> int {
    let mag = digits_value(radix_body(s).filter(|c: char| c != '_'), radix as int);
    if s.len() > 0 && s[0] == '-' {
        -mag
    } else {
        mag
    }
}

/// Calls `num_bigint::BigInt::from_str_radix` (which panics for a radix outside 2..=36):
/// it accepts the strings of `str_radix_accepts`, and gives the integer of
/// `str_radix_value`, named `bigint_from_digits`; for any other string the text of its
/// error, of which nothing is stated.
#[verifier::external_body]
pub fn bigint_from_str_radix(digits: &str, radix: u32) -> (r: Result<num_bigint::BigInt, String>)
    requires
        2 <= radix <= 36,
    ensures
        r is Ok <==> str_radix_accepts(digits@, radix),
        r matches Ok(b) ==> b == bigint_from_digits(digits@, radix) && bigint_value(b) == str_radix_value(digits@, radix),
{
    num_bigint::BigInt::from_str_radix(digits, radix).map_err(|e| e.to_string())
}

/// Negates a `BigInt` through `Neg`: the integer of the result is the opposite.
#[verifier::external_body]
pub fn bigint_neg(b: &num_bigint::BigInt) -> (r: num_bigint::BigInt)
    ensures
        bigint_value(r) == -bigint_value(*b),
{
    -b
}

/// Calls `ToPrimitive::to_i64` of `BigInt`: the integer where an `i64` holds it, `None`
/// otherwise.
#[verifier::external_body]
pub fn bigint_to_i64(b: &num_bigint::BigInt) -> (r: Option<i64>)
    ensures
        r == (if i64::MIN <= bigint_value(*b) <= i64::MAX { Some(bigint_value(*b) as i64) } else { None::<i64> }),
{
    num_traits::ToPrimitive::to_i64(b)
}

} // verus!

verus! {

/// Calls `PartialEq::eq` of `num_bigint::BigInt`, which compares the integers: the result is
/// whether they are the same.
#[verifier::external_body]
pub fn bigint_eq(a: &num_bigint::BigInt, b: &num_bigint::BigInt) -> (r: bool)
    ensures
        r == (bigint_value(*a) == bigint_value(*b)),
{
    a == b
}

} // verus!

verus! {

/// What `to_string` of a `BigInt` returns through `Display`: the decimal digits of its
/// integer, after a `-` where it is negative.
pub open spec fn bigint_text(b: num_bigint::BigInt) -> Seq<char> {
    crate::text::int_text(bigint_value(b))
}

/// Calls `ToString::to_string` on a `BigInt`: the decimal text of its integer.
#[verifier::external_body]
pub fn bigint_to_string(b: &num_bigint::BigInt) -> (r: String)
    ensures
        r@ == bigint_text(*b),
{
    b.to_string()
}

} // verus!

verus! {

/// The quotient of a division that rounds toward zero.
pub open spec fn trunc_div(x: int, y: int) -> int {
    let ax = if x < 0 { -x } else { x };
    let ay = if y < 0 { -y } else { y };
    if (x < 0) == (y < 0) { ax / ay } else { -(ax / ay) }
}

/// Makes a `BigInt` through `From<i64>`: its integer is the one given.
#[verifier::external_body]
pub fn bigint_from_i64(n: i64) -> (r: num_bigint::BigInt)
    ensures
        bigint_value(r) == n as int,
{
    num_bigint::BigInt::from(n)
}

/// Divides through `Div` for `&BigInt`: the quotient rounds toward zero (the crate divides
/// the magnitudes and gives the quotient the sign of the product); a zero divisor panics,
/// which `requires` rules out.
#[verifier::external_body]
pub fn bigint_div(a: &num_bigint::BigInt, b: &num_bigint::BigInt) -> (r: num_bigint::BigInt)
    requires
        bigint_value(*b) != 0,
    ensures
        bigint_value(r) == trunc_div(bigint_value(*a), bigint_value(*b)),
{
    a / b
}

} // verus!
