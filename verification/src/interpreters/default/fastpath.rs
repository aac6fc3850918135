//! The fast path for a binary operator on two integers.

use vstd::prelude::*;
use crate::astnode::BinaryOperator;
use crate::value::{Value, Val};
use crate::bigint::{bigint_div, bigint_from_i64, bigint_value, trunc_div};
use crate::builtins::core_builtins::{from_bigint, is_int_value};

verus! {

/// The remainder of a division that rounds toward zero: it takes the sign of the dividend.
pub open spec fn trunc_rem(x: int, y: int) -> int {
    let m = if y < 0 { -y } else { y };
    if x >= 0 { x % m } else { -((-x) % m) }
}

/// What the fast path gives for two integers.
pub enum FastPath {
    /// The result, computed on integers.
    Value(Value),
    /// A float result: the quotient (`Divide`, `DivideDot`) or the remainder (`ModuloDot`) of
    /// the two integers taken as floats, which the caller computes.
    Float(BinaryOperator, i64, i64),
    /// No fast result: the general path takes over.
    Slow,
}

/// The model of a fast-path outcome.
pub enum FastPathV {
    Value(Val),
    Float(BinaryOperator, i64, i64),
    Slow,
}

impl FastPath {
    pub open spec fn view(&self) -> FastPathV {
        match self {
            FastPath::Value(v) => FastPathV::Value(v@),
            FastPath::Float(op, a, b) => FastPathV::Float(*op, *a, *b),
            FastPath::Slow => FastPathV::Slow,
        }
    }
}

/// What the fast path gives for an operator on two integers: checked sums, differences and
/// products, the remainder, and comparisons; the float divisions and float remainder are
/// handed on as float operations; a zero divisor (but for `DivideDot`), an overflow, another
/// operator or a non-integer operand takes the general path.
pub open spec fn fp_int_v(op: BinaryOperator, a: Val, b: Val) -> FastPathV {
    match (a, b) {
        (Val::Int(x), Val::Int(y)) => match op {
            BinaryOperator::Add => if i64::MIN <= x + y <= i64::MAX {
                FastPathV::Value(Val::Int((x + y) as i64))
            } else {
                FastPathV::Slow
            },
            BinaryOperator::Subtract => if i64::MIN <= x - y <= i64::MAX {
                FastPathV::Value(Val::Int((x - y) as i64))
            } else {
                FastPathV::Slow
            },
            BinaryOperator::Multiply => if i64::MIN <= x * y <= i64::MAX {
                FastPathV::Value(Val::Int((x * y) as i64))
            } else {
                FastPathV::Slow
            },
            BinaryOperator::Divide => if y == 0 {
                FastPathV::Slow
            } else {
                FastPathV::Float(op, x, y)
            },
            BinaryOperator::DivideDot => FastPathV::Float(op, x, y),
            BinaryOperator::Modulo => if y == 0 {
                FastPathV::Slow
            } else {
                FastPathV::Value(Val::Int(trunc_rem(x as int, y as int) as i64))
            },
            BinaryOperator::ModuloDot => if y == 0 {
                FastPathV::Slow
            } else {
                FastPathV::Float(op, x, y)
            },
            BinaryOperator::LessThan => FastPathV::Value(Val::Bool(x < y)),
            BinaryOperator::LessThanOrEqual => FastPathV::Value(Val::Bool(x <= y)),
            BinaryOperator::GreaterThan => FastPathV::Value(Val::Bool(x > y)),
            BinaryOperator::GreaterThanOrEqual => FastPathV::Value(Val::Bool(x >= y)),
            BinaryOperator::Equal => FastPathV::Value(Val::Bool(x == y)),
            BinaryOperator::NotEqual => FastPathV::Value(Val::Bool(x != y)),
            _ => FastPathV::Slow,
        },
        _ => FastPathV::Slow,
    }
}

/// The remainder of `a` by a nonzero `b`, with the sign of `a`, as Rust's `%` gives it.
fn rem_toward_zero(a: i64, b: i64) -> (r: i64)
    requires
        b != 0,
    ensures
        r as int == trunc_rem(a as int, b as int),
{
    let ua: u64 = if a >= 0 { a as u64 } else { (-(a + 1)) as u64 + 1 };
    let ub: u64 = if b >= 0 { b as u64 } else { (-(b + 1)) as u64 + 1 };
    let m: u64 = ua % ub;
    assert(m < ub);
    assert(m <= i64::MAX) by {
        assert(ub as int <= i64::MAX + 1);
    }
    if a >= 0 {
        m as i64
    } else {
        -(m as i64)
    }
}

/// The fast path for a binary operator on two integers.
pub fn fp_int_binary_op(op: BinaryOperator, left: &Value, right: &Value) -> (r: FastPath)
    requires
        !(op == BinaryOperator::Modulo && left@ == Val::Int(i64::MIN) && right@ == Val::Int(-1i64)),
    ensures
        r.view() == fp_int_v(op, left@, right@),
{
    match (left, right) {
        (Value::Int(a), Value::Int(b)) => {
            let a = *a;
            let b = *b;
            match op {
                BinaryOperator::Add => match a.checked_add(b) {
                    Some(s) => FastPath::Value(Value::Int(s)),
                    None => FastPath::Slow,
                },
                BinaryOperator::Subtract => match a.checked_sub(b) {
                    Some(s) => FastPath::Value(Value::Int(s)),
                    None => FastPath::Slow,
                },
                BinaryOperator::Multiply => match a.checked_mul(b) {
                    Some(s) => FastPath::Value(Value::Int(s)),
                    None => FastPath::Slow,
                },
                BinaryOperator::Divide => if b == 0 {
                    FastPath::Slow
                } else {
                    FastPath::Float(op, a, b)
                },
                BinaryOperator::DivideDot => FastPath::Float(op, a, b),
                BinaryOperator::Modulo => if b == 0 {
                    FastPath::Slow
                } else {
                    FastPath::Value(Value::Int(rem_toward_zero(a, b)))
                },
                BinaryOperator::ModuloDot => if b == 0 {
                    FastPath::Slow
                } else {
                    FastPath::Float(op, a, b)
                },
                BinaryOperator::LessThan => FastPath::Value(Value::Bool(a < b)),
                BinaryOperator::LessThanOrEqual => FastPath::Value(Value::Bool(a <= b)),
                BinaryOperator::GreaterThan => FastPath::Value(Value::Bool(a > b)),
                BinaryOperator::GreaterThanOrEqual => FastPath::Value(Value::Bool(a >= b)),
                BinaryOperator::Equal => FastPath::Value(Value::Bool(a == b)),
                BinaryOperator::NotEqual => FastPath::Value(Value::Bool(a != b)),
                _ => FastPath::Slow,
            }
        },
        _ => FastPath::Slow,
    }
}

/// The quotient of a division that rounds toward negative infinity.
pub open spec fn floor_div(x: int, y: int) -> int {
    if y > 0 {
        x / y
    } else {
        (-x) / (-y)
    }
}

proof fn lemma_neg_div(u: int, v: int)
    requires
        u >= 0,
        v > 0,
    ensures
        (-u) / v == if u % v == 0 { -(u / v) } else { -(u / v) - 1 },
{
    vstd::arithmetic::div_mod::lemma_fundamental_div_mod(u, v);
    let q = u / v;
    let r = u % v;
    assert(0 <= r < v);
    if r == 0 {
        assert(-u == (-q) * v + 0) by (nonlinear_arith)
            requires
                u == v * q + r,
                r == 0,
        ;
        vstd::arithmetic::div_mod::lemma_fundamental_div_mod_converse_div(-u, v, -q, 0);
    } else {
        assert(-u == (-q - 1) * v + (v - r)) by (nonlinear_arith)
            requires
                u == v * q + r,
        ;
        vstd::arithmetic::div_mod::lemma_fundamental_div_mod_converse_div(-u, v, -q - 1, v - r);
    }
}

/// Floor division on two integers: the quotient rounded toward negative infinity, an integer
/// where an `i64` holds it (a big integer for the least integer by -1); `None` for a zero
/// divisor or an operand that is no integer.
pub fn fp_floor_div(left: &Value, right: &Value) -> (r: Option<Value>)
    ensures
        match (left@, right@) {
            (Val::Int(x), Val::Int(y)) => if y == 0 {
                r is None
            } else {
                r matches Some(v) && is_int_value(v@, floor_div(x as int, y as int))
            },
            _ => r is None,
        },
{
    match (left, right) {
        (Value::Int(a), Value::Int(b)) => {
            let a = *a;
            let b = *b;
            if b == 0 {
                return None;
            }
            if a == i64::MIN && b == -1 {
                let qa = bigint_from_i64(a);
                let qb = bigint_from_i64(b);
                let q0 = bigint_div(&qa, &qb);
                assert(trunc_div(a as int, b as int) == floor_div(a as int, b as int));
                return Some(from_bigint(q0));
            }
            let ua: u64 = if a >= 0 { a as u64 } else { (-(a + 1)) as u64 + 1 };
            let ub: u64 = if b >= 0 { b as u64 } else { (-(b + 1)) as u64 + 1 };
            let qu: u64 = ua / ub;
            let ru: u64 = ua % ub;
            proof {
                assert(qu <= ua) by (nonlinear_arith)
                    requires
                        qu == ua / ub,
                        ub >= 1,
                ;
                if qu as int == 0x8000_0000_0000_0000 {
                    assert(ua as int == 0x8000_0000_0000_0000);
                    if ub >= 2 {
                        vstd::arithmetic::div_mod::lemma_div_decreases(ua as int, ub as int);
                    }
                    assert(ub == 1);
                }
            }
            if (a >= 0) == (b > 0) {
                proof {
                    if b < 0 {
                        assert(floor_div(a as int, b as int) == (ua as int) / (ub as int));
                    }
                }
                Some(Value::Int(qu as i64))
            } else {
                proof {
                    lemma_neg_div(ua as int, ub as int);
                    if b < 0 {
                        assert(floor_div(a as int, b as int) == (-(ua as int)) / (ub as int));
                    } else {
                        assert(floor_div(a as int, b as int) == (-(ua as int)) / (ub as int));
                    }
                }
                if qu == 0x8000_0000_0000_0000u64 {
                    Some(Value::Int(i64::MIN))
                } else if ru == 0 {
                    Some(Value::Int(-(qu as i64)))
                } else {
                    Some(Value::Int(-(qu as i64) - 1))
                }
            }
        },
        _ => None,
    }
}

} // verus!
