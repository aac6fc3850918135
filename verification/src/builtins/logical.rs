//! Logical and bitwise builtins, element-wise over lists.

use vstd::prelude::*;
use crate::bcast::{AtomOp, UnaryOp, bc, bc_v, map_each, map_v};
use crate::builtin_table::{NOT, AND, OR, XOR, BNOT, BAND, BOR, BXOR, SHL, SHR};
use crate::builtins::{fold_value, fold_value_ok};
use crate::builtins::wqerror_helper::{check_arity, is_arity_error, builtin_src, builtin_src_v};
use crate::error::{WqError, WqErrorType, WqResult};
use crate::value::Value;

verus! {

/// What a builtin of one argument gives with an element-wise operation on it.
pub open spec fn unary_builtin_ok(id: int, op: UnaryOp, args: Seq<Value>, r: WqResult<Value>) -> bool {
    if args.len() != 1 {
        r matches Err(e) && is_arity_error(e, id, seq![1usize], args.len())
    } else {
        match map_v(op, args[0]@) {
            Some(v) => r matches Ok(x) && x@ == v,
            None => r matches Err(e) && e.kind == WqErrorType::Domain && e.src@ == builtin_src_v(id),
        }
    }
}

/// What a builtin of two arguments gives with an element-wise operation on them.
pub open spec fn binary_builtin_ok(id: int, op: AtomOp, args: Seq<Value>, r: WqResult<Value>) -> bool {
    if args.len() != 2 {
        r matches Err(e) && is_arity_error(e, id, seq![2usize], args.len())
    } else {
        match bc_v(op, args[0]@, args[1]@) {
            Some(v) => r matches Ok(x) && x@ == v,
            None => r matches Err(e) && e.kind == WqErrorType::Domain && e.src@ == builtin_src_v(id),
        }
    }
}

fn unary_builtin(id: usize, op: UnaryOp, args: &[Value], expected: &str) -> (r: WqResult<Value>)
    requires
        id < crate::builtin_table::BUILTIN_COUNT,
    ensures
        unary_builtin_ok(id as int, op, args@, r),
{
    let arity: [usize; 1] = [1];
    check_arity(id, &arity, args)?;
    assert(arity@ =~= seq![1usize]);
    match map_each(op, &args[0]) {
        Some(v) => Ok(v),
        None => Err(WqError::new(WqErrorType::Domain).src(builtin_src(id).as_str()).msg(expected)),
    }
}

fn binary_builtin(id: usize, op: AtomOp, args: &[Value], expected: &str) -> (r: WqResult<Value>)
    requires
        id < crate::builtin_table::BUILTIN_COUNT,
    ensures
        binary_builtin_ok(id as int, op, args@, r),
{
    let arity: [usize; 1] = [2];
    assert(arity@ =~= seq![2usize]);
    check_arity(id, &arity, args)?;
    match bc(op, &args[0], &args[1]) {
        Some(v) => Ok(v),
        None => Err(WqError::new(WqErrorType::Domain).src(builtin_src(id).as_str()).msg(expected)),
    }
}

/// `not[xs]`: logical negation of a boolean, element-wise over lists.
pub fn not(args: &[Value]) -> (r: WqResult<Value>)
    ensures
        unary_builtin_ok(NOT as int, UnaryOp::Not, args@, r),
{
    unary_builtin(NOT, UnaryOp::Not, args, "expected bool")
}

/// `and[xs;ys+]`: logical conjunction folded over two or more arguments.
pub fn and(args: &[Value]) -> (r: WqResult<Value>)
    ensures
        fold_value_ok(AtomOp::And, args@, r),
{
    fold_value(AND, args, AtomOp::And, "bool")
}

/// `or[xs;ys+]`: logical disjunction folded over two or more arguments.
pub fn or(args: &[Value]) -> (r: WqResult<Value>)
    ensures
        fold_value_ok(AtomOp::Or, args@, r),
{
    fold_value(OR, args, AtomOp::Or, "bool")
}

/// `xor[xs;ys+]`: exclusive or folded over two or more arguments.
pub fn xor(args: &[Value]) -> (r: WqResult<Value>)
    ensures
        fold_value_ok(AtomOp::Xor, args@, r),
{
    fold_value(XOR, args, AtomOp::Xor, "bool")
}

/// `bnot[xs]`: bitwise complement of an integer, element-wise over lists.
pub fn bnot(args: &[Value]) -> (r: WqResult<Value>)
    ensures
        unary_builtin_ok(BNOT as int, UnaryOp::BitNot, args@, r),
{
    unary_builtin(BNOT, UnaryOp::BitNot, args, "expected int")
}

/// `band[xs;ys+]`: bitwise and folded over two or more arguments.
pub fn band(args: &[Value]) -> (r: WqResult<Value>)
    ensures
        fold_value_ok(AtomOp::BitAnd, args@, r),
{
    fold_value(BAND, args, AtomOp::BitAnd, "int")
}

/// `bor[xs;ys+]`: bitwise or folded over two or more arguments.
pub fn bor(args: &[Value]) -> (r: WqResult<Value>)
    ensures
        fold_value_ok(AtomOp::BitOr, args@, r),
{
    fold_value(BOR, args, AtomOp::BitOr, "int")
}

/// `bxor[xs;ys+]`: bitwise exclusive or folded over two or more arguments.
pub fn bxor(args: &[Value]) -> (r: WqResult<Value>)
    ensures
        fold_value_ok(AtomOp::BitXor, args@, r),
{
    fold_value(BXOR, args, AtomOp::BitXor, "int")
}

/// `shl[xs;shift]`: shift left by 0 to 63 places, element-wise.
pub fn shl(args: &[Value]) -> (r: WqResult<Value>)
    ensures
        binary_builtin_ok(SHL as int, AtomOp::Shl, args@, r),
{
    binary_builtin(SHL, AtomOp::Shl, args, "expected int and a shift from 0 to 63")
}

/// `shr[xs;shift]`: arithmetic shift right by 0 to 63 places, element-wise.
pub fn shr(args: &[Value]) -> (r: WqResult<Value>)
    ensures
        binary_builtin_ok(SHR as int, AtomOp::Shr, args@, r),
{
    binary_builtin(SHR, AtomOp::Shr, args, "expected int and a shift from 0 to 63")
}

} // verus!
