//! Chains of comparisons such as `a < b <= c`.

use vstd::prelude::*;
use crate::astnode::BinaryOperator;
use crate::bcast::{AtomOp, bc, bc_v};
use crate::error::{WqError, WqErrorType, WqResult};
use crate::value::{Value, Val};

verus! {

/// The element-wise operation of a comparison operator.
pub open spec fn comparison_op_v(op: BinaryOperator) -> Option<AtomOp> {
    match op {
        BinaryOperator::LessThan => Some(AtomOp::Lt),
        BinaryOperator::LessThanOrEqual => Some(AtomOp::Le),
        BinaryOperator::GreaterThan => Some(AtomOp::Gt),
        BinaryOperator::GreaterThanOrEqual => Some(AtomOp::Ge),
        BinaryOperator::Equal => Some(AtomOp::Eq),
        BinaryOperator::NotEqual => Some(AtomOp::Ne),
        _ => None,
    }
}

/// A comparison of two values, element-wise.
pub open spec fn compare_v(op: BinaryOperator, a: Val, b: Val) -> Option<Val> {
    match comparison_op_v(op) {
        Some(o) => bc_v(o, a, b),
        None => None,
    }
}

/// The result of the first `k` comparisons of a chain, each joined to the ones before by an
/// element-wise `and`; once it is `false` it stays so. `Err(true)` where a comparison does
/// not apply, `Err(false)` where the `and` does not.
pub open spec fn chain_v(ops: Seq<BinaryOperator>, vs: Seq<Val>, k: int) -> Result<Val, bool>
    decreases k,
{
    if k <= 0 {
        Ok(Val::Bool(true))
    } else {
        match chain_v(ops, vs, k - 1) {
            Err(e) => Err(e),
            Ok(acc) => if acc == Val::Bool(false) {
                Ok(acc)
            } else {
                match compare_v(ops[k - 1], vs[k - 1], vs[k]) {
                    None => Err(true),
                    Some(c) => match bc_v(AtomOp::And, acc, c) {
                        Some(x) => Ok(x),
                        None => Err(false),
                    },
                }
            },
        }
    }
}

fn comparison_op(op: &BinaryOperator) -> (r: Option<AtomOp>)
    ensures
        r == comparison_op_v(*op),
{
    match op {
        BinaryOperator::LessThan => Some(AtomOp::Lt),
        BinaryOperator::LessThanOrEqual => Some(AtomOp::Le),
        BinaryOperator::GreaterThan => Some(AtomOp::Gt),
        BinaryOperator::GreaterThanOrEqual => Some(AtomOp::Ge),
        BinaryOperator::Equal => Some(AtomOp::Eq),
        BinaryOperator::NotEqual => Some(AtomOp::Ne),
        _ => None,
    }
}

/// What evaluating a chain gives: its value, or a domain error (from the chain itself where
/// the `and` does not apply).
pub open spec fn chain_result_ok(ops: Seq<BinaryOperator>, values: Seq<Value>, r: WqResult<Value>) -> bool {
    match chain_v(ops, Seq::new(values.len(), |i: int| values[i]@), ops.len() as int) {
        Ok(v) => r matches Ok(x) && x@ == v,
        Err(true) => r matches Err(e) && e.kind == WqErrorType::Domain,
        Err(false) => r matches Err(e) && e.kind == WqErrorType::Domain && e.src@ == "vm (cmp-chain)"@,
    }
}

/// Evaluates a chain of comparisons: `values[i] ops[i] values[i+1]` for each `i`, joined by
/// an element-wise `and`, stopping once the result is `false`.
pub fn eval_cmp_chain(ops: &[BinaryOperator], values: &[Value]) -> (r: WqResult<Value>)
    requires
        ops@.len() + 1 == values@.len(),
    ensures
        chain_result_ok(ops@, values@, r),
{
    evaluate_chain(ops, values)
}

fn evaluate_chain(ops: &[BinaryOperator], values: &[Value]) -> (r: WqResult<Value>)
    requires
        ops@.len() + 1 == values@.len(),
    ensures
        chain_result_ok(ops@, values@, r),
{
    let ghost vs = Seq::new(values@.len(), |i: int| values@[i]@);
    if ops.len() == 0 {
        return Ok(Value::Bool(true));
    }
    let mut result = Value::Bool(true);
    let mut idx: usize = 0;
    while idx < ops.len()
        invariant
            ops@.len() + 1 == values@.len(),
            vs == Seq::new(values@.len(), |i: int| values@[i]@),
            idx <= ops@.len(),
            chain_v(ops@, vs, idx as int) == Ok::<Val, bool>(result@),
            result@ != Val::Bool(false),
        decreases ops.len() - idx,
    {
        assert(vs[idx as int] == values@[idx as int]@ && vs[idx + 1] == values@[idx + 1]@);
        assert(chain_v(ops@, vs, idx + 1) == match compare_v(ops@[idx as int], vs[idx as int], vs[idx + 1]) {
            None => Err(true),
            Some(c) => match bc_v(AtomOp::And, result@, c) {
                Some(x) => Ok(x),
                None => Err(false),
            },
        });
        let c = match comparison_op(&ops[idx]) {
            Some(o) => match bc(o, &values[idx], &values[idx + 1]) {
                Some(c) => c,
                None => {
                    proof {
                        lemma_chain_err_stays(ops@, vs, idx as int + 1, ops@.len() as int);
                    }
                    return Err(WqError::new(WqErrorType::Domain).msg("values cannot be compared"));
                },
            },
            None => {
                proof {
                    lemma_chain_err_stays(ops@, vs, idx as int + 1, ops@.len() as int);
                }
                return Err(WqError::new(WqErrorType::Domain).msg("not a comparison operator"));
            },
        };
        match bc(AtomOp::And, &result, &c) {
            Some(x) => {
                result = x;
            },
            None => {
                proof {
                    lemma_chain_err_stays(ops@, vs, idx as int + 1, ops@.len() as int);
                }
                return Err(WqError::new(WqErrorType::Domain).src("vm (cmp-chain)").msg("expected bool"));
            },
        }
        idx += 1;
        match &result {
            Value::Bool(false) => {
                proof {
                    lemma_chain_false_stays(ops@, vs, idx as int, ops@.len() as int);
                }
                return Ok(result);
            },
            _ => {},
        }
    }
    Ok(result)
}

proof fn lemma_chain_err_stays(ops: Seq<BinaryOperator>, vs: Seq<Val>, k: int, n: int)
    requires
        1 <= k <= n,
        chain_v(ops, vs, k) is Err,
    ensures
        chain_v(ops, vs, n) == chain_v(ops, vs, k),
    decreases n - k,
{
    if k < n {
        lemma_chain_err_stays(ops, vs, k + 1, n);
    }
}

proof fn lemma_chain_false_stays(ops: Seq<BinaryOperator>, vs: Seq<Val>, k: int, n: int)
    requires
        0 <= k <= n,
        chain_v(ops, vs, k) == Ok::<Val, bool>(Val::Bool(false)),
    ensures
        chain_v(ops, vs, n) == Ok::<Val, bool>(Val::Bool(false)),
    decreases n - k,
{
    if k < n {
        lemma_chain_false_stays(ops, vs, k + 1, n);
    }
}

} // verus!
