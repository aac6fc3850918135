//! Element-wise operations on values: an operation on atoms extends to lists, pairing the
//! elements of two lists of one length, or pairing each element of a list with an atom.

use vstd::prelude::*;
use crate::value::{Value, Val, vals, from_items_v, is_atom_v, lemma_list_view, lemma_vals_push};

verus! {

/// An operation on two atoms.
#[derive(Copy, Clone, Debug, PartialEq, Eq, Structural)]
pub enum AtomOp {
    And,
    Or,
    Xor,
    BitAnd,
    BitOr,
    BitXor,
    Shl,
    Shr,
    Lt,
    Le,
    Gt,
    Ge,
    Eq,
    Ne,
}

/// An operation on one atom.
#[derive(Copy, Clone, Debug, PartialEq, Eq, Structural)]
pub enum UnaryOp {
    Not,
    BitNot,
}

/// The result of an operation on two atoms; `None` where the operation does not apply.
/// Logical operations take booleans, bitwise ones integers (a shift from 0 to 63 places),
/// comparisons two integers or two characters; equality also two booleans.
pub open spec fn atom_op_v(op: AtomOp, a: Val, b: Val) -> Option<Val> {
    match (a, b) {
        (Val::Bool(x), Val::Bool(y)) => match op {
            AtomOp::And => Some(Val::Bool(x && y)),
            AtomOp::Or => Some(Val::Bool(x || y)),
            AtomOp::Xor => Some(Val::Bool(x != y)),
            AtomOp::Eq => Some(Val::Bool(x == y)),
            AtomOp::Ne => Some(Val::Bool(x != y)),
            _ => None,
        },
        (Val::Int(x), Val::Int(y)) => match op {
            AtomOp::BitAnd => Some(Val::Int(x & y)),
            AtomOp::BitOr => Some(Val::Int(x | y)),
            AtomOp::BitXor => Some(Val::Int(x ^ y)),
            AtomOp::Shl => if 0 <= y < 64 { Some(Val::Int(x << (y as u32))) } else { None },
            AtomOp::Shr => if 0 <= y < 64 { Some(Val::Int(x >> (y as u32))) } else { None },
            AtomOp::Lt => Some(Val::Bool(x < y)),
            AtomOp::Le => Some(Val::Bool(x <= y)),
            AtomOp::Gt => Some(Val::Bool(x > y)),
            AtomOp::Ge => Some(Val::Bool(x >= y)),
            AtomOp::Eq => Some(Val::Bool(x == y)),
            AtomOp::Ne => Some(Val::Bool(x != y)),
            _ => None,
        },
        (Val::Char(x), Val::Char(y)) => match op {
            AtomOp::Lt => Some(Val::Bool(x < y)),
            AtomOp::Le => Some(Val::Bool(x <= y)),
            AtomOp::Gt => Some(Val::Bool(x > y)),
            AtomOp::Ge => Some(Val::Bool(x >= y)),
            AtomOp::Eq => Some(Val::Bool(x == y)),
            AtomOp::Ne => Some(Val::Bool(x != y)),
            _ => None,
        },
        _ => None,
    }
}

/// The result of an operation on one atom.
pub open spec fn unary_op_v(op: UnaryOp, a: Val) -> Option<Val> {
    match (op, a) {
        (UnaryOp::Not, Val::Bool(x)) => Some(Val::Bool(!x)),
        (UnaryOp::BitNot, Val::Int(x)) => Some(Val::Int((-1 - x) as i64)),
        _ => None,
    }
}

/// Appends a result to the results so far; absent if either is absent.
pub open spec fn opt_push(p: Option<Seq<Val>>, v: Option<Val>) -> Option<Seq<Val>> {
    match (p, v) {
        (Some(s), Some(x)) => Some(s.push(x)),
        _ => None,
    }
}

/// The list of the results, where all are present.
pub open spec fn collect_v(p: Option<Seq<Val>>) -> Option<Val> {
    match p {
        Some(s) => Some(from_items_v(s)),
        None => None,
    }
}

/// The model of an optional value.
pub open spec fn opt_view(r: Option<Value>) -> Option<Val> {
    match r {
        Some(v) => Some(v@),
        None => None,
    }
}

/// The results of an operation with the atom `a` on the left and each of `ys[..k]`.
pub open spec fn left_list(op: AtomOp, a: Val, ys: Seq<Val>, k: int) -> Option<Seq<Val>>
    decreases ys, k,
{
    if k <= 0 || k > ys.len() {
        Some(Seq::empty())
    } else {
        opt_push(left_list(op, a, ys, k - 1), bc_left_v(op, a, ys[k - 1]))
    }
}

/// The results of an operation with the atom `a` on the left and each of `ys[..k]`.
pub open spec fn left_ints(op: AtomOp, a: Val, ys: Seq<i64>, k: int) -> Option<Seq<Val>>
    decreases k,
{
    if k <= 0 || k > ys.len() {
        Some(Seq::empty())
    } else {
        opt_push(left_ints(op, a, ys, k - 1), atom_op_v(op, a, Val::Int(ys[k - 1])))
    }
}

/// An operation with an atom on the left, over every element of `y`.
pub open spec fn bc_left_v(op: AtomOp, a: Val, y: Val) -> Option<Val>
    decreases y, 0int,
{
    match y {
        Val::List(ys) => collect_v(left_list(op, a, ys, ys.len() as int)),
        Val::IntList(ys) => collect_v(left_ints(op, a, ys, ys.len() as int)),
        Val::Dict(_) => None,
        _ => atom_op_v(op, a, y),
    }
}

/// The results of an operation with each of `xs[..k]` on the left and the atom `b`.
pub open spec fn right_list(op: AtomOp, xs: Seq<Val>, b: Val, k: int) -> Option<Seq<Val>>
    decreases xs, k,
{
    if k <= 0 || k > xs.len() {
        Some(Seq::empty())
    } else {
        opt_push(right_list(op, xs, b, k - 1), bc_right_v(op, xs[k - 1], b))
    }
}

/// The results of an operation with each of `xs[..k]` on the left and the atom `b`.
pub open spec fn right_ints(op: AtomOp, xs: Seq<i64>, b: Val, k: int) -> Option<Seq<Val>>
    decreases k,
{
    if k <= 0 || k > xs.len() {
        Some(Seq::empty())
    } else {
        opt_push(right_ints(op, xs, b, k - 1), atom_op_v(op, Val::Int(xs[k - 1]), b))
    }
}

/// An operation with an atom on the right, over every element of `x`.
pub open spec fn bc_right_v(op: AtomOp, x: Val, b: Val) -> Option<Val>
    decreases x, 0int,
{
    match x {
        Val::List(xs) => collect_v(right_list(op, xs, b, xs.len() as int)),
        Val::IntList(xs) => collect_v(right_ints(op, xs, b, xs.len() as int)),
        Val::Dict(_) => None,
        _ => atom_op_v(op, x, b),
    }
}

/// The results of an operation on the pairs of `xs[..k]` and `ys[..k]`.
pub open spec fn pair_lists(op: AtomOp, xs: Seq<Val>, ys: Seq<Val>, k: int) -> Option<Seq<Val>>
    decreases xs, k,
{
    if k <= 0 || k > xs.len() || k > ys.len() {
        Some(Seq::empty())
    } else {
        opt_push(pair_lists(op, xs, ys, k - 1), bc_v(op, xs[k - 1], ys[k - 1]))
    }
}

/// The results of an operation on the pairs of `xs[..k]` and the integers `ys[..k]`.
pub open spec fn pair_list_ints(op: AtomOp, xs: Seq<Val>, ys: Seq<i64>, k: int) -> Option<Seq<Val>>
    decreases xs, k,
{
    if k <= 0 || k > xs.len() || k > ys.len() {
        Some(Seq::empty())
    } else {
        opt_push(pair_list_ints(op, xs, ys, k - 1), bc_v(op, xs[k - 1], Val::Int(ys[k - 1])))
    }
}

/// The results of an operation on the pairs of the integers `xs[..k]` and `ys[..k]`.
pub open spec fn pair_ints_list(op: AtomOp, xs: Seq<i64>, ys: Seq<Val>, k: int) -> Option<Seq<Val>>
    decreases k,
{
    if k <= 0 || k > xs.len() || k > ys.len() {
        Some(Seq::empty())
    } else {
        opt_push(pair_ints_list(op, xs, ys, k - 1), bc_left_v(op, Val::Int(xs[k - 1]), ys[k - 1]))
    }
}

/// The results of an operation on the pairs of the integers `xs[..k]` and `ys[..k]`.
pub open spec fn pair_ints(op: AtomOp, xs: Seq<i64>, ys: Seq<i64>, k: int) -> Option<Seq<Val>>
    decreases k,
{
    if k <= 0 || k > xs.len() || k > ys.len() {
        Some(Seq::empty())
    } else {
        opt_push(pair_ints(op, xs, ys, k - 1), atom_op_v(op, Val::Int(xs[k - 1]), Val::Int(ys[k - 1])))
    }
}

/// An operation element by element: atoms with atoms, an atom with each element of a list,
/// the elements of two lists of one length pairwise.
pub open spec fn bc_v(op: AtomOp, x: Val, y: Val) -> Option<Val>
    decreases x, 0int,
{
    if is_atom_v(x) {
        bc_left_v(op, x, y)
    } else if is_atom_v(y) {
        bc_right_v(op, x, y)
    } else {
        match x {
            Val::List(xs) => match y {
                Val::List(ys) => if xs.len() == ys.len() {
                    collect_v(pair_lists(op, xs, ys, xs.len() as int))
                } else {
                    None
                },
                Val::IntList(ys) => if xs.len() == ys.len() {
                    collect_v(pair_list_ints(op, xs, ys, xs.len() as int))
                } else {
                    None
                },
                _ => None,
            },
            Val::IntList(xs) => match y {
                Val::List(ys) => if xs.len() == ys.len() {
                    collect_v(pair_ints_list(op, xs, ys, xs.len() as int))
                } else {
                    None
                },
                Val::IntList(ys) => if xs.len() == ys.len() {
                    collect_v(pair_ints(op, xs, ys, xs.len() as int))
                } else {
                    None
                },
                _ => None,
            },
            _ => None,
        }
    }
}

/// The results of an operation on each of `xs[..k]`.
pub open spec fn map_list(op: UnaryOp, xs: Seq<Val>, k: int) -> Option<Seq<Val>>
    decreases xs, k,
{
    if k <= 0 || k > xs.len() {
        Some(Seq::empty())
    } else {
        opt_push(map_list(op, xs, k - 1), map_v(op, xs[k - 1]))
    }
}

/// The results of an operation on each of the integers `xs[..k]`.
pub open spec fn map_ints(op: UnaryOp, xs: Seq<i64>, k: int) -> Option<Seq<Val>>
    decreases k,
{
    if k <= 0 || k > xs.len() {
        Some(Seq::empty())
    } else {
        opt_push(map_ints(op, xs, k - 1), unary_op_v(op, Val::Int(xs[k - 1])))
    }
}

/// An operation on one atom, over every element of `x`.
pub open spec fn map_v(op: UnaryOp, x: Val) -> Option<Val>
    decreases x, 0int,
{
    match x {
        Val::List(xs) => collect_v(map_list(op, xs, xs.len() as int)),
        Val::IntList(xs) => collect_v(map_ints(op, xs, xs.len() as int)),
        Val::Dict(_) => None,
        _ => unary_op_v(op, x),
    }
}

/// Applies an operation to two atoms.
pub fn atom_op(op: AtomOp, a: &Value, b: &Value) -> (r: Option<Value>)
    ensures
        opt_view(r) == atom_op_v(op, a@, b@),
{
    match (a, b) {
        (Value::Bool(x), Value::Bool(y)) => match op {
            AtomOp::And => Some(Value::Bool(*x && *y)),
            AtomOp::Or => Some(Value::Bool(*x || *y)),
            AtomOp::Xor => Some(Value::Bool(*x != *y)),
            AtomOp::Eq => Some(Value::Bool(*x == *y)),
            AtomOp::Ne => Some(Value::Bool(*x != *y)),
            _ => None,
        },
        (Value::Int(x), Value::Int(y)) => {
            let x = *x;
            let y = *y;
            match op {
                AtomOp::BitAnd => Some(Value::Int(x & y)),
                AtomOp::BitOr => Some(Value::Int(x | y)),
                AtomOp::BitXor => Some(Value::Int(x ^ y)),
                AtomOp::Shl => if 0 <= y && y < 64 {
                    let s: u32 = y as u32;
                    Some(Value::Int(x << s))
                } else {
                    None
                },
                AtomOp::Shr => if 0 <= y && y < 64 {
                    let s: u32 = y as u32;
                    Some(Value::Int(x >> s))
                } else {
                    None
                },
                AtomOp::Lt => Some(Value::Bool(x < y)),
                AtomOp::Le => Some(Value::Bool(x <= y)),
                AtomOp::Gt => Some(Value::Bool(x > y)),
                AtomOp::Ge => Some(Value::Bool(x >= y)),
                AtomOp::Eq => Some(Value::Bool(x == y)),
                AtomOp::Ne => Some(Value::Bool(x != y)),
                _ => None,
            }
        },
        (Value::Char(x), Value::Char(y)) => match op {
            AtomOp::Lt => Some(Value::Bool(*x < *y)),
            AtomOp::Le => Some(Value::Bool(*x <= *y)),
            AtomOp::Gt => Some(Value::Bool(*x > *y)),
            AtomOp::Ge => Some(Value::Bool(*x >= *y)),
            AtomOp::Eq => Some(Value::Bool(*x == *y)),
            AtomOp::Ne => Some(Value::Bool(*x != *y)),
            _ => None,
        },
        _ => None,
    }
}

/// Applies an operation to one atom.
pub fn unary_op(op: UnaryOp, a: &Value) -> (r: Option<Value>)
    ensures
        opt_view(r) == unary_op_v(op, a@),
{
    match (op, a) {
        (UnaryOp::Not, Value::Bool(x)) => Some(Value::Bool(!*x)),
        (UnaryOp::BitNot, Value::Int(x)) => {
            let n = *x;
            let r = !n;
            assert(r == -1 - n) by (bit_vector)
                requires
                    r == !n,
            ;
            Some(Value::Int(r))
        },
        _ => None,
    }
}


/// Once the results so far hold an absent one, so do all the results.
proof fn lemma_none_stays(f: spec_fn(int) -> Option<Seq<Val>>, k: int, n: int)
    requires
        0 <= k <= n,
        f(k) is None,
        forall|j: int| 0 <= j < n ==> (f(j) is None ==> (#[trigger] f(j + 1)) is None),
    ensures
        f(n) is None,
    decreases n - k,
{
    if k < n {
        assert(f(k + 1) is None);
        lemma_none_stays(f, k + 1, n);
    }
}

/// Applies an operation with an atom on the left over every element of `y`.
pub fn bc_left(op: AtomOp, a: &Value, y: &Value) -> (r: Option<Value>)
    ensures
        opt_view(r) == bc_left_v(op, a@, y@),
    decreases y,
{
    match y {
        Value::List(ys) => {
            proof {
                lemma_list_view(*ys);
            }
            let mut out: Vec<Value> = Vec::new();
            let mut i: usize = 0;
            while i < ys.len()
                invariant
                    *y == Value::List(*ys),
                    y@ == Val::List(vals(ys@)),
                    i <= ys.len(),
                    left_list(op, a@, vals(ys@), i as int) == Some(vals(out@)),
                decreases ys.len() - i,
            {
                assert(decreases_to!(*y => ys@[i as int])) by {
                    assert(decreases_to!(*y => (*y)->List_0));
                    assert(decreases_to!(*ys => ys@));
                    assert(decreases_to!(ys@ => ys@[i as int]));
                }
                match bc_left(op, a, &ys[i]) {
                    Some(v) => {
                        proof {
                            lemma_vals_push(out@, v);
                        }
                        out.push(v);
                    },
                    None => {
                        proof {
                            let ghost vs = vals(ys@);
                            lemma_none_stays(|j: int| left_list(op, a@, vs, j), i + 1, vs.len() as int);
                        }
                        return None;
                    },
                }
                i += 1;
            }
            Some(Value::from_items(out))
        },
        Value::IntList(ys) => {
            let mut out: Vec<Value> = Vec::new();
            let mut i: usize = 0;
            while i < ys.len()
                invariant
                    *y == Value::IntList(*ys),
                    i <= ys.len(),
                    left_ints(op, a@, ys@, i as int) == Some(vals(out@)),
                decreases ys.len() - i,
            {
                let e = Value::Int(ys[i]);
                match atom_op(op, a, &e) {
                    Some(v) => {
                        proof {
                            lemma_vals_push(out@, v);
                        }
                        out.push(v);
                    },
                    None => {
                        proof {
                            lemma_none_stays(|j: int| left_ints(op, a@, ys@, j), i + 1, ys@.len() as int);
                        }
                        return None;
                    },
                }
                i += 1;
            }
            Some(Value::from_items(out))
        },
        Value::Dict(_) => None,
        _ => atom_op(op, a, y),
    }
}

/// Applies an operation with an atom on the right over every element of `x`.
pub fn bc_right(op: AtomOp, x: &Value, b: &Value) -> (r: Option<Value>)
    ensures
        opt_view(r) == bc_right_v(op, x@, b@),
    decreases x,
{
    match x {
        Value::List(xs) => {
            proof {
                lemma_list_view(*xs);
            }
            let mut out: Vec<Value> = Vec::new();
            let mut i: usize = 0;
            while i < xs.len()
                invariant
                    *x == Value::List(*xs),
                    x@ == Val::List(vals(xs@)),
                    i <= xs.len(),
                    right_list(op, vals(xs@), b@, i as int) == Some(vals(out@)),
                decreases xs.len() - i,
            {
                assert(decreases_to!(*x => xs@[i as int])) by {
                    assert(decreases_to!(*x => (*x)->List_0));
                    assert(decreases_to!(*xs => xs@));
                    assert(decreases_to!(xs@ => xs@[i as int]));
                }
                match bc_right(op, &xs[i], b) {
                    Some(v) => {
                        proof {
                            lemma_vals_push(out@, v);
                        }
                        out.push(v);
                    },
                    None => {
                        proof {
                            let ghost vs = vals(xs@);
                            lemma_none_stays(|j: int| right_list(op, vs, b@, j), i + 1, vs.len() as int);
                        }
                        return None;
                    },
                }
                i += 1;
            }
            Some(Value::from_items(out))
        },
        Value::IntList(xs) => {
            let mut out: Vec<Value> = Vec::new();
            let mut i: usize = 0;
            while i < xs.len()
                invariant
                    *x == Value::IntList(*xs),
                    i <= xs.len(),
                    right_ints(op, xs@, b@, i as int) == Some(vals(out@)),
                decreases xs.len() - i,
            {
                let e = Value::Int(xs[i]);
                match atom_op(op, &e, b) {
                    Some(v) => {
                        proof {
                            lemma_vals_push(out@, v);
                        }
                        out.push(v);
                    },
                    None => {
                        proof {
                            lemma_none_stays(|j: int| right_ints(op, xs@, b@, j), i + 1, xs@.len() as int);
                        }
                        return None;
                    },
                }
                i += 1;
            }
            Some(Value::from_items(out))
        },
        Value::Dict(_) => None,
        _ => atom_op(op, x, b),
    }
}

/// Applies an operation element by element.
pub fn bc(op: AtomOp, x: &Value, y: &Value) -> (r: Option<Value>)
    ensures
        opt_view(r) == bc_v(op, x@, y@),
    decreases x,
{
    if x.is_atom() {
        return bc_left(op, x, y);
    }
    if y.is_atom() {
        return bc_right(op, x, y);
    }
    match x {
        Value::List(xs) => {
            proof {
                lemma_list_view(*xs);
            }
            match y {
                Value::List(ys) => {
                    proof {
                        lemma_list_view(*ys);
                    }
                    if xs.len() != ys.len() {
                        return None;
                    }
                    let mut out: Vec<Value> = Vec::new();
                    let mut i: usize = 0;
                    while i < xs.len()
                        invariant
                            *x == Value::List(*xs),
                            x@ == Val::List(vals(xs@)),
                            y@ == Val::List(vals(ys@)),
                            xs.len() == ys.len(),
                            i <= xs.len(),
                            pair_lists(op, vals(xs@), vals(ys@), i as int) == Some(vals(out@)),
                        decreases xs.len() - i,
                    {
                        assert(decreases_to!(*x => xs@[i as int])) by {
                            assert(decreases_to!(*x => (*x)->List_0));
                            assert(decreases_to!(*xs => xs@));
                            assert(decreases_to!(xs@ => xs@[i as int]));
                        }
                        match bc(op, &xs[i], &ys[i]) {
                            Some(v) => {
                                proof {
                                    lemma_vals_push(out@, v);
                                }
                                out.push(v);
                            },
                            None => {
                                proof {
                                    let ghost vs = vals(xs@);
                                    let ghost ws = vals(ys@);
                                    lemma_none_stays(|j: int| pair_lists(op, vs, ws, j), i + 1, vs.len() as int);
                                }
                                return None;
                            },
                        }
                        i += 1;
                    }
                    Some(Value::from_items(out))
                },
                Value::IntList(ys) => {
                    if xs.len() != ys.len() {
                        return None;
                    }
                    let mut out: Vec<Value> = Vec::new();
                    let mut i: usize = 0;
                    while i < xs.len()
                        invariant
                            *x == Value::List(*xs),
                            x@ == Val::List(vals(xs@)),
                            y@ == Val::IntList(ys@),
                            xs.len() == ys.len(),
                            i <= xs.len(),
                            pair_list_ints(op, vals(xs@), ys@, i as int) == Some(vals(out@)),
                        decreases xs.len() - i,
                    {
                        assert(decreases_to!(*x => xs@[i as int])) by {
                            assert(decreases_to!(*x => (*x)->List_0));
                            assert(decreases_to!(*xs => xs@));
                            assert(decreases_to!(xs@ => xs@[i as int]));
                        }
                        let e = Value::Int(ys[i]);
                        match bc(op, &xs[i], &e) {
                            Some(v) => {
                                proof {
                                    lemma_vals_push(out@, v);
                                }
                                out.push(v);
                            },
                            None => {
                                proof {
                                    let ghost vs = vals(xs@);
                                    lemma_none_stays(|j: int| pair_list_ints(op, vs, ys@, j), i + 1, vs.len() as int);
                                }
                                return None;
                            },
                        }
                        i += 1;
                    }
                    Some(Value::from_items(out))
                },
                _ => None,
            }
        },
        Value::IntList(xs) => {
            match y {
                Value::List(ys) => {
                    proof {
                        lemma_list_view(*ys);
                    }
                    if xs.len() != ys.len() {
                        return None;
                    }
                    let mut out: Vec<Value> = Vec::new();
                    let mut i: usize = 0;
                    while i < xs.len()
                        invariant
                            x@ == Val::IntList(xs@),
                            y@ == Val::List(vals(ys@)),
                            xs.len() == ys.len(),
                            i <= xs.len(),
                            pair_ints_list(op, xs@, vals(ys@), i as int) == Some(vals(out@)),
                        decreases xs.len() - i,
                    {
                        let e = Value::Int(xs[i]);
                        match bc_left(op, &e, &ys[i]) {
                            Some(v) => {
                                proof {
                                    lemma_vals_push(out@, v);
                                }
                                out.push(v);
                            },
                            None => {
                                proof {
                                    let ghost ws = vals(ys@);
                                    lemma_none_stays(|j: int| pair_ints_list(op, xs@, ws, j), i + 1, xs@.len() as int);
                                }
                                return None;
                            },
                        }
                        i += 1;
                    }
                    Some(Value::from_items(out))
                },
                Value::IntList(ys) => {
                    if xs.len() != ys.len() {
                        return None;
                    }
                    let mut out: Vec<Value> = Vec::new();
                    let mut i: usize = 0;
                    while i < xs.len()
                        invariant
                            x@ == Val::IntList(xs@),
                            y@ == Val::IntList(ys@),
                            xs.len() == ys.len(),
                            i <= xs.len(),
                            pair_ints(op, xs@, ys@, i as int) == Some(vals(out@)),
                        decreases xs.len() - i,
                    {
                        let e = Value::Int(xs[i]);
                        let f = Value::Int(ys[i]);
                        match atom_op(op, &e, &f) {
                            Some(v) => {
                                proof {
                                    lemma_vals_push(out@, v);
                                }
                                out.push(v);
                            },
                            None => {
                                proof {
                                    lemma_none_stays(|j: int| pair_ints(op, xs@, ys@, j), i + 1, xs@.len() as int);
                                }
                                return None;
                            },
                        }
                        i += 1;
                    }
                    Some(Value::from_items(out))
                },
                _ => None,
            }
        },
        _ => None,
    }
}

/// Applies an operation on one atom over every element of `x`.
pub fn map_each(op: UnaryOp, x: &Value) -> (r: Option<Value>)
    ensures
        opt_view(r) == map_v(op, x@),
    decreases x,
{
    match x {
        Value::List(xs) => {
            proof {
                lemma_list_view(*xs);
            }
            let mut out: Vec<Value> = Vec::new();
            let mut i: usize = 0;
            while i < xs.len()
                invariant
                    *x == Value::List(*xs),
                    x@ == Val::List(vals(xs@)),
                    i <= xs.len(),
                    map_list(op, vals(xs@), i as int) == Some(vals(out@)),
                decreases xs.len() - i,
            {
                assert(decreases_to!(*x => xs@[i as int])) by {
                    assert(decreases_to!(*x => (*x)->List_0));
                    assert(decreases_to!(*xs => xs@));
                    assert(decreases_to!(xs@ => xs@[i as int]));
                }
                match map_each(op, &xs[i]) {
                    Some(v) => {
                        proof {
                            lemma_vals_push(out@, v);
                        }
                        out.push(v);
                    },
                    None => {
                        proof {
                            let ghost vs = vals(xs@);
                            lemma_none_stays(|j: int| map_list(op, vs, j), i + 1, vs.len() as int);
                        }
                        return None;
                    },
                }
                i += 1;
            }
            Some(Value::from_items(out))
        },
        Value::IntList(xs) => {
            let mut out: Vec<Value> = Vec::new();
            let mut i: usize = 0;
            while i < xs.len()
                invariant
                    *x == Value::IntList(*xs),
                    i <= xs.len(),
                    map_ints(op, xs@, i as int) == Some(vals(out@)),
                decreases xs.len() - i,
            {
                let e = Value::Int(xs[i]);
                match unary_op(op, &e) {
                    Some(v) => {
                        proof {
                            lemma_vals_push(out@, v);
                        }
                        out.push(v);
                    },
                    None => {
                        proof {
                            lemma_none_stays(|j: int| map_ints(op, xs@, j), i + 1, xs@.len() as int);
                        }
                        return None;
                    },
                }
                i += 1;
            }
            Some(Value::from_items(out))
        },
        Value::Dict(_) => None,
        _ => unary_op(op, x),
    }
}

} // verus!
