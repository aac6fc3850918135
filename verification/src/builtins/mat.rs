//! Matrix builtins: transposing the last two axes of a rectangular array.

use vstd::prelude::*;
use crate::builtin_table::TRANSPOSE;
use crate::builtins::wqerror_helper::{check_arity, is_arity_error, builtin_src, builtin_src_v};
use crate::error::{WqError, WqErrorType, WqResult};
use crate::value::{Value, Val, vals, from_items_v, lemma_vals_push, lemma_list_view};

verus! {

/// The shape of a rectangular array: the lengths along each axis, where every element of a
/// list has the shape of the first; `None` for a ragged list or a dictionary.
pub open spec fn rect_shape_v(v: Val) -> Option<Seq<nat>>
    decreases v, 0int,
{
    match v {
        Val::IntList(ns) => Some(seq![ns.len()]),
        Val::List(items) => if items.len() == 0 {
            Some(seq![0nat])
        } else {
            match rect_shape_v(items[0]) {
                Some(s0) => if same_rect(items, s0, items.len() as int) {
                    Some(seq![items.len()] + s0)
                } else {
                    None
                },
                None => None,
            }
        },
        Val::Dict(_) => None,
        _ => Some(Seq::empty()),
    }
}

/// Whether `items[..k]` all have the rectangular shape `s`.
pub open spec fn same_rect(items: Seq<Val>, s: Seq<nat>, k: int) -> bool
    decreases items, k,
{
    if k <= 0 || k > items.len() {
        true
    } else {
        same_rect(items, s, k - 1) && rect_shape_v(items[k - 1]) == Some(s)
    }
}

/// The `i`-th element of a list.
pub open spec fn item_v(v: Val, i: int) -> Val {
    match v {
        Val::List(items) => items[i],
        Val::IntList(ns) => Val::Int(ns[i]),
        _ => Val::Null,
    }
}

/// Column `j` of the first `m` rows of a matrix.
pub open spec fn column_v(v: Val, m: nat, j: int) -> Val {
    from_items_v(Seq::new(m, |i: int| item_v(item_v(v, i), j)))
}

/// The transpose of an `m` by `n` matrix: its `n` columns.
pub open spec fn transpose2_v(v: Val, m: nat, n: nat) -> Val {
    Val::List(Seq::new(n, |j: int| column_v(v, m, j)))
}

/// The transpose of the last two axes of an array of the given shape (of rank 2 or more).
pub open spec fn transpose_batched_v(v: Val, shape: Seq<nat>) -> Val
    decreases shape.len(), 1int, 0int,
{
    if shape.len() <= 2 {
        transpose2_v(v, shape[0], shape[1])
    } else {
        Val::List(batch_items(v, shape, shape[0] as int))
    }
}

/// The transposed elements `0..k` of a batch of arrays of the given shape.
pub open spec fn batch_items(v: Val, shape: Seq<nat>, k: int) -> Seq<Val>
    decreases shape.len(), 0int, k,
{
    if k <= 0 || shape.len() <= 2 {
        Seq::empty()
    } else {
        batch_items(v, shape, k - 1).push(transpose_batched_v(item_v(v, k - 1), shape.drop_first()))
    }
}

/// What `transpose` gives: `None` for an array that is not rectangular; an atom, a vector, or
/// an array with an empty last axis as it is; otherwise the transpose of the last two axes.
pub open spec fn transpose_v(v: Val) -> Option<Val> {
    match rect_shape_v(v) {
        None => None,
        Some(shape) => if shape.len() <= 1 {
            Some(v)
        } else if shape[shape.len() - 2] == 0 || shape[shape.len() - 1] == 0 {
            Some(v)
        } else {
            Some(transpose_batched_v(v, shape))
        },
    }
}

/// The rectangular shape of a value.
fn rect_shape(v: &Value) -> (r: Option<Vec<usize>>)
    ensures
        match rect_shape_v(v@) {
            Some(s) => r matches Some(x) && x@.len() == s.len() && forall|i: int|
                0 <= i < s.len() ==> x@[i] as nat == #[trigger] s[i],
            None => r is None,
        },
    decreases v,
{
    match v {
        Value::IntList(ns) => {
            let mut out: Vec<usize> = Vec::new();
            out.push(ns.len());
            Some(out)
        },
        Value::List(items) => {
            proof {
                lemma_list_view(*items);
            }
            if items.len() == 0 {
                let mut out: Vec<usize> = Vec::new();
                out.push(0);
                return Some(out);
            }
            assert(decreases_to!(*v => items@[0])) by {
                assert(decreases_to!(*v => (*v)->List_0));
                assert(decreases_to!(*items => items@));
                assert(decreases_to!(items@ => items@[0]));
            }
            let s0 = match rect_shape(&items[0]) {
                Some(s) => s,
                None => {
                    return None;
                },
            };
            let ghost m = vals(items@);
            assert(m[0] == items@[0]@);
            let ghost t0 = rect_shape_v(m[0])->0;
            let mut k: usize = 1;
            assert(same_rect(m, t0, 0));
            assert(same_rect(m, t0, 1));
            while k < items.len()
                invariant
                    *v == Value::List(*items),
                    v@ == Val::List(m),
                    m == vals(items@),
                    1 <= k <= items.len(),
                    rect_shape_v(m[0]) == Some(t0),
                    s0@.len() == t0.len(),
                    forall|i: int| 0 <= i < t0.len() ==> s0@[i] as nat == #[trigger] t0[i],
                    same_rect(m, t0, k as int),
                decreases items.len() - k,
            {
                assert(decreases_to!(*v => items@[k as int])) by {
                    assert(decreases_to!(*v => (*v)->List_0));
                    assert(decreases_to!(*items => items@));
                    assert(decreases_to!(items@ => items@[k as int]));
                }
                assert(m[k as int] == items@[k as int]@);
                match rect_shape(&items[k]) {
                    Some(sk) => {
                        if !usizes_equal(&sk, &s0) {
                            proof {
                                assert(rect_shape_v(m[k as int]) != Some(t0)) by {
                                    if rect_shape_v(m[k as int]) == Some(t0) {
                                        assert forall|i: int| 0 <= i < sk@.len() implies sk@[i] == s0@[i] by {
                                            assert(sk@[i] as nat == t0[i]);
                                            assert(s0@[i] as nat == t0[i]);
                                        }
                                        assert(sk@ =~= s0@);
                                    }
                                }
                                lemma_same_rect_fails(m, t0, k as int + 1, items@.len() as int);
                            }
                            return None;
                        }
                        proof {
                            assert(rect_shape_v(m[k as int]) == Some(t0)) by {
                                assert(rect_shape_v(m[k as int])->0 =~= t0);
                            }
                        }
                    },
                    None => {
                        proof {
                            lemma_same_rect_fails(m, t0, k as int + 1, items@.len() as int);
                        }
                        return None;
                    },
                }
                k += 1;
            }
            let mut out: Vec<usize> = Vec::new();
            out.push(items.len());
            let mut j: usize = 0;
            while j < s0.len()
                invariant
                    j <= s0.len(),
                    out@.len() == j + 1,
                    out@[0] == items@.len(),
                    forall|i: int| 0 <= i < j ==> out@[i + 1] == s0@[i],
                decreases s0.len() - j,
            {
                out.push(s0[j]);
                j += 1;
            }
            Some(out)
        },
        Value::Dict(_) => None,
        _ => Some(Vec::new()),
    }
}

proof fn lemma_same_rect_fails(items: Seq<Val>, s: Seq<nat>, k: int, n: int)
    requires
        1 <= k <= n <= items.len(),
        !same_rect(items, s, k),
    ensures
        !same_rect(items, s, n),
    decreases n - k,
{
    if k < n {
        lemma_same_rect_fails(items, s, k + 1, n);
    }
}

fn usizes_equal(a: &Vec<usize>, b: &Vec<usize>) -> (r: bool)
    ensures
        r == (a@ == b@),
{
    if a.len() != b.len() {
        return false;
    }
    let mut i: usize = 0;
    while i < a.len()
        invariant
            a.len() == b.len(),
            i <= a.len(),
            forall|k: int| 0 <= k < i ==> a@[k] == b@[k],
        decreases a.len() - i,
    {
        if a[i] != b[i] {
            return false;
        }
        i += 1;
    }
    assert(a@ =~= b@);
    true
}

/// Every element of a list with a rectangular shape has the rest of that shape.
proof fn lemma_same_rect_all(items: Seq<Val>, s: Seq<nat>, k: int, i: int)
    requires
        0 <= i < k <= items.len(),
        same_rect(items, s, k),
    ensures
        rect_shape_v(items[i]) == Some(s),
    decreases k,
{
    if i < k - 1 {
        lemma_same_rect_all(items, s, k - 1, i);
    }
}

/// An array of a shape of rank one or more is a list (or integer list) of the first length,
/// and each element of a list has the rest of the shape.
proof fn lemma_rect_parts(v: Val, s: Seq<nat>)
    requires
        rect_shape_v(v) == Some(s),
        s.len() >= 1,
    ensures
        v is List ==> v->List_0.len() == s[0] && forall|i: int|
            0 <= i < s[0] ==> #[trigger] rect_shape_v(v->List_0[i]) == Some(s.drop_first()),
        v is IntList ==> v->IntList_0.len() == s[0] && s.len() == 1,
        v is List || v is IntList,
{
    match v {
        Val::List(items) => {
            if items.len() > 0 {
                let s0 = rect_shape_v(items[0])->0;
                assert(s =~= seq![items.len()] + s0);
                assert(s.drop_first() =~= s0);
                assert forall|i: int| 0 <= i < s[0] implies #[trigger] rect_shape_v(items[i]) == Some(s.drop_first()) by {
                    lemma_same_rect_all(items, s0, items.len() as int, i);
                }
            }
        },
        _ => {},
    }
}

/// The `i`-th element of a list or integer list.
fn item_of(v: &Value, i: usize) -> (r: Value)
    requires
        (v@ is List && i < v@->List_0.len()) || (v@ is IntList && i < v@->IntList_0.len()),
    ensures
        r@ == item_v(v@, i as int),
{
    match v {
        Value::List(items) => {
            proof {
                lemma_list_view(*items);
            }
            items[i].clone()
        },
        Value::IntList(ns) => Value::Int(ns[i]),
        _ => Value::unit(),
    }
}

/// The transpose of an `m` by `n` matrix.
fn transpose2(v: &Value, m: usize, n: usize, Ghost(s): Ghost<Seq<nat>>) -> (r: Value)
    requires
        rect_shape_v(v@) == Some(s),
        s.len() == 2,
        s[0] == m,
        s[1] == n,
    ensures
        r@ == transpose2_v(v@, m as nat, n as nat),
{
    proof {
        lemma_rect_parts(v@, s);
    }
    let mut out: Vec<Value> = Vec::new();
    let mut j: usize = 0;
    while j < n
        invariant
            j <= n,
            rect_shape_v(v@) == Some(s),
            s.len() == 2,
            s[0] == m,
            s[1] == n,
            v@ is List && v@->List_0.len() == m,
            forall|i: int| 0 <= i < m ==> #[trigger] rect_shape_v(v@->List_0[i]) == Some(s.drop_first()),
            out@.len() == j,
            forall|k: int| 0 <= k < j ==> (#[trigger] out@[k])@ == column_v(v@, m as nat, k),
        decreases n - j,
    {
        let mut col: Vec<Value> = Vec::new();
        let mut i: usize = 0;
        while i < m
            invariant
                i <= m,
                j < n,
                s.len() == 2,
                s[1] == n,
                v@ is List && v@->List_0.len() == m,
                forall|k: int| 0 <= k < m ==> #[trigger] rect_shape_v(v@->List_0[k]) == Some(s.drop_first()),
                vals(col@) =~= Seq::new(i as nat, |k: int| item_v(item_v(v@, k), j as int)),
            decreases m - i,
        {
            let row = item_of(v, i);
            proof {
                assert(rect_shape_v(v@->List_0[i as int]) == Some(s.drop_first()));
                lemma_rect_parts(row@, s.drop_first());
            }
            let e = item_of(&row, j);
            let ghost before = col@;
            col.push(e);
            proof {
                lemma_vals_push(before, e);
            }
            i += 1;
        }
        out.push(Value::from_items(col));
        j += 1;
    }
    proof {
        lemma_list_view(out);
        assert(vals(out@) =~= Seq::new(n as nat, |k: int| column_v(v@, m as nat, k)));
    }
    Value::List(out)
}

/// The transpose of the last two axes of an array whose shape is `dims[start..]`.
fn transpose_batched(v: &Value, dims: &Vec<usize>, start: usize, Ghost(s): Ghost<Seq<nat>>) -> (r: Value)
    requires
        rect_shape_v(v@) == Some(s),
        start + 2 <= dims@.len(),
        s.len() == dims@.len() - start,
        forall|i: int| 0 <= i < s.len() ==> #[trigger] s[i] == dims@[start + i] as nat,
    ensures
        r@ == transpose_batched_v(v@, s),
    decreases dims@.len() - start,
{
    if dims.len() - start == 2 {
        return transpose2(v, dims[start], dims[start + 1], Ghost(s));
    }
    proof {
        lemma_rect_parts(v@, s);
    }
    let batch = dims[start];
    let mut out: Vec<Value> = Vec::new();
    let mut i: usize = 0;
    assert(vals(out@) =~= batch_items(v@, s, 0));
    while i < batch
        invariant
            i <= batch,
            batch == s[0],
            start + 3 <= dims@.len(),
            s.len() == dims@.len() - start,
            forall|k: int| 0 <= k < s.len() ==> #[trigger] s[k] == dims@[start + k] as nat,
            v@ is List && v@->List_0.len() == s[0],
            forall|k: int| 0 <= k < s[0] ==> #[trigger] rect_shape_v(v@->List_0[k]) == Some(s.drop_first()),
            vals(out@) == batch_items(v@, s, i as int),
            start + 3 <= dims.len(),
        decreases batch - i,
    {
        let e = item_of(v, i);
        assert(rect_shape_v(v@->List_0[i as int]) == Some(s.drop_first()));
        assert forall|k: int| 0 <= k < s.drop_first().len() implies #[trigger] s.drop_first()[k] == dims@[(start + 1) + k] as nat by {
            assert(s.drop_first()[k] == s[k + 1]);
        }
        let t = transpose_batched(&e, dims, start + 1, Ghost(s.drop_first()));
        let ghost before = out@;
        out.push(t);
        proof {
            lemma_vals_push(before, t);
        }
        i += 1;
    }
    proof {
        lemma_list_view(out);
    }
    Value::List(out)
}

/// `transpose[x]`: an array with its last two axes swapped; an atom or a vector, or an array
/// with an empty one of those axes, as it is. A ragged array is refused.
pub fn transpose(args: &[Value]) -> (r: WqResult<Value>)
    ensures
        args@.len() != 1 ==> (r matches Err(e) && is_arity_error(e, TRANSPOSE as int, seq![1usize], args@.len())),
        args@.len() == 1 ==> match transpose_v(args@[0]@) {
            Some(w) => r matches Ok(x) && x@ == w,
            None => r matches Err(e) && e.kind == WqErrorType::Domain && e.src@ == builtin_src_v(TRANSPOSE as int)
                && e.msg@ == "could not determine shape"@,
        },
{
    let arity: [usize; 1] = [1];
    assert(arity@ =~= seq![1usize]);
    check_arity(TRANSPOSE, &arity, args)?;
    let v = &args[0];
    let shape = match rect_shape(v) {
        Some(s) => s,
        None => {
            return Err(WqError::new(WqErrorType::Domain).src(builtin_src(TRANSPOSE).as_str()).msg(
                "could not determine shape",
            ).at_arg(0));
        },
    };
    let ghost s = rect_shape_v(v@)->0;
    let rank = shape.len();
    if rank <= 1 {
        return Ok(v.clone());
    }
    let m = shape[rank - 2];
    let n = shape[rank - 1];
    if m == 0 || n == 0 {
        assert(s[s.len() - 2] == 0 || s[s.len() - 1] == 0);
        return Ok(v.clone());
    }
    Ok(transpose_batched(v, &shape, 0, Ghost(s)))
}

/// The model of a matrix row of integers.
pub open spec fn row_val(r: Seq<i64>) -> Val {
    Val::IntList(r)
}

/// The model of a matrix whose rows are integer lists.
pub open spec fn int_matrix_v(rows: Seq<Seq<i64>>) -> Val {
    Val::List(Seq::new(rows.len(), |i: int| row_val(rows[i])))
}

/// Column `j` of a matrix of integer rows.
pub open spec fn int_column(rows: Seq<Seq<i64>>, j: int) -> Seq<i64> {
    Seq::new(rows.len(), |i: int| rows[i][j])
}

/// The transpose of a matrix of integer rows: its columns as rows.
pub open spec fn int_transpose(rows: Seq<Seq<i64>>, n: nat) -> Seq<Seq<i64>> {
    Seq::new(n, |j: int| int_column(rows, j))
}

/// Whether every row of a matrix has `n` elements.
pub open spec fn rows_of_len(rows: Seq<Seq<i64>>, n: nat) -> bool {
    forall|i: int| 0 <= i < rows.len() ==> (#[trigger] rows[i]).len() == n
}

/// The shape of a non-empty matrix of integer rows of one length.
proof fn lemma_int_matrix_shape(rows: Seq<Seq<i64>>, n: nat)
    requires
        rows.len() > 0,
        rows_of_len(rows, n),
    ensures
        rect_shape_v(int_matrix_v(rows)) == Some(seq![rows.len(), n]),
{
    let v = int_matrix_v(rows);
    let items = v->List_0;
    assert(items[0] == row_val(rows[0]));
    assert(rect_shape_v(items[0]) == Some(seq![n]));
    assert forall|i: int| 0 <= i < items.len() implies rect_shape_v(#[trigger] items[i]) == Some(seq![n]) by {
        assert(items[i] == row_val(rows[i]));
    }
    lemma_same_rect_upto(items, seq![n], items.len() as int);
    assert(seq![rows.len()] + seq![n] =~= seq![rows.len(), n]);
}

/// The transpose of a non-empty matrix of integer rows of one non-zero length is the matrix
/// of its columns.
proof fn lemma_int_transpose(rows: Seq<Seq<i64>>, n: nat)
    requires
        rows.len() > 0,
        n > 0,
        rows_of_len(rows, n),
    ensures
        transpose_v(int_matrix_v(rows)) == Some(int_matrix_v(int_transpose(rows, n))),
{
    let v = int_matrix_v(rows);
    lemma_int_matrix_shape(rows, n);
    let s = seq![rows.len(), n];
    assert(transpose_v(v) == Some(transpose_batched_v(v, s)));
    let t = transpose2_v(v, rows.len(), n);
    assert(transpose_batched_v(v, s) == t);
    let w = int_matrix_v(int_transpose(rows, n));
    assert forall|j: int| 0 <= j < n implies #[trigger] t->List_0[j] == w->List_0[j] by {
        let es = Seq::new(rows.len(), |i: int| item_v(item_v(v, i), j));
        assert forall|i: int| 0 <= i < rows.len() implies #[trigger] es[i] == Val::Int(rows[i][j]) by {
            assert(v->List_0[i] == row_val(rows[i]));
        }
        assert(crate::value::all_ints(es));
        assert(crate::value::ints_of(es) =~= int_column(rows, j));
        assert(w->List_0[j] == row_val(int_transpose(rows, n)[j]));
    }
    assert(t->List_0 =~= w->List_0);
}

/// Transposing a matrix twice gives it back: for a non-empty matrix whose rows are integer
/// lists of one non-zero length.
pub proof fn law_transpose_twice(rows: Seq<Seq<i64>>, n: nat)
    requires
        rows.len() > 0,
        n > 0,
        rows_of_len(rows, n),
    ensures
        transpose_v(int_matrix_v(rows)) matches Some(t) && transpose_v(t) == Some(int_matrix_v(rows)),
{
    lemma_int_transpose(rows, n);
    let cols = int_transpose(rows, n);
    assert(rows_of_len(cols, rows.len()));
    lemma_int_transpose(cols, rows.len());
    assert forall|i: int| 0 <= i < rows.len() implies #[trigger] int_transpose(cols, rows.len())[i] == rows[i] by {
        assert(int_transpose(cols, rows.len())[i] =~= rows[i]);
    }
    assert(int_transpose(cols, rows.len()) =~= rows);
}

proof fn lemma_same_rect_upto(items: Seq<Val>, s: Seq<nat>, k: int)
    requires
        0 <= k <= items.len(),
        forall|i: int| 0 <= i < items.len() ==> rect_shape_v(#[trigger] items[i]) == Some(s),
    ensures
        same_rect(items, s, k),
    decreases k,
{
    if k > 0 {
        lemma_same_rect_upto(items, s, k - 1);
    }
}

} // verus!
