//! List generators: `alloc`, `till`, `iota` and `reshape`, which build arrays of a shape.

use vstd::prelude::*;
use crate::builtin_table::{ALLOC, TILL, IOTA, RESHAPE, WHERE};
use crate::builtins::wqerror_helper::{check_arity, is_arity_error, builtin_src, builtin_src_v};
use crate::error::{WqError, WqErrorType, WqResult};
use crate::value::{Value, Val, vals, flatten_v, from_items_v, shape_v, same_shapes, type_label_v, display_v, lemma_vals_push, lemma_list_view, lemma_vals_add};
use crate::text::{append_chars, append_str, chars_of, decimal_digits, i64_to_decimal, int_text, string_from_chars};

verus! {

/// The axis lengths that a value describes as a shape: a non-negative integer, a list of
/// non-negative integers, or a list of positive integer atoms.
pub open spec fn shape_dims_v(v: Val) -> Option<Seq<u64>> {
    match v {
        Val::Int(n) => if n < 0 { None } else { Some(seq![n as u64]) },
        Val::IntList(ds) => if forall|i: int| 0 <= i < ds.len() ==> ds[i] >= 0 {
            Some(Seq::new(ds.len(), |i: int| ds[i] as u64))
        } else {
            None
        },
        Val::List(items) => if forall|i: int| 0 <= i < items.len() ==> positive_int(#[trigger] items[i]) {
            Some(Seq::new(items.len(), |i: int| items[i]->Int_0 as u64))
        } else {
            None
        },
        _ => None,
    }
}

/// Whether a model is a positive integer.
pub open spec fn positive_int(v: Val) -> bool {
    v matches Val::Int(n) && n > 0
}

/// Whether every axis length fits in an `i64`.
pub open spec fn dims_in_range(dims: Seq<u64>) -> bool {
    forall|i: int| 0 <= i < dims.len() ==> dims[i] <= i64::MAX
}

/// The number of cells of an array of a shape.
pub open spec fn cells(dims: Seq<u64>) -> nat
    decreases dims.len(),
{
    if dims.len() == 0 {
        1
    } else {
        (dims[0] as nat) * cells(dims.drop_first())
    }
}

/// Whether the cells of the shape that a value describes can be counted in an `i64` (true
/// where it describes none).
pub open spec fn shape_fits_v(v: Val) -> bool {
    match shape_dims_v(v) {
        Some(d) => cells(d) <= i64::MAX,
        None => true,
    }
}

/// What fills the cells of a generated array.
#[derive(Clone, Copy, PartialEq, Eq, Structural)]
pub enum Fill {
    /// Every cell is `0`.
    Zeros,
    /// Cell `i` (in row-major order) is `i`.
    Counting,
    /// Cell `i` is element `i` of a source list, taken round.
    Cycling,
}

/// The cell with row-major index `i`.
pub open spec fn leaf_v(fill: Fill, source: Seq<Val>, i: int) -> Val {
    match fill {
        Fill::Zeros => Val::Int(0),
        Fill::Counting => Val::Int(i as i64),
        Fill::Cycling => source[i % (source.len() as int)],
    }
}

/// The cells `start..start + k`.
pub open spec fn leaves_v(fill: Fill, source: Seq<Val>, start: int, k: int) -> Seq<Val>
    decreases k,
{
    if k <= 0 {
        Seq::empty()
    } else {
        leaves_v(fill, source, start, k - 1).push(leaf_v(fill, source, start + k - 1))
    }
}

/// The array of a shape whose first cell has row-major index `start`: a single cell for the
/// empty shape; a flat list (an integer list where it holds integers only) for one axis;
/// otherwise a list of the sub-arrays along the first axis.
pub open spec fn gen_v(dims: Seq<u64>, start: int, fill: Fill, source: Seq<Val>) -> Val
    decreases dims.len(), 1int, 0int,
{
    if dims.len() == 0 {
        leaf_v(fill, source, start)
    } else if dims.len() == 1 {
        if dims[0] == 0 {
            Val::IntList(Seq::empty())
        } else {
            from_items_v(leaves_v(fill, source, start, dims[0] as int))
        }
    } else {
        Val::List(gen_rows(dims, start, fill, source, dims[0] as int))
    }
}

/// The first `k` sub-arrays along the first axis.
pub open spec fn gen_rows(dims: Seq<u64>, start: int, fill: Fill, source: Seq<Val>, k: int) -> Seq<Val>
    decreases dims.len(), 0int, k,
{
    if k <= 0 || dims.len() == 0 {
        Seq::empty()
    } else {
        gen_rows(dims, start, fill, source, k - 1).push(
            gen_v(dims.drop_first(), start + (k - 1) * cells(dims.drop_first()), fill, source),
        )
    }
}

/// The grid of coordinates of a shape, each prefixed by `prefix`: for the empty shape the
/// prefix itself, otherwise a list along the first axis.
pub open spec fn coords_v(dims: Seq<u64>, prefix: Seq<i64>) -> Val
    decreases dims.len(), 1int, 0int,
{
    if dims.len() == 0 {
        Val::IntList(prefix)
    } else {
        Val::List(coord_rows(dims, prefix, dims[0] as int))
    }
}

/// The first `k` sub-grids along the first axis.
pub open spec fn coord_rows(dims: Seq<u64>, prefix: Seq<i64>, k: int) -> Seq<Val>
    decreases dims.len(), 0int, k,
{
    if k <= 0 || dims.len() == 0 {
        Seq::empty()
    } else {
        coord_rows(dims, prefix, k - 1).push(coords_v(dims.drop_first(), prefix.push((k - 1) as i64)))
    }
}

/// The integers `0..n`.
pub open spec fn range_v(n: int) -> Seq<i64> {
    Seq::new(n as nat, |i: int| i as i64)
}

/// Reads a value as a shape.
fn parse_shape(v: &Value) -> (r: Option<Vec<u64>>)
    ensures
        match shape_dims_v(v@) {
            Some(d) => r matches Some(x) && x@ == d && dims_in_range(d),
            None => r is None,
        },
{
    match v {
        Value::Int(n) => {
            assert(v@ == Val::Int(*n));
            if *n < 0 {
                None
            } else {
                let mut out: Vec<u64> = Vec::new();
                out.push(*n as u64);
                assert(out@ =~= seq![*n as u64]);
                assert(v@ == Val::Int(*n));
                assert(dims_in_range(out@));
                Some(out)
            }
        },
        Value::IntList(ds) => {
            let mut out: Vec<u64> = Vec::new();
            let mut i: usize = 0;
            while i < ds.len()
                invariant
                    v@ == Val::IntList(ds@),
                    i <= ds@.len(),
                    out@.len() == i,
                    forall|j: int| 0 <= j < i ==> ds@[j] >= 0,
                    forall|j: int| 0 <= j < i ==> out@[j] == ds@[j] as u64,
                decreases ds.len() - i,
            {
                if ds[i] < 0 {
                    assert(!(ds@[i as int] >= 0));
                    return None;
                }
                let d: u64 = ds[i] as u64;
                assert(d == ds@[i as int] as u64);
                out.push(d);
                i += 1;
            }
            assert(out@ =~= Seq::new(ds@.len(), |j: int| ds@[j] as u64));
            assert(dims_in_range(out@));
            Some(out)
        },
        Value::List(items) => {
            let mut out: Vec<u64> = Vec::new();
            let mut i: usize = 0;
            while i < items.len()
                invariant
                    *v == Value::List(*items),
                    i <= items@.len(),
                    out@.len() == i,
                    forall|j: int| 0 <= j < i ==> positive_int(#[trigger] items@[j]@) && out@[j] == items@[j]@->Int_0 as u64,
                decreases items.len() - i,
            {
                proof {
                    lemma_list_view(*items);
                }
                assert(v@ == Val::List(vals(items@)));
                assert(vals(items@)[i as int] == items@[i as int]@);
                match &items[i] {
                    Value::Int(n) => {
                        if *n <= 0 {
                            assert(!positive_int(vals(items@)[i as int]));
                            return None;
                        }
                        out.push(*n as u64);
                    },
                    _ => {
                        assert(!positive_int(vals(items@)[i as int]));
                        return None;
                    },
                }
                i += 1;
            }
            proof {
                lemma_list_view(*items);
            }
            assert(out@ =~= Seq::new(items@.len(), |j: int| vals(items@)[j]->Int_0 as u64));
            assert(forall|j: int| 0 <= j < items@.len() ==> positive_int(#[trigger] vals(items@)[j]));
            assert(dims_in_range(out@));
            Some(out)
        },
        _ => None,
    }
}

/// A shape with an axis of length zero has no cells.
proof fn lemma_cells_zero(dims: Seq<u64>, k: int, j: int)
    requires
        0 <= k <= j < dims.len(),
        dims[j] == 0,
    ensures
        cells(dims.subrange(k, dims.len() as int)) == 0,
    decreases j - k,
{
    assert(dims.subrange(k, dims.len() as int).drop_first() =~= dims.subrange(k + 1, dims.len() as int));
    let c = cells(dims.subrange(k + 1, dims.len() as int));
    let d = dims[k] as nat;
    if k < j {
        lemma_cells_zero(dims, k + 1, j);
        assert(d * c == 0) by (nonlinear_arith)
            requires
                c == 0,
        ;
    } else {
        assert(d * c == 0) by (nonlinear_arith)
            requires
                d == 0,
        ;
    }
}

/// Without an axis of length zero, a shape has at least as many cells as any of its tails.
proof fn lemma_cells_grow(dims: Seq<u64>, k: int, i: int)
    requires
        0 <= k <= i <= dims.len(),
        forall|j: int| 0 <= j < dims.len() ==> dims[j] >= 1,
    ensures
        cells(dims.subrange(k, dims.len() as int)) >= cells(dims.subrange(i, dims.len() as int)),
    decreases i - k,
{
    if k < i {
        lemma_cells_grow(dims, k + 1, i);
        assert(dims.subrange(k, dims.len() as int).drop_first() =~= dims.subrange(k + 1, dims.len() as int));
        let c = cells(dims.subrange(k + 1, dims.len() as int));
        let d = dims[k] as nat;
        assert(d * c >= c) by (nonlinear_arith)
            requires
                d >= 1,
        ;
    }
}

/// Whether the cells of the shape that a value describes can be counted in an `i64`.
pub fn shape_fits(v: &Value) -> (r: bool)
    ensures
        r == shape_fits_v(v@),
{
    match parse_shape(v) {
        None => true,
        Some(dims) => {
            let n = dims.len();
            let mut z: usize = 0;
            while z < n
                invariant
                    z <= n == dims@.len(),
                    shape_dims_v(v@) == Some(dims@),
                    forall|j: int| 0 <= j < z ==> dims@[j] >= 1,
                decreases n - z,
            {
                if dims[z] == 0 {
                    proof {
                        lemma_cells_zero(dims@, 0, z as int);
                        assert(dims@.subrange(0, n as int) =~= dims@);
                    }
                    return true;
                }
                z += 1;
            }
            let mut i: usize = n;
            let mut acc: u64 = 1;
            assert(dims@.subrange(n as int, n as int) =~= Seq::<u64>::empty());
            while i > 0
                invariant
                    i <= n == dims@.len(),
                    shape_dims_v(v@) == Some(dims@),
                    forall|j: int| 0 <= j < n ==> dims@[j] >= 1,
                    acc as nat == cells(dims@.subrange(i as int, n as int)),
                    acc <= i64::MAX,
                decreases i,
            {
                i -= 1;
                assert(dims@.subrange(i as int, n as int).drop_first() =~= dims@.subrange(i as int + 1, n as int));
                let d = dims[i];
                assert(cells(dims@.subrange(i as int, n as int)) == (d as nat) * (acc as nat));
                assert((d as nat) * (acc as nat) == (acc as nat) * (d as nat)) by (nonlinear_arith);
                match acc.checked_mul(d) {
                    Some(p) => {
                        if p > 0x7fff_ffff_ffff_ffffu64 {
                            proof {
                                lemma_cells_grow(dims@, 0, i as int);
                                assert(dims@.subrange(0, n as int) =~= dims@);
                            }
                            return false;
                        }
                        acc = p;
                    },
                    None => {
                        proof {
                            lemma_cells_grow(dims@, 0, i as int);
                            assert(dims@.subrange(0, n as int) =~= dims@);
                        }
                        return false;
                    },
                }
            }
            assert(dims@.subrange(0, n as int) =~= dims@);
            true
        },
    }
}

/// The cell with row-major index `i`.
fn fill_leaf(fill: Fill, source: &Vec<Value>, i: u64) -> (r: Value)
    requires
        i <= i64::MAX,
        fill == Fill::Cycling ==> source@.len() > 0,
    ensures
        r@ == leaf_v(fill, vals(source@), i as int),
{
    match fill {
        Fill::Zeros => Value::Int(0),
        Fill::Counting => Value::Int(i as i64),
        Fill::Cycling => {
            let n = source.len() as u64;
            let k = (i % n) as usize;
            source[k].clone()
        },
    }
}

/// Builds the array of the shape `dims[level..]`, numbering its cells from `*next` on.
fn build(dims: &Vec<u64>, level: usize, fill: Fill, source: &Vec<Value>, next: &mut u64) -> (r: Value)
    requires
        level <= dims@.len(),
        *old(next) + cells(dims@.subrange(level as int, dims@.len() as int)) <= i64::MAX,
        fill == Fill::Cycling ==> source@.len() > 0,
    ensures
        r@ == gen_v(dims@.subrange(level as int, dims@.len() as int), *old(next) as int, fill, vals(source@)),
        *final(next) == *old(next) + cells(dims@.subrange(level as int, dims@.len() as int)),
    decreases dims@.len() - level,
{
    let ghost sub = dims@.subrange(level as int, dims@.len() as int);
    let ghost start = *next as int;
    let rest = dims.len() - level;
    if rest == 0 {
        let v = fill_leaf(fill, source, *next);
        *next = *next + 1;
        return v;
    }
    let ghost tail = sub.drop_first();
    assert(tail =~= dims@.subrange(level + 1, dims@.len() as int));
    let m = dims[level];
    if rest == 1 {
        assert(tail.len() == 0);
        assert(cells(tail) == 1);
        assert(sub[0] == m);
        assert(cells(sub) == (m as nat) * 1);
        if m == 0 {
            return Value::IntList(Vec::new());
        }
        let mut tmp: Vec<Value> = Vec::new();
        let mut j: u64 = 0;
        while j < m
            invariant
                j <= m,
                *next == start + j,
                start + m <= i64::MAX,
                fill == Fill::Cycling ==> source@.len() > 0,
                vals(tmp@) == leaves_v(fill, vals(source@), start, j as int),
            decreases m - j,
        {
            let v = fill_leaf(fill, source, *next);
            let ghost before = tmp@;
            tmp.push(v);
            proof {
                lemma_vals_push(before, v);
            }
            *next = *next + 1;
            j += 1;
        }
        return Value::from_items(tmp);
    }
    let ghost c = cells(tail);
    assert(cells(sub) == (m as nat) * c);
    let mut out: Vec<Value> = Vec::new();
    let mut j: u64 = 0;
    while j < m
        invariant
            level + 1 < dims@.len(),
            dims@.len() == dims.len(),
            m == dims@[level as int],
            sub == dims@.subrange(level as int, dims@.len() as int),
            tail == dims@.subrange(level + 1, dims@.len() as int),
            c == cells(tail),
            sub.drop_first() == tail,
            j <= m,
            *next == start + j * c,
            start + m * c <= i64::MAX,
            fill == Fill::Cycling ==> source@.len() > 0,
            vals(out@) == gen_rows(sub, start, fill, vals(source@), j as int),
        decreases m - j,
    {
        assert(start + (j + 1) * c <= start + m * c) by (nonlinear_arith)
            requires
                j < m,
                c >= 0,
        ;
        assert((j + 1) * c == j * c + c) by (nonlinear_arith);
        let ghost at = *next as int;
        let x = build(dims, level + 1, fill, source, next);
        assert(x@ == gen_v(tail, start + j * c, fill, vals(source@)));
        let ghost before = out@;
        out.push(x);
        proof {
            lemma_vals_push(before, x);
        }
        j += 1;
    }
    assert(*next == start + m * c);
    proof {
        lemma_list_view(out);
    }
    Value::List(out)
}

/// Builds the grid of coordinates of the shape `dims[level..]`, each prefixed by `prefix`.
fn build_coords(dims: &Vec<u64>, level: usize, prefix: &mut Vec<i64>) -> (r: Value)
    requires
        level <= dims@.len(),
        dims_in_range(dims@),
    ensures
        r@ == coords_v(dims@.subrange(level as int, dims@.len() as int), old(prefix)@),
        final(prefix)@ == old(prefix)@,
    decreases dims@.len() - level,
{
    let ghost sub = dims@.subrange(level as int, dims@.len() as int);
    if level == dims.len() {
        return Value::IntList(prefix.clone());
    }
    let ghost tail = sub.drop_first();
    assert(tail =~= dims@.subrange(level + 1, dims@.len() as int));
    let ghost p0 = prefix@;
    let m = dims[level];
    let mut out: Vec<Value> = Vec::new();
    let mut j: u64 = 0;
    while j < m
        invariant
            level < dims@.len(),
            dims@.len() == dims.len(),
            dims_in_range(dims@),
            m == dims@[level as int],
            m <= i64::MAX,
            sub == dims@.subrange(level as int, dims@.len() as int),
            tail == dims@.subrange(level + 1, dims@.len() as int),
            sub.drop_first() == tail,
            j <= m,
            prefix@ == p0,
            vals(out@) == coord_rows(sub, p0, j as int),
        decreases m - j,
    {
        prefix.push(j as i64);
        let x = build_coords(dims, level + 1, prefix);
        prefix.pop();
        assert(prefix@ =~= p0);
        let ghost before = out@;
        out.push(x);
        proof {
            lemma_vals_push(before, x);
        }
        j += 1;
    }
    proof {
        lemma_list_view(out);
    }
    Value::List(out)
}

/// The error for an argument that is not a shape.
pub open spec fn is_shape_error(e: WqError, id: int) -> bool {
    &&& e.kind == WqErrorType::Domain
    &&& e.src@ == builtin_src_v(id)
    &&& e.msg@ == "positive int or list<positive int>"@
}

/// The error for a negative length.
pub open spec fn is_negative_length_error(e: WqError, id: int) -> bool {
    &&& e.kind == WqErrorType::Domain
    &&& e.src@ == builtin_src_v(id)
    &&& e.msg@ == "invalid shape"@
}

fn shape_error(id: usize) -> (e: WqError)
    requires
        id < crate::builtin_table::BUILTIN_COUNT,
    ensures
        is_shape_error(e, id as int),
{
    WqError::new(WqErrorType::Domain).msg("positive int or list<positive int>").src(builtin_src(id).as_str()).at_arg(0)
}

fn negative_length_error(id: usize) -> (e: WqError)
    requires
        id < crate::builtin_table::BUILTIN_COUNT,
    ensures
        is_negative_length_error(e, id as int),
{
    WqError::new(WqErrorType::Domain).src(builtin_src(id).as_str()).msg("invalid shape").attach_note(
        String::from_str("shape is positive int or list<positive int>"),
    )
}

/// The integers `0..n`.
fn range_list(n: i64) -> (r: Value)
    requires
        n >= 0,
    ensures
        r@ == Val::IntList(range_v(n as int)),
{
    let mut out: Vec<i64> = Vec::new();
    let mut i: i64 = 0;
    while i < n
        invariant
            0 <= i <= n,
            out@ =~= range_v(i as int),
        decreases n - i,
    {
        out.push(i);
        i += 1;
    }
    Value::IntList(out)
}

/// What `alloc[shape]` gives: an array of zeros of the shape.
pub open spec fn alloc_ok(args: Seq<Value>, r: WqResult<Value>) -> bool {
    if args.len() != 1 {
        r matches Err(e) && is_arity_error(e, ALLOC as int, seq![1usize], args.len())
    } else {
        match shape_dims_v(args[0]@) {
            None => r matches Err(e) && is_shape_error(e, ALLOC as int),
            Some(d) => r matches Ok(v) && v@ == gen_v(d, 0, Fill::Zeros, Seq::empty()),
        }
    }
}

/// `alloc[shape]`: an array of zeros of a shape (the builtin `alloc`).
pub fn alloc_zeros(args: &[Value]) -> (r: WqResult<Value>)
    requires
        args@.len() == 1 ==> shape_fits_v(args@[0]@),
    ensures
        alloc_ok(args@, r),
{
    let arity: [usize; 1] = [1];
    assert(arity@ =~= seq![1usize]);
    check_arity(ALLOC, &arity, args)?;
    let dims = match parse_shape(&args[0]) {
        Some(d) => d,
        None => {
            return Err(shape_error(ALLOC));
        },
    };
    let source: Vec<Value> = Vec::new();
    let mut next: u64 = 0;
    assert(dims@.subrange(0, dims@.len() as int) =~= dims@);
    assert(vals(source@) =~= Seq::<Val>::empty());
    Ok(build(&dims, 0, Fill::Zeros, &source, &mut next))
}

/// What `till[shape]` gives: for an integer `n`, the integers `0..n`; for an empty shape,
/// `0`; otherwise the array of the shape whose cells count up from `0` in row-major order.
pub open spec fn till_ok(args: Seq<Value>, r: WqResult<Value>) -> bool {
    if args.len() != 1 {
        r matches Err(e) && is_arity_error(e, TILL as int, seq![1usize], args.len())
    } else {
        match args[0]@ {
            Val::Int(n) => if n < 0 {
                r matches Err(e) && is_negative_length_error(e, TILL as int)
            } else {
                r matches Ok(v) && v@ == Val::IntList(range_v(n as int))
            },
            a => match shape_dims_v(a) {
                None => r matches Err(e) && is_shape_error(e, TILL as int),
                Some(d) => if d.len() == 0 {
                    r matches Ok(v) && v@ == Val::Int(0)
                } else {
                    r matches Ok(v) && v@ == gen_v(d, 0, Fill::Counting, Seq::empty())
                },
            },
        }
    }
}

/// `till[shape]`: consecutive integers from `0`, in a shape.
pub fn till(args: &[Value]) -> (r: WqResult<Value>)
    requires
        args@.len() == 1 ==> shape_fits_v(args@[0]@),
    ensures
        till_ok(args@, r),
{
    let arity: [usize; 1] = [1];
    assert(arity@ =~= seq![1usize]);
    check_arity(TILL, &arity, args)?;
    if let Value::Int(n) = &args[0] {
        if *n < 0 {
            return Err(negative_length_error(TILL));
        }
        return Ok(range_list(*n));
    }
    let dims = match parse_shape(&args[0]) {
        Some(d) => d,
        None => {
            return Err(shape_error(TILL));
        },
    };
    if dims.len() == 0 {
        return Ok(Value::Int(0));
    }
    let source: Vec<Value> = Vec::new();
    let mut next: u64 = 0;
    assert(dims@.subrange(0, dims@.len() as int) =~= dims@);
    assert(vals(source@) =~= Seq::<Val>::empty());
    Ok(build(&dims, 0, Fill::Counting, &source, &mut next))
}

/// What `iota[shape]` gives: for an integer `n`, the integers `0..n`; for an empty shape,
/// the empty list; otherwise the grid of the coordinates of the shape.
pub open spec fn iota_ok(args: Seq<Value>, r: WqResult<Value>) -> bool {
    if args.len() != 1 {
        r matches Err(e) && is_arity_error(e, IOTA as int, seq![1usize], args.len())
    } else {
        match args[0]@ {
            Val::Int(n) => if n < 0 {
                r matches Err(e) && is_negative_length_error(e, IOTA as int)
            } else {
                r matches Ok(v) && v@ == Val::IntList(range_v(n as int))
            },
            a => match shape_dims_v(a) {
                None => r matches Err(e) && is_shape_error(e, IOTA as int),
                Some(d) => if d.len() == 0 {
                    r matches Ok(v) && v@ == Val::IntList(Seq::empty())
                } else {
                    r matches Ok(v) && v@ == coords_v(d, Seq::empty())
                },
            },
        }
    }
}

/// `iota[shape]`: the coordinates of every cell of a shape.
pub fn iota(args: &[Value]) -> (r: WqResult<Value>)
    ensures
        iota_ok(args@, r),
{
    let arity: [usize; 1] = [1];
    assert(arity@ =~= seq![1usize]);
    check_arity(IOTA, &arity, args)?;
    if let Value::Int(n) = &args[0] {
        if *n < 0 {
            return Err(negative_length_error(IOTA));
        }
        return Ok(range_list(*n));
    }
    let dims = match parse_shape(&args[0]) {
        Some(d) => d,
        None => {
            return Err(shape_error(IOTA));
        },
    };
    if dims.len() == 0 {
        return Ok(Value::IntList(Vec::new()));
    }
    let mut prefix: Vec<i64> = Vec::new();
    assert(dims@.subrange(0, dims@.len() as int) =~= dims@);
    Ok(build_coords(&dims, 0, &mut prefix))
}

/// What `reshape[shape;xs]` gives: the array of the shape whose cells are the atoms of `xs`
/// in order, taken round as often as needed (zeros where `xs` has none).
pub open spec fn reshape_ok(args: Seq<Value>, r: WqResult<Value>) -> bool {
    if args.len() != 2 {
        r matches Err(e) && is_arity_error(e, RESHAPE as int, seq![2usize], args.len())
    } else {
        match shape_dims_v(args[0]@) {
            None => r matches Err(e) && is_shape_error(e, RESHAPE as int),
            Some(d) => {
                let flat = flatten_v(args[1]@);
                if flat.len() == 0 {
                    r matches Ok(v) && v@ == gen_v(d, 0, Fill::Zeros, Seq::empty())
                } else {
                    r matches Ok(v) && v@ == gen_v(d, 0, Fill::Cycling, flat)
                }
            },
        }
    }
}

/// `reshape[shape;xs]`: the atoms of `xs` laid out in a shape.
pub fn reshape(args: &[Value]) -> (r: WqResult<Value>)
    requires
        args@.len() == 2 ==> shape_fits_v(args@[0]@),
    ensures
        reshape_ok(args@, r),
{
    let arity: [usize; 1] = [2];
    assert(arity@ =~= seq![2usize]);
    check_arity(RESHAPE, &arity, args)?;
    let dims = match parse_shape(&args[0]) {
        Some(d) => d,
        None => {
            return Err(shape_error(RESHAPE));
        },
    };
    let flat = args[1].flatten();
    let mut next: u64 = 0;
    assert(dims@.subrange(0, dims@.len() as int) =~= dims@);
    if flat.len() == 0 {
        let source: Vec<Value> = Vec::new();
        assert(vals(source@) =~= Seq::<Val>::empty());
        return Ok(build(&dims, 0, Fill::Zeros, &source, &mut next));
    }
    Ok(build(&dims, 0, Fill::Cycling, &flat, &mut next))
}

/// Whether every cell that a fill puts is an atom, of empty shape.
pub open spec fn atomic_fill(fill: Fill, source: Seq<Val>) -> bool {
    fill == Fill::Cycling ==> (source.len() > 0 && forall|k: int| 0 <= k < source.len() ==> #[trigger] shape_v(source[k]) == Seq::<i64>::empty())
}

/// The axis lengths of a shape as integers.
pub open spec fn dims_as_ints(dims: Seq<u64>) -> Seq<i64> {
    Seq::new(dims.len(), |i: int| dims[i] as i64)
}

proof fn lemma_leaves_len(fill: Fill, source: Seq<Val>, start: int, k: int)
    requires
        0 <= k,
    ensures
        leaves_v(fill, source, start, k).len() == k,
    decreases k,
{
    if k > 0 {
        lemma_leaves_len(fill, source, start, k - 1);
    }
}

proof fn lemma_leaves_index(fill: Fill, source: Seq<Val>, start: int, k: int, i: int)
    requires
        0 <= i < k,
    ensures
        leaves_v(fill, source, start, k).len() == k,
        leaves_v(fill, source, start, k)[i] == leaf_v(fill, source, start + i),
    decreases k,
{
    lemma_leaves_len(fill, source, start, k);
    lemma_leaves_len(fill, source, start, k - 1);
    if i < k - 1 {
        lemma_leaves_index(fill, source, start, k - 1, i);
    }
}

proof fn lemma_rows_len(dims: Seq<u64>, start: int, fill: Fill, source: Seq<Val>, k: int)
    requires
        dims.len() >= 1,
        0 <= k,
    ensures
        gen_rows(dims, start, fill, source, k).len() == k,
    decreases k,
{
    if k > 0 {
        lemma_rows_len(dims, start, fill, source, k - 1);
    }
}

proof fn lemma_rows_index(dims: Seq<u64>, start: int, fill: Fill, source: Seq<Val>, k: int, i: int)
    requires
        dims.len() >= 1,
        0 <= i < k,
    ensures
        gen_rows(dims, start, fill, source, k).len() == k,
        gen_rows(dims, start, fill, source, k)[i] == gen_v(
            dims.drop_first(),
            start + i * cells(dims.drop_first()),
            fill,
            source,
        ),
    decreases k,
{
    lemma_rows_len(dims, start, fill, source, k);
    lemma_rows_len(dims, start, fill, source, k - 1);
    if i < k - 1 {
        lemma_rows_index(dims, start, fill, source, k - 1, i);
    }
}

proof fn lemma_same_shapes(items: Seq<Val>, s: Seq<i64>, j: int)
    requires
        items.len() > 0,
        forall|q: int| 0 <= q < items.len() ==> #[trigger] shape_v(items[q]) == s,
    ensures
        same_shapes(items, j),
    decreases items.len() - j,
{
    if 1 <= j < items.len() {
        assert(shape_v(items[j]) == s);
        assert(shape_v(items[0]) == s);
        lemma_same_shapes(items, s, j + 1);
    }
}

/// An array built for a shape without an empty axis has that shape: `shape` of what
/// `alloc`, `till` or `reshape` build gives back the axis lengths asked for.
pub proof fn law_shape_of_generated(dims: Seq<u64>, start: int, fill: Fill, source: Seq<Val>)
    requires
        dims.len() >= 1,
        forall|i: int| 0 <= i < dims.len() ==> 1 <= #[trigger] dims[i] <= i64::MAX,
        atomic_fill(fill, source),
    ensures
        shape_v(gen_v(dims, start, fill, source)) == dims_as_ints(dims),
    decreases dims.len(),
{
    let n = dims[0] as int;
    if dims.len() == 1 {
        let ls = leaves_v(fill, source, start, n);
        lemma_leaves_len(fill, source, start, n);
        assert forall|q: int| 0 <= q < ls.len() implies #[trigger] shape_v(ls[q]) == Seq::<i64>::empty() by {
            lemma_leaves_index(fill, source, start, n, q);
            if fill == Fill::Cycling {
                let k = (start + q) % (source.len() as int);
                assert(0 <= k < source.len());
                assert(shape_v(source[k]) == Seq::<i64>::empty());
            }
        }
        lemma_leaves_index(fill, source, start, n, 0);
        if all_ints_of(ls) {
            assert(shape_v(from_items_v(ls)) =~= dims_as_ints(dims));
        } else {
            lemma_same_shapes(ls, Seq::empty(), 1);
            assert(from_items_v(ls) == Val::List(ls));
            assert(shape_v(ls[0]) == Seq::<i64>::empty());
            assert(shape_v(Val::List(ls)) == seq![ls.len() as i64] + shape_v(ls[0]));
            assert(shape_v(from_items_v(ls)) =~= dims_as_ints(dims));
        }
    } else {
        let tail = dims.drop_first();
        let rows = gen_rows(dims, start, fill, source, n);
        let c = cells(tail);
        lemma_rows_len(dims, start, fill, source, n);
        assert forall|q: int| 0 <= q < rows.len() implies #[trigger] shape_v(rows[q]) == dims_as_ints(tail) by {
            lemma_rows_index(dims, start, fill, source, n, q);
            law_shape_of_generated(tail, start + q * c, fill, source);
        }
        lemma_rows_index(dims, start, fill, source, n, 0);
        lemma_same_shapes(rows, dims_as_ints(tail), 1);
        assert(shape_v(rows[0]) == dims_as_ints(tail));
        assert(shape_v(Val::List(rows)) =~= dims_as_ints(dims));
    }
}

/// Whether every element of a sequence of models is an integer.
pub open spec fn all_ints_of(items: Seq<Val>) -> bool {
    crate::value::all_ints(items)
}

/// A coordinate as `where` gives it: an integer for a single index, an integer list
/// otherwise.
pub open spec fn coord_val(c: Seq<i64>) -> Val {
    if c.len() == 1 {
        Val::Int(c[0])
    } else {
        Val::IntList(c)
    }
}

/// The coordinates, after `prefix`, of the nonzero entries of `ns[k..]`.
pub open spec fn int_coords(ns: Seq<i64>, prefix: Seq<i64>, k: int) -> Seq<Val>
    decreases ns.len() - k,
{
    if k < 0 || k >= ns.len() {
        Seq::empty()
    } else {
        (if ns[k] != 0 { seq![coord_val(prefix.push(k as i64))] } else { Seq::empty() }) + int_coords(ns, prefix, k + 1)
    }
}

/// The coordinates, after `prefix`, of the true or nonzero leaves of a value; `Err` with the
/// first leaf that is neither an integer nor a boolean, and its path.
pub open spec fn coords_in(v: Val, prefix: Seq<i64>) -> Result<Seq<Val>, (Val, Seq<i64>)>
    decreases v, 0int,
{
    match v {
        Val::List(items) => coords_items(items, prefix, 0),
        Val::IntList(ns) => Ok(int_coords(ns, prefix, 0)),
        Val::Int(n) => Ok(if n != 0 { seq![coord_val(prefix)] } else { Seq::empty() }),
        Val::Bool(b) => Ok(if b { seq![coord_val(prefix)] } else { Seq::empty() }),
        _ => Err((v, prefix)),
    }
}

/// The coordinates of the leaves of `items[k..]`, each item's after `prefix` and its index.
pub open spec fn coords_items(items: Seq<Val>, prefix: Seq<i64>, k: int) -> Result<Seq<Val>, (Val, Seq<i64>)>
    decreases items, items.len() - k,
{
    if k < 0 || k >= items.len() {
        Ok(Seq::empty())
    } else {
        match coords_in(items[k], prefix.push(k as i64)) {
            Err(e) => Err(e),
            Ok(c) => match coords_items(items, prefix, k + 1) {
                Ok(rest) => Ok(c + rest),
                Err(e) => Err(e),
            },
        }
    }
}

/// Some coordinates before the coordinates that follow, if those were found.
pub open spec fn after(acc: Seq<Val>, r: Result<Seq<Val>, (Val, Seq<i64>)>) -> Result<Seq<Val>, (Val, Seq<i64>)> {
    match r {
        Ok(s) => Ok(acc + s),
        Err(e) => Err(e),
    }
}

/// The index `k` of an element where it is true or nonzero; `Err` where it is neither an
/// integer nor a boolean.
pub open spec fn leaf_index(v: Val, k: int) -> Result<Seq<i64>, (Val, Seq<i64>)> {
    match v {
        Val::Int(n) => Ok(if n != 0 { seq![k as i64] } else { Seq::empty() }),
        Val::Bool(b) => Ok(if b { seq![k as i64] } else { Seq::empty() }),
        _ => Err((v, seq![k as i64])),
    }
}

/// The indices of the true or nonzero elements of `items[k..]`; `Err` with the first element
/// that is neither an integer nor a boolean.
pub open spec fn flat_indices(items: Seq<Val>, k: int) -> Result<Seq<i64>, (Val, Seq<i64>)>
    decreases items.len() - k,
{
    if k < 0 || k >= items.len() {
        Ok(Seq::empty())
    } else {
        match leaf_index(items[k], k) {
            Err(e) => Err(e),
            Ok(h) => match flat_indices(items, k + 1) {
                Ok(rest) => Ok(h + rest),
                Err(e) => Err(e),
            },
        }
    }
}

/// The indices of the nonzero entries of `ns[k..]`.
pub open spec fn nonzero_indices(ns: Seq<i64>, k: int) -> Seq<i64>
    decreases ns.len() - k,
{
    if k < 0 || k >= ns.len() {
        Seq::empty()
    } else {
        (if ns[k] != 0 { seq![k as i64] } else { Seq::empty() }) + nonzero_indices(ns, k + 1)
    }
}

/// Whether every list in a value, at any depth, is short enough for its indices to be
/// `i64`s.
pub open spec fn indexable(v: Val) -> bool
    decreases v, 0int,
{
    match v {
        Val::List(items) => items.len() <= i64::MAX && indexable_items(items, 0),
        Val::IntList(ns) => ns.len() <= i64::MAX,
        _ => true,
    }
}

pub open spec fn indexable_items(items: Seq<Val>, k: int) -> bool
    decreases items, items.len() - k,
{
    if k < 0 || k >= items.len() {
        true
    } else {
        indexable(items[k]) && indexable_items(items, k + 1)
    }
}

/// Whether a list holds a list among its elements.
pub open spec fn has_nested(items: Seq<Val>) -> bool {
    exists|i: int| 0 <= i < items.len() && (items[i] is List || items[i] is IntList)
}

/// The path of a leaf as `where` writes it: `[i][j]...`, or `[]` for the top.
pub open spec fn path_text(p: Seq<i64>) -> Seq<char>
    decreases p.len(),
{
    if p.len() == 0 {
        "[]"@
    } else if p.len() == 1 {
        "["@ + int_text(p[0] as int) + "]"@
    } else {
        path_text(p.drop_last()) + "["@ + int_text(p.last() as int) + "]"@
    }
}

/// The error for a leaf that is neither an integer nor a boolean.
pub open spec fn is_leaf_error(e: WqError, bad: Val, path: Seq<i64>) -> bool {
    &&& e.kind == WqErrorType::Domain
    &&& e.src@ == builtin_src_v(WHERE as int)
    &&& e.msg@ == "expected list whose leaves are int or bool"@
    &&& e.notes@.len() == 2
    &&& e.notes@[1]@ == "unexpected "@ + type_label_v(bad) + " at path "@ + path_text(path)
}

/// What `where[x]` gives: for an integer list, the indices of its nonzero entries; for a
/// list of integers and booleans, the indices of the true or nonzero ones; for a list with
/// lists in it, the coordinates of its true or nonzero leaves (an integer for a single
/// index); an error for any other value or leaf.
pub open spec fn where_ok(args: Seq<Value>, r: WqResult<Value>) -> bool {
    if args.len() != 1 {
        r matches Err(e) && is_arity_error(e, WHERE as int, seq![1usize], args.len())
    } else {
        match args[0]@ {
            Val::IntList(ns) => r matches Ok(v) && v@ == Val::IntList(nonzero_indices(ns, 0)),
            Val::List(items) => if has_nested(items) {
                match coords_in(args[0]@, Seq::empty()) {
                    Ok(c) => r matches Ok(v) && v@ == Val::List(c),
                    Err((bad, path)) => r matches Err(e) && is_leaf_error(e, bad, path),
                }
            } else {
                match flat_indices(items, 0) {
                    Ok(ix) => r matches Ok(v) && v@ == Val::IntList(ix),
                    Err((bad, path)) => r matches Err(e) && is_leaf_error(e, bad, path),
                }
            },
            _ => r matches Err(e) && e.kind == WqErrorType::Domain && e.msg@
                == "expected list whose leaves are int or bool"@,
        }
    }
}

/// The path of a leaf, written out.
fn path_chars(p: &Vec<i64>) -> (r: Vec<char>)
    ensures
        r@ == path_text(p@),
{
    if p.len() == 0 {
        return chars_of("[]");
    }
    let mut out: Vec<char> = Vec::new();
    let mut i: usize = 0;
    while i < p.len()
        invariant
            1 <= p@.len(),
            i <= p@.len(),
            i > 0 ==> out@ == path_text(p@.take(i as int)),
            i == 0 ==> out@.len() == 0,
        decreases p.len() - i,
    {
        assert(p@.take(i + 1).drop_last() =~= p@.take(i as int));
        assert(p@.take(i + 1).last() == p@[i as int]);
        append_str(&mut out, "[");
        append_chars(&mut out, &i64_to_decimal(p[i]));
        append_str(&mut out, "]");
        proof {
            if i == 0 {
                assert(p@.take(1) =~= seq![p@[0]]);
            }
        }
        assert(out@ =~= path_text(p@.take(i + 1)));
        i += 1;
    }
    assert(p@.take(p@.len() as int) =~= p@);
    out
}

/// The error for a leaf that is neither an integer nor a boolean.
fn leaf_error(bad: &Value, path: &Vec<i64>) -> (e: WqError)
    ensures
        is_leaf_error(e, bad@, path@),
{
    let mut note = chars_of("unexpected ");
    append_str(&mut note, bad.type_label());
    append_str(&mut note, " at path ");
    append_chars(&mut note, &path_chars(path));
    WqError::new(WqErrorType::Domain).src(builtin_src(WHERE).as_str()).msg("expected list whose leaves are int or bool").at_arg(
        0,
    ).attach_note(string_from_chars(note.as_slice()))
}

/// A coordinate as `where` gives it.
fn coord_value(c: &Vec<i64>) -> (r: Value)
    ensures
        r@ == coord_val(c@),
{
    if c.len() == 1 {
        Value::Int(c[0])
    } else {
        Value::IntList(c.clone())
    }
}

/// Adds the coordinates, after `prefix`, of the true or nonzero leaves of a value to `out`.
fn collect_coords(v: &Value, prefix: &mut Vec<i64>, out: &mut Vec<Value>) -> (r: Result<(), WqError>)
    requires
        indexable(v@),
    ensures
        final(prefix)@ == old(prefix)@,
        match coords_in(v@, old(prefix)@) {
            Ok(c) => r is Ok && vals(final(out)@) == vals(old(out)@) + c,
            Err((bad, path)) => r matches Err(e) && is_leaf_error(e, bad, path),
        },
    decreases v,
{
    let ghost p0 = prefix@;
    let ghost o0 = vals(out@);
    match v {
        Value::List(items) => {
            proof {
                lemma_list_view(*items);
            }
            let ghost iv = vals(items@);
            assert(o0 + Seq::<Val>::empty() =~= o0);
            let mut k: usize = 0;
            while k < items.len()
                invariant
                    v@ == Val::List(iv),
                    iv == vals(items@),
                    *v == Value::List(*items),
                    indexable(v@),
                    iv.len() <= i64::MAX,
                    indexable_items(iv, k as int),
                    prefix@ == p0,
                    old(prefix)@ == p0,
                    vals(old(out)@) == o0,
                    k <= items@.len(),
                    coords_in(v@, p0) == after(vals(out@).subrange(o0.len() as int, vals(out@).len() as int), coords_items(iv, p0, k as int)),
                    vals(out@).len() >= o0.len(),
                    vals(out@).subrange(0, o0.len() as int) == o0,
                decreases items.len() - k,
            {
                assert(iv[k as int] == items@[k as int]@);
                let ghost before = vals(out@);
                prefix.push(k as i64);
                let sub = collect_coords(&items[k], prefix, out);
                prefix.pop();
                assert(prefix@ =~= p0);
                match sub {
                    Ok(()) => {},
                    Err(e) => {
                        proof {
                            assert(coords_in(iv[k as int], p0.push(k as i64)) is Err);
                            assert(coords_items(iv, p0, k as int) == coords_in(iv[k as int], p0.push(k as i64)));
                        }
                        return Err(e);
                    },
                }
                proof {
                    let c = coords_in(iv[k as int], p0.push(k as i64))->Ok_0;
                    assert(vals(out@) == before + c);
                    let acc = before.subrange(o0.len() as int, before.len() as int);
                    assert(vals(out@).subrange(o0.len() as int, vals(out@).len() as int) =~= acc + c);
                    assert(vals(out@).subrange(0, o0.len() as int) =~= before.subrange(0, o0.len() as int));
                    match coords_items(iv, p0, k + 1) {
                        Ok(rest) => {
                            assert(acc + (c + rest) =~= (acc + c) + rest);
                        },
                        Err(_) => {},
                    }
                }
                k += 1;
            }
            assert(vals(out@).subrange(0, o0.len() as int) + vals(out@).subrange(o0.len() as int, vals(out@).len() as int) =~= vals(out@));
            Ok(())
        },
        Value::IntList(ns) => {
            let mut k: usize = 0;
            assert(o0 + Seq::<Val>::empty() =~= o0);
            while k < ns.len()
                invariant
                    ns@.len() <= i64::MAX,
                    prefix@ == p0,
                    k <= ns@.len(),
                    vals(out@) + int_coords(ns@, p0, k as int) == o0 + int_coords(ns@, p0, 0),
                decreases ns.len() - k,
            {
                let ghost before = vals(out@);
                if ns[k] != 0 {
                    prefix.push(k as i64);
                    let x = coord_value(prefix);
                    prefix.pop();
                    assert(prefix@ =~= p0);
                    let ghost raw = out@;
                    out.push(x);
                    proof {
                        lemma_vals_push(raw, x);
                        assert(vals(out@) =~= before.push(x@));
                        assert(before + int_coords(ns@, p0, k as int) =~= vals(out@) + int_coords(ns@, p0, k + 1));
                    }
                } else {
                    assert(int_coords(ns@, p0, k as int) =~= int_coords(ns@, p0, k + 1));
                }
                k += 1;
            }
            assert(int_coords(ns@, p0, ns@.len() as int) =~= Seq::<Val>::empty());
            assert(vals(out@) =~= o0 + int_coords(ns@, p0, 0));
            Ok(())
        },
        Value::Int(n) => {
            if *n != 0 {
                let x = coord_value(prefix);
                out.push(x);
                proof {
                    lemma_vals_push(old(out)@, x);
                }
                assert(vals(out@) =~= o0 + seq![coord_val(p0)]);
            } else {
                assert(vals(out@) =~= o0 + Seq::<Val>::empty());
            }
            Ok(())
        },
        Value::Bool(b) => {
            if *b {
                let x = coord_value(prefix);
                out.push(x);
                proof {
                    lemma_vals_push(old(out)@, x);
                }
                assert(vals(out@) =~= o0 + seq![coord_val(p0)]);
            } else {
                assert(vals(out@) =~= o0 + Seq::<Val>::empty());
            }
            Ok(())
        },
        _ => Err(leaf_error(v, prefix)),
    }
}

/// `where[x]`: the indices, or coordinates, of the true or nonzero entries.
pub fn wq_where(args: &[Value]) -> (r: WqResult<Value>)
    requires
        args@.len() == 1 ==> indexable(args@[0]@),
    ensures
        where_ok(args@, r),
{
    let arity: [usize; 1] = [1];
    assert(arity@ =~= seq![1usize]);
    check_arity(WHERE, &arity, args)?;
    match &args[0] {
        Value::IntList(ns) => {
            let mut out: Vec<i64> = Vec::new();
            let mut i: usize = 0;
            assert(out@ + nonzero_indices(ns@, 0) =~= nonzero_indices(ns@, 0));
            while i < ns.len()
                invariant
                    ns@.len() <= i64::MAX,
                    i <= ns@.len(),
                    out@ + nonzero_indices(ns@, i as int) == nonzero_indices(ns@, 0),
                decreases ns.len() - i,
            {
                let ghost before = out@;
                if ns[i] != 0 {
                    out.push(i as i64);
                    assert(before + nonzero_indices(ns@, i as int) =~= out@ + nonzero_indices(ns@, i + 1));
                } else {
                    assert(nonzero_indices(ns@, i as int) =~= nonzero_indices(ns@, i + 1));
                }
                i += 1;
            }
            assert(out@ =~= nonzero_indices(ns@, 0));
            Ok(Value::IntList(out))
        },
        Value::List(items) => {
            proof {
                lemma_list_view(*items);
            }
            let ghost iv = vals(items@);
            let mut nested = false;
            let mut j: usize = 0;
            while j < items.len()
                invariant
                    iv == vals(items@),
                    j <= items@.len(),
                    nested <==> exists|q: int| 0 <= q < j && (iv[q] is List || iv[q] is IntList),
                decreases items.len() - j,
            {
                assert(iv[j as int] == items@[j as int]@);
                match &items[j] {
                    Value::List(_) | Value::IntList(_) => {
                        nested = true;
                    },
                    _ => {},
                }
                j += 1;
            }
            if nested {
                let mut prefix: Vec<i64> = Vec::new();
                let mut out: Vec<Value> = Vec::new();
                assert(vals(out@) =~= Seq::<Val>::empty());
                assert(prefix@ =~= Seq::<i64>::empty());
                collect_coords(&args[0], &mut prefix, &mut out)?;
                assert(vals(out@) =~= Seq::<Val>::empty() + vals(out@));
                proof {
                    lemma_list_view(out);
                }
                return Ok(Value::List(out));
            }
            let mut out: Vec<i64> = Vec::new();
            let mut i: usize = 0;
            assert(after_i64(out@, flat_indices(iv, 0)) == flat_indices(iv, 0)) by {
                match flat_indices(iv, 0) {
                    Ok(s) => {
                        assert(out@ + s =~= s);
                    },
                    Err(_) => {},
                }
            }
            assert(!has_nested(iv));
            while i < items.len()
                invariant
                    iv == vals(items@),
                    args@.len() == 1,
                    args@[0]@ == Val::List(iv),
                    !has_nested(iv),
                    iv.len() <= i64::MAX,
                    i <= items@.len(),
                    flat_indices(iv, 0) == after_i64(out@, flat_indices(iv, i as int)),
                decreases items.len() - i,
            {
                assert(iv[i as int] == items@[i as int]@);
                let ghost before = out@;
                match &items[i] {
                    Value::Int(n) => {
                        if *n != 0 {
                            out.push(i as i64);
                        }
                    },
                    Value::Bool(b) => {
                        if *b {
                            out.push(i as i64);
                        }
                    },
                    other => {
                        let mut path: Vec<i64> = Vec::new();
                        path.push(i as i64);
                        assert(path@ =~= seq![i as i64]);
                        assert(flat_indices(iv, i as int) == Err::<Seq<i64>, (Val, Seq<i64>)>((iv[i as int], seq![i as i64])));
                        return Err(leaf_error(other, &path));
                    },
                }
                proof {
                    match flat_indices(iv, i + 1) {
                        Ok(rest) => {
                            assert(before + (out@.subrange(before.len() as int, out@.len() as int) + rest) =~= out@ + rest);
                        },
                        Err(_) => {},
                    }
                    assert(out@.subrange(before.len() as int, out@.len() as int) =~= leaf_index(iv[i as int], i as int)->Ok_0);
                }
                i += 1;
            }
            assert(out@ + Seq::<i64>::empty() =~= out@);
            Ok(Value::IntList(out))
        },
        other => {
            let mut note = chars_of("got ");
            append_chars(&mut note, &other.display_chars());
            append_str(&mut note, " of type ");
            append_str(&mut note, other.type_label());
            Err(
                WqError::new(WqErrorType::Domain).msg("expected list whose leaves are int or bool").at_arg(0).attach_note(
                    string_from_chars(note.as_slice()),
                ),
            )
        },
    }
}

/// Some indices before the indices that follow, if those were found.
pub open spec fn after_i64(acc: Seq<i64>, r: Result<Seq<i64>, (Val, Seq<i64>)>) -> Result<Seq<i64>, (Val, Seq<i64>)> {
    match r {
        Ok(s) => Ok(acc + s),
        Err(e) => Err(e),
    }
}

} // verus!
