//! List builtins: length, shape, depth, flattening, reversing, and searching.

use vstd::prelude::*;
use crate::builtin_table::{LEN, SHAPE, DEPTH, UNIFORM_Q, FLATTEN, REVERSE, FIND};
use crate::builtins::wqerror_helper::{check_arity, is_arity_error, builtin_src, builtin_src_v};
use crate::error::{WqError, WqErrorType, WqResult};
use crate::text::chars_eq_str;
use crate::value::{
    Value, Val, all_ints, vals, len_v, shape_v, same_shapes, depth_v, flatten_v, from_items_v, lemma_vals_push,
    lemma_list_view,
};

verus! {

/// `len[xs]`: the number of elements (1 for an atom, 0 for the unit).
pub fn len(args: &[Value]) -> (r: WqResult<Value>)
    requires
        args@.len() == 1 ==> len_v(args@[0]@) <= i64::MAX,
    ensures
        args@.len() != 1 ==> (r matches Err(e) && is_arity_error(e, LEN as int, seq![1usize], args@.len())),
        args@.len() == 1 ==> (r matches Ok(v) && v@ == Val::Int(len_v(args@[0]@) as i64)),
{
    let arity: [usize; 1] = [1];
    assert(arity@ =~= seq![1usize]);
    check_arity(LEN, &arity, args)?;
    let n = args[0].len();
    Ok(Value::Int(n as i64))
}

/// `shape[xs]`: the lengths along each axis, as an integer list.
pub fn shape(args: &[Value]) -> (r: WqResult<Value>)
    ensures
        args@.len() != 1 ==> (r matches Err(e) && is_arity_error(e, SHAPE as int, seq![1usize], args@.len())),
        args@.len() == 1 ==> (r matches Ok(v) && v@ == Val::IntList(shape_v(args@[0]@))),
{
    let arity: [usize; 1] = [1];
    assert(arity@ =~= seq![1usize]);
    check_arity(SHAPE, &arity, args)?;
    Ok(Value::IntList(args[0].shape()))
}

/// `depth[xs]`: the nesting depth (0 for an atom).
pub fn depth(args: &[Value]) -> (r: WqResult<Value>)
    ensures
        args@.len() != 1 ==> (r matches Err(e) && is_arity_error(e, DEPTH as int, seq![1usize], args@.len())),
        args@.len() == 1 ==> (r matches Ok(v) && v@ == Val::Int(
            if depth_v(args@[0]@) < i64::MAX { depth_v(args@[0]@) as i64 } else { i64::MAX },
        )),
{
    let arity: [usize; 1] = [1];
    assert(arity@ =~= seq![1usize]);
    check_arity(DEPTH, &arity, args)?;
    Ok(Value::Int(args[0].depth()))
}

/// Whether the elements of a list all have one shape (always for an atom or a flat list).
pub open spec fn uniform_v(v: Val) -> bool {
    match v {
        Val::List(items) => same_shapes(items, 1),
        _ => true,
    }
}

/// `uniform?[xs]`: whether the elements of a list all have one shape.
pub fn is_uniform(args: &[Value]) -> (r: WqResult<Value>)
    ensures
        args@.len() != 1 ==> (r matches Err(e) && is_arity_error(e, UNIFORM_Q as int, seq![1usize], args@.len())),
        args@.len() == 1 ==> (r matches Ok(v) && v@ == Val::Bool(uniform_v(args@[0]@))),
{
    let arity: [usize; 1] = [1];
    assert(arity@ =~= seq![1usize]);
    check_arity(UNIFORM_Q, &arity, args)?;
    match &args[0] {
        Value::List(items) => {
            proof {
                lemma_list_view(*items);
            }
            if items.len() == 0 {
                return Ok(Value::Bool(true));
            }
            let first = items[0].shape();
            let ghost m = vals(items@);
            let mut k: usize = 1;
            while k < items.len()
                invariant
                    1 <= k <= items.len(),
                    args@.len() == 1,
                    args@[0]@ == Val::List(m),
                    m == vals(items@),
                    first@ == shape_v(m[0]),
                    same_shapes(m, 1) == same_shapes(m, k as int),
                decreases items.len() - k,
            {
                let s = items[k].shape();
                if !crate::value::i64s_equal(&s, &first) {
                    return Ok(Value::Bool(false));
                }
                k += 1;
            }
            Ok(Value::Bool(true))
        },
        _ => Ok(Value::Bool(true)),
    }
}

/// `flatten[xs]`: the atoms of a value, depth first, as a list.
pub fn flatten(args: &[Value]) -> (r: WqResult<Value>)
    ensures
        args@.len() != 1 ==> (r matches Err(e) && is_arity_error(e, FLATTEN as int, seq![1usize], args@.len())),
        args@.len() == 1 ==> (r matches Ok(v) && v@ == from_items_v(flatten_v(args@[0]@))),
{
    let arity: [usize; 1] = [1];
    assert(arity@ =~= seq![1usize]);
    check_arity(FLATTEN, &arity, args)?;
    Ok(Value::from_items(args[0].flatten()))
}

/// The elements of a list, a dictionary's entries or an atom, reversed.
pub open spec fn reverse_v(v: Val) -> Val {
    match v {
        Val::List(items) => from_items_v(items.reverse()),
        Val::IntList(ns) => Val::IntList(ns.reverse()),
        Val::Dict(es) => Val::Dict(es.reverse()),
        _ => v,
    }
}

/// `reverse[xs]`: the elements in reverse order; an atom as it is.
pub fn reverse(args: &[Value]) -> (r: WqResult<Value>)
    ensures
        args@.len() != 1 ==> (r matches Err(e) && is_arity_error(e, REVERSE as int, seq![1usize], args@.len())),
        args@.len() == 1 ==> (r matches Ok(v) && v@ == reverse_v(args@[0]@)),
{
    let arity: [usize; 1] = [1];
    assert(arity@ =~= seq![1usize]);
    check_arity(REVERSE, &arity, args)?;
    match &args[0] {
        Value::List(items) => {
            proof {
                lemma_list_view(*items);
            }
            let mut out: Vec<Value> = Vec::new();
            let mut i: usize = items.len();
            while i > 0
                invariant
                    i <= items.len(),
                    vals(out@) =~= vals(items@).reverse().take(items.len() - i),
                decreases i,
            {
                let x = items[i - 1].clone();
                let ghost before = out@;
                out.push(x);
                proof {
                    lemma_vals_push(before, x);
                    assert(vals(items@).reverse().take(items.len() - i + 1) =~= vals(items@).reverse().take(
                        items.len() - i,
                    ).push(vals(items@)[i - 1]));
                }
                i -= 1;
            }
            assert(vals(items@).reverse().take(items.len() as int) =~= vals(items@).reverse());
            Ok(Value::from_items(out))
        },
        Value::IntList(ns) => {
            let mut out: Vec<i64> = Vec::new();
            let mut i: usize = ns.len();
            while i > 0
                invariant
                    i <= ns.len(),
                    out@ =~= ns@.reverse().take(ns.len() - i),
                decreases i,
            {
                out.push(ns[i - 1]);
                proof {
                    assert(ns@.reverse().take(ns.len() - i + 1) =~= ns@.reverse().take(ns.len() - i).push(
                        ns@[i - 1],
                    ));
                }
                i -= 1;
            }
            assert(ns@.reverse().take(ns.len() as int) =~= ns@.reverse());
            Ok(Value::IntList(out))
        },
        Value::Dict(es) => {
            let mut out: Vec<(String, Value)> = Vec::new();
            let mut i: usize = es.len();
            let ghost m = args@[0]@->Dict_0;
            assert(m == Seq::new(es@.len(), |k: int| (es@[k].0@, es@[k].1@)));
            while i > 0
                invariant
                    i <= es.len(),
                    m == Seq::new(es@.len(), |k: int| (es@[k].0@, es@[k].1@)),
                    out@.len() == es.len() - i,
                    forall|k: int| 0 <= k < out@.len() ==> (#[trigger] out@[k]).0@ == m.reverse()[k].0
                        && out@[k].1@ == m.reverse()[k].1,
                decreases i,
            {
                let k = es[i - 1].0.clone();
                let v = es[i - 1].1.clone();
                out.push((k, v));
                i -= 1;
            }
            let r = Value::Dict(out);
            assert(r@->Dict_0 =~= m.reverse());
            Ok(r)
        },
        v => Ok(v.clone()),
    }
}

// Searching ================================================================================

/// The paths of the occurrences of `elem` in `xs`, depth first: an element that is `elem`
/// is an occurrence and is not searched; another is searched while `cur < maxd`. An atom is
/// an occurrence at the empty path.
pub open spec fn search_v(elem: Val, xs: Val, cur: int, maxd: int, path: Seq<i64>) -> Seq<Seq<i64>>
    decreases xs, 0int,
{
    match xs {
        Val::List(items) => search_items(elem, items, cur, maxd, path, items.len() as int),
        Val::IntList(ns) => search_ints(elem, ns, path, ns.len() as int),
        Val::Dict(es) => search_entries(elem, es, cur, maxd, path, es.len() as int),
        _ => if elem == xs {
            seq![path]
        } else {
            Seq::empty()
        },
    }
}

/// The occurrences among `items[..k]` and below them.
pub open spec fn search_items(elem: Val, items: Seq<Val>, cur: int, maxd: int, path: Seq<i64>, k: int) -> Seq<
    Seq<i64>,
>
    decreases items, k,
{
    if k <= 0 || k > items.len() {
        Seq::empty()
    } else {
        let p = path.push((k - 1) as i64);
        search_items(elem, items, cur, maxd, path, k - 1) + if elem == items[k - 1] {
            seq![p]
        } else if cur < maxd {
            search_v(elem, items[k - 1], cur + 1, maxd, p)
        } else {
            Seq::empty()
        }
    }
}

/// The occurrences among the values of `es[..k]` and below them.
pub open spec fn search_entries(
    elem: Val,
    es: Seq<(Seq<char>, Val)>,
    cur: int,
    maxd: int,
    path: Seq<i64>,
    k: int,
) -> Seq<Seq<i64>>
    decreases es, k,
{
    if k <= 0 || k > es.len() {
        Seq::empty()
    } else {
        let p = path.push((k - 1) as i64);
        search_entries(elem, es, cur, maxd, path, k - 1) + if elem == es[k - 1].1 {
            seq![p]
        } else if cur < maxd {
            search_v(elem, es[k - 1].1, cur + 1, maxd, p)
        } else {
            Seq::empty()
        }
    }
}

/// The occurrences among the integers `ns[..k]`.
pub open spec fn search_ints(elem: Val, ns: Seq<i64>, path: Seq<i64>, k: int) -> Seq<Seq<i64>>
    decreases k,
{
    if k <= 0 || k > ns.len() {
        Seq::empty()
    } else {
        search_ints(elem, ns, path, k - 1) + if elem == Val::Int(ns[k - 1]) {
            seq![path.push((k - 1) as i64)]
        } else {
            Seq::empty()
        }
    }
}

/// The models of a sequence of integer vectors.
pub open spec fn paths_v(rs: Seq<Vec<i64>>) -> Seq<Seq<i64>> {
    Seq::new(rs.len(), |i: int| rs[i]@)
}

proof fn lemma_paths_push(rs: Seq<Vec<i64>>, v: Vec<i64>)
    ensures
        paths_v(rs.push(v)) == paths_v(rs).push(v@),
{
    assert(paths_v(rs.push(v)) =~= paths_v(rs).push(v@));
}

/// Appends the paths of the occurrences of `elem` in `xs` to `results`.
fn search(elem: &Value, xs: &Value, cur: i64, maxd: i64, path: &mut Vec<i64>, results: &mut Vec<Vec<i64>>)
    requires
        cur <= maxd,
    ensures
        final(path)@ == old(path)@,
        paths_v(final(results)@) == paths_v(old(results)@) + search_v(elem@, xs@, cur as int, maxd as int, old(path)@),
    decreases xs,
{
    match xs {
        Value::List(items) => {
            proof {
                lemma_list_view(*items);
            }
            let ghost start = paths_v(results@);
            let ghost p0 = path@;
            let mut i: usize = 0;
            while i < items.len()
                invariant
                    *xs == Value::List(*items),
                    xs@ == Val::List(vals(items@)),
                    i <= items.len(),
                    cur <= maxd,
                    path@ == p0,
                    paths_v(results@) == start + search_items(elem@, vals(items@), cur as int, maxd as int, p0, i as int),
                decreases items.len() - i,
            {
                assert(decreases_to!(*xs => items@[i as int])) by {
                    assert(decreases_to!(*xs => (*xs)->List_0));
                    assert(decreases_to!(*items => items@));
                    assert(decreases_to!(items@ => items@[i as int]));
                }
                let item = &items[i];
                let is_match = elem.equals(item);
                let ghost before = paths_v(results@);
                if is_match {
                    path.push(i as i64);
                    let found = path.clone();
                    let ghost rs = results@;
                    results.push(found);
                    proof {
                        lemma_paths_push(rs, found);
                    }
                    path.pop();
                    assert(path@ =~= p0);
                } else if cur < maxd {
                    path.push(i as i64);
                    search(elem, item, cur + 1, maxd, path, results);
                    path.pop();
                    assert(path@ =~= p0);
                }
                proof {
                    assert(paths_v(results@) =~= start + search_items(elem@, vals(items@), cur as int, maxd as int, p0, i + 1));
                }
                i += 1;
            }
        },
        Value::IntList(ns) => {
            let ghost start = paths_v(results@);
            let ghost p0 = path@;
            let mut i: usize = 0;
            while i < ns.len()
                invariant
                    xs@ == Val::IntList(ns@),
                    i <= ns.len(),
                    path@ == p0,
                    paths_v(results@) == start + search_ints(elem@, ns@, p0, i as int),
                decreases ns.len() - i,
            {
                let e = Value::Int(ns[i]);
                if elem.equals(&e) {
                    path.push(i as i64);
                    let found = path.clone();
                    let ghost rs = results@;
                    results.push(found);
                    proof {
                        lemma_paths_push(rs, found);
                    }
                    path.pop();
                    assert(path@ =~= p0);
                }
                proof {
                    assert(paths_v(results@) =~= start + search_ints(elem@, ns@, p0, i + 1));
                }
                i += 1;
            }
        },
        Value::Dict(es) => {
            let ghost m = xs@->Dict_0;
            assert(m == Seq::new(es@.len(), |k: int| (es@[k].0@, es@[k].1@)));
            let ghost start = paths_v(results@);
            let ghost p0 = path@;
            let mut i: usize = 0;
            while i < es.len()
                invariant
                    *xs == Value::Dict(*es),
                    m == xs@->Dict_0,
                    m == Seq::new(es@.len(), |k: int| (es@[k].0@, es@[k].1@)),
                    i <= es.len(),
                    cur <= maxd,
                    path@ == p0,
                    paths_v(results@) == start + search_entries(elem@, m, cur as int, maxd as int, p0, i as int),
                decreases es.len() - i,
            {
                assert(decreases_to!(*xs => es@[i as int].1)) by {
                    assert(decreases_to!(*xs => (*xs)->Dict_0));
                    assert(decreases_to!(*es => es@));
                    assert(decreases_to!(es@ => es@[i as int]));
                    assert(decreases_to!(es@[i as int] => es@[i as int].1));
                }
                let item = &es[i].1;
                let is_match = elem.equals(item);
                if is_match {
                    path.push(i as i64);
                    let found = path.clone();
                    let ghost rs = results@;
                    results.push(found);
                    proof {
                        lemma_paths_push(rs, found);
                    }
                    path.pop();
                    assert(path@ =~= p0);
                } else if cur < maxd {
                    path.push(i as i64);
                    search(elem, item, cur + 1, maxd, path, results);
                    path.pop();
                    assert(path@ =~= p0);
                }
                proof {
                    assert(paths_v(results@) =~= start + search_entries(elem@, m, cur as int, maxd as int, p0, i + 1));
                }
                i += 1;
            }
        },
        _ => {
            if elem.equals(xs) {
                let found = path.clone();
                let ghost rs = results@;
                results.push(found);
                proof {
                    lemma_paths_push(rs, found);
                }
            }
            assert(paths_v(results@) =~= paths_v(old(results)@) + search_v(elem@, xs@, cur as int, maxd as int, old(path)@));
        },
    }
}

/// A threshold or depth argument of `find`: a non-negative integer, or `inf` for no limit.
pub open spec fn limit_v(v: Val) -> Option<int> {
    match v {
        Val::Int(n) => if n >= 0 {
            Some(n as int)
        } else {
            None
        },
        Val::Float(t) => if t == "inf"@ {
            Some(i64::MAX as int)
        } else {
            None
        },
        _ => None,
    }
}

/// The integer-list model of a path.
pub open spec fn path_val(p: Seq<i64>) -> Val {
    Val::IntList(p)
}

/// What `find` gives for the paths it found: the unit for none, the path for one, the list of
/// the paths otherwise.
pub open spec fn find_result_v(ps: Seq<Seq<i64>>) -> Val {
    if ps.len() == 0 {
        Val::Null
    } else if ps.len() == 1 {
        Val::IntList(ps[0])
    } else {
        Val::List(Seq::new(ps.len(), |i: int| path_val(ps[i])))
    }
}

/// The paths that `find` reports: the first `threshold` occurrences, depth first.
pub open spec fn found_v(elem: Val, xs: Val, threshold: int, maxd: int) -> Seq<Seq<i64>> {
    let all = search_v(elem, xs, 0, maxd, Seq::empty());
    if threshold < all.len() {
        all.take(threshold)
    } else {
        all
    }
}

/// What `find` gives for its arguments.
pub open spec fn find_ok(args: Seq<Value>, r: WqResult<Value>) -> bool {
    if !(args.len() == 2 || args.len() == 3 || args.len() == 4) {
        r matches Err(e) && is_arity_error(e, FIND as int, seq![2usize, 3usize, 4usize], args.len())
    } else if args.len() == 2 {
        r matches Ok(v) && v@ == find_result_v(found_v(args[0]@, args[1]@, 1, 1))
    } else if limit_v(args[1]@) is None {
        r matches Err(e) && e.kind == WqErrorType::Domain && e.src@ == builtin_src_v(FIND as int)
            && e.msg@ == "threshold must be non-negative int or inf"@
    } else if args.len() == 3 {
        r matches Ok(v) && v@ == find_result_v(found_v(args[0]@, args[2]@, limit_v(args[1]@)->0, 1))
    } else if limit_v(args[2]@) is None {
        r matches Err(e) && e.kind == WqErrorType::Domain && e.src@ == builtin_src_v(FIND as int)
            && e.msg@ == "depth must be non-negative int or inf"@
    } else {
        r matches Ok(v) && v@ == find_result_v(
            found_v(args[0]@, args[3]@, limit_v(args[1]@)->0, limit_v(args[2]@)->0),
        )
    }
}

/// Reads a threshold or depth argument.
fn limit_of(v: &Value) -> (r: Option<i64>)
    ensures
        match limit_v(v@) {
            Some(n) => r matches Some(m) && m as int == n,
            None => r is None,
        },
{
    match v {
        Value::Int(n) => if *n >= 0 {
            Some(*n)
        } else {
            None
        },
        Value::Float(t) => if chars_eq_str(&crate::text::chars_of(t.as_str()), "inf") {
            Some(i64::MAX)
        } else {
            None
        },
        _ => None,
    }
}

/// `find[elem;xs]`, `find[elem;threshold;xs]`, `find[elem;threshold;depth;xs]`: the index
/// paths of the first occurrences of `elem` in `xs`, depth first, searching `depth` levels
/// (1 by default) and stopping after `threshold` occurrences (1 by default); `inf` for no
/// limit. The unit where there is none, the path where there is one.
pub fn find(args: &[Value]) -> (r: WqResult<Value>)
    ensures
        find_ok(args@, r),
{
    let arity: [usize; 3] = [2, 3, 4];
    assert(arity@ =~= seq![2usize, 3usize, 4usize]);
    check_arity(FIND, &arity, args)?;
    let n = args.len();
    let (threshold, maxd): (i64, i64) = if n == 2 {
        (1, 1)
    } else {
        let t = match limit_of(&args[1]) {
            Some(t) => t,
            None => {
                return Err(WqError::new(WqErrorType::Domain).src(builtin_src(FIND).as_str()).msg(
                    "threshold must be non-negative int or inf",
                ).at_arg(1));
            },
        };
        if n == 3 {
            (t, 1)
        } else {
            let d = match limit_of(&args[2]) {
                Some(d) => d,
                None => {
                    return Err(WqError::new(WqErrorType::Domain).src(builtin_src(FIND).as_str()).msg(
                        "depth must be non-negative int or inf",
                    ).at_arg(2));
                },
            };
            (t, d)
        }
    };
    let elem = &args[0];
    let xs = &args[n - 1];
    let mut results: Vec<Vec<i64>> = Vec::new();
    let mut path: Vec<i64> = Vec::new();
    assert(paths_v(results@) =~= Seq::<Seq<i64>>::empty());
    search(elem, xs, 0, maxd, &mut path, &mut results);
    assert(path@ =~= Seq::<i64>::empty());
    let ghost all = search_v(elem@, xs@, 0, maxd as int, Seq::empty());
    assert(paths_v(results@) =~= all);
    let count: usize = if (threshold as u64) < (results.len() as u64) {
        threshold as usize
    } else {
        results.len()
    };
    let ghost kept = if threshold < all.len() { all.take(threshold as int) } else { all };
    assert(kept =~= all.take(count as int));
    if count == 0 {
        return Ok(Value::unit());
    }
    if count == 1 {
        return Ok(Value::IntList(results[0].clone()));
    }
    let mut out: Vec<Value> = Vec::new();
    let mut i: usize = 0;
    while i < count
        invariant
            i <= count <= results.len(),
            out@.len() == i,
            paths_v(results@) == all,
            forall|k: int| 0 <= k < i ==> (#[trigger] out@[k])@ == path_val(all[k]),
        decreases count - i,
    {
        out.push(Value::IntList(results[i].clone()));
        i += 1;
    }
    proof {
        lemma_list_view(out);
        assert(vals(out@) =~= Seq::new(kept.len(), |k: int| path_val(kept[k])));
    }
    Ok(Value::List(out))
}

/// Reversing twice gives the value back, but for a non-empty list of integers, which comes
/// back as the integer list of its elements.
pub proof fn law_reverse_twice(v: Val)
    ensures
        !(v matches Val::List(items) && items.len() > 0 && all_ints(items)) ==> reverse_v(reverse_v(v)) == v,
        match v {
            Val::List(items) => items.len() > 0 && all_ints(items) ==> reverse_v(reverse_v(v)) == from_items_v(
                items,
            ),
            _ => true,
        },
{
    match v {
        Val::List(items) => {
            let r = items.reverse();
            assert(r.reverse() =~= items);
            if items.len() > 0 && all_ints(items) {
                assert(all_ints(r));
                assert(crate::value::ints_of(r).reverse() =~= crate::value::ints_of(items));
            } else if items.len() > 0 {
                let k = choose|k: int| 0 <= k < items.len() && !(items[k] is Int);
                assert(r[items.len() - 1 - k] == items[k]);
                assert(!all_ints(r));
            }
        },
        Val::IntList(ns) => {
            assert(ns.reverse().reverse() =~= ns);
        },
        Val::Dict(es) => {
            assert(es.reverse().reverse() =~= es);
        },
        _ => {},
    }
}

/// Whether the keys of dictionary entries are pairwise distinct, as the keys of a dictionary
/// are.
pub open spec fn keys_distinct(es: Seq<(Seq<char>, Val)>) -> bool {
    forall|i: int, j: int| 0 <= i < j < es.len() ==> (#[trigger] es[i]).0 != (#[trigger] es[j]).0
}

/// Reversing a dictionary keeps each key once: its entries are the same, in reversed order.
pub proof fn law_reverse_keeps_keys_distinct(es: Seq<(Seq<char>, Val)>)
    requires
        keys_distinct(es),
    ensures
        reverse_v(Val::Dict(es)) matches Val::Dict(rs) && keys_distinct(rs) && rs.len() == es.len()
            && forall|i: int| 0 <= i < es.len() ==> #[trigger] rs[i] == es[es.len() - 1 - i],
{
    let rs = es.reverse();
    assert forall|i: int, j: int| 0 <= i < j < rs.len() implies (#[trigger] rs[i]).0 != (#[trigger] rs[j]).0 by {
        assert(rs[i] == es[es.len() - 1 - i]);
        assert(rs[j] == es[es.len() - 1 - j]);
        assert(es[es.len() - 1 - j].0 != es[es.len() - 1 - i].0);
    }
}

} // verus!
