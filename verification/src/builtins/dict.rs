//! Dictionary builtins: keys, membership, and positions of keys.

use vstd::prelude::*;
use crate::builtin_table::{KEYS, HAS_KEY_Q, IDX_TO_KEY, KEY_TO_IDX};
use crate::builtins::wqerror_helper::{check_arity, is_arity_error, is_type_mismatch, type_mismatch, builtin_src_v};
use crate::error::{WqError, WqErrorType, WqResult};
use crate::value::{Value, Val, vals, lemma_vals_push, lemma_list_view};

verus! {

/// The position a possibly negative index names in a sequence of `len` elements: from the
/// front for `i >= 0`, from the back otherwise.
pub open spec fn normalize_idx_v(i: i64, len: nat) -> Option<nat> {
    if i >= 0 {
        if i < len { Some(i as nat) } else { None }
    } else if -i <= len {
        Some((len + i) as nat)
    } else {
        None
    }
}

/// The position a possibly negative index names.
pub fn normalize_idx(i: i64, len: usize) -> (r: Option<usize>)
    ensures
        match normalize_idx_v(i, len as nat) {
            Some(k) => r == Some(k as usize),
            None => r is None,
        },
{
    if i >= 0 {
        if (i as u64) < (len as u64) {
            Some(i as usize)
        } else {
            None
        }
    } else {
        let off: u64 = if i == i64::MIN { 0x8000_0000_0000_0000u64 } else { (-i) as u64 };
        if off <= len as u64 {
            Some(len - (off as usize))
        } else {
            None
        }
    }
}

/// The keys of a dictionary model.
pub open spec fn dict_keys_v(es: Seq<(Seq<char>, Val)>) -> Seq<Val> {
    Seq::new(es.len(), |i: int| Val::Symbol(es[i].0))
}

/// The first position of a key in a dictionary model.
pub open spec fn key_index_from(es: Seq<(Seq<char>, Val)>, key: Seq<char>, k: int) -> Option<int>
    decreases es.len() - k,
{
    if k < 0 || k >= es.len() {
        None
    } else if es[k].0 == key {
        Some(k)
    } else {
        key_index_from(es, key, k + 1)
    }
}

/// The first position of a key in a dictionary.
fn find_key(es: &Vec<(String, Value)>, key: &String) -> (r: Option<usize>)
    ensures
        r matches Some(j) ==> key_index_from(Seq::new(es@.len(), |i: int| (es@[i].0@, es@[i].1@)), key@, 0)
            == Some(j as int),
        r is None <==> key_index_from(Seq::new(es@.len(), |i: int| (es@[i].0@, es@[i].1@)), key@, 0) is None,
        r matches Some(k) ==> k < es@.len(),
{
    let ghost m = Seq::new(es@.len(), |i: int| (es@[i].0@, es@[i].1@));
    let mut i: usize = 0;
    while i < es.len()
        invariant
            i <= es.len(),
            m == Seq::new(es@.len(), |i: int| (es@[i].0@, es@[i].1@)),
            key_index_from(m, key@, 0) == key_index_from(m, key@, i as int),
        decreases es.len() - i,
    {
        if es[i].0 == *key {
            return Some(i);
        }
        i += 1;
    }
    None
}

/// `keys[d]`: the keys of a dictionary, as symbols, in order.
pub fn keys(args: &[Value]) -> (r: WqResult<Value>)
    ensures
        args@.len() != 1 ==> (r matches Err(e) && is_arity_error(e, KEYS as int, seq![1usize], args@.len())),
        args@.len() == 1 ==> match args@[0]@ {
            Val::Dict(es) => r matches Ok(v) && v@ == Val::List(dict_keys_v(es)),
            x => r matches Err(e) && is_type_mismatch(e, KEYS as int, 0, "dict"@, x),
        },
{
    let arity: [usize; 1] = [1];
    assert(arity@ =~= seq![1usize]);
    check_arity(KEYS, &arity, args)?;
    match &args[0] {
        Value::Dict(es) => {
            let mut out: Vec<Value> = Vec::new();
            let mut i: usize = 0;
            while i < es.len()
                invariant
                    i <= es.len(),
                    args@[0]@ == Value::Dict(*es)@,
                    vals(out@) =~= dict_keys_v(args@[0]@->Dict_0).take(i as int),
                decreases es.len() - i,
            {
                let x = Value::Symbol(es[i].0.clone());
                let ghost before = out@;
                out.push(x);
                proof {
                    lemma_vals_push(before, x);
                }
                i += 1;
            }
            proof {
                lemma_list_view(out);
                assert(dict_keys_v(args@[0]@->Dict_0).take(es@.len() as int) =~= dict_keys_v(args@[0]@->Dict_0));
            }
            Ok(Value::List(out))
        },
        v => Err(type_mismatch(KEYS, 0, "dict", v)),
    }
}

/// `haskey?[k;d]`: whether a dictionary has a key, given as a symbol.
pub fn has_key(args: &[Value]) -> (r: WqResult<Value>)
    ensures
        args@.len() != 2 ==> (r matches Err(e) && is_arity_error(e, HAS_KEY_Q as int, seq![2usize], args@.len())),
        args@.len() == 2 ==> match (args@[0]@, args@[1]@) {
            (Val::Symbol(k), Val::Dict(es)) => r matches Ok(v) && v@ == Val::Bool(key_index_from(es, k, 0) is Some),
            (Val::Symbol(_), x) => r matches Err(e) && is_type_mismatch(e, HAS_KEY_Q as int, 1, "dict"@, x),
            (x, _) => r matches Err(e) && is_type_mismatch(e, HAS_KEY_Q as int, 0, "symbol"@, x),
        },
{
    let arity: [usize; 1] = [2];
    assert(arity@ =~= seq![2usize]);
    check_arity(HAS_KEY_Q, &arity, args)?;
    let key = match &args[0] {
        Value::Symbol(s) => s,
        other => {
            return Err(type_mismatch(HAS_KEY_Q, 0, "symbol", other));
        },
    };
    let dict = match &args[1] {
        Value::Dict(es) => es,
        other => {
            return Err(type_mismatch(HAS_KEY_Q, 1, "dict", other));
        },
    };
    proof {
        assert(args@[1]@->Dict_0 =~= Seq::new(dict@.len(), |i: int| (dict@[i].0@, dict@[i].1@)));
    }
    Ok(Value::Bool(find_key(dict, key).is_some()))
}

/// `itk[i;d]`: the key at a position of a dictionary (negative positions count from the
/// end); the unit where there is none.
pub fn idx_to_key(args: &[Value]) -> (r: WqResult<Value>)
    ensures
        args@.len() != 2 ==> (r matches Err(e) && is_arity_error(e, IDX_TO_KEY as int, seq![2usize], args@.len())),
        args@.len() == 2 ==> match (args@[0]@, args@[1]@) {
            (Val::Int(i), Val::Dict(es)) => match normalize_idx_v(i, es.len()) {
                Some(k) => r matches Ok(v) && v@ == Val::Symbol(es[k as int].0),
                None => r matches Ok(v) && v@ == Val::Null,
            },
            (Val::Int(_), x) => r matches Err(e) && is_type_mismatch(e, IDX_TO_KEY as int, 1, "dict"@, x),
            (x, _) => r matches Err(e) && is_type_mismatch(e, IDX_TO_KEY as int, 0, "int"@, x),
        },
{
    let arity: [usize; 1] = [2];
    assert(arity@ =~= seq![2usize]);
    check_arity(IDX_TO_KEY, &arity, args)?;
    let idx = match &args[0] {
        Value::Int(i) => *i,
        other => {
            return Err(type_mismatch(IDX_TO_KEY, 0, "int", other));
        },
    };
    let dict = match &args[1] {
        Value::Dict(es) => es,
        other => {
            return Err(type_mismatch(IDX_TO_KEY, 1, "dict", other));
        },
    };
    match normalize_idx(idx, dict.len()) {
        None => Ok(Value::unit()),
        Some(k) => Ok(Value::Symbol(dict[k].0.clone())),
    }
}

/// `kti[k;d]`: the position of a key in a dictionary; the unit where it is absent.
pub fn key_to_idx(args: &[Value]) -> (r: WqResult<Value>)
    requires
        args@.len() == 2 && args@[1]@ is Dict ==> args@[1]@->Dict_0.len() <= i64::MAX,
    ensures
        args@.len() != 2 ==> (r matches Err(e) && is_arity_error(e, KEY_TO_IDX as int, seq![2usize], args@.len())),
        args@.len() == 2 ==> match (args@[0]@, args@[1]@) {
            (Val::Symbol(k), Val::Dict(es)) => match key_index_from(es, k, 0) {
                Some(p) => r matches Ok(v) && v@ == Val::Int(p as i64),
                None => r matches Ok(v) && v@ == Val::Null,
            },
            (Val::Symbol(_), x) => r matches Err(e) && is_type_mismatch(e, KEY_TO_IDX as int, 1, "dict"@, x),
            (x, _) => r matches Err(e) && is_type_mismatch(e, KEY_TO_IDX as int, 0, "symbol"@, x),
        },
{
    let arity: [usize; 1] = [2];
    assert(arity@ =~= seq![2usize]);
    check_arity(KEY_TO_IDX, &arity, args)?;
    let key = match &args[0] {
        Value::Symbol(s) => s,
        other => {
            return Err(type_mismatch(KEY_TO_IDX, 0, "symbol", other));
        },
    };
    let dict = match &args[1] {
        Value::Dict(es) => es,
        other => {
            return Err(type_mismatch(KEY_TO_IDX, 1, "dict", other));
        },
    };
    proof {
        assert(args@[1]@->Dict_0 =~= Seq::new(dict@.len(), |i: int| (dict@[i].0@, dict@[i].1@)));
    }
    match find_key(dict, key) {
        Some(p) => {
            assert(p <= i64::MAX);
            Ok(Value::Int(p as i64))
        },
        None => Ok(Value::unit()),
    }
}

proof fn lemma_key_index_found(es: Seq<(Seq<char>, Val)>, key: Seq<char>, k: int)
    requires
        key_index_from(es, key, k) is Some,
    ensures
        k <= key_index_from(es, key, k)->Some_0 < es.len(),
        es[key_index_from(es, key, k)->Some_0].0 == key,
    decreases es.len() - k,
{
    if k >= 0 && k < es.len() && es[k].0 != key {
        lemma_key_index_found(es, key, k + 1);
    }
}

/// The position that `key_to_idx` finds for a key names, for `idx_to_key`, that same key;
/// in a dictionary whose length fits in an `i64`, as `key_to_idx` asks.
pub proof fn law_key_position_round_trip(es: Seq<(Seq<char>, Val)>, key: Seq<char>)
    requires
        es.len() <= i64::MAX,
        key_index_from(es, key, 0) is Some,
    ensures
        ({
            let p = key_index_from(es, key, 0)->Some_0;
            normalize_idx_v(p as i64, es.len()) == Some(p as nat) && es[p].0 == key
        }),
{
    lemma_key_index_found(es, key, 0);
}

} // verus!
