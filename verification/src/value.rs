//! Runtime values of the language.

use vstd::prelude::*;
use num_bigint::BigInt;
use crate::text::chars_of;

verus! {

/// A runtime value. A float is kept as its text: a literal that `f64::from_str` reads.
/// A dictionary keeps its entries in insertion order, each key once, in a vector of pairs:
/// the order is what its builtins read, and a key is found by a search from the front.
#[derive(Debug, PartialEq)]
pub enum Value {
    Int(i64),
    BigInt(BigInt),
    Float(String),
    Char(char),
    Bool(bool),
    Symbol(String),
    List(Vec<Value>),
    IntList(Vec<i64>),
    Dict(Vec<(String, Value)>),
    Null,
}

/// The mathematical model of a value.
pub enum Val {
    Int(i64),
    BigInt(int),
    Float(Seq<char>),
    Char(char),
    Bool(bool),
    Symbol(Seq<char>),
    List(Seq<Val>),
    IntList(Seq<i64>),
    Dict(Seq<(Seq<char>, Val)>),
    Null,
}

/// The model of a value.
pub open spec fn model(v: Value) -> Val
    decreases v,
{
        match v {
            Value::Int(n) => Val::Int(n),
            Value::BigInt(b) => Val::BigInt(crate::bigint::bigint_value(b)),
            Value::Float(s) => Val::Float(s@),
            Value::Char(c) => Val::Char(c),
            Value::Bool(b) => Val::Bool(b),
            Value::Symbol(s) => Val::Symbol(s@),
            Value::List(items) => Val::List(
                Seq::new(
                    items.len() as nat,
                    |i: int|
                        if 0 <= i < items.len() {
                            model(items@[i])
                        } else {
                            Val::Null
                        },
                ),
            ),
            Value::IntList(ns) => Val::IntList(ns@),
            Value::Dict(es) => Val::Dict(
                Seq::new(
                    es.len() as nat,
                    |i: int|
                        if 0 <= i < es.len() {
                            (es@[i].0@, model(es@[i].1))
                        } else {
                            (Seq::empty(), Val::Null)
                        },
                ),
            ),
            Value::Null => Val::Null,
        }
    }

impl View for Value {
    type V = Val;

    open spec fn view(&self) -> Val {
        model(*self)
    }
}

/// The models of a sequence of values.
pub open spec fn vals(vs: Seq<Value>) -> Seq<Val> {
    Seq::new(vs.len(), |i: int| vs[i]@)
}

impl Clone for Value {
    fn clone(&self) -> (r: Value)
        ensures
            r@ == self@,
        decreases self,
    {
        match self {
            Value::Int(n) => Value::Int(*n),
            Value::BigInt(b) => Value::BigInt(b.clone()),
            Value::Float(s) => Value::Float(s.clone()),
            Value::Char(c) => Value::Char(*c),
            Value::Bool(b) => Value::Bool(*b),
            Value::Symbol(s) => Value::Symbol(s.clone()),
            Value::List(items) => {
                let mut out: Vec<Value> = Vec::new();
                let mut i: usize = 0;
                while i < items.len()
                    invariant
                        *self == Value::List(*items),
                        i <= items.len(),
                        out.len() == i,
                        forall|k: int| 0 <= k < i ==> (#[trigger] out@[k])@ == items@[k]@,
                    decreases items.len() - i,
                {
                    assert(decreases_to!(*self => items@[i as int])) by {
                        assert(decreases_to!(*self => (*self)->List_0));
                        assert(decreases_to!(*items => items@));
                        assert(decreases_to!(items@ => items@[i as int]));
                    }
                    let c = items[i].clone();
                    out.push(c);
                    i += 1;
                }
                let r = Value::List(out);
                assert(r@->List_0 =~= self@->List_0);
                r
            },
            Value::IntList(ns) => Value::IntList(ns.clone()),
            Value::Dict(es) => {
                let mut out: Vec<(String, Value)> = Vec::new();
                let mut i: usize = 0;
                while i < es.len()
                    invariant
                        *self == Value::Dict(*es),
                        i <= es.len(),
                        out.len() == i,
                        forall|k: int|
                            0 <= k < i ==> (#[trigger] out@[k]).0@ == es@[k].0@ && out@[k].1@
                                == es@[k].1@,
                    decreases es.len() - i,
                {
                    assert(decreases_to!(*self => es@[i as int].1)) by {
                        assert(decreases_to!(*self => (*self)->Dict_0));
                        assert(decreases_to!(*es => es@));
                        assert(decreases_to!(es@ => es@[i as int]));
                        assert(decreases_to!(es@[i as int] => es@[i as int].1));
                    }
                    let k = es[i].0.clone();
                    let v = es[i].1.clone();
                    out.push((k, v));
                    i += 1;
                }
                let r = Value::Dict(out);
                assert(r@->Dict_0 =~= self@->Dict_0);
                r
            },
            Value::Null => Value::Null,
        }
    }
}

} // verus!

verus! {

/// Whether a value model is an atom (neither a list nor a dictionary).
pub open spec fn is_atom_v(v: Val) -> bool {
    !(v is List || v is IntList || v is Dict)
}

/// Whether every element of a sequence of models is an integer.
pub open spec fn all_ints(items: Seq<Val>) -> bool {
    forall|i: int| 0 <= i < items.len() ==> #[trigger] items[i] is Int
}

/// The integers of a sequence of integer models.
pub open spec fn ints_of(items: Seq<Val>) -> Seq<i64> {
    Seq::new(items.len(), |i: int| items[i]->Int_0)
}

/// A list built from items: a non-empty list of integers is an integer list.
pub open spec fn from_items_v(items: Seq<Val>) -> Val {
    if items.len() > 0 && all_ints(items) {
        Val::IntList(ints_of(items))
    } else {
        Val::List(items)
    }
}

/// Whether a model is the unit, an empty list or an empty dictionary.
pub open spec fn is_empty_v(v: Val) -> bool {
    match v {
        Val::Null => true,
        Val::List(items) => items.len() == 0,
        Val::IntList(items) => items.len() == 0,
        Val::Dict(es) => es.len() == 0,
        _ => false,
    }
}

/// Whether a model is a string: a list of characters (the empty list included).
pub open spec fn is_str_v(v: Val) -> bool {
    match v {
        Val::List(items) => forall|i: int| 0 <= i < items.len() ==> #[trigger] items[i] is Char,
        _ => false,
    }
}

/// The number of elements of a list or dictionary; 0 for the unit, 1 for another atom.
pub open spec fn len_v(v: Val) -> int {
    match v {
        Val::Null => 0,
        Val::List(items) => items.len() as int,
        Val::IntList(items) => items.len() as int,
        Val::Dict(es) => es.len() as int,
        _ => 1,
    }
}

/// The name of the type of a model.
pub open spec fn type_label_v(v: Val) -> Seq<char> {
    match v {
        Val::Int(_) => "int"@,
        Val::BigInt(_) => "bigint"@,
        Val::Float(_) => "float"@,
        Val::Char(_) => "char"@,
        Val::Bool(_) => "bool"@,
        Val::Symbol(_) => "symbol"@,
        Val::List(_) => if is_str_v(v) { "string"@ } else { "list"@ },
        Val::IntList(_) => "list"@,
        Val::Dict(_) => "dict"@,
        Val::Null => "null"@,
    }
}

/// The characters of a list-of-characters model.
pub open spec fn chars_of_v(items: Seq<Val>) -> Seq<char> {
    Seq::new(items.len(), |i: int| items[i]->Char_0)
}

/// Character models of a sequence of characters.
pub open spec fn char_vals(cs: Seq<char>) -> Seq<Val> {
    Seq::new(cs.len(), |i: int| char_val(cs[i]))
}

/// The model of a character value.
pub open spec fn char_val(c: char) -> Val {
    Val::Char(c)
}

impl Value {
    /// The unit value.
    pub fn unit() -> (r: Value)
        ensures
            r@ == Val::Null,
    {
        Value::Null
    }

    /// A list of the given items: an integer list where all are integers (and there is one).
    pub fn from_items(items: Vec<Value>) -> (r: Value)
        ensures
            r@ == from_items_v(vals(items@)),
    {
        let n = items.len();
        if n == 0 {
            let r = Value::List(items);
            assert(r@->List_0 =~= vals(items@));
            return r;
        }
        let mut ints: Vec<i64> = Vec::new();
        let mut i: usize = 0;
        while i < n
            invariant
                n == items.len(),
                i <= n,
                ints@.len() == i,
                forall|k: int| 0 <= k < i ==> (#[trigger] items@[k]) is Int && items@[k]->Int_0 == ints@[k],
            decreases n - i,
        {
            match &items[i] {
                Value::Int(v) => {
                    ints.push(*v);
                },
                _ => {
                    let r = Value::List(items);
                    proof {
                        assert(!(vals(items@)[i as int] is Int));
                        assert(r@->List_0 =~= vals(items@));
                    }
                    return r;
                },
            }
            i += 1;
        }
        let r = Value::IntList(ints);
        proof {
            assert(all_ints(vals(items@)));
            assert(ints@ =~= ints_of(vals(items@)));
        }
        r
    }

    /// Whether the value is an atom.
    pub fn is_atom(&self) -> (r: bool)
        ensures
            r == is_atom_v(self@),
    {
        match self {
            Value::List(_) | Value::IntList(_) | Value::Dict(_) => false,
            _ => true,
        }
    }

    /// Whether the value is the unit, an empty list or an empty dictionary.
    pub fn is_empty(&self) -> (r: bool)
        ensures
            r == is_empty_v(self@),
    {
        match self {
            Value::Null => true,
            Value::List(items) => items.len() == 0,
            Value::IntList(items) => items.len() == 0,
            Value::Dict(es) => es.len() == 0,
            _ => false,
        }
    }

    /// Whether the value is a string (a list of characters).
    pub fn is_str(&self) -> (r: bool)
        ensures
            r == is_str_v(self@),
    {
        match self {
            Value::List(items) => {
                let mut i: usize = 0;
                while i < items.len()
                    invariant
                        *self == Value::List(*items),
                        i <= items.len(),
                        forall|k: int| 0 <= k < i ==> #[trigger] items@[k]@ is Char,
                    decreases items.len() - i,
                {
                    match &items[i] {
                        Value::Char(_) => {},
                        _ => {
                            assert(self@->List_0[i as int] == items@[i as int]@);
                            assert(!(self@->List_0[i as int] is Char));
                            return false;
                        },
                    }
                    i += 1;
                }
                assert(forall|k: int| 0 <= k < items.len() ==> self@->List_0[k] == items@[k]@);
                true
            },
            _ => false,
        }
    }

    /// The number of elements.
    pub fn len(&self) -> (r: usize)
        ensures
            r == len_v(self@),
    {
        match self {
            Value::Null => 0,
            Value::List(items) => items.len(),
            Value::IntList(items) => items.len(),
            Value::Dict(es) => es.len(),
            _ => 1,
        }
    }

    /// The name of the value's type.
    pub fn type_label(&self) -> (r: &'static str)
        ensures
            r@ == type_label_v(self@),
    {
        match self {
            Value::Int(_) => "int",
            Value::BigInt(_) => "bigint",
            Value::Float(_) => "float",
            Value::Char(_) => "char",
            Value::Bool(_) => "bool",
            Value::Symbol(_) => "symbol",
            Value::List(_) => if self.is_str() { "string" } else { "list" },
            Value::IntList(_) => "list",
            Value::Dict(_) => "dict",
            Value::Null => "null",
        }
    }
}

} // verus!

verus! {

impl Value {
    /// Structural equality of values (floats compare by their text).
    pub fn equals(&self, other: &Value) -> (r: bool)
        ensures
            r == (self@ == other@),
        decreases self,
    {
        match (self, other) {
            (Value::Int(a), Value::Int(b)) => *a == *b,
            (Value::BigInt(a), Value::BigInt(b)) => crate::bigint::bigint_eq(a, b),
            (Value::Float(a), Value::Float(b)) => {
                let r = *a == *b;
                r
            },
            (Value::Char(a), Value::Char(b)) => *a == *b,
            (Value::Bool(a), Value::Bool(b)) => *a == *b,
            (Value::Symbol(a), Value::Symbol(b)) => *a == *b,
            (Value::Null, Value::Null) => true,
            (Value::IntList(a), Value::IntList(b)) => {
                if a.len() != b.len() {
                    assert(self@->IntList_0.len() != other@->IntList_0.len());
                    return false;
                }
                let mut i: usize = 0;
                while i < a.len()
                    invariant
                        *self == Value::IntList(*a),
                        *other == Value::IntList(*b),
                        a.len() == b.len(),
                        i <= a.len(),
                        forall|k: int| 0 <= k < i ==> a@[k] == b@[k],
                    decreases a.len() - i,
                {
                    if a[i] != b[i] {
                        assert(self@->IntList_0 == a@);
                        assert(other@->IntList_0 == b@);
                        assert(a@[i as int] != b@[i as int]);
                        return false;
                    }
                    i += 1;
                }
                assert(a@ =~= b@);
                true
            },
            (Value::List(a), Value::List(b)) => {
                if a.len() != b.len() {
                    assert(self@->List_0.len() != other@->List_0.len());
                    return false;
                }
                let mut i: usize = 0;
                while i < a.len()
                    invariant
                        *self == Value::List(*a),
                        *other == Value::List(*b),
                        a.len() == b.len(),
                        i <= a.len(),
                        forall|k: int| 0 <= k < i ==> a@[k]@ == b@[k]@,
                    decreases a.len() - i,
                {
                    assert(decreases_to!(*self => a@[i as int])) by {
                        assert(decreases_to!(*self => (*self)->List_0));
                        assert(decreases_to!(*a => a@));
                        assert(decreases_to!(a@ => a@[i as int]));
                    }
                    if !a[i].equals(&b[i]) {
                        assert(self@->List_0[i as int] != other@->List_0[i as int]);
                        return false;
                    }
                    i += 1;
                }
                assert(self@->List_0 =~= other@->List_0);
                true
            },
            (Value::Dict(a), Value::Dict(b)) => {
                if a.len() != b.len() {
                    assert(self@->Dict_0.len() != other@->Dict_0.len());
                    return false;
                }
                let mut i: usize = 0;
                while i < a.len()
                    invariant
                        *self == Value::Dict(*a),
                        *other == Value::Dict(*b),
                        a.len() == b.len(),
                        i <= a.len(),
                        forall|k: int| 0 <= k < i ==> a@[k].0@ == b@[k].0@ && a@[k].1@ == b@[k].1@,
                    decreases a.len() - i,
                {
                    assert(decreases_to!(*self => a@[i as int].1)) by {
                        assert(decreases_to!(*self => (*self)->Dict_0));
                        assert(decreases_to!(*a => a@));
                        assert(decreases_to!(a@ => a@[i as int]));
                        assert(decreases_to!(a@[i as int] => a@[i as int].1));
                    }
                    let same_key = a[i].0 == b[i].0;
                    if !same_key || !a[i].1.equals(&b[i].1) {
                        assert(self@->Dict_0[i as int] != other@->Dict_0[i as int]);
                        return false;
                    }
                    i += 1;
                }
                assert(self@->Dict_0 =~= other@->Dict_0);
                true
            },
            _ => false,
        }
    }
}

} // verus!

verus! {

/// The nesting depth of a model: 0 for an atom, 1 for a flat list, one more than the
/// deepest element otherwise.
pub open spec fn depth_v(v: Val) -> int
    decreases v, 0int,
{
    match v {
        Val::List(items) => 1 + depth_max(items, 0),
        Val::IntList(_) => 1,
        Val::Dict(es) => 1 + depth_max_entries(es, 0),
        _ => 0,
    }
}

/// The largest depth of `items[k..]` (0 when there is none).
pub open spec fn depth_max(items: Seq<Val>, k: int) -> int
    decreases items, items.len() - k,
{
    if k < 0 || k >= items.len() {
        0
    } else {
        let d = depth_v(items[k]);
        let rest = depth_max(items, k + 1);
        if d > rest { d } else { rest }
    }
}

/// The largest depth of the values of `es[k..]`.
pub open spec fn depth_max_entries(es: Seq<(Seq<char>, Val)>, k: int) -> int
    decreases es, es.len() - k,
{
    if k < 0 || k >= es.len() {
        0
    } else {
        let d = depth_v(es[k].1);
        let rest = depth_max_entries(es, k + 1);
        if d > rest { d } else { rest }
    }
}

/// The shape of a model: the lengths along each axis while the elements agree in shape.
pub open spec fn shape_v(v: Val) -> Seq<i64>
    decreases v, 0int,
{
    match v {
        Val::IntList(ns) => seq![ns.len() as i64],
        Val::List(items) => seq![items.len() as i64] + if items.len() > 0 && same_shapes(items, 1) {
            shape_v(items[0])
        } else {
            Seq::empty()
        },
        Val::Dict(es) => seq![es.len() as i64],
        _ => Seq::empty(),
    }
}

/// Whether `items[k..]` all have the shape of `items[0]`.
pub open spec fn same_shapes(items: Seq<Val>, k: int) -> bool
    decreases items, items.len() - k,
{
    if k < 1 || k >= items.len() {
        true
    } else {
        shape_v(items[k]) == shape_v(items[0]) && same_shapes(items, k + 1)
    }
}

/// The atoms of a model, depth first.
pub open spec fn flatten_v(v: Val) -> Seq<Val>
    decreases v, 0int,
{
    match v {
        Val::List(items) => flat_items(items, 0),
        Val::IntList(ns) => Seq::new(ns.len(), |i: int| Val::Int(ns[i])),
        Val::Dict(es) => flat_entries(es, 0),
        _ => seq![v],
    }
}

pub open spec fn flat_items(items: Seq<Val>, k: int) -> Seq<Val>
    decreases items, items.len() - k,
{
    if k < 0 || k >= items.len() {
        Seq::empty()
    } else {
        flatten_v(items[k]) + flat_items(items, k + 1)
    }
}

pub open spec fn flat_entries(es: Seq<(Seq<char>, Val)>, k: int) -> Seq<Val>
    decreases es, es.len() - k,
{
    if k < 0 || k >= es.len() {
        Seq::empty()
    } else {
        flatten_v(es[k].1) + flat_entries(es, k + 1)
    }
}

impl Value {
    /// The nesting depth (saturated at `i64::MAX`).
    pub fn depth(&self) -> (r: i64)
        ensures
            depth_v(self@) < i64::MAX ==> r == depth_v(self@),
            depth_v(self@) >= i64::MAX ==> r == i64::MAX,
            r >= 0,
        decreases self,
    {
        match self {
            Value::List(items) => {
                let mut acc: i64 = 0;
                let mut i = items.len();
                while i > 0
                    invariant
                        *self == Value::List(*items),
                        i <= items.len(),
                        acc >= 0,
                        depth_max(self@->List_0, i as int) < i64::MAX ==> acc == depth_max(self@->List_0, i as int),
                        depth_max(self@->List_0, i as int) >= i64::MAX ==> acc == i64::MAX,
                    decreases i,
                {
                    i -= 1;
                    assert(decreases_to!(*self => items@[i as int])) by {
                        assert(decreases_to!(*self => (*self)->List_0));
                        assert(decreases_to!(*items => items@));
                        assert(decreases_to!(items@ => items@[i as int]));
                    }
                    assert(self@->List_0[i as int] == items@[i as int]@);
                    let d = items[i].depth();
                    proof {
                        lemma_depth_nonneg(items@[i as int]@);
                        lemma_depth_max_nonneg(self@->List_0, i + 1);
                    }
                    if d > acc {
                        acc = d;
                    }
                }
                if acc < i64::MAX { acc + 1 } else { i64::MAX }
            },
            Value::IntList(_) => 1,
            Value::Dict(es) => {
                let mut acc: i64 = 0;
                let mut i = es.len();
                while i > 0
                    invariant
                        *self == Value::Dict(*es),
                        i <= es.len(),
                        acc >= 0,
                        depth_max_entries(self@->Dict_0, i as int) < i64::MAX ==> acc == depth_max_entries(self@->Dict_0, i as int),
                        depth_max_entries(self@->Dict_0, i as int) >= i64::MAX ==> acc == i64::MAX,
                    decreases i,
                {
                    i -= 1;
                    assert(decreases_to!(*self => es@[i as int].1)) by {
                        assert(decreases_to!(*self => (*self)->Dict_0));
                        assert(decreases_to!(*es => es@));
                        assert(decreases_to!(es@ => es@[i as int]));
                        assert(decreases_to!(es@[i as int] => es@[i as int].1));
                    }
                    assert(self@->Dict_0[i as int].1 == es@[i as int].1@);
                    let d = es[i].1.depth();
                    proof {
                        lemma_depth_nonneg(es@[i as int].1@);
                        lemma_depth_max_entries_nonneg(self@->Dict_0, i + 1);
                    }
                    if d > acc {
                        acc = d;
                    }
                }
                if acc < i64::MAX { acc + 1 } else { i64::MAX }
            },
            _ => 0,
        }
    }
}

pub proof fn lemma_depth_nonneg(v: Val)
    ensures
        depth_v(v) >= 0,
    decreases v, 1int,
{
    match v {
        Val::List(items) => {
            lemma_depth_max_nonneg(items, 0);
        },
        Val::Dict(es) => {
            lemma_depth_max_entries_nonneg(es, 0);
        },
        _ => {},
    }
}

pub proof fn lemma_depth_max_nonneg(items: Seq<Val>, k: int)
    ensures
        depth_max(items, k) >= 0,
    decreases items, items.len() - k,
{
    if 0 <= k < items.len() {
        lemma_depth_max_nonneg(items, k + 1);
    }
}

pub proof fn lemma_depth_max_entries_nonneg(es: Seq<(Seq<char>, Val)>, k: int)
    ensures
        depth_max_entries(es, k) >= 0,
    decreases es, es.len() - k,
{
    if 0 <= k < es.len() {
        lemma_depth_max_entries_nonneg(es, k + 1);
    }
}

} // verus!

verus! {

/// Whether two integer vectors are equal.
pub fn i64s_equal(a: &Vec<i64>, b: &Vec<i64>) -> (r: bool)
    ensures
        r == (a@ == b@),
{
    if a.len() != b.len() {
        assert(a@.len() != b@.len());
        return false;
    }
    let mut i: usize = 0;
    while i < a.len()
        invariant
            a.len() == b.len(),
            i <= a.len(),
            forall|k: int| 0 <= k < i ==> a@[k] == b@[k],
        decreases a.len() - i,
    {
        if a[i] != b[i] {
            assert(a@[i as int] != b@[i as int]);
            return false;
        }
        i += 1;
    }
    assert(a@ =~= b@);
    true
}

pub proof fn lemma_vals_push(vs: Seq<Value>, v: Value)
    ensures
        vals(vs.push(v)) == vals(vs).push(v@),
{
    assert(vals(vs.push(v)) =~= vals(vs).push(v@));
}

/// The model of a list is the list of the models of its items.
pub proof fn lemma_list_view(items: Vec<Value>)
    ensures
        Value::List(items)@ == Val::List(vals(items@)),
{
    assert(Value::List(items)@->List_0 =~= vals(items@));
}

pub proof fn lemma_vals_add(a: Seq<Value>, b: Seq<Value>)
    ensures
        vals(a + b) == vals(a) + vals(b),
{
    assert(vals(a + b) =~= vals(a) + vals(b));
}

impl Value {
    /// The shape: lengths along each axis while elements agree in shape.
    pub fn shape(&self) -> (r: Vec<i64>)
        ensures
            r@ == shape_v(self@),
        decreases self,
    {
        match self {
            Value::IntList(ns) => {
                let mut r: Vec<i64> = Vec::new();
                r.push(#[verifier::truncate] (ns.len() as i64));
                assert(r@ =~= shape_v(self@));
                r
            },
            Value::List(items) => {
                let mut r: Vec<i64> = Vec::new();
                r.push(#[verifier::truncate] (items.len() as i64));
                let ghost m = self@->List_0;
                assert(r@ =~= seq![items.len() as i64]);
                if items.len() == 0 {
                    assert(r@ =~= shape_v(self@));
                    return r;
                }
                assert(decreases_to!(*self => items@[0])) by {
                    assert(decreases_to!(*self => (*self)->List_0));
                    assert(decreases_to!(*items => items@));
                    assert(decreases_to!(items@ => items@[0]));
                }
                assert(m[0] == items@[0]@);
                let s0 = items[0].shape();
                let mut k: usize = 1;
                while k < items.len()
                    invariant
                        *self == Value::List(*items),
                        m == self@->List_0,
                        m.len() == items.len(),
                        1 <= k <= items.len(),
                        s0@ == shape_v(m[0]),
                        r@ == seq![items.len() as i64],
                        same_shapes(m, 1) == same_shapes(m, k as int),
                    decreases items.len() - k,
                {
                    assert(decreases_to!(*self => items@[k as int])) by {
                        assert(decreases_to!(*self => (*self)->List_0));
                        assert(decreases_to!(*items => items@));
                        assert(decreases_to!(items@ => items@[k as int]));
                    }
                    assert(m[k as int] == items@[k as int]@);
                    let sk = items[k].shape();
                    if !i64s_equal(&sk, &s0) {
                        assert(!same_shapes(m, 1));
                        assert(r@ =~= shape_v(self@));
                        return r;
                    }
                    k += 1;
                }
                assert(same_shapes(m, k as int));
                let mut s0 = s0;
                r.append(&mut s0);
                assert(r@ =~= shape_v(self@));
                r
            },
            Value::Dict(es) => {
                let mut r: Vec<i64> = Vec::new();
                r.push(#[verifier::truncate] (es.len() as i64));
                assert(r@ =~= shape_v(self@));
                r
            },
            _ => {
                let r: Vec<i64> = Vec::new();
                assert(r@ =~= shape_v(self@));
                r
            },
        }
    }

    /// The atoms of the value, depth first.
    pub fn flatten(&self) -> (r: Vec<Value>)
        ensures
            vals(r@) == flatten_v(self@),
        decreases self,
    {
        match self {
            Value::List(items) => {
                let ghost m = self@->List_0;
                let mut out: Vec<Value> = Vec::new();
                let mut i: usize = 0;
                assert(vals(out@) =~= Seq::<Val>::empty());
                while i < items.len()
                    invariant
                        *self == Value::List(*items),
                        m == self@->List_0,
                        m.len() == items.len(),
                        i <= items.len(),
                        vals(out@) + flat_items(m, i as int) == flat_items(m, 0),
                    decreases items.len() - i,
                {
                    assert(decreases_to!(*self => items@[i as int])) by {
                        assert(decreases_to!(*self => (*self)->List_0));
                        assert(decreases_to!(*items => items@));
                        assert(decreases_to!(items@ => items@[i as int]));
                    }
                    assert(m[i as int] == items@[i as int]@);
                    let mut sub = items[i].flatten();
                    let ghost before = out@;
                    let ghost subv = sub@;
                    out.append(&mut sub);
                    proof {
                        lemma_vals_add(before, subv);
                        assert(vals(before) + flat_items(m, i as int) == vals(before) + (flatten_v(m[i as int]) + flat_items(m, i + 1)));
                        assert(vals(before) + (vals(subv) + flat_items(m, i + 1)) =~= (vals(before) + vals(subv)) + flat_items(m, i + 1));
                    }
                    i += 1;
                }
                assert(flat_items(m, i as int) =~= Seq::<Val>::empty());
                assert(vals(out@) + Seq::<Val>::empty() =~= vals(out@));
                out
            },
            Value::IntList(ns) => {
                let mut out: Vec<Value> = Vec::new();
                let mut i: usize = 0;
                while i < ns.len()
                    invariant
                        i <= ns.len(),
                        out@.len() == i,
                        forall|k: int| 0 <= k < i ==> (#[trigger] out@[k]) == Value::Int(ns@[k]),
                    decreases ns.len() - i,
                {
                    out.push(Value::Int(ns[i]));
                    i += 1;
                }
                assert(vals(out@) =~= flatten_v(self@));
                out
            },
            Value::Dict(es) => {
                let ghost m = self@->Dict_0;
                let mut out: Vec<Value> = Vec::new();
                let mut i: usize = 0;
                assert(vals(out@) =~= Seq::<Val>::empty());
                while i < es.len()
                    invariant
                        *self == Value::Dict(*es),
                        m == self@->Dict_0,
                        m.len() == es.len(),
                        i <= es.len(),
                        vals(out@) + flat_entries(m, i as int) == flat_entries(m, 0),
                    decreases es.len() - i,
                {
                    assert(decreases_to!(*self => es@[i as int].1)) by {
                        assert(decreases_to!(*self => (*self)->Dict_0));
                        assert(decreases_to!(*es => es@));
                        assert(decreases_to!(es@ => es@[i as int]));
                        assert(decreases_to!(es@[i as int] => es@[i as int].1));
                    }
                    assert(m[i as int].1 == es@[i as int].1@);
                    let mut sub = es[i].1.flatten();
                    let ghost before = out@;
                    let ghost subv = sub@;
                    out.append(&mut sub);
                    proof {
                        lemma_vals_add(before, subv);
                        assert(vals(before) + (vals(subv) + flat_entries(m, i + 1)) =~= (vals(before) + vals(subv)) + flat_entries(m, i + 1));
                    }
                    i += 1;
                }
                assert(flat_entries(m, i as int) =~= Seq::<Val>::empty());
                assert(vals(out@) + Seq::<Val>::empty() =~= vals(out@));
                out
            },
            _ => {
                let mut out: Vec<Value> = Vec::new();
                out.push(self.clone());
                assert(vals(out@) =~= flatten_v(self@));
                out
            },
        }
    }
}

} // verus!

verus! {

/// The text of a model: integers in decimal, a string as its characters, a symbol with a
/// backtick, lists and dictionaries in parentheses with `;` between elements.
pub open spec fn display_v(v: Val) -> Seq<char>
    decreases v, 0int,
{
    match v {
        Val::Int(n) => crate::text::int_text(n as int),
        Val::BigInt(n) => crate::text::int_text(n),
        Val::Float(t) => t,
        Val::Char(c) => seq![c],
        Val::Bool(b) => if b { "true"@ } else { "false"@ },
        Val::Symbol(s) => seq!['`'] + s,
        Val::List(items) => if is_str_v(v) {
            chars_of_v(items)
        } else {
            seq!['('] + display_items(items, 0) + seq![')']
        },
        Val::IntList(ns) => seq!['('] + display_ints(ns, 0) + seq![')'],
        Val::Dict(es) => seq!['('] + display_entries(es, 0) + seq![')'],
        Val::Null => "()"@,
    }
}

/// The texts of `items[k..]` with `;` between them.
pub open spec fn display_items(items: Seq<Val>, k: int) -> Seq<char>
    decreases items, items.len() - k,
{
    if k < 0 || k >= items.len() {
        Seq::empty()
    } else {
        (if k > 0 { seq![';'] } else { Seq::empty() }) + display_v(items[k]) + display_items(items, k + 1)
    }
}

pub open spec fn display_ints(ns: Seq<i64>, k: int) -> Seq<char>
    decreases ns.len() - k,
{
    if k < 0 || k >= ns.len() {
        Seq::empty()
    } else {
        (if k > 0 { seq![';'] } else { Seq::empty() }) + crate::text::int_text(ns[k] as int) + display_ints(ns, k + 1)
    }
}

pub open spec fn display_entries(es: Seq<(Seq<char>, Val)>, k: int) -> Seq<char>
    decreases es, es.len() - k,
{
    if k < 0 || k >= es.len() {
        Seq::empty()
    } else {
        (if k > 0 { seq![';'] } else { Seq::empty() }) + seq!['`'] + es[k].0 + seq![':'] + display_v(es[k].1)
            + display_entries(es, k + 1)
    }
}

impl Value {
    /// The text of the value (see `display_v`), as characters.
    pub fn display_chars(&self) -> (r: Vec<char>)
        ensures
            r@ == display_v(self@),
        decreases self,
    {
        match self {
            Value::Int(n) => crate::text::i64_to_decimal(*n),
            Value::BigInt(b) => chars_of(crate::bigint::bigint_to_string(b).as_str()),
            Value::Float(t) => chars_of(t.as_str()),
            Value::Char(c) => {
                let mut r: Vec<char> = Vec::new();
                r.push(*c);
                assert(r@ =~= seq![*c]);
                r
            },
            Value::Bool(b) => if *b { chars_of("true") } else { chars_of("false") },
            Value::Symbol(s) => {
                let mut r: Vec<char> = Vec::new();
                r.push('`');
                crate::text::append_str(&mut r, s.as_str());
                r
            },
            Value::List(items) => {
                let ghost m = self@->List_0;
                if self.is_str() {
                    let mut r: Vec<char> = Vec::new();
                    let mut i: usize = 0;
                    while i < items.len()
                        invariant
                            *self == Value::List(*items),
                            m == self@->List_0,
                            is_str_v(self@),
                            i <= items.len(),
                            r@ == chars_of_v(m).take(i as int),
                        decreases items.len() - i,
                    {
                        assert(m[i as int] == items@[i as int]@);
                        assert(m[i as int] is Char);
                        match &items[i] {
                            Value::Char(c) => {
                                r.push(*c);
                            },
                            _ => {},
                        }
                        assert(r@ =~= chars_of_v(m).take(i + 1));
                        i += 1;
                    }
                    assert(chars_of_v(m).take(i as int) =~= chars_of_v(m));
                    return r;
                }
                let mut r: Vec<char> = Vec::new();
                r.push('(');
                let mut i: usize = 0;
                assert(r@ + display_items(m, 0) =~= seq!['('] + display_items(m, 0));
                while i < items.len()
                    invariant
                        *self == Value::List(*items),
                        m == self@->List_0,
                        m.len() == items.len(),
                        i <= items.len(),
                        r@ + display_items(m, i as int) == seq!['('] + display_items(m, 0),
                    decreases items.len() - i,
                {
                    assert(decreases_to!(*self => items@[i as int])) by {
                        assert(decreases_to!(*self => (*self)->List_0));
                        assert(decreases_to!(*items => items@));
                        assert(decreases_to!(items@ => items@[i as int]));
                    }
                    assert(m[i as int] == items@[i as int]@);
                    let ghost before = r@;
                    if i > 0 {
                        r.push(';');
                    }
                    let sub = items[i].display_chars();
                    crate::text::append_chars(&mut r, &sub);
                    proof {
                        let sep: Seq<char> = if i > 0 { seq![';'] } else { Seq::empty() };
                        assert(r@ == before + sep + sub@);
                        assert(before + display_items(m, i as int) =~= r@ + display_items(m, i + 1));
                    }
                    i += 1;
                }
                r.push(')');
                assert(display_items(m, i as int) =~= Seq::<char>::empty());
                assert(r@ =~= seq!['('] + display_items(m, 0) + seq![')']);
                r
            },
            Value::IntList(ns) => {
                let mut r: Vec<char> = Vec::new();
                r.push('(');
                let mut i: usize = 0;
                assert(r@ + display_ints(ns@, 0) =~= seq!['('] + display_ints(ns@, 0));
                while i < ns.len()
                    invariant
                        i <= ns.len(),
                        r@ + display_ints(ns@, i as int) == seq!['('] + display_ints(ns@, 0),
                    decreases ns.len() - i,
                {
                    let ghost before = r@;
                    if i > 0 {
                        r.push(';');
                    }
                    let sub = crate::text::i64_to_decimal(ns[i]);
                    crate::text::append_chars(&mut r, &sub);
                    proof {
                        let sep: Seq<char> = if i > 0 { seq![';'] } else { Seq::empty() };
                        assert(r@ == before + sep + sub@);
                        assert(before + display_ints(ns@, i as int) =~= r@ + display_ints(ns@, i + 1));
                    }
                    i += 1;
                }
                r.push(')');
                assert(display_ints(ns@, i as int) =~= Seq::<char>::empty());
                assert(r@ =~= seq!['('] + display_ints(ns@, 0) + seq![')']);
                r
            },
            Value::Dict(es) => {
                let ghost m = self@->Dict_0;
                let mut r: Vec<char> = Vec::new();
                r.push('(');
                let mut i: usize = 0;
                assert(r@ + display_entries(m, 0) =~= seq!['('] + display_entries(m, 0));
                while i < es.len()
                    invariant
                        *self == Value::Dict(*es),
                        m == self@->Dict_0,
                        m.len() == es.len(),
                        i <= es.len(),
                        r@ + display_entries(m, i as int) == seq!['('] + display_entries(m, 0),
                    decreases es.len() - i,
                {
                    assert(decreases_to!(*self => es@[i as int].1)) by {
                        assert(decreases_to!(*self => (*self)->Dict_0));
                        assert(decreases_to!(*es => es@));
                        assert(decreases_to!(es@ => es@[i as int]));
                        assert(decreases_to!(es@[i as int] => es@[i as int].1));
                    }
                    assert(m[i as int].1 == es@[i as int].1@);
                    assert(m[i as int].0 == es@[i as int].0@);
                    let ghost before = r@;
                    if i > 0 {
                        r.push(';');
                    }
                    r.push('`');
                    crate::text::append_str(&mut r, es[i].0.as_str());
                    r.push(':');
                    let sub = es[i].1.display_chars();
                    crate::text::append_chars(&mut r, &sub);
                    proof {
                        let sep: Seq<char> = if i > 0 { seq![';'] } else { Seq::empty() };
                        assert(r@ == before + sep + seq!['`'] + m[i as int].0 + seq![':'] + sub@);
                        assert(before + display_entries(m, i as int) =~= r@ + display_entries(m, i + 1));
                    }
                    i += 1;
                }
                r.push(')');
                assert(display_entries(m, i as int) =~= Seq::<char>::empty());
                assert(r@ =~= seq!['('] + display_entries(m, 0) + seq![')']);
                r
            },
            Value::Null => chars_of("()"),
        }
    }
}

} // verus!

verus! {

/// The text of a string-like value: a list of characters, or one character.
pub open spec fn text_of_v(v: Val) -> Option<Seq<char>> {
    match v {
        Val::List(items) => if is_str_v(v) {
            Some(chars_of_v(items))
        } else {
            None
        },
        Val::Char(c) => Some(seq![c]),
        _ => None,
    }
}

impl Value {
    /// The text of a string-like value; a type error for any other value.
    pub fn try_to_string(&self) -> (r: crate::error::WqResult<String>)
        ensures
            match text_of_v(self@) {
                Some(t) => r matches Ok(s) && s@ == t,
                None => r matches Err(e) && e.kind == crate::error::WqErrorType::Type,
            },
    {
        match self {
            Value::Char(c) => {
                let mut v: Vec<char> = Vec::new();
                v.push(*c);
                assert(v@ =~= seq![*c]);
                Ok(crate::text::string_from_chars(v.as_slice()))
            },
            Value::List(_) => {
                if self.is_str() {
                    let v = self.display_chars();
                    Ok(crate::text::string_from_chars(v.as_slice()))
                } else {
                    Err(crate::error::WqError::new(crate::error::WqErrorType::Type).msg("expected string"))
                }
            },
            _ => Err(crate::error::WqError::new(crate::error::WqErrorType::Type).msg("expected string")),
        }
    }
}

} // verus!

verus! {

/// The string value of a sequence of characters: a list of characters.
pub fn str_value(v: &Vec<char>) -> (r: Value)
    ensures
        r@ == Val::List(char_vals(v@)),
{
    let mut out: Vec<Value> = Vec::new();
    let mut i: usize = 0;
    assert(vals(out@) =~= char_vals(v@.take(0)));
    while i < v.len()
        invariant
            i <= v.len(),
            vals(out@) == char_vals(v@.take(i as int)),
        decreases v.len() - i,
    {
        let c = crate::text::char_at_index(v, i);
        let ghost before = out@;
        let x = Value::Char(c);
        assert(x@ == char_val(c));
        out.push(x);
        proof {
            lemma_vals_push(before, x);
            assert(v@.take(i + 1)[i as int] == c);
            assert(char_vals(v@.take(i + 1)) =~= char_vals(v@.take(i as int)).push(char_val(c)));
            assert(vals(out@) =~= char_vals(v@.take(i + 1)));
        }
        i += 1;
    }
    assert(v@.take(v@.len() as int) =~= v@);
    proof {
        lemma_list_view(out);
    }
    Value::List(out)
}

/// A string value made from a string slice.
pub fn str_value_of(s: &str) -> (r: Value)
    ensures
        r@ == Val::List(char_vals(s@)),
{
    let v = chars_of(s);
    str_value(&v)
}

} // verus!
