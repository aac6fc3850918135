//! The variables of a session: names bound to values.

use vstd::prelude::*;
use crate::value::{Value, Val};

verus! {

/// The bindings of a session, in the order of their first binding, each name once, kept in a
/// vector of pairs that is searched from the front: the model of the bindings is a map.
pub struct Environment {
    variables: Vec<(String, Value)>,
}

/// The index of a name among the bindings `es[k..]`.
pub open spec fn binding_index(es: Seq<(String, Value)>, name: Seq<char>, k: int) -> Option<int>
    decreases es.len() - k,
{
    if k < 0 || k >= es.len() {
        None
    } else if es[k].0@ == name {
        Some(k)
    } else {
        binding_index(es, name, k + 1)
    }
}

impl View for Environment {
    type V = Map<Seq<char>, Val>;

    /// The bindings, as a map from names to values.
    closed spec fn view(&self) -> Map<Seq<char>, Val> {
        Map::new(
            |n: Seq<char>| binding_index(self.variables@, n, 0) is Some,
            |n: Seq<char>| self.variables@[binding_index(self.variables@, n, 0)->0].1@,
        )
    }
}

impl Environment {
    /// Whether each name is bound once.
    pub closed spec fn wf(&self) -> bool {
        forall|i: int, j: int|
            0 <= i < j < self.variables@.len() ==> (#[trigger] self.variables@[i]).0@ != (#[trigger] self.variables@[j]).0@
    }

    /// No bindings.
    pub fn new() -> (r: Environment)
        ensures
            r.wf(),
            r@ == Map::<Seq<char>, Val>::empty(),
    {
        let r = Environment { variables: Vec::new() };
        assert(r@ =~= Map::<Seq<char>, Val>::empty());
        r
    }

    fn find(&self, name: &str) -> (r: Option<usize>)
        ensures
            r matches Some(j) ==> binding_index(self.variables@, name@, 0) == Some(j as int),
            r is None <==> binding_index(self.variables@, name@, 0) is None,
            r matches Some(k) ==> k < self.variables@.len() && self.variables@[k as int].0@ == name@,
    {
        let mut i: usize = 0;
        while i < self.variables.len()
            invariant
                i <= self.variables@.len(),
                binding_index(self.variables@, name@, 0) == binding_index(self.variables@, name@, i as int),
            decreases self.variables.len() - i,
        {
            if crate::text::str_eq(self.variables[i].0.as_str(), name) {
                return Some(i);
            }
            i += 1;
        }
        None
    }

    /// The value bound to a name.
    pub fn get(&self, name: &str) -> (r: Option<&Value>)
        ensures
            match r {
                Some(v) => self@.contains_key(name@) && v@ == self@[name@],
                None => !self@.contains_key(name@),
            },
    {
        match self.find(name) {
            Some(k) => Some(&self.variables[k].1),
            None => None,
        }
    }

    /// Binds a name to a value, replacing any value it had.
    pub fn set(&mut self, name: String, value: Value)
        requires
            old(self).wf(),
        ensures
            final(self).wf(),
            final(self)@ == old(self)@.insert(name@, value@),
    {
        let ghost old_vars = self.variables@;
        match self.find(name.as_str()) {
            Some(k) => {
                let ghost v = value@;
                let ghost nm = name@;
                self.variables.set(k, (name, value));
                proof {
                    let nv = self.variables@;
                    lemma_index_after_set(old_vars, nv, k as int);
                    assert forall|n: Seq<char>| #[trigger] binding_index(nv, n, 0) is Some implies nv[binding_index(nv, n, 0)->0].1@
                        == (if n == nm { v } else { old_vars[binding_index(old_vars, n, 0)->0].1@ }) by {
                        lemma_index_bound(old_vars, n, 0);
                    }
                    assert(self@ =~= old(self)@.insert(nm, v));
                    assert forall|i: int, j: int| 0 <= i < j < nv.len() implies (#[trigger] nv[i]).0@ != (#[trigger] nv[j]).0@ by {
                        assert(old_vars[i].0@ != old_vars[j].0@);
                    }
                }
            },
            None => {
                let ghost nm = name@;
                let ghost v = value@;
                self.variables.push((name, value));
                proof {
                    let nv = self.variables@;
                    lemma_index_after_push(old_vars, nv);
                    assert forall|n: Seq<char>| #[trigger] binding_index(nv, n, 0) is Some implies nv[binding_index(nv, n, 0)->0].1@
                        == (if n == nm { v } else { old_vars[binding_index(old_vars, n, 0)->0].1@ }) by {
                        if n != nm {
                            lemma_index_bound(old_vars, n, 0);
                        }
                    }
                    assert(self@ =~= old(self)@.insert(nm, v));
                    assert forall|i: int, j: int| 0 <= i < j < nv.len() implies (#[trigger] nv[i]).0@ != (#[trigger] nv[j]).0@ by {
                        if j == old_vars.len() && nv[i].0@ == nm {
                            lemma_index_found(old_vars, nm, 0, i);
                        }
                    }
                }
            },
        }
    }

    /// Whether a name is bound.
    pub fn contains(&self, name: &str) -> (r: bool)
        ensures
            r == self@.contains_key(name@),
    {
        self.find(name).is_some()
    }

    /// Removes every binding.
    pub fn clear(&mut self)
        ensures
            final(self).wf(),
            final(self)@ == Map::<Seq<char>, Val>::empty(),
    {
        self.variables = Vec::new();
        assert(self@ =~= Map::<Seq<char>, Val>::empty());
    }

    /// The bindings, in the order of their first binding.
    pub fn variables(&self) -> (r: &Vec<(String, Value)>)
        requires
            self.wf(),
        ensures
            forall|i: int| 0 <= i < r@.len() ==> self@.contains_key((#[trigger] r@[i]).0@) && self@[r@[i].0@]
                == r@[i].1@,
            forall|i: int, j: int| 0 <= i < j < r@.len() ==> (#[trigger] r@[i]).0@ != (#[trigger] r@[j]).0@,
            forall|n: Seq<char>| #[trigger] self@.contains_key(n) ==> exists|i: int| 0 <= i < r@.len() && r@[i].0@ == n,
    {
        assert forall|i: int| 0 <= i < self.variables@.len() implies self@.contains_key(
            (#[trigger] self.variables@[i]).0@,
        ) && self@[self.variables@[i].0@] == self.variables@[i].1@ by {
            lemma_index_found(self.variables@, self.variables@[i].0@, 0, i);
            lemma_index_bound(self.variables@, self.variables@[i].0@, 0);
            let j = binding_index(self.variables@, self.variables@[i].0@, 0)->0;
            if j != i {
                if j < i {
                    assert(self.variables@[j].0@ != self.variables@[i].0@);
                } else {
                    assert(self.variables@[i].0@ != self.variables@[j].0@);
                }
            }
        }
        assert forall|n: Seq<char>| #[trigger] self@.contains_key(n) implies exists|i: int|
            0 <= i < self.variables@.len() && self.variables@[i].0@ == n by {
            lemma_index_bound(self.variables@, n, 0);
            let i = binding_index(self.variables@, n, 0)->0;
            assert(self.variables@[i].0@ == n);
        }
        &self.variables
    }
}

/// An index found is in range and names the binding.
proof fn lemma_index_bound(es: Seq<(String, Value)>, name: Seq<char>, k: int)
    requires
        binding_index(es, name, k) is Some,
    ensures
        binding_index(es, name, k) matches Some(i) && 0 <= i < es.len() && es[i].0@ == name,
    decreases es.len() - k,
{
    if 0 <= k < es.len() && es[k].0@ != name {
        lemma_index_bound(es, name, k + 1);
    }
}

/// A name bound at `i` has an index at or before `i`.
proof fn lemma_index_found(es: Seq<(String, Value)>, name: Seq<char>, k: int, i: int)
    requires
        0 <= k <= i < es.len(),
        es[i].0@ == name,
    ensures
        binding_index(es, name, k) is Some,
    decreases i - k,
{
    if es[k].0@ != name {
        lemma_index_found(es, name, k + 1, i);
    }
}

/// Replacing the value at the index of a name keeps every index.
proof fn lemma_index_after_set(a: Seq<(String, Value)>, b: Seq<(String, Value)>, k: int)
    requires
        a.len() == b.len(),
        0 <= k < a.len(),
        b[k].0@ == a[k].0@,
        forall|i: int| 0 <= i < a.len() && i != k ==> b[i] == a[i],
    ensures
        forall|n: Seq<char>| #[trigger] binding_index(b, n, 0) == binding_index(a, n, 0),
{
    assert forall|n: Seq<char>| #[trigger] binding_index(b, n, 0) == binding_index(a, n, 0) by {
        lemma_index_same(a, b, n, 0);
    }
}

proof fn lemma_index_same(a: Seq<(String, Value)>, b: Seq<(String, Value)>, n: Seq<char>, k: int)
    requires
        a.len() == b.len(),
        0 <= k <= a.len(),
        forall|i: int| 0 <= i < a.len() ==> #[trigger] b[i].0@ == a[i].0@,
    ensures
        binding_index(b, n, k) == binding_index(a, n, k),
    decreases a.len() - k,
{
    if k < a.len() {
        lemma_index_same(a, b, n, k + 1);
    }
}

/// Appending a name that is not bound gives it the last index and keeps every other.
proof fn lemma_index_after_push(a: Seq<(String, Value)>, b: Seq<(String, Value)>)
    requires
        b.len() == a.len() + 1,
        forall|i: int| 0 <= i < a.len() ==> b[i] == a[i],
        binding_index(a, b.last().0@, 0) is None,
    ensures
        forall|n: Seq<char>| #[trigger] binding_index(b, n, 0) == if n == b.last().0@ {
            Some(a.len() as int)
        } else {
            binding_index(a, n, 0)
        },
{
    assert forall|n: Seq<char>| #[trigger] binding_index(b, n, 0) == if n == b.last().0@ {
        Some(a.len() as int)
    } else {
        binding_index(a, n, 0)
    } by {
        lemma_index_push(a, b, n, 0);
    }
}

proof fn lemma_index_push(a: Seq<(String, Value)>, b: Seq<(String, Value)>, n: Seq<char>, k: int)
    requires
        b.len() == a.len() + 1,
        forall|i: int| 0 <= i < a.len() ==> b[i] == a[i],
        binding_index(a, b.last().0@, 0) is None,
        0 <= k <= a.len(),
        n == b.last().0@ ==> binding_index(a, n, k) is None,
    ensures
        binding_index(b, n, k) == if n == b.last().0@ {
            Some(a.len() as int)
        } else {
            binding_index(a, n, k)
        },
    decreases a.len() - k,
{
    if k < a.len() {
        assert(b[k] == a[k]);
        lemma_index_push(a, b, n, k + 1);
    } else {
        assert(b[k] == b.last());
        assert(binding_index(b, n, k + 1) is None);
        assert(binding_index(a, n, k) is None);
    }
}

/// A value bound to a name is what reading that name gives, and binding a name leaves every
/// other name as it was.
pub proof fn law_get_after_set(m: Map<Seq<char>, Val>, name: Seq<char>, v: Val, other: Seq<char>)
    requires
        other != name,
    ensures
        m.insert(name, v).contains_key(name),
        m.insert(name, v)[name] == v,
        m.insert(name, v).contains_key(other) == m.contains_key(other),
        m.contains_key(other) ==> m.insert(name, v)[other] == m[other],
{
}

} // verus!
