//! The order of texts that `String`'s `Ord` gives (code point by code point, a prefix
//! first), and sorting by it.

use vstd::prelude::*;
use vstd::relations::{sorted_by, total_ordering};

verus! {

/// Whether `a` comes before `b`, or equals it, in the order of code points.
pub open spec fn text_le(a: Seq<char>, b: Seq<char>) -> bool
    decreases a.len(),
{
    if a.len() == 0 {
        true
    } else if b.len() == 0 {
        false
    } else if a[0] != b[0] {
        a[0] < b[0]
    } else {
        text_le(a.drop_first(), b.drop_first())
    }
}

/// The order as a relation.
pub open spec fn text_order() -> spec_fn(Seq<char>, Seq<char>) -> bool {
    |a: Seq<char>, b: Seq<char>| text_le(a, b)
}

proof fn lemma_le_reflexive(a: Seq<char>)
    ensures
        text_le(a, a),
    decreases a.len(),
{
    if a.len() > 0 {
        lemma_le_reflexive(a.drop_first());
    }
}

proof fn lemma_le_antisymmetric(a: Seq<char>, b: Seq<char>)
    requires
        text_le(a, b),
        text_le(b, a),
    ensures
        a == b,
    decreases a.len(),
{
    if a.len() > 0 && b.len() > 0 {
        lemma_le_antisymmetric(a.drop_first(), b.drop_first());
        assert(a =~= seq![a[0]] + a.drop_first());
        assert(b =~= seq![b[0]] + b.drop_first());
    } else {
        assert(a.len() == 0 && b.len() == 0);
        assert(a =~= b);
    }
}

proof fn lemma_le_transitive(a: Seq<char>, b: Seq<char>, c: Seq<char>)
    requires
        text_le(a, b),
        text_le(b, c),
    ensures
        text_le(a, c),
    decreases a.len(),
{
    if a.len() > 0 && b.len() > 0 && c.len() > 0 && a[0] == b[0] && b[0] == c[0] {
        lemma_le_transitive(a.drop_first(), b.drop_first(), c.drop_first());
    }
}

proof fn lemma_le_total(a: Seq<char>, b: Seq<char>)
    ensures
        text_le(a, b) || text_le(b, a),
    decreases a.len(),
{
    if a.len() > 0 && b.len() > 0 && a[0] == b[0] {
        lemma_le_total(a.drop_first(), b.drop_first());
    }
}

/// The order of texts is a total order.
pub proof fn law_text_order_total()
    ensures
        total_ordering(text_order()),
{
    let r = text_order();
    assert forall|x: Seq<char>| #[trigger] r(x, x) by {
        lemma_le_reflexive(x);
    }
    assert forall|x: Seq<char>, y: Seq<char>| #[trigger] r(x, y) && #[trigger] r(y, x) implies x == y by {
        lemma_le_antisymmetric(x, y);
    }
    assert forall|x: Seq<char>, y: Seq<char>, z: Seq<char>| #[trigger] r(x, y) && #[trigger] r(y, z) implies r(x, z) by {
        lemma_le_transitive(x, y, z);
    }
    assert forall|x: Seq<char>, y: Seq<char>| #[trigger] r(x, y) || #[trigger] r(y, x) by {
        lemma_le_total(x, y);
    }
}

/// Whether `a` comes before `b`, or equals it.
pub fn text_le_exec(a: &Vec<char>, b: &Vec<char>) -> (r: bool)
    ensures
        r == text_le(a@, b@),
{
    let mut i: usize = 0;
    assert(a@.skip(0) =~= a@ && b@.skip(0) =~= b@);
    while i < a.len() && i < b.len() && a[i] == b[i]
        invariant
            i <= a@.len(),
            i <= b@.len(),
            text_le(a@, b@) == text_le(a@.skip(i as int), b@.skip(i as int)),
        decreases a.len() - i,
    {
        assert(a@.skip(i as int).drop_first() =~= a@.skip(i + 1));
        assert(b@.skip(i as int).drop_first() =~= b@.skip(i + 1));
        i += 1;
    }
    if i == a.len() {
        true
    } else if i == b.len() {
        false
    } else {
        a[i] < b[i]
    }
}

/// The character sequences of some texts.
pub open spec fn texts_of(vs: Seq<Vec<char>>) -> Seq<Seq<char>> {
    vs.map_values(|v: Vec<char>| v@)
}

/// Sorts texts into the order of code points.
pub fn sort_texts(v: Vec<Vec<char>>) -> (r: Vec<Vec<char>>)
    ensures
        texts_of(r@) == texts_of(v@).sort_by(text_order()),
{
    let ghost input = texts_of(v@);
    let mut out: Vec<Vec<char>> = Vec::new();
    let mut k: usize = 0;
    let n = v.len();
    let mut rest = v;
    proof {
        law_text_order_total();
    }
    assert(texts_of(out@).to_multiset() =~= input.take(0).to_multiset()) by {
        assert(input.take(0) =~= Seq::<Seq<char>>::empty());
        assert(texts_of(out@) =~= Seq::<Seq<char>>::empty());
    }
    while k < n
        invariant
            n == rest@.len(),
            input == texts_of(rest@),
            k <= n,
            total_ordering(text_order()),
            sorted_by(texts_of(out@), text_order()),
            texts_of(out@).to_multiset() == input.take(k as int).to_multiset(),
        decreases n - k,
    {
        let x = rest[k].clone();
        assert(x@ == input[k as int]);
        let mut p: usize = 0;
        while p < out.len() && text_le_exec(&out[p], &x)
            invariant
                p <= out@.len(),
                forall|q: int| 0 <= q < p ==> text_le(#[trigger] texts_of(out@)[q], x@),
            decreases out.len() - p,
        {
            p += 1;
        }
        let ghost before = texts_of(out@);
        proof {
            if p < out@.len() {
                lemma_le_total(before[p as int], x@);
                assert(text_le(x@, before[p as int]));
            }
            assert forall|q: int| p <= q < before.len() implies text_le(x@, #[trigger] before[q]) by {
                if q > p {
                    assert(text_order()(before[p as int], before[q]));
                    lemma_le_transitive(x@, before[p as int], before[q]);
                }
            }
        }
        out.insert(p, x);
        proof {
            let after = texts_of(out@);
            assert(after =~= before.insert(p as int, x@));
            assert(sorted_by(after, text_order())) by {
                assert forall|i: int, j: int| 0 <= i < j < after.len() implies #[trigger] text_order()(after[i], after[j]) by {
                    if i < p && j > p {
                        lemma_le_transitive(after[i], x@, after[j]);
                    }
                }
            }
            vstd::seq_lib::to_multiset_insert(before, p as int, x@);
            assert(input.take(k + 1) =~= input.take(k as int).push(x@));
            vstd::seq_lib::to_multiset_build(input.take(k as int), x@);
        }
        k += 1;
    }
    proof {
        assert(input.take(n as int) =~= input);
        input.lemma_sort_by_ensures(text_order());
        vstd::seq_lib::lemma_sorted_unique(texts_of(out@), input.sort_by(text_order()), text_order());
    }
    out
}

} // verus!
