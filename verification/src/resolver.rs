//! The pass after parsing: a postfix expression written as a call becomes a call.

use vstd::prelude::*;
use crate::parser::AstNode;

verus! {

/// Whether `b` is `a` resolved: each postfix expression marked as a call becomes a call of
/// the named function (where its object is a name) or of its object's value, and everything
/// else is kept, its parts resolved.
pub open spec fn resolves_to(a: AstNode, b: AstNode) -> bool
    decreases a, 0int,
{
    match a {
        AstNode::Literal(v) => b matches AstNode::Literal(w) && w@ == v@,
        AstNode::Variable(n) => b == AstNode::Variable(n),
        AstNode::BinaryOp { left, operator, right } => b matches AstNode::BinaryOp {
            left: l2,
            operator: o2,
            right: r2,
        } && o2 == operator && resolves_to(*left, *l2) && resolves_to(*right, *r2),
        AstNode::UnaryOp { operator, operand } => b matches AstNode::UnaryOp { operator: o2, operand: x2 }
            && o2 == operator && resolves_to(*operand, *x2),
        AstNode::Assignment { name, value } => b matches AstNode::Assignment { name: n2, value: v2 } && n2
            == name && resolves_to(*value, *v2),
        AstNode::List(items) => b matches AstNode::List(i2) && (items@.len() == i2@.len() && all_resolve(items@, i2@, items@.len() as int)),
        AstNode::Dict(kvs) => b matches AstNode::Dict(k2) && kvs@.len() == k2@.len() && dict_resolves(
            kvs@,
            k2@,
            kvs@.len() as int,
        ),
        AstNode::Postfix { object, items, explicit_call } => if explicit_call {
            match *object {
                AstNode::Variable(name) => b matches AstNode::Call { name: n2, args } && n2 == name
                    && (items@.len() == args@.len() && all_resolve(items@, args@, items@.len() as int)),
                _ => b matches AstNode::CallAnonymous { object: o2, args } && resolves_to(*object, *o2)
                    && (items@.len() == args@.len() && all_resolve(items@, args@, items@.len() as int)),
            }
        } else {
            b matches AstNode::Postfix { object: o2, items: i2, explicit_call: e2 } && !e2 && resolves_to(
                *object,
                *o2,
            ) && (items@.len() == i2@.len() && all_resolve(items@, i2@, items@.len() as int))
        },
        AstNode::Call { name, args } => b matches AstNode::Call { name: n2, args: a2 } && n2 == name
            && (args@.len() == a2@.len() && all_resolve(args@, a2@, args@.len() as int)),
        AstNode::CallAnonymous { object, args } => b matches AstNode::CallAnonymous { object: o2, args: a2 }
            && resolves_to(*object, *o2) && (args@.len() == a2@.len() && all_resolve(args@, a2@, args@.len() as int)),
        AstNode::Index { object, index } => b matches AstNode::Index { object: o2, index: x2 } && resolves_to(
            *object,
            *o2,
        ) && resolves_to(*index, *x2),
        AstNode::IndexAssign { object, index, value } => b matches AstNode::IndexAssign {
            object: o2,
            index: x2,
            value: v2,
        } && resolves_to(*object, *o2) && resolves_to(*index, *x2) && resolves_to(*value, *v2),
        AstNode::Function { params, body } => b matches AstNode::Function { params: p2, body: b2 } && (match (
            params,
            p2,
        ) {
            (Some(x), Some(y)) => x@ == y@,
            (None, None) => true,
            _ => false,
        }) && resolves_to(*body, *b2),
        AstNode::Conditional { condition, true_branch, false_branch } => b matches AstNode::Conditional {
            condition: c2,
            true_branch: t2,
            false_branch: f2,
        } && resolves_to(*condition, *c2) && resolves_to(*true_branch, *t2) && match false_branch {
            Some(f) => f2 matches Some(g) && resolves_to(*f, *g),
            None => f2 is None,
        },
        AstNode::WhileLoop { condition, body } => b matches AstNode::WhileLoop { condition: c2, body: b2 }
            && resolves_to(*condition, *c2) && resolves_to(*body, *b2),
        AstNode::ForLoop { count, body } => b matches AstNode::ForLoop { count: c2, body: b2 } && resolves_to(
            *count,
            *c2,
        ) && resolves_to(*body, *b2),
        AstNode::Break => b == AstNode::Break,
        AstNode::Continue => b == AstNode::Continue,
        AstNode::Return(e) => b matches AstNode::Return(e2) && match e {
            Some(x) => e2 matches Some(y) && resolves_to(*x, *y),
            None => e2 is None,
        },
        AstNode::Assert(e) => b matches AstNode::Assert(e2) && resolves_to(*e, *e2),
        AstNode::Try(e) => b matches AstNode::Try(e2) && resolves_to(*e, *e2),
        AstNode::Block(stmts) => b matches AstNode::Block(s2) && (stmts@.len() == s2@.len() && all_resolve(stmts@, s2@, stmts@.len() as int)),
    }
}

/// Whether `ys[..k]` are `xs[..k]` resolved, element by element.
pub open spec fn all_resolve(xs: Seq<AstNode>, ys: Seq<AstNode>, k: int) -> bool
    decreases xs, k,
{
    if k <= 0 || k > xs.len() {
        true
    } else {
        all_resolve(xs, ys, k - 1) && k - 1 < ys.len() && resolves_to(xs[k - 1], ys[k - 1])
    }
}

/// Whether `ys` is `xs` resolved, element by element.
pub open spec fn list_resolves(xs: Seq<AstNode>, ys: Seq<AstNode>) -> bool {
    xs.len() == ys.len() && all_resolve(xs, ys, xs.len() as int)
}

/// Whether the entries `ys[..k]` are the entries `xs[..k]` with their values resolved.
pub open spec fn dict_resolves(xs: Seq<(String, AstNode)>, ys: Seq<(String, AstNode)>, k: int) -> bool
    decreases xs, k,
{
    if k <= 0 || k > xs.len() {
        true
    } else {
        dict_resolves(xs, ys, k - 1) && k - 1 < ys.len() && ys[k - 1].0 == xs[k - 1].0 && resolves_to(
            xs[k - 1].1,
            ys[k - 1].1,
        )
    }
}

/// The resolution pass.
pub struct Resolver {}

impl Resolver {
    pub fn new() -> (r: Resolver)
        ensures
            r == (Resolver {}),
    {
        Resolver {}
    }

    /// Resolves a tree.
    pub fn resolve(&mut self, ast: AstNode) -> (r: AstNode)
        ensures
            resolves_to(ast, r),
    {
        resolve_node(&ast)
    }
}

/// Resolves the trees of a list.
fn resolve_list(outer: &AstNode, xs: &Vec<AstNode>) -> (r: Vec<AstNode>)
    requires
        forall|i: int| 0 <= i < xs@.len() ==> decreases_to!(*outer => #[trigger] xs@[i]),
    ensures
        list_resolves(xs@, r@),
    decreases outer, 0int,
{
    let mut out: Vec<AstNode> = Vec::new();
    let mut i: usize = 0;
    while i < xs.len()
        invariant
            i <= xs.len(),
            out@.len() == i,
            forall|j: int| 0 <= j < xs@.len() ==> decreases_to!(*outer => #[trigger] xs@[j]),
            all_resolve(xs@, out@, i as int),
        decreases xs.len() - i,
    {
        assert(decreases_to!(*outer => xs@[i as int]));
        let y = resolve_node(&xs[i]);
        let ghost before = out@;
        out.push(y);
        proof {
            lemma_all_resolve_push(xs@, before, y, i as int);
        }
        i += 1;
    }
    out
}

proof fn lemma_all_resolve_push(xs: Seq<AstNode>, ys: Seq<AstNode>, y: AstNode, i: int)
    requires
        0 <= i < xs.len(),
        ys.len() == i,
        all_resolve(xs, ys, i),
        resolves_to(xs[i], y),
    ensures
        all_resolve(xs, ys.push(y), i + 1),
    decreases i,
{
    lemma_all_resolve_ext(xs, ys, ys.push(y), i);
}

/// Results of the first `k` elements depend only on the first `k` resolved elements.
proof fn lemma_all_resolve_ext(xs: Seq<AstNode>, ys: Seq<AstNode>, zs: Seq<AstNode>, k: int)
    requires
        0 <= k <= ys.len(),
        k <= zs.len(),
        forall|j: int| 0 <= j < k ==> ys[j] == zs[j],
        all_resolve(xs, ys, k),
    ensures
        all_resolve(xs, zs, k),
    decreases k,
{
    if k > 0 && k <= xs.len() {
        lemma_all_resolve_ext(xs, ys, zs, k - 1);
    }
}

/// Resolves a tree given by reference.
fn resolve_node(a: &AstNode) -> (r: AstNode)
    ensures
        resolves_to(*a, r),
    decreases a, 1int,
{
    match a {
        AstNode::Literal(v) => {
            let c = v.clone();
            assert(c@ == v@);
            AstNode::Literal(c)
        },
        AstNode::Variable(n) => AstNode::Variable(n.clone()),
        AstNode::BinaryOp { left, operator, right } => {
            let l = resolve_node(left);
            let r = resolve_node(right);
            AstNode::BinaryOp { left: Box::new(l), operator: *operator, right: Box::new(r) }
        },
        AstNode::UnaryOp { operator, operand } => {
            let x = resolve_node(operand);
            AstNode::UnaryOp { operator: *operator, operand: Box::new(x) }
        },
        AstNode::Assignment { name, value } => {
            let v = resolve_node(value);
            AstNode::Assignment { name: name.clone(), value: Box::new(v) }
        },
        AstNode::List(items) => {
            assert forall|i: int| 0 <= i < items@.len() implies decreases_to!(*a => #[trigger] items@[i]) by {
                assert(decreases_to!(*a => (*a)->List_0));
                assert(decreases_to!(*items => items@));
                assert(decreases_to!(items@ => items@[i]));
            }
            let ys = resolve_list(a, items);
            AstNode::List(ys)
        },
        AstNode::Dict(kvs) => {
            let mut out: Vec<(String, AstNode)> = Vec::new();
            let mut i: usize = 0;
            while i < kvs.len()
                invariant
                    *a == AstNode::Dict(*kvs),
                    i <= kvs.len(),
                    out@.len() == i,
                    dict_resolves(kvs@, out@, i as int),
                decreases kvs.len() - i,
            {
                assert(decreases_to!(*a => kvs@[i as int].1)) by {
                    assert(decreases_to!(*a => (*a)->Dict_0));
                    assert(decreases_to!(*kvs => kvs@));
                    assert(decreases_to!(kvs@ => kvs@[i as int]));
                    assert(decreases_to!(kvs@[i as int] => kvs@[i as int].1));
                }
                let y = resolve_node(&kvs[i].1);
                let k = kvs[i].0.clone();
                let ghost before = out@;
                out.push((k, y));
                proof {
                    lemma_dict_resolves_ext(kvs@, before, out@, i as int);
                }
                i += 1;
            }
            AstNode::Dict(out)
        },
        AstNode::Postfix { object, items, explicit_call } => {
            assert forall|i: int| 0 <= i < items@.len() implies decreases_to!(*a => #[trigger] items@[i]) by {
                assert(decreases_to!(*a => (*a)->items));
                assert(decreases_to!(*items => items@));
                assert(decreases_to!(items@ => items@[i]));
            }
            let args = resolve_list(a, items);
            if *explicit_call {
                match &**object {
                    AstNode::Variable(name) => AstNode::Call { name: name.clone(), args },
                    _ => {
                        let o = resolve_node(object);
                        AstNode::CallAnonymous { object: Box::new(o), args }
                    },
                }
            } else {
                let o = resolve_node(object);
                AstNode::Postfix { object: Box::new(o), items: args, explicit_call: false }
            }
        },
        AstNode::Call { name, args } => {
            assert forall|i: int| 0 <= i < args@.len() implies decreases_to!(*a => #[trigger] args@[i]) by {
                assert(decreases_to!(*a => (*a)->Call_args));
                assert(decreases_to!(*args => args@));
                assert(decreases_to!(args@ => args@[i]));
            }
            let ys = resolve_list(a, args);
            AstNode::Call { name: name.clone(), args: ys }
        },
        AstNode::CallAnonymous { object, args } => {
            assert forall|i: int| 0 <= i < args@.len() implies decreases_to!(*a => #[trigger] args@[i]) by {
                assert(decreases_to!(*a => (*a)->CallAnonymous_args));
                assert(decreases_to!(*args => args@));
                assert(decreases_to!(args@ => args@[i]));
            }
            let ys = resolve_list(a, args);
            let o = resolve_node(object);
            AstNode::CallAnonymous { object: Box::new(o), args: ys }
        },
        AstNode::Index { object, index } => {
            let o = resolve_node(object);
            let x = resolve_node(index);
            AstNode::Index { object: Box::new(o), index: Box::new(x) }
        },
        AstNode::IndexAssign { object, index, value } => {
            let o = resolve_node(object);
            let x = resolve_node(index);
            let v = resolve_node(value);
            AstNode::IndexAssign { object: Box::new(o), index: Box::new(x), value: Box::new(v) }
        },
        AstNode::Function { params, body } => {
            let b = resolve_node(body);
            let p = match params {
                Some(ps) => Some(clone_names(ps)),
                None => None,
            };
            AstNode::Function { params: p, body: Box::new(b) }
        },
        AstNode::Conditional { condition, true_branch, false_branch } => {
            let c = resolve_node(condition);
            let t = resolve_node(true_branch);
            let f = match false_branch {
                Some(f) => Some(Box::new(resolve_node(f))),
                None => None,
            };
            AstNode::Conditional { condition: Box::new(c), true_branch: Box::new(t), false_branch: f }
        },
        AstNode::WhileLoop { condition, body } => {
            let c = resolve_node(condition);
            let b = resolve_node(body);
            AstNode::WhileLoop { condition: Box::new(c), body: Box::new(b) }
        },
        AstNode::ForLoop { count, body } => {
            let c = resolve_node(count);
            let b = resolve_node(body);
            AstNode::ForLoop { count: Box::new(c), body: Box::new(b) }
        },
        AstNode::Break => AstNode::Break,
        AstNode::Continue => AstNode::Continue,
        AstNode::Return(e) => match e {
            Some(x) => AstNode::Return(Some(Box::new(resolve_node(x)))),
            None => AstNode::Return(None),
        },
        AstNode::Assert(e) => AstNode::Assert(Box::new(resolve_node(e))),
        AstNode::Try(e) => AstNode::Try(Box::new(resolve_node(e))),
        AstNode::Block(stmts) => {
            assert forall|i: int| 0 <= i < stmts@.len() implies decreases_to!(*a => #[trigger] stmts@[i]) by {
                assert(decreases_to!(*a => (*a)->Block_0));
                assert(decreases_to!(*stmts => stmts@));
                assert(decreases_to!(stmts@ => stmts@[i]));
            }
            let ys = resolve_list(a, stmts);
            AstNode::Block(ys)
        },
    }
}

proof fn lemma_dict_resolves_ext(
    xs: Seq<(String, AstNode)>,
    ys: Seq<(String, AstNode)>,
    zs: Seq<(String, AstNode)>,
    k: int,
)
    requires
        0 <= k < xs.len(),
        ys.len() == k,
        zs.len() == k + 1,
        forall|j: int| 0 <= j < k ==> ys[j] == zs[j],
        dict_resolves(xs, ys, k),
        zs[k].0 == xs[k].0,
        resolves_to(xs[k].1, zs[k].1),
    ensures
        dict_resolves(xs, zs, k + 1),
{
    lemma_dict_prefix(xs, ys, zs, k);
}

proof fn lemma_dict_prefix(xs: Seq<(String, AstNode)>, ys: Seq<(String, AstNode)>, zs: Seq<(String, AstNode)>, k: int)
    requires
        0 <= k <= ys.len(),
        k <= zs.len(),
        forall|j: int| 0 <= j < k ==> ys[j] == zs[j],
        dict_resolves(xs, ys, k),
    ensures
        dict_resolves(xs, zs, k),
    decreases k,
{
    if k > 0 && k <= xs.len() {
        lemma_dict_prefix(xs, ys, zs, k - 1);
    }
}

/// A copy of a list of names.
fn clone_names(ps: &Vec<String>) -> (r: Vec<String>)
    ensures
        r@ == ps@,
{
    let mut out: Vec<String> = Vec::new();
    let mut i: usize = 0;
    while i < ps.len()
        invariant
            i <= ps.len(),
            out@ == ps@.take(i as int),
        decreases ps.len() - i,
    {
        out.push(ps[i].clone());
        assert(out@ =~= ps@.take(i + 1));
        i += 1;
    }
    assert(ps@.take(ps.len() as int) =~= ps@);
    out
}

} // verus!
