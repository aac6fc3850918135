//! Instruction fusion: short sequences of instructions become one.

use vstd::prelude::*;
use crate::astnode::BinaryOperator;
use crate::builtin_table::FLOOR;
use crate::text::str_eq;
use crate::value::{Val, Value};
use crate::vm::instruction::{Instruction, InstrV};

verus! {

/// The models of some instructions.
pub open spec fn instrs_v(c: Seq<Instruction>) -> Seq<InstrV> {
    c.map_values(|x: Instruction| x@)
}

/// What fusion does at an instruction: put one instruction in place of the next `k`, drop
/// the instruction, or copy it.
pub enum FuseStep {
    Emit(InstrV, int),
    Drop,
    Copy,
}

/// Whether `x` is `LoadConst` of the integer `n`.
pub open spec fn loads_int(x: InstrV, n: i64) -> bool {
    x == InstrV::LoadConst(Val::Int(n))
}

/// Whether `x, y` are `LoadConst(1)` and `Add`: the middle of an increment.
pub open spec fn adds_one(x: InstrV, y: InstrV) -> bool {
    loads_int(x, 1) && y == InstrV::BinaryOp(BinaryOperator::Add)
}

/// The fusion at `i`, the patterns tried in this order:
/// a store that keeps its value then `Pop` (and an indexed assignment then `Pop`) become the
/// dropping forms; `Divide` then `floor` of one argument becomes `FloorDiv`; a jump to the
/// next instruction is dropped, and a conditional one becomes `Pop`; `LoadLocal j; 0; >;
/// JumpIfFalse t` becomes `JumpIfLEZLocal(j, t)`; `<; JumpIfFalse t` becomes `JumpIfGE(t)`;
/// loading a name, adding 1 and storing it becomes an increment (of the same name, or from
/// one name into another).
pub open spec fn fuse_at(c: Seq<InstrV>, i: int) -> FuseStep {
    let n = c.len();
    if i + 1 < n && c[i + 1] is Pop && c[i] is StoreLocalKeep {
        FuseStep::Emit(InstrV::StoreLocal(c[i]->StoreLocalKeep_0), 2)
    } else if i + 1 < n && c[i + 1] is Pop && c[i] is StoreVarKeep {
        FuseStep::Emit(InstrV::StoreVar(c[i]->StoreVarKeep_0), 2)
    } else if i + 1 < n && c[i + 1] is Pop && c[i] is IndexAssignLocal {
        FuseStep::Emit(InstrV::IndexAssignLocalDrop(c[i]->IndexAssignLocal_0), 2)
    } else if i + 1 < n && c[i + 1] is Pop && c[i] is IndexAssign {
        FuseStep::Emit(InstrV::IndexAssignDrop, 2)
    } else if i + 1 < n && c[i] == InstrV::BinaryOp(BinaryOperator::Divide) && c[i + 1] is CallBuiltinId
        && c[i + 1]->CallBuiltinId_1 == 1 && c[i + 1]->CallBuiltinId_0 == FLOOR {
        FuseStep::Emit(InstrV::FloorDiv, 2)
    } else if 0 <= i < n && c[i] is Jump && c[i]->Jump_0 == i + 1 {
        FuseStep::Drop
    } else if 0 <= i < n && c[i] is JumpIfFalse && c[i]->JumpIfFalse_0 == i + 1 {
        FuseStep::Emit(InstrV::Pop, 1)
    } else if i + 3 < n && c[i] is LoadLocal && loads_int(c[i + 1], 0) && c[i + 2] == InstrV::BinaryOp(
        BinaryOperator::GreaterThan,
    ) && c[i + 3] is JumpIfFalse {
        FuseStep::Emit(InstrV::JumpIfLEZLocal(c[i]->LoadLocal_0, c[i + 3]->JumpIfFalse_0), 4)
    } else if i + 1 < n && c[i] == InstrV::BinaryOp(BinaryOperator::LessThan) && c[i + 1] is JumpIfFalse {
        FuseStep::Emit(InstrV::JumpIfGE(c[i + 1]->JumpIfFalse_0), 2)
    } else if i + 3 < n && adds_one(c[i + 1], c[i + 2]) && c[i] is LoadLocal && c[i + 3] is StoreLocal
        && c[i]->LoadLocal_0 == c[i + 3]->StoreLocal_0 {
        FuseStep::Emit(InstrV::Inc1Local(c[i]->LoadLocal_0), 4)
    } else if i + 3 < n && adds_one(c[i + 1], c[i + 2]) && c[i] is LoadVar && c[i + 3] is StoreVar
        && c[i]->LoadVar_0 == c[i + 3]->StoreVar_0 {
        FuseStep::Emit(InstrV::Inc1Var(c[i]->LoadVar_0), 4)
    } else if i + 3 < n && adds_one(c[i + 1], c[i + 2]) && c[i] is LoadVar && c[i + 3] is StoreVarKeep
        && c[i]->LoadVar_0 == c[i + 3]->StoreVarKeep_0 {
        FuseStep::Emit(InstrV::Inc1VarKeep(c[i]->LoadVar_0), 4)
    } else if i + 3 < n && adds_one(c[i + 1], c[i + 2]) && c[i] is LoadLocal && c[i + 3] is StoreLocalKeep
        && c[i]->LoadLocal_0 == c[i + 3]->StoreLocalKeep_0 {
        FuseStep::Emit(InstrV::Inc1LocalKeep(c[i]->LoadLocal_0), 4)
    } else if i + 3 < n && adds_one(c[i + 1], c[i + 2]) && c[i] is LoadLocal && c[i + 3] is StoreLocal
        && c[i]->LoadLocal_0 != c[i + 3]->StoreLocal_0 {
        FuseStep::Emit(InstrV::Inc1LocalFromLocal(c[i]->LoadLocal_0, c[i + 3]->StoreLocal_0), 4)
    } else if i + 3 < n && adds_one(c[i + 1], c[i + 2]) && c[i] is LoadVar && c[i + 3] is StoreVar
        && c[i]->LoadVar_0 != c[i + 3]->StoreVar_0 {
        FuseStep::Emit(InstrV::Inc1VarFromVar(c[i]->LoadVar_0, c[i + 3]->StoreVar_0), 4)
    } else {
        FuseStep::Copy
    }
}

/// One pass of fusion from `i`, after the instructions `out` (which stand for the old
/// instructions at `origin`) and with `changed` telling whether anything was fused yet: the
/// new instructions, the old index of each, and whether anything was fused.
pub open spec fn scan(c: Seq<InstrV>, i: int, out: Seq<InstrV>, origin: Seq<int>, changed: bool) -> (
    Seq<InstrV>,
    Seq<int>,
    bool,
)
    decreases c.len() - i,
{
    if i >= c.len() || i < 0 {
        (out, origin, changed)
    } else {
        match fuse_at(c, i) {
            FuseStep::Emit(x, k) => if k > 0 {
                scan(c, i + k, out.push(x), origin.push(i), true)
            } else {
                (out, origin, changed)
            },
            FuseStep::Drop => scan(c, i + 1, out, origin, true),
            FuseStep::Copy => scan(c, i + 1, out.push(c[i]), origin.push(i), changed),
        }
    }
}

/// The number of old indices in `origin` below `p`: where an old jump target `p` lands, the
/// first instruction kept at or after it.
pub open spec fn count_below(origin: Seq<int>, p: int) -> int
    decreases origin.len(),
{
    if origin.len() == 0 {
        0
    } else {
        count_below(origin.drop_last(), p) + if origin.last() < p {
            1int
        } else {
            0int
        }
    }
}

/// An instruction with its jump target moved to the new index.
pub open spec fn retarget(x: InstrV, origin: Seq<int>) -> InstrV {
    match x {
        InstrV::Jump(p) => InstrV::Jump(count_below(origin, p as int) as usize),
        InstrV::JumpIfFalse(p) => InstrV::JumpIfFalse(count_below(origin, p as int) as usize),
        InstrV::JumpIfGE(p) => InstrV::JumpIfGE(count_below(origin, p as int) as usize),
        InstrV::JumpIfLEZLocal(s, p) => InstrV::JumpIfLEZLocal(s, count_below(origin, p as int) as usize),
        _ => x,
    }
}

/// One pass of fusion over a whole sequence: the new instructions with their jumps moved,
/// and whether anything was fused (the instructions are left as they are where nothing was).
pub open spec fn fuse_once_v(c: Seq<InstrV>) -> (Seq<InstrV>, bool) {
    let (out, origin, changed) = scan(c, 0, Seq::empty(), Seq::empty(), false);
    if changed {
        (Seq::new(out.len(), |j: int| retarget(out[j], origin)), true)
    } else {
        (c, false)
    }
}

/// What the fusion of one position gives.
enum Decision {
    Emit(Instruction, usize),
    Drop,
    Copy,
}

/// The fusion at `i`.
fn fuse_decide(code: &Vec<Instruction>, i: usize) -> (d: Decision)
    requires
        i < code.len(),
    ensures
        match (d, fuse_at(instrs_v(code@), i as int)) {
            (Decision::Emit(x, k), FuseStep::Emit(y, l)) => x@ == y && k == l,
            (Decision::Drop, FuseStep::Drop) => true,
            (Decision::Copy, FuseStep::Copy) => true,
            _ => false,
        },
{
    let ghost c = instrs_v(code@);
    let n = code.len();
    assert(forall|k: int| 0 <= k < n ==> #[trigger] c[k] == code@[k]@);
    if i + 1 < n {
        if let Instruction::Pop = &code[i + 1] {
            match &code[i] {
                Instruction::StoreLocalKeep(s) => {
                    return Decision::Emit(Instruction::StoreLocal(*s), 2);
                },
                Instruction::StoreVarKeep(nm) => {
                    return Decision::Emit(Instruction::StoreVar(nm.clone()), 2);
                },
                Instruction::IndexAssignLocal(s) => {
                    return Decision::Emit(Instruction::IndexAssignLocalDrop(*s), 2);
                },
                Instruction::IndexAssign => {
                    return Decision::Emit(Instruction::IndexAssignDrop, 2);
                },
                _ => {},
            }
        }
        if let (Instruction::BinaryOp(BinaryOperator::Divide), Instruction::CallBuiltinId(id, argc)) = (
            &code[i],
            &code[i + 1],
        ) {
            if *argc == 1 && *id == FLOOR {
                return Decision::Emit(Instruction::FloorDiv, 2);
            }
        }
    }
    if let Instruction::Jump(pos) = &code[i] {
        if *pos == i + 1 {
            return Decision::Drop;
        }
    }
    if let Instruction::JumpIfFalse(pos) = &code[i] {
        if *pos == i + 1 {
            return Decision::Emit(Instruction::Pop, 1);
        }
    }
    if n - i > 3 {
        if let (
            Instruction::LoadLocal(slot),
            Instruction::LoadConst(Value::Int(0)),
            Instruction::BinaryOp(BinaryOperator::GreaterThan),
            Instruction::JumpIfFalse(pos),
        ) = (&code[i], &code[i + 1], &code[i + 2], &code[i + 3]) {
            return Decision::Emit(Instruction::JumpIfLEZLocal(*slot, *pos), 4);
        }
    }
    if i + 1 < n {
        if let (Instruction::BinaryOp(BinaryOperator::LessThan), Instruction::JumpIfFalse(pos)) = (
            &code[i],
            &code[i + 1],
        ) {
            return Decision::Emit(Instruction::JumpIfGE(*pos), 2);
        }
    }
    if n - i > 3 {
        if let (Instruction::LoadConst(Value::Int(1)), Instruction::BinaryOp(BinaryOperator::Add)) = (
            &code[i + 1],
            &code[i + 2],
        ) {
            assert(adds_one(c[i + 1], c[i + 2]));
            match (&code[i], &code[i + 3]) {
                (Instruction::LoadLocal(a), Instruction::StoreLocal(b)) => {
                    if *a == *b {
                        return Decision::Emit(Instruction::Inc1Local(*a), 4);
                    }
                },
                (Instruction::LoadVar(a), Instruction::StoreVar(b)) => {
                    if str_eq(a.as_str(), b.as_str()) {
                        return Decision::Emit(Instruction::Inc1Var(a.clone()), 4);
                    }
                },
                (Instruction::LoadVar(a), Instruction::StoreVarKeep(b)) => {
                    if str_eq(a.as_str(), b.as_str()) {
                        return Decision::Emit(Instruction::Inc1VarKeep(a.clone()), 4);
                    }
                },
                (Instruction::LoadLocal(a), Instruction::StoreLocalKeep(b)) => {
                    if *a == *b {
                        return Decision::Emit(Instruction::Inc1LocalKeep(*a), 4);
                    }
                },
                _ => {},
            }
            match (&code[i], &code[i + 3]) {
                (Instruction::LoadLocal(a), Instruction::StoreLocal(b)) => {
                    return Decision::Emit(Instruction::Inc1LocalFromLocal { src: *a, dst: *b }, 4);
                },
                (Instruction::LoadVar(a), Instruction::StoreVar(b)) => {
                    return Decision::Emit(Instruction::Inc1VarFromVar { src: a.clone(), dst: b.clone() }, 4);
                },
                _ => {},
            }
        }
    }
    Decision::Copy
}

/// The old indices, as integers.
pub open spec fn ints(v: Seq<usize>) -> Seq<int> {
    v.map_values(|x: usize| x as int)
}

proof fn lemma_count_below(org: Seq<int>, p: int, j: int)
    requires
        0 <= j <= org.len(),
        forall|k: int| 0 <= k < j ==> #[trigger] org[k] < p,
        forall|k: int| j <= k < org.len() ==> #[trigger] org[k] >= p,
    ensures
        count_below(org, p) == j,
    decreases org.len(),
{
    if org.len() > 0 {
        let d = org.drop_last();
        if j == org.len() {
            assert(org.last() == org[org.len() - 1]);
            lemma_count_below(d, p, j - 1);
        } else {
            assert(org.last() == org[org.len() - 1]);
            lemma_count_below(d, p, j);
        }
    }
}

/// A jump target moved through the table of new indices (which has one entry for each old
/// index up to the end); a target past the end lands at the end.
fn moved(table: &Vec<usize>, last: usize, p: usize) -> (r: usize)
    requires
        table.len() > 0,
    ensures
        r == if p < table.len() { table@[p as int] } else { last },
{
    if p < table.len() {
        table[p]
    } else {
        last
    }
}

/// One pass of fusion: each pattern of `fuse_at` is fused, and the jumps are moved to the new
/// indices; whether anything was fused (the instructions are left as they are where nothing
/// was).
pub fn fuse_once(code: &mut Vec<Instruction>) -> (changed: bool)
    requires
        old(code).len() < usize::MAX,
    ensures
        (instrs_v(final(code)@), changed) == fuse_once_v(instrs_v(old(code)@)),
{
    let ghost c = instrs_v(code@);
    let n = code.len();
    let mut out: Vec<Instruction> = Vec::new();
    let mut origin: Vec<usize> = Vec::new();
    let mut changed = false;
    let mut i: usize = 0;
    assert(instrs_v(out@) =~= Seq::<InstrV>::empty());
    assert(ints(origin@) =~= Seq::<int>::empty());
    while i < n
        invariant
            code@ == old(code)@,
            c == instrs_v(code@),
            n == code.len(),
            i <= n,
            out.len() == origin.len(),
            forall|k: int| 0 <= k < origin.len() ==> #[trigger] origin@[k] < i,
            forall|a: int, b: int| 0 <= a < b < origin.len() ==> #[trigger] origin@[a] < #[trigger] origin@[b],
            scan(c, 0, Seq::empty(), Seq::empty(), false) == scan(c, i as int, instrs_v(out@), ints(origin@), changed),
        decreases n - i,
    {
        let ghost o0 = out@;
        let ghost g0 = origin@;
        match fuse_decide(code, i) {
            Decision::Emit(x, k) => {
                out.push(x);
                origin.push(i);
                changed = true;
                proof {
                    assert(instrs_v(out@) =~= instrs_v(o0).push(x@));
                    assert(ints(origin@) =~= ints(g0).push(i as int));
                }
                i = i + k;
            },
            Decision::Drop => {
                changed = true;
                i = i + 1;
            },
            Decision::Copy => {
                let x = code[i].copy();
                out.push(x);
                origin.push(i);
                proof {
                    assert(x@ == c[i as int]);
                    assert(instrs_v(out@) =~= instrs_v(o0).push(c[i as int]));
                    assert(ints(origin@) =~= ints(g0).push(i as int));
                }
                i = i + 1;
            },
        }
    }
    if !changed {
        return false;
    }
    let ghost org = ints(origin@);
    let ghost outv = instrs_v(out@);
    // the new index of each old index: the number of kept instructions before it
    let mut table: Vec<usize> = Vec::new();
    let mut j: usize = 0;
    let mut p: usize = 0;
    while p <= n
        invariant
            n == code.len(),
            n < usize::MAX,
            org == ints(origin@),
            forall|k: int| 0 <= k < origin.len() ==> #[trigger] origin@[k] < n,
            forall|a: int, b: int| 0 <= a < b < origin.len() ==> #[trigger] origin@[a] < #[trigger] origin@[b],
            p <= n + 1,
            table.len() == p,
            j <= origin.len(),
            forall|k: int| 0 <= k < j ==> #[trigger] origin@[k] < p,
            forall|q: int| 0 <= q < p ==> #[trigger] table@[q] as int == count_below(org, q),
        decreases n + 1 - p,
    {
        while j < origin.len() && origin[j] < p
            invariant
                j <= origin.len(),
                forall|k: int| 0 <= k < j ==> #[trigger] origin@[k] < p,
            decreases origin.len() - j,
        {
            j += 1;
        }
        proof {
            assert forall|k: int| j <= k < org.len() implies #[trigger] org[k] >= p by {
                assert(org[k] == origin@[k] as int);
                if k > j {
                    assert(origin@[j as int] < origin@[k]);
                }
            }
            assert forall|k: int| 0 <= k < j implies #[trigger] org[k] < p by {
                assert(org[k] == origin@[k] as int);
            }
            lemma_count_below(org, p as int, j as int);
        }
        table.push(j);
        p += 1;
    }
    proof {
        assert forall|q: int| q > n implies count_below(org, q) == org.len() by {
            assert forall|k: int| 0 <= k < org.len() implies #[trigger] org[k] < q by {
                assert(org[k] == origin@[k] as int);
            }
            lemma_count_below(org, q, org.len() as int);
        }
    }
    let last = origin.len();
    let mut res: Vec<Instruction> = Vec::new();
    let mut k: usize = 0;
    while k < out.len()
        invariant
            outv == instrs_v(out@),
            org == ints(origin@),
            last == origin.len(),
            table.len() == n + 1,
            forall|q: int| 0 <= q <= n ==> #[trigger] table@[q] as int == count_below(org, q),
            forall|q: int| q > n ==> count_below(org, q) == org.len(),
            k <= out.len(),
            instrs_v(res@) == Seq::new(k as nat, |t: int| retarget(outv[t], org)),
        decreases out.len() - k,
    {
        let ghost r0 = res@;
        let y = match &out[k] {
            Instruction::Jump(pos) => Instruction::Jump(moved(&table, last, *pos)),
            Instruction::JumpIfFalse(pos) => Instruction::JumpIfFalse(moved(&table, last, *pos)),
            Instruction::JumpIfGE(pos) => Instruction::JumpIfGE(moved(&table, last, *pos)),
            Instruction::JumpIfLEZLocal(slot, pos) => Instruction::JumpIfLEZLocal(*slot, moved(&table, last, *pos)),
            other => other.copy(),
        };
        proof {
            assert(outv[k as int] == out@[k as int]@);
            assert(y@ == retarget(outv[k as int], org));
        }
        res.push(y);
        proof {
            assert(instrs_v(res@) =~= instrs_v(r0).push(y@));
            assert(instrs_v(res@) =~= Seq::new((k + 1) as nat, |t: int| retarget(outv[t], org)));
        }
        k += 1;
    }
    *code = res;
    true
}

/// The weight of an instruction: 2 for a conditional jump, 1 for any other. Each pass that
/// fuses something makes the total lighter, so fusion comes to an end.
pub open spec fn weight(x: InstrV) -> int {
    if x is JumpIfFalse {
        2
    } else {
        1
    }
}

/// The total weight of some instructions.
pub open spec fn total_weight(c: Seq<InstrV>) -> int
    decreases c.len(),
{
    if c.len() == 0 {
        0
    } else {
        weight(c[0]) + total_weight(c.drop_first())
    }
}

/// Fusion repeated until a pass fuses nothing.
pub open spec fn fuse_v(c: Seq<InstrV>) -> Seq<InstrV>
    decreases total_weight(c),
{
    let (d, changed) = fuse_once_v(c);
    if changed && 0 <= total_weight(d) < total_weight(c) {
        fuse_v(d)
    } else {
        d
    }
}

proof fn lemma_weight_push(s: Seq<InstrV>, x: InstrV)
    ensures
        total_weight(s.push(x)) == total_weight(s) + weight(x),
        total_weight(s) >= s.len(),
    decreases s.len(),
{
    if s.len() > 0 {
        assert(s.push(x).drop_first() =~= s.drop_first().push(x));
        assert(s.push(x)[0] == s[0]);
        lemma_weight_push(s.drop_first(), x);
    } else {
        assert(s.push(x).drop_first() =~= Seq::<InstrV>::empty());
        assert(total_weight(Seq::<InstrV>::empty()) == 0);
        assert(s.push(x)[0] == x);
    }
}

proof fn lemma_weight_same(a: Seq<InstrV>, b: Seq<InstrV>)
    requires
        a.len() == b.len(),
        forall|k: int| 0 <= k < a.len() ==> weight(#[trigger] a[k]) == weight(b[k]),
    ensures
        total_weight(a) == total_weight(b),
    decreases a.len(),
{
    if a.len() > 0 {
        assert(weight(a[0]) == weight(b[0]));
        assert forall|k: int| 0 <= k < a.drop_first().len() implies weight(#[trigger] a.drop_first()[k]) == weight(
            b.drop_first()[k],
        ) by {
            assert(weight(a[k + 1]) == weight(b[k + 1]));
        }
        lemma_weight_same(a.drop_first(), b.drop_first());
    }
}

/// The weight of the instructions from `i` on.
pub open spec fn rest_weight(c: Seq<InstrV>, i: int) -> int {
    total_weight(c.subrange(i, c.len() as int))
}

proof fn lemma_rest_weight_step(c: Seq<InstrV>, i: int)
    requires
        0 <= i < c.len(),
    ensures
        rest_weight(c, i) == weight(c[i]) + rest_weight(c, i + 1),
{
    assert(c.subrange(i, c.len() as int).drop_first() =~= c.subrange(i + 1, c.len() as int));
}

proof fn lemma_rest_weight_span(c: Seq<InstrV>, i: int, j: int)
    requires
        0 <= i <= j <= c.len(),
    ensures
        rest_weight(c, i) >= (j - i) + rest_weight(c, j),
    decreases j - i,
{
    if i < j {
        lemma_rest_weight_step(c, i);
        lemma_rest_weight_span(c, i + 1, j);
    }
}

proof fn lemma_scan_weight(c: Seq<InstrV>, i: int, out: Seq<InstrV>, origin: Seq<int>, changed: bool)
    requires
        0 <= i <= c.len(),
    ensures
        ({
            let (o, g, ch) = scan(c, i, out, origin, changed);
            &&& total_weight(o) + (if ch && !changed { 1int } else { 0int }) <= total_weight(out) + rest_weight(c, i)
            &&& o.len() <= out.len() + (c.len() - i)
            &&& changed ==> ch
        }),
    decreases c.len() - i,
{
    if i < c.len() {
        lemma_rest_weight_step(c, i);
        match fuse_at(c, i) {
            FuseStep::Emit(x, k) => {
                lemma_weight_push(out, x);
                lemma_scan_weight(c, i + k, out.push(x), origin.push(i), true);
                lemma_rest_weight_span(c, i, i + k);
                if k >= 2 {
                    lemma_rest_weight_span(c, i + 1, i + k);
                }
            },
            FuseStep::Drop => {
                lemma_scan_weight(c, i + 1, out, origin, true);
            },
            FuseStep::Copy => {
                lemma_weight_push(out, c[i]);
                lemma_scan_weight(c, i + 1, out.push(c[i]), origin.push(i), changed);
            },
        }
    }
}

proof fn lemma_fuse_once_lighter(c: Seq<InstrV>)
    ensures
        fuse_once_v(c).0.len() <= c.len(),
        fuse_once_v(c).1 ==> 0 <= total_weight(fuse_once_v(c).0) < total_weight(c),
{
    lemma_scan_weight(c, 0, Seq::empty(), Seq::empty(), false);
    assert(c.subrange(0, c.len() as int) =~= c);
    let (out, origin, changed) = scan(c, 0, Seq::empty(), Seq::empty(), false);
    if changed {
        let d = Seq::new(out.len(), |j: int| retarget(out[j], origin));
        lemma_weight_same(out, d);
        lemma_weight_push(d, InstrV::Pop);
    }
}

/// Fusion: passes of `fuse_once` until one fuses nothing.
pub fn fuse(code: &mut Vec<Instruction>)
    requires
        old(code).len() < usize::MAX,
    ensures
        instrs_v(final(code)@) == fuse_v(instrs_v(old(code)@)),
{
    loop
        invariant
            code.len() < usize::MAX,
            fuse_v(instrs_v(old(code)@)) == fuse_v(instrs_v(code@)),
        decreases total_weight(instrs_v(code@)),
    {
        let ghost before = instrs_v(code@);
        proof {
            lemma_fuse_once_lighter(before);
            lemma_weight_push(before, InstrV::Pop);
        }
        let changed = fuse_once(code);
        if !changed {
            return;
        }
    }
}

} // verus!
