//! The local slots and variables that an instruction reads and writes, and the law that
//! fusion keeps them.

use vstd::prelude::*;
use crate::compiler::fuse::{fuse_at, FuseStep};
use crate::vm::instruction::InstrV;

verus! {

/// The local slots whose values an instruction reads.
pub open spec fn local_reads(x: InstrV) -> Set<usize> {
    match x {
        InstrV::LoadLocal(s) => set![s],
        InstrV::IndexLoadLocal(s) => set![s],
        InstrV::IndexAssignLocal(s) => set![s],
        InstrV::IndexAssignLocalDrop(s) => set![s],
        InstrV::CallLocal(s, _) => set![s],
        InstrV::CallOrIndexLocal(s, _) => set![s],
        InstrV::JumpIfLEZLocal(s, _) => set![s],
        InstrV::Inc1Local(s) => set![s],
        InstrV::Inc1LocalKeep(s) => set![s],
        InstrV::Inc1LocalFromLocal(src, _) => set![src],
        _ => Set::empty(),
    }
}

/// The local slots that an instruction writes.
pub open spec fn local_writes(x: InstrV) -> Set<usize> {
    match x {
        InstrV::StoreLocal(s) => set![s],
        InstrV::StoreLocalKeep(s) => set![s],
        InstrV::IndexAssignLocal(s) => set![s],
        InstrV::IndexAssignLocalDrop(s) => set![s],
        InstrV::Inc1Local(s) => set![s],
        InstrV::Inc1LocalKeep(s) => set![s],
        InstrV::Inc1LocalFromLocal(_, dst) => set![dst],
        _ => Set::empty(),
    }
}

/// The variables whose values an instruction reads.
pub open spec fn var_reads(x: InstrV) -> Set<Seq<char>> {
    match x {
        InstrV::LoadVar(n) => set![n],
        InstrV::IndexLoadVar(n) => set![n],
        InstrV::IndexAssignVar(n) => set![n],
        InstrV::IndexAssignVarDrop(n) => set![n],
        InstrV::CallOrIndexVar(n, _) => set![n],
        InstrV::Inc1Var(n) => set![n],
        InstrV::Inc1VarKeep(n) => set![n],
        InstrV::Inc1VarFromVar(src, _) => set![src],
        _ => Set::empty(),
    }
}

/// The variables that an instruction writes.
pub open spec fn var_writes(x: InstrV) -> Set<Seq<char>> {
    match x {
        InstrV::StoreVar(n) => set![n],
        InstrV::StoreVarKeep(n) => set![n],
        InstrV::IndexAssignVar(n) => set![n],
        InstrV::IndexAssignVarDrop(n) => set![n],
        InstrV::Inc1Var(n) => set![n],
        InstrV::Inc1VarKeep(n) => set![n],
        InstrV::Inc1VarFromVar(_, dst) => set![dst],
        _ => Set::empty(),
    }
}

/// The local slots read by the `k` instructions from `i`.
pub open spec fn block_local_reads(c: Seq<InstrV>, i: int, k: nat) -> Set<usize>
    decreases k,
{
    if k == 0 {
        Set::empty()
    } else {
        block_local_reads(c, i, (k - 1) as nat).union(local_reads(c[i + k - 1]))
    }
}

/// The local slots written by the `k` instructions from `i`.
pub open spec fn block_local_writes(c: Seq<InstrV>, i: int, k: nat) -> Set<usize>
    decreases k,
{
    if k == 0 {
        Set::empty()
    } else {
        block_local_writes(c, i, (k - 1) as nat).union(local_writes(c[i + k - 1]))
    }
}

/// The variables read by the `k` instructions from `i`.
pub open spec fn block_var_reads(c: Seq<InstrV>, i: int, k: nat) -> Set<Seq<char>>
    decreases k,
{
    if k == 0 {
        Set::empty()
    } else {
        block_var_reads(c, i, (k - 1) as nat).union(var_reads(c[i + k - 1]))
    }
}

/// The variables written by the `k` instructions from `i`.
pub open spec fn block_var_writes(c: Seq<InstrV>, i: int, k: nat) -> Set<Seq<char>>
    decreases k,
{
    if k == 0 {
        Set::empty()
    } else {
        block_var_writes(c, i, (k - 1) as nat).union(var_writes(c[i + k - 1]))
    }
}

/// Fusion keeps what is read and written: the instruction put in place of `k` instructions
/// reads exactly the local slots and variables that they read, and writes exactly those that
/// they write. So a fused increment reads the slot that was loaded and writes the slot that
/// was stored.
pub proof fn lemma_fusion_keeps_slots(c: Seq<InstrV>, i: int)
    requires
        0 <= i < c.len(),
    ensures
        fuse_at(c, i) matches FuseStep::Emit(x, k) ==> {
            &&& 1 <= k <= 4
            &&& i + k <= c.len()
            &&& local_reads(x) == block_local_reads(c, i, k as nat)
            &&& local_writes(x) == block_local_writes(c, i, k as nat)
            &&& var_reads(x) == block_var_reads(c, i, k as nat)
            &&& var_writes(x) == block_var_writes(c, i, k as nat)
        },
{
    reveal_with_fuel(block_local_reads, 5);
    reveal_with_fuel(block_local_writes, 5);
    reveal_with_fuel(block_var_reads, 5);
    reveal_with_fuel(block_var_writes, 5);
    match fuse_at(c, i) {
        FuseStep::Emit(x, k) => {
            assert(local_reads(x) =~= block_local_reads(c, i, k as nat));
            assert(local_writes(x) =~= block_local_writes(c, i, k as nat));
            assert(var_reads(x) =~= block_var_reads(c, i, k as nat));
            assert(var_writes(x) =~= block_var_writes(c, i, k as nat));
        },
        _ => {},
    }
}

} // verus!
