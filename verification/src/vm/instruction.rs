//! The instructions of the virtual machine.

use vstd::prelude::*;
use crate::astnode::{BinaryOperator, UnaryOperator};
use crate::value::{Val, Value};

verus! {

/// An instruction of the virtual machine.
#[derive(Debug)]
pub enum Instruction {
    LoadConst(Value),
    LoadLocal(usize),
    LoadVar(String),
    LoadCapture(usize),
    LoadSelf,
    StoreLocal(usize),
    StoreLocalKeep(usize),
    StoreVar(String),
    StoreVarKeep(String),
    Pop,
    BinaryOp(BinaryOperator),
    UnaryOp(UnaryOperator),
    CmpChain(Vec<BinaryOperator>),
    MakeList(usize),
    MakeDict(usize),
    MakeRange,
    Index,
    IndexLoadLocal(usize),
    IndexLoadVar(String),
    IndexAssign,
    IndexAssignDrop,
    IndexAssignLocal(usize),
    IndexAssignLocalDrop(usize),
    IndexAssignVar(String),
    IndexAssignVarDrop(String),
    CallBuiltinId(usize, usize),
    CallUser(String, usize),
    CallLocal(usize, usize),
    CallAnon(usize),
    CallOrIndex(usize),
    CallOrIndexLocal(usize, usize),
    CallOrIndexVar(String, usize),
    Jump(usize),
    JumpIfFalse(usize),
    JumpIfGE(usize),
    JumpIfLEZLocal(usize, usize),
    Try(usize),
    Return,
    FloorDiv,
    Inc1Local(usize),
    Inc1LocalKeep(usize),
    Inc1Var(String),
    Inc1VarKeep(String),
    Inc1LocalFromLocal { src: usize, dst: usize },
    Inc1VarFromVar { src: String, dst: String },
}

/// The model of an instruction: values and names by their models.
pub enum InstrV {
    LoadConst(Val),
    LoadLocal(usize),
    LoadVar(Seq<char>),
    LoadCapture(usize),
    LoadSelf,
    StoreLocal(usize),
    StoreLocalKeep(usize),
    StoreVar(Seq<char>),
    StoreVarKeep(Seq<char>),
    Pop,
    BinaryOp(BinaryOperator),
    UnaryOp(UnaryOperator),
    CmpChain(Seq<BinaryOperator>),
    MakeList(usize),
    MakeDict(usize),
    MakeRange,
    Index,
    IndexLoadLocal(usize),
    IndexLoadVar(Seq<char>),
    IndexAssign,
    IndexAssignDrop,
    IndexAssignLocal(usize),
    IndexAssignLocalDrop(usize),
    IndexAssignVar(Seq<char>),
    IndexAssignVarDrop(Seq<char>),
    CallBuiltinId(usize, usize),
    CallUser(Seq<char>, usize),
    CallLocal(usize, usize),
    CallAnon(usize),
    CallOrIndex(usize),
    CallOrIndexLocal(usize, usize),
    CallOrIndexVar(Seq<char>, usize),
    Jump(usize),
    JumpIfFalse(usize),
    JumpIfGE(usize),
    JumpIfLEZLocal(usize, usize),
    Try(usize),
    Return,
    FloorDiv,
    Inc1Local(usize),
    Inc1LocalKeep(usize),
    Inc1Var(Seq<char>),
    Inc1VarKeep(Seq<char>),
    Inc1LocalFromLocal(usize, usize),
    Inc1VarFromVar(Seq<char>, Seq<char>),
}

impl View for Instruction {
    type V = InstrV;

    open spec fn view(&self) -> InstrV {
        match self {
            Instruction::LoadConst(x0) => InstrV::LoadConst(x0@),
            Instruction::LoadLocal(x0) => InstrV::LoadLocal(*x0),
            Instruction::LoadVar(x0) => InstrV::LoadVar(x0@),
            Instruction::LoadCapture(x0) => InstrV::LoadCapture(*x0),
            Instruction::LoadSelf => InstrV::LoadSelf,
            Instruction::StoreLocal(x0) => InstrV::StoreLocal(*x0),
            Instruction::StoreLocalKeep(x0) => InstrV::StoreLocalKeep(*x0),
            Instruction::StoreVar(x0) => InstrV::StoreVar(x0@),
            Instruction::StoreVarKeep(x0) => InstrV::StoreVarKeep(x0@),
            Instruction::Pop => InstrV::Pop,
            Instruction::BinaryOp(x0) => InstrV::BinaryOp(*x0),
            Instruction::UnaryOp(x0) => InstrV::UnaryOp(*x0),
            Instruction::CmpChain(x0) => InstrV::CmpChain(x0@),
            Instruction::MakeList(x0) => InstrV::MakeList(*x0),
            Instruction::MakeDict(x0) => InstrV::MakeDict(*x0),
            Instruction::MakeRange => InstrV::MakeRange,
            Instruction::Index => InstrV::Index,
            Instruction::IndexLoadLocal(x0) => InstrV::IndexLoadLocal(*x0),
            Instruction::IndexLoadVar(x0) => InstrV::IndexLoadVar(x0@),
            Instruction::IndexAssign => InstrV::IndexAssign,
            Instruction::IndexAssignDrop => InstrV::IndexAssignDrop,
            Instruction::IndexAssignLocal(x0) => InstrV::IndexAssignLocal(*x0),
            Instruction::IndexAssignLocalDrop(x0) => InstrV::IndexAssignLocalDrop(*x0),
            Instruction::IndexAssignVar(x0) => InstrV::IndexAssignVar(x0@),
            Instruction::IndexAssignVarDrop(x0) => InstrV::IndexAssignVarDrop(x0@),
            Instruction::CallBuiltinId(x0, x1) => InstrV::CallBuiltinId(*x0, *x1),
            Instruction::CallUser(x0, x1) => InstrV::CallUser(x0@, *x1),
            Instruction::CallLocal(x0, x1) => InstrV::CallLocal(*x0, *x1),
            Instruction::CallAnon(x0) => InstrV::CallAnon(*x0),
            Instruction::CallOrIndex(x0) => InstrV::CallOrIndex(*x0),
            Instruction::CallOrIndexLocal(x0, x1) => InstrV::CallOrIndexLocal(*x0, *x1),
            Instruction::CallOrIndexVar(x0, x1) => InstrV::CallOrIndexVar(x0@, *x1),
            Instruction::Jump(x0) => InstrV::Jump(*x0),
            Instruction::JumpIfFalse(x0) => InstrV::JumpIfFalse(*x0),
            Instruction::JumpIfGE(x0) => InstrV::JumpIfGE(*x0),
            Instruction::JumpIfLEZLocal(x0, x1) => InstrV::JumpIfLEZLocal(*x0, *x1),
            Instruction::Try(x0) => InstrV::Try(*x0),
            Instruction::Return => InstrV::Return,
            Instruction::FloorDiv => InstrV::FloorDiv,
            Instruction::Inc1Local(x0) => InstrV::Inc1Local(*x0),
            Instruction::Inc1LocalKeep(x0) => InstrV::Inc1LocalKeep(*x0),
            Instruction::Inc1Var(x0) => InstrV::Inc1Var(x0@),
            Instruction::Inc1VarKeep(x0) => InstrV::Inc1VarKeep(x0@),
            Instruction::Inc1LocalFromLocal { src: x0, dst: x1 } => InstrV::Inc1LocalFromLocal(*x0, *x1),
            Instruction::Inc1VarFromVar { src: x0, dst: x1 } => InstrV::Inc1VarFromVar(x0@, x1@),
        }
    }
}

impl Instruction {
    /// A copy of an instruction.
    pub fn copy(&self) -> (r: Instruction)
        ensures
            r@ == self@,
    {
        match self {
            Instruction::LoadConst(x0) => Instruction::LoadConst(x0.clone()),
            Instruction::LoadLocal(x0) => Instruction::LoadLocal(*x0),
            Instruction::LoadVar(x0) => Instruction::LoadVar(x0.clone()),
            Instruction::LoadCapture(x0) => Instruction::LoadCapture(*x0),
            Instruction::LoadSelf => Instruction::LoadSelf,
            Instruction::StoreLocal(x0) => Instruction::StoreLocal(*x0),
            Instruction::StoreLocalKeep(x0) => Instruction::StoreLocalKeep(*x0),
            Instruction::StoreVar(x0) => Instruction::StoreVar(x0.clone()),
            Instruction::StoreVarKeep(x0) => Instruction::StoreVarKeep(x0.clone()),
            Instruction::Pop => Instruction::Pop,
            Instruction::BinaryOp(x0) => Instruction::BinaryOp(*x0),
            Instruction::UnaryOp(x0) => Instruction::UnaryOp(*x0),
            Instruction::CmpChain(x0) => Instruction::CmpChain(x0.clone()),
            Instruction::MakeList(x0) => Instruction::MakeList(*x0),
            Instruction::MakeDict(x0) => Instruction::MakeDict(*x0),
            Instruction::MakeRange => Instruction::MakeRange,
            Instruction::Index => Instruction::Index,
            Instruction::IndexLoadLocal(x0) => Instruction::IndexLoadLocal(*x0),
            Instruction::IndexLoadVar(x0) => Instruction::IndexLoadVar(x0.clone()),
            Instruction::IndexAssign => Instruction::IndexAssign,
            Instruction::IndexAssignDrop => Instruction::IndexAssignDrop,
            Instruction::IndexAssignLocal(x0) => Instruction::IndexAssignLocal(*x0),
            Instruction::IndexAssignLocalDrop(x0) => Instruction::IndexAssignLocalDrop(*x0),
            Instruction::IndexAssignVar(x0) => Instruction::IndexAssignVar(x0.clone()),
            Instruction::IndexAssignVarDrop(x0) => Instruction::IndexAssignVarDrop(x0.clone()),
            Instruction::CallBuiltinId(x0, x1) => Instruction::CallBuiltinId(*x0, *x1),
            Instruction::CallUser(x0, x1) => Instruction::CallUser(x0.clone(), *x1),
            Instruction::CallLocal(x0, x1) => Instruction::CallLocal(*x0, *x1),
            Instruction::CallAnon(x0) => Instruction::CallAnon(*x0),
            Instruction::CallOrIndex(x0) => Instruction::CallOrIndex(*x0),
            Instruction::CallOrIndexLocal(x0, x1) => Instruction::CallOrIndexLocal(*x0, *x1),
            Instruction::CallOrIndexVar(x0, x1) => Instruction::CallOrIndexVar(x0.clone(), *x1),
            Instruction::Jump(x0) => Instruction::Jump(*x0),
            Instruction::JumpIfFalse(x0) => Instruction::JumpIfFalse(*x0),
            Instruction::JumpIfGE(x0) => Instruction::JumpIfGE(*x0),
            Instruction::JumpIfLEZLocal(x0, x1) => Instruction::JumpIfLEZLocal(*x0, *x1),
            Instruction::Try(x0) => Instruction::Try(*x0),
            Instruction::Return => Instruction::Return,
            Instruction::FloorDiv => Instruction::FloorDiv,
            Instruction::Inc1Local(x0) => Instruction::Inc1Local(*x0),
            Instruction::Inc1LocalKeep(x0) => Instruction::Inc1LocalKeep(*x0),
            Instruction::Inc1Var(x0) => Instruction::Inc1Var(x0.clone()),
            Instruction::Inc1VarKeep(x0) => Instruction::Inc1VarKeep(x0.clone()),
            Instruction::Inc1LocalFromLocal { src: x0, dst: x1 } => Instruction::Inc1LocalFromLocal { src: *x0, dst: *x1 },
            Instruction::Inc1VarFromVar { src: x0, dst: x1 } => Instruction::Inc1VarFromVar { src: x0.clone(), dst: x1.clone() },
        }
    }
}

} // verus!
