use wqpl::astnode::BinaryOperator;
use wqpl::builtin_table::FLOOR;
use wqpl::compiler::fuse::{fuse, fuse_once};
use wqpl::value::Value;
use wqpl::vm::instruction::Instruction;

#[test]
fn store_keep_then_pop_becomes_store() {
    let mut code = vec![Instruction::StoreLocalKeep(0), Instruction::Pop, Instruction::Return];
    assert!(fuse_once(&mut code));
    assert_eq!(code.len(), 2);
    assert!(matches!(code[0], Instruction::StoreLocal(0)));
    assert!(matches!(code[1], Instruction::Return));
}

#[test]
fn increments_are_fused() {
    let mut code = vec![
        Instruction::LoadLocal(2),
        Instruction::LoadConst(Value::Int(1)),
        Instruction::BinaryOp(BinaryOperator::Add),
        Instruction::StoreLocal(2),
        Instruction::LoadVar("a".to_string()),
        Instruction::LoadConst(Value::Int(1)),
        Instruction::BinaryOp(BinaryOperator::Add),
        Instruction::StoreVar("b".to_string()),
    ];
    fuse(&mut code);
    assert_eq!(code.len(), 2);
    assert!(matches!(code[0], Instruction::Inc1Local(2)));
    assert!(matches!(&code[1], Instruction::Inc1VarFromVar { src, dst } if src == "a" && dst == "b"));
}

#[test]
fn jumps_move_with_the_code() {
    let mut code = vec![
        Instruction::JumpIfFalse(3),
        Instruction::StoreLocalKeep(0),
        Instruction::Pop,
        Instruction::Return,
    ];
    assert!(fuse_once(&mut code));
    assert_eq!(code.len(), 3);
    assert!(matches!(code[0], Instruction::JumpIfFalse(2)));
    assert!(matches!(code[1], Instruction::StoreLocal(0)));
}

#[test]
fn jump_to_next_goes_and_compare_branch_fuses() {
    let mut code = vec![Instruction::Jump(1), Instruction::LoadLocal(0)];
    assert!(fuse_once(&mut code));
    assert_eq!(code.len(), 1);
    assert!(matches!(code[0], Instruction::LoadLocal(0)));
    let mut code = vec![
        Instruction::BinaryOp(BinaryOperator::LessThan),
        Instruction::JumpIfFalse(3),
        Instruction::Pop,
        Instruction::Return,
    ];
    assert!(fuse_once(&mut code));
    assert_eq!(code.len(), 3);
    assert!(matches!(code[0], Instruction::JumpIfGE(2)));
}

#[test]
fn floor_of_a_quotient_and_zero_test_fuse() {
    let mut code = vec![
        Instruction::BinaryOp(BinaryOperator::Divide),
        Instruction::CallBuiltinId(FLOOR, 1),
        Instruction::LoadLocal(1),
        Instruction::LoadConst(Value::Int(0)),
        Instruction::BinaryOp(BinaryOperator::GreaterThan),
        Instruction::JumpIfFalse(6),
        Instruction::Return,
    ];
    fuse(&mut code);
    assert_eq!(code.len(), 3);
    assert!(matches!(code[0], Instruction::FloorDiv));
    assert!(matches!(code[1], Instruction::JumpIfLEZLocal(1, 2)));
    assert!(matches!(code[2], Instruction::Return));
}

#[test]
fn nothing_to_fuse_leaves_the_code() {
    let mut code = vec![Instruction::LoadLocal(0), Instruction::Return];
    assert!(!fuse_once(&mut code));
    assert_eq!(code.len(), 2);
}
