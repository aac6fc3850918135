use wqpl::astnode::BinaryOperator;
use wqpl::interpreters::default::cmpchain::eval_cmp_chain;
use wqpl::value::Value;

#[test]
fn chain_all_true_scalar() {
    let ops = [BinaryOperator::LessThan, BinaryOperator::LessThanOrEqual];
    let values = [Value::Int(1), Value::Int(2), Value::Int(2)];
    let result = eval_cmp_chain(&ops, &values).expect("cmp chain result");
    assert_eq!(result, Value::Bool(true));
}

#[test]
fn chain_false_scalar() {
    let ops = [BinaryOperator::LessThan, BinaryOperator::LessThan];
    let values = [Value::Int(2), Value::Int(1), Value::Int(3)];
    let result = eval_cmp_chain(&ops, &values).expect("cmp chain result");
    assert_eq!(result, Value::Bool(false));
}

#[test]
fn chain_list_broadcast() {
    let ops = [BinaryOperator::LessThan, BinaryOperator::LessThan];
    let values = [
        Value::from_items(vec![Value::Int(1), Value::Int(3)]),
        Value::from_items(vec![Value::Int(2), Value::Int(2)]),
        Value::from_items(vec![Value::Int(3), Value::Int(4)]),
    ];
    let result = eval_cmp_chain(&ops, &values).expect("cmp chain result");
    assert_eq!(result, Value::List(vec![Value::Bool(true), Value::Bool(false)]));
}

#[test]
fn chain_scalar_with_list_broadcast() {
    let ops = [BinaryOperator::LessThan, BinaryOperator::LessThan];
    let values = [
        Value::Int(0),
        Value::from_items(vec![Value::Int(1), Value::Int(2)]),
        Value::Int(3),
    ];
    let result = eval_cmp_chain(&ops, &values).expect("cmp chain result");
    assert_eq!(result, Value::List(vec![Value::Bool(true), Value::Bool(true)]));
}
