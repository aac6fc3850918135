use wqpl::builtins::core_builtins;
use wqpl::builtins::list::{find, shape};
use wqpl::builtins::mat::transpose;
use wqpl::builtins::list_gen::{alloc_zeros, iota, reshape, till, wq_where};
use wqpl::builtins::type_builtins;
use wqpl::builtins::typeb;
use wqpl::builtins::wq_type;
use wqpl::value::{str_value_of, Value};

#[test]
fn core_chr_single_int() {
    let result = core_builtins::chr(&[Value::Int(65)]).unwrap();
    assert_eq!(result, Value::Char('A'));
}

#[test]
fn core_chr_int_list() {
    let result = core_builtins::chr(&[Value::IntList(vec![65, 66])]).unwrap();
    assert_eq!(result, Value::List(vec![Value::Char('A'), Value::Char('B')]));
}

#[test]
fn core_ord_single_char() {
    let result = core_builtins::ord(&[Value::Char('A')]).unwrap();
    assert_eq!(result, Value::Int(65));
}

#[test]
fn core_ord_char_list() {
    let input = Value::List(vec![Value::Char('A'), Value::Char('B')]);
    let result = core_builtins::ord(&[input]).unwrap();
    assert_eq!(result, Value::IntList(vec![65, 66]));
}

#[test]
fn typeb_symbol_accepts_question_mark() {
    let val = Value::List("a?".chars().map(Value::Char).collect());
    let result = typeb::to_symbol(&[val]).unwrap();
    assert_eq!(result, Value::Symbol("a?".to_string()));
}

#[test]
fn typeb_chr_single_int() {
    let result = typeb::chr(&[Value::Int(65)]).unwrap();
    assert_eq!(result, Value::Char('A'));
}

#[test]
fn typeb_chr_int_list() {
    let result = typeb::chr(&[Value::IntList(vec![65, 66])]).unwrap();
    assert_eq!(result, Value::List(vec![Value::Char('A'), Value::Char('B')]));
}

#[test]
fn typeb_ord_single_char() {
    let result = typeb::ord(&[Value::Char('A')]).unwrap();
    assert_eq!(result, Value::Int(65));
}

#[test]
fn typeb_ord_char_list() {
    let input = Value::List(vec![Value::Char('A'), Value::Char('B')]);
    let result = typeb::ord(&[input]).unwrap();
    assert_eq!(result, Value::IntList(vec![65, 66]));
}

#[test]
fn type_builtins_symbol_accepts_question_mark() {
    let val = Value::List("a?".chars().map(Value::Char).collect());
    let result = type_builtins::to_symbol(&[val]).unwrap();
    assert_eq!(result, Value::Symbol("a?".to_string()));
}

#[test]
fn wq_type_symbol_accepts_question_mark() {
    let val = str_value_of("a?");
    let result = wq_type::to_symbol(&[val]).unwrap();
    assert_eq!(result, Value::Symbol("a?".to_string()));
}

#[test]
fn counts_as_atom() {
    let val = Value::List(vec![Value::Int(1)]);
    let result = wq_type::is_atom(&[val]).unwrap();
    assert_eq!(result, Value::Bool(false));
}

#[test]
fn chr_out_of_range_is_an_error() {
    assert!(core_builtins::chr(&[Value::Int(-1)]).is_err());
    assert!(core_builtins::chr(&[Value::Int(0xD800)]).is_err());
    assert!(core_builtins::chr(&[]).is_err());
}

#[test]
fn hex_oct_bin_of_negative() {
    assert_eq!(core_builtins::hex(&[Value::Int(-255)]).unwrap(), str_value_of("-0xff"));
    assert_eq!(core_builtins::hex(&[Value::Bool(false), Value::Int(-255)]).unwrap(), str_value_of("-ff"));
    assert_eq!(core_builtins::oct(&[Value::Bool(false), Value::Int(8)]).unwrap(), str_value_of("10"));
    assert_eq!(core_builtins::bin(&[Value::Bool(false), Value::Int(5)]).unwrap(), str_value_of("101"));
    assert_eq!(core_builtins::bin(&[Value::Bool(false), Value::Int(0)]).unwrap(), str_value_of("0"));
    assert!(core_builtins::hex(&[Value::Int(1), Value::Int(2)]).is_err());
}

#[test]
fn empty_symbol_is_an_error() {
    let val = Value::List(vec![]);
    assert!(wq_type::to_symbol(&[val]).is_err());
    let sym = Value::Symbol("x".to_string());
    assert_eq!(wq_type::to_symbol(&[sym.clone()]).unwrap(), sym);
}

// shape ---------------------------------------------------------------------

#[test]
fn shape_scalar() {
    assert_eq!(shape(&[Value::Int(42)]).unwrap(), Value::IntList(vec![]));
}

#[test]
fn shape_atoms_and_empty() {
    assert_eq!(shape(&[Value::Int(5)]).unwrap(), Value::IntList(vec![]));
    assert_eq!(shape(&[Value::Char('a')]).unwrap(), Value::IntList(vec![]));
    assert_eq!(shape(&[Value::List(vec![])]).unwrap(), Value::IntList(vec![0]));
}

#[test]
fn shape_string_and_mixed_list() {
    let s = Value::List(vec![Value::Char('h'), Value::Char('i')]);
    assert_eq!(shape(std::slice::from_ref(&s)).unwrap(), Value::IntList(vec![2]));
    let mixed = Value::List(vec![Value::Char('h'), Value::Int(2)]);
    assert_eq!(shape(&[mixed]).unwrap(), Value::IntList(vec![2]));
}

// find ----------------------------------------------------------------------

fn inf() -> Value {
    Value::Float("inf".to_string())
}

#[test]
fn test_find_basic() {
    let list = Value::List(vec![Value::Int(1), Value::Int(2), Value::Int(3), Value::Int(2)]);
    let result = find(&[Value::Int(2), list]).unwrap();
    assert_eq!(result, Value::IntList(vec![1]));

    let list = Value::List(vec![Value::Int(1), Value::Int(2), Value::Int(3)]);
    let result = find(&[Value::Int(5), list]).unwrap();
    assert_eq!(result, Value::unit());
}

#[test]
fn test_find_with_threshold() {
    let list = Value::List(vec![Value::Int(2), Value::Int(3), Value::Int(2), Value::Int(2)]);
    let result = find(&[Value::Int(2), Value::Int(2), list]).unwrap();
    assert_eq!(result, Value::List(vec![Value::IntList(vec![0]), Value::IntList(vec![2])]));

    let list = Value::List(vec![Value::Int(2), Value::Int(3), Value::Int(2), Value::Int(2)]);
    let result = find(&[Value::Int(2), inf(), list]).unwrap();
    assert_eq!(
        result,
        Value::List(vec![
            Value::IntList(vec![0]),
            Value::IntList(vec![2]),
            Value::IntList(vec![3])
        ])
    );
}

#[test]
fn test_find_nested() {
    let nested = Value::List(vec![
        Value::Int(2),
        Value::List(vec![Value::Int(2), Value::Int(3)]),
        Value::List(vec![Value::List(vec![Value::Int(4), Value::Int(5)]), Value::Int(6)]),
    ]);
    let result = find(&[Value::Int(2), nested.clone()]).unwrap();
    assert_eq!(result, Value::IntList(vec![0]));

    let result = find(&[Value::Int(2), inf(), Value::Int(2), nested.clone()]).unwrap();
    assert_eq!(result, Value::List(vec![Value::IntList(vec![0]), Value::IntList(vec![1, 0])]));
}

#[test]
fn test_find_intlist() {
    let list = Value::IntList(vec![1, 2, 3, 2, 4]);
    let result = find(&[Value::Int(2), inf(), list]).unwrap();
    assert_eq!(result, Value::List(vec![Value::IntList(vec![1]), Value::IntList(vec![3])]));
}

#[test]
fn test_find_sublist() {
    let target = Value::List(vec![Value::Int(2), Value::Int(3)]);
    let list = Value::List(vec![
        Value::List(vec![Value::Int(1), Value::Int(2)]),
        Value::List(vec![Value::Int(2), Value::Int(3)]),
    ]);
    let result = find(&[target.clone(), list]).unwrap();
    assert_eq!(result, Value::IntList(vec![1]));

    let list = Value::List(vec![
        Value::List(vec![Value::Int(2), Value::Int(3)]),
        Value::Int(5),
        Value::List(vec![Value::Int(2), Value::Int(3)]),
    ]);
    let result = find(&[target.clone(), inf(), list]).unwrap();
    assert_eq!(result, Value::List(vec![Value::IntList(vec![0]), Value::IntList(vec![2])]));

    let nested = Value::List(vec![
        Value::Int(1),
        Value::List(vec![Value::List(vec![Value::Int(2), Value::Int(3)]), Value::Int(4)]),
    ]);
    let result = find(&[target.clone(), inf(), Value::Int(2), nested]).unwrap();
    assert_eq!(result, Value::IntList(vec![1, 0]));
}

// transpose -----------------------------------------------------------------

fn il(v: &[i64]) -> Value {
    Value::IntList(v.to_vec())
}

fn mat(rows: &[&[i64]]) -> Value {
    let rs: Vec<Value> = rows.iter().map(|r| il(r)).collect();
    Value::List(rs)
}

#[test]
fn transpose_atom() {
    let atom = Value::Int(42);
    let res = transpose(std::slice::from_ref(&atom)).expect("transpose atom");
    assert_eq!(res, atom);
}

#[test]
fn transpose_vector() {
    let vec = il(&[1, 2, 3, 4, 5]);
    let res = transpose(std::slice::from_ref(&vec)).expect("transpose vector");
    assert_eq!(res, vec);
}

#[test]
fn transpose_2x3_matrix() {
    let m = mat(&[&[1, 2, 3], &[4, 5, 6]]);
    let res = transpose(&[m]).expect("transpose 2x3");
    let expect = mat(&[&[1, 4], &[2, 5], &[3, 6]]);
    assert_eq!(res, expect);
}

#[test]
fn transpose_square_matrix() {
    let m = mat(&[&[1, 2], &[3, 4]]);
    let res = transpose(&[m]).expect("transpose square");
    let expect = mat(&[&[1, 3], &[2, 4]]);
    assert_eq!(res, expect);
}

#[test]
fn transpose_double_transpose() {
    let m = mat(&[&[1, 2, 3], &[4, 5, 6]]);
    let t1 = transpose(std::slice::from_ref(&m)).expect("first transpose");
    let t2 = transpose(&[t1]).expect("second transpose");
    assert_eq!(t2, m);
}

#[test]
fn transpose_3d_array() {
    let m0 = mat(&[&[1, 2, 3], &[4, 5, 6]]);
    let m1 = mat(&[&[7, 8, 9], &[10, 11, 12]]);
    let arr = Value::List(vec![m0, m1]);
    let res = transpose(&[arr]).expect("transpose 3d");
    let exp0 = mat(&[&[1, 4], &[2, 5], &[3, 6]]);
    let exp1 = mat(&[&[7, 10], &[8, 11], &[9, 12]]);
    assert_eq!(res, Value::List(vec![exp0, exp1]));
}

#[test]
fn transpose_4d_array() {
    let m00 = mat(&[&[1, 2], &[3, 4]]);
    let m01 = mat(&[&[5, 6], &[7, 8]]);
    let b0 = Value::List(vec![m00, m01]);
    let m10 = mat(&[&[9, 10], &[11, 12]]);
    let m11 = mat(&[&[13, 14], &[15, 16]]);
    let b1 = Value::List(vec![m10, m11]);
    let arr = Value::List(vec![b0, b1]);
    let res = transpose(&[arr]).expect("transpose 4d");
    let exp00 = mat(&[&[1, 3], &[2, 4]]);
    let exp01 = mat(&[&[5, 7], &[6, 8]]);
    let expb0 = Value::List(vec![exp00, exp01]);
    let exp10 = mat(&[&[9, 11], &[10, 12]]);
    let exp11 = mat(&[&[13, 15], &[14, 16]]);
    let expb1 = Value::List(vec![exp10, exp11]);
    assert_eq!(res, Value::List(vec![expb0, expb1]));
}

#[test]
fn transpose_single_row() {
    let m = mat(&[&[1, 2, 3]]);
    let res = transpose(&[m]).expect("transpose single row");
    assert_eq!(res, mat(&[&[1], &[2], &[3]]));
}

#[test]
fn transpose_single_col() {
    let m = mat(&[&[1], &[2], &[3]]);
    let res = transpose(&[m]).expect("transpose single col");
    assert_eq!(res, mat(&[&[1, 2, 3]]));
}

#[test]
fn transpose_ragged_matrix_is_an_error() {
    let m = Value::List(vec![il(&[1, 2]), il(&[3])]);
    assert!(transpose(&[m]).is_err());
}

// list generators -----------------------------------------------------------

#[test]
fn shape_and_alloc() {
    let vec = alloc_zeros(&[Value::Int(3)]).unwrap();
    assert_eq!(vec, Value::IntList(vec![0, 0, 0]));
    assert_eq!(shape(&[vec]).unwrap(), Value::IntList(vec![3]));

    let mat_shape = Value::List(vec![Value::Int(2), Value::Int(3)]);
    let mat = alloc_zeros(std::slice::from_ref(&mat_shape)).unwrap();
    assert_eq!(shape(&[mat]).unwrap(), Value::IntList(vec![2, 3]));

    let invalid_shape = Value::List(vec![Value::List(vec![Value::Int(2), Value::Int(2)])]);
    let invalid = alloc_zeros(std::slice::from_ref(&invalid_shape));
    assert!(invalid.is_err());
}

#[test]
fn ints_empty_shape() {
    assert_eq!(till(&[Value::List(vec![])]).unwrap(), Value::Int(0));
}

#[test]
fn iota_zero() {
    assert_eq!(iota(&[Value::Int(0)]).unwrap(), Value::IntList(vec![]));
}

#[test]
fn till_counts_in_row_major_order() {
    assert_eq!(till(&[Value::Int(4)]).unwrap(), Value::IntList(vec![0, 1, 2, 3]));
    let r = till(&[Value::IntList(vec![2, 3])]).unwrap();
    assert_eq!(r, Value::List(vec![Value::IntList(vec![0, 1, 2]), Value::IntList(vec![3, 4, 5])]));
    assert!(till(&[Value::Int(-1)]).is_err());
}

#[test]
fn iota_gives_coordinates() {
    let r = iota(&[Value::IntList(vec![2, 2])]).unwrap();
    assert_eq!(
        r,
        Value::List(vec![
            Value::List(vec![Value::IntList(vec![0, 0]), Value::IntList(vec![0, 1])]),
            Value::List(vec![Value::IntList(vec![1, 0]), Value::IntList(vec![1, 1])]),
        ])
    );
}

#[test]
fn reshape_takes_atoms_round() {
    let r = reshape(&[Value::IntList(vec![2, 2]), Value::IntList(vec![1, 2, 3])]).unwrap();
    assert_eq!(r, Value::List(vec![Value::IntList(vec![1, 2]), Value::IntList(vec![3, 1])]));
    let z = reshape(&[Value::Int(2), Value::List(vec![])]).unwrap();
    assert_eq!(z, Value::IntList(vec![0, 0]));
    assert!(reshape(&[Value::Int(-2), Value::Int(1)]).is_err());
}

#[test]
fn where_on_nested_bool_matrix() {
    let mat = Value::List(vec![
        Value::List(vec![Value::Bool(true), Value::Bool(false), Value::Bool(false)]),
        Value::List(vec![Value::Bool(false), Value::Bool(true), Value::Bool(false)]),
        Value::List(vec![Value::Bool(false), Value::Bool(false), Value::Bool(true)]),
    ]);
    let res = wq_where(&[mat]).unwrap();
    assert_eq!(
        res,
        Value::List(vec![
            Value::IntList(vec![0, 0]),
            Value::IntList(vec![1, 1]),
            Value::IntList(vec![2, 2]),
        ])
    );
}

#[test]
fn where_on_flat_lists() {
    assert_eq!(wq_where(&[Value::IntList(vec![0, 3, 0, -1])]).unwrap(), Value::IntList(vec![1, 3]));
    let l = Value::List(vec![Value::Bool(false), Value::Int(2), Value::Bool(true)]);
    assert_eq!(wq_where(&[l]).unwrap(), Value::IntList(vec![1, 2]));
    let nested = Value::List(vec![Value::IntList(vec![0, 1]), Value::Int(1)]);
    assert_eq!(wq_where(&[nested]).unwrap(), Value::List(vec![Value::IntList(vec![0, 1]), Value::Int(1)]));
}

#[test]
fn where_reports_the_path_of_a_bad_leaf() {
    let bad = Value::List(vec![Value::IntList(vec![1]), Value::List(vec![Value::Int(0), Value::Char('x')])]);
    let e = wq_where(&[bad]).unwrap_err();
    assert_eq!(e.notes[1], "unexpected char at path [1][1]");
    assert!(wq_where(&[Value::Char('x')]).is_err());
}

#[test]
fn int_builtin_parses_bigint() {
    let big = num_bigint::BigInt::from(i64::MAX) + num_bigint::BigInt::from(1);
    let value = str_value_of(&big.to_string());
    let result = core_builtins::to_int(&[value]).unwrap();
    match result {
        Value::BigInt(n) => assert_eq!(n, big),
        other => panic!("expected bigint result, got {other:?}"),
    }
}

#[test]
fn int_reads_signs_prefixes_and_underscores() {
    assert_eq!(core_builtins::to_int(&[str_value_of(" -0x1_F "), Value::Int(16)]).unwrap(), Value::Int(-31));
    assert_eq!(core_builtins::to_int(&[str_value_of("1_000")]).unwrap(), Value::Int(1000));
    assert_eq!(core_builtins::to_int(&[str_value_of("0x1F")]).unwrap_err().msg, "expected valid int literal");
    assert_eq!(core_builtins::to_int(&[str_value_of("0x1F"), Value::Int(16)]).unwrap(), Value::Int(31));
    assert_eq!(core_builtins::to_int(&[str_value_of("--5")]).unwrap(), Value::Int(5));
    assert_eq!(core_builtins::to_int(&[str_value_of("   ")]).unwrap(), Value::unit());
    assert!(core_builtins::to_int(&[str_value_of("+")]).is_err());
    assert!(core_builtins::to_int(&[Value::Int(3), Value::Int(10)]).is_err());
    assert!(core_builtins::to_int(&[str_value_of("1"), Value::Int(37)]).is_err());
    assert_eq!(core_builtins::to_int(&[Value::Int(7)]).unwrap(), Value::Int(7));
    assert_eq!(core_builtins::to_int(&[str_value_of("-9223372036854775808")]).unwrap(), Value::Int(i64::MIN));
}
