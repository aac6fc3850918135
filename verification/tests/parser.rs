use wqpl::error::WqResult;
use wqpl::lexer::Lexer;
use wqpl::parser::{AstNode, BinaryOperator, Parser};
use wqpl::resolver::Resolver;
use wqpl::value::Value;

fn parse_string(input: &str) -> WqResult<AstNode> {
    let mut lexer = Lexer::new(input);
    let tokens = lexer.tokenize()?;
    let mut parser = Parser::new(tokens, input.to_string());
    let ast = parser.parse()?;
    let mut resolver = Resolver::new();
    Ok(resolver.resolve(ast))
}

#[test]
fn test_parse_literal() {
    let ast = parse_string("42").unwrap();
    assert_eq!(ast, AstNode::Literal(Value::Int(42)));
}

#[test]
fn test_parse_binary_op() {
    let ast = parse_string("1+2").unwrap();
    assert_eq!(
        ast,
        AstNode::BinaryOp {
            left: Box::new(AstNode::Literal(Value::Int(1))),
            operator: BinaryOperator::Add,
            right: Box::new(AstNode::Literal(Value::Int(2))),
        }
    );
}

#[test]
fn test_parse_assignment() {
    let ast = parse_string("x:42").unwrap();
    assert_eq!(
        ast,
        AstNode::Assignment {
            name: "x".to_string(),
            value: Box::new(AstNode::Literal(Value::Int(42))),
        }
    );
}

#[test]
fn test_parse_index_assignment() {
    let ast = parse_string("a[1]:3").unwrap();
    assert_eq!(
        ast,
        AstNode::IndexAssign {
            object: Box::new(AstNode::Variable("a".into())),
            index: Box::new(AstNode::Literal(Value::Int(1))),
            value: Box::new(AstNode::Literal(Value::Int(3))),
        }
    );
}

#[test]
fn test_parse_list() {
    let ast = parse_string("(1;2;3)").unwrap();
    assert_eq!(
        ast,
        AstNode::List(vec![
            AstNode::Literal(Value::Int(1)),
            AstNode::Literal(Value::Int(2)),
            AstNode::Literal(Value::Int(3)),
        ])
    );
}

#[test]
fn test_parse_string_literal() {
    let ast = parse_string("\"ab\"").unwrap();
    assert_eq!(
        ast,
        AstNode::Literal(Value::List(vec![Value::Char('a'), Value::Char('b')]))
    );
}

#[test]
fn parser_test_operator_precedence() {
    let ast = parse_string("1+2*3").unwrap();
    assert_eq!(
        ast,
        AstNode::BinaryOp {
            left: Box::new(AstNode::Literal(Value::Int(1))),
            operator: BinaryOperator::Add,
            right: Box::new(AstNode::BinaryOp {
                left: Box::new(AstNode::Literal(Value::Int(2))),
                operator: BinaryOperator::Multiply,
                right: Box::new(AstNode::Literal(Value::Int(3))),
            }),
        }
    );
}

#[test]
fn test_addition_before_comparison() {
    let ast = parse_string("3+2<10").unwrap();
    assert_eq!(
        ast,
        AstNode::BinaryOp {
            left: Box::new(AstNode::BinaryOp {
                left: Box::new(AstNode::Literal(Value::Int(3))),
                operator: BinaryOperator::Add,
                right: Box::new(AstNode::Literal(Value::Int(2))),
            }),
            operator: BinaryOperator::LessThan,
            right: Box::new(AstNode::Literal(Value::Int(10))),
        }
    );
}

#[test]
fn test_function_with_assignment_block() {
    let ast = parse_string("f:{x:1;x+1}").unwrap();
    assert_eq!(
        ast,
        AstNode::Assignment {
            name: "f".into(),
            value: Box::new(AstNode::Function {
                params: None,
                body: Box::new(AstNode::Block(vec![
                    AstNode::Assignment {
                        name: "x".into(),
                        value: Box::new(AstNode::Literal(Value::Int(1))),
                    },
                    AstNode::BinaryOp {
                        left: Box::new(AstNode::Variable("x".into())),
                        operator: BinaryOperator::Add,
                        right: Box::new(AstNode::Literal(Value::Int(1))),
                    },
                ])),
            }),
        }
    );
}

#[test]
fn test_recursive_function_def() {
    let ast = parse_string("a:{a[]}").unwrap();
    assert_eq!(
        ast,
        AstNode::Assignment {
            name: "a".into(),
            value: Box::new(AstNode::Function {
                params: None,
                body: Box::new(AstNode::Call {
                    name: "a".into(),
                    args: vec![],
                }),
            }),
        }
    );
}

#[test]
fn test_parse_while() {
    let ast = parse_string("W[x<3;x:1]").unwrap();
    assert!(matches!(ast, AstNode::WhileLoop { .. }));
}

#[test]
fn test_parse_for() {
    let ast = parse_string("N[3;x:1]").unwrap();
    assert!(matches!(ast, AstNode::ForLoop { .. }));
}

#[test]
fn test_multiline_list() {
    let ast = parse_string("(1;2;\n3;4;\n5)").unwrap();
    assert_eq!(
        ast,
        AstNode::List(vec![
            AstNode::Literal(Value::Int(1)),
            AstNode::Literal(Value::Int(2)),
            AstNode::Literal(Value::Int(3)),
            AstNode::Literal(Value::Int(4)),
            AstNode::Literal(Value::Int(5)),
        ])
    );
}

#[test]
fn test_multiline_dict() {
    let ast = parse_string("(`a:1;\n`b:9;\n)").unwrap();
    assert_eq!(
        ast,
        AstNode::Dict(vec![
            ("a".into(), AstNode::Literal(Value::Int(1))),
            ("b".into(), AstNode::Literal(Value::Int(9))),
        ])
    );
}

#[test]
fn test_multiline_if() {
    let ast = parse_string("$[true;\n1;\n2]").unwrap();
    assert!(matches!(ast, AstNode::Conditional { .. }));
}

#[test]
fn test_multiline_while() {
    let ast = parse_string("W[true;\necho n;\n]").unwrap();
    assert!(matches!(ast, AstNode::WhileLoop { .. }));
}

#[test]
fn test_multiline_for() {
    let ast = parse_string("N[3;\necho n\n]").unwrap();
    assert!(matches!(ast, AstNode::ForLoop { .. }));
}

#[test]
fn test_comments_in_bodies() {
    assert!(parse_string("{1; //c\n2}").is_ok());
    assert!(parse_string("N[2;1;//c\n]").is_ok());
    assert!(parse_string("$[true;1;//c\n2]").is_ok());
}

#[test]
fn assignment_to_builtin_name_is_refused() {
    assert!(parse_string("len:3").is_err());
}

#[test]
fn unclosed_list_is_a_syntax_error() {
    assert!(parse_string("(1;2").is_err());
}
