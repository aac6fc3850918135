//! The grammar of wq as functions on token kinds: what the parser returns for each input.
//!
//! Each `*_v` function takes the token kinds and a position and says what the parser
//! function of the same name returns from there: a tree (or items) with the position after
//! it, or the kind of the error. Loops of the parser are recursive helpers that carry the
//! position where their function started. A few branches test that positions grew, which
//! they always do; those branches only serve to show that the definitions terminate.

use vstd::prelude::*;
use crate::builtins::name_id_v;
use crate::error::WqErrorType;
use crate::parser::{AstNode, BinaryOperator, UnaryOperator};
use crate::token::{tk_tag, Tk};
use crate::value::{char_vals, model, Val};

verus! {

// Variant indices of token kinds (see `tk_tag`).
pub const T_INTEGER: u8 = 0;
pub const T_FLOAT: u8 = 2;
pub const T_CHARACTER: u8 = 3;
pub const T_STRING: u8 = 4;
pub const T_SYMBOL: u8 = 5;
pub const T_IDENTIFIER: u8 = 6;
pub const T_COMMENT: u8 = 7;
pub const T_TRUE: u8 = 8;
pub const T_FALSE: u8 = 9;
pub const T_PLUS: u8 = 12;
pub const T_MINUS: u8 = 13;
pub const T_MULTIPLY: u8 = 14;
pub const T_DIVIDE: u8 = 16;
pub const T_DIVIDE_DOT: u8 = 17;
pub const T_MODULO: u8 = 18;
pub const T_MODULO_DOT: u8 = 19;
pub const T_POWER: u8 = 20;
pub const T_COLON: u8 = 21;
pub const T_EQUAL: u8 = 22;
pub const T_NOT_EQUAL: u8 = 23;
pub const T_LESS: u8 = 24;
pub const T_LESS_EQUAL: u8 = 25;
pub const T_GREATER: u8 = 26;
pub const T_GREATER_EQUAL: u8 = 27;
pub const T_SHARP: u8 = 28;
pub const T_DOLLAR: u8 = 30;
pub const T_DOLLAR_DOT: u8 = 31;
pub const T_LEFT_PAREN: u8 = 41;
pub const T_RIGHT_PAREN: u8 = 42;
pub const T_LEFT_BRACKET: u8 = 43;
pub const T_RIGHT_BRACKET: u8 = 44;
pub const T_LEFT_BRACE: u8 = 45;
pub const T_RIGHT_BRACE: u8 = 46;
pub const T_SEMICOLON: u8 = 47;
pub const T_COMMA: u8 = 48;
pub const T_NEWLINE: u8 = 51;
pub const T_EOF: u8 = 52;

/// The mathematical model of a syntax tree.
pub enum Ast {
    Lit(Val),
    Var(Seq<char>),
    Bin(Box<Ast>, BinaryOperator, Box<Ast>),
    Un(UnaryOperator, Box<Ast>),
    Assign(Seq<char>, Box<Ast>),
    List(Seq<Ast>),
    Dict(Seq<(Seq<char>, Ast)>),
    Postfix(Box<Ast>, Seq<Ast>, bool),
    Call(Seq<char>, Seq<Ast>),
    CallAnon(Box<Ast>, Seq<Ast>),
    Index(Box<Ast>, Box<Ast>),
    IndexAssign(Box<Ast>, Box<Ast>, Box<Ast>),
    Function(Option<Seq<Seq<char>>>, Box<Ast>),
    Cond(Box<Ast>, Box<Ast>, Option<Box<Ast>>),
    While(Box<Ast>, Box<Ast>),
    For(Box<Ast>, Box<Ast>),
    Break,
    Continue,
    Return(Option<Box<Ast>>),
    Assert(Box<Ast>),
    Try(Box<Ast>),
    Block(Seq<Ast>),
}

/// The model of a syntax tree.
pub open spec fn ast_of(n: AstNode) -> Ast
    decreases n, 1int,
{
    match n {
        AstNode::Literal(v) => Ast::Lit(model(v)),
        AstNode::Variable(s) => Ast::Var(s@),
        AstNode::BinaryOp { left, operator, right } => Ast::Bin(
            Box::new(ast_of(*left)),
            operator,
            Box::new(ast_of(*right)),
        ),
        AstNode::UnaryOp { operator, operand } => Ast::Un(operator, Box::new(ast_of(*operand))),
        AstNode::Assignment { name, value } => Ast::Assign(name@, Box::new(ast_of(*value))),
        AstNode::List(items) => Ast::List(asts_of(items@)),
        AstNode::Dict(entries) => Ast::Dict(entries_of(entries@)),
        AstNode::Postfix { object, items, explicit_call } => Ast::Postfix(
            Box::new(ast_of(*object)),
            asts_of(items@),
            explicit_call,
        ),
        AstNode::Call { name, args } => Ast::Call(name@, asts_of(args@)),
        AstNode::CallAnonymous { object, args } => Ast::CallAnon(
            Box::new(ast_of(*object)),
            asts_of(args@),
        ),
        AstNode::Index { object, index } => Ast::Index(
            Box::new(ast_of(*object)),
            Box::new(ast_of(*index)),
        ),
        AstNode::IndexAssign { object, index, value } => Ast::IndexAssign(
            Box::new(ast_of(*object)),
            Box::new(ast_of(*index)),
            Box::new(ast_of(*value)),
        ),
        AstNode::Function { params, body } => Ast::Function(
            match params {
                Some(ps) => Some(ps@.map_values(|p: String| p@)),
                None => None,
            },
            Box::new(ast_of(*body)),
        ),
        AstNode::Conditional { condition, true_branch, false_branch } => Ast::Cond(
            Box::new(ast_of(*condition)),
            Box::new(ast_of(*true_branch)),
            match false_branch {
                Some(f) => Some(Box::new(ast_of(*f))),
                None => None,
            },
        ),
        AstNode::WhileLoop { condition, body } => Ast::While(
            Box::new(ast_of(*condition)),
            Box::new(ast_of(*body)),
        ),
        AstNode::ForLoop { count, body } => Ast::For(
            Box::new(ast_of(*count)),
            Box::new(ast_of(*body)),
        ),
        AstNode::Break => Ast::Break,
        AstNode::Continue => Ast::Continue,
        AstNode::Return(e) => Ast::Return(
            match e {
                Some(x) => Some(Box::new(ast_of(*x))),
                None => None,
            },
        ),
        AstNode::Assert(e) => Ast::Assert(Box::new(ast_of(*e))),
        AstNode::Try(e) => Ast::Try(Box::new(ast_of(*e))),
        AstNode::Block(stmts) => Ast::Block(asts_of(stmts@)),
    }
}

/// The models of a sequence of syntax trees.
pub open spec fn asts_of(s: Seq<AstNode>) -> Seq<Ast>
    decreases s, 0int,
{
    Seq::new(s.len(), |k: int| if 0 <= k < s.len() { ast_of(s[k]) } else { Ast::Break })
}

/// The models of the entries of a dictionary.
pub open spec fn entries_of(s: Seq<(String, AstNode)>) -> Seq<(Seq<char>, Ast)>
    decreases s, 0int,
{
    Seq::new(
        s.len(),
        |k: int|
            if 0 <= k < s.len() {
                (s[k].0@, ast_of(s[k].1))
            } else {
                (Seq::empty(), Ast::Break)
            },
    )
}

/// What a parsing step gives: a result and the position after it, or the kind of the error.
pub enum Step<T> {
    Done(T, int),
    Fail(WqErrorType),
}

/// The variant index of the token at `i`; the end-of-input index past the last token.
pub open spec fn tag(ts: Seq<Tk>, i: int) -> int {
    if 0 <= i < ts.len() {
        tk_tag(ts[i])
    } else {
        T_EOF as int
    }
}

/// The position after the newlines (when `nl`) and comments (when `com`) at `i`.
pub open spec fn skip_trivia(ts: Seq<Tk>, i: int, nl: bool, com: bool) -> int
    decreases ts.len() - i,
{
    if 0 <= i < ts.len() && ((tag(ts, i) == T_NEWLINE && nl) || (tag(ts, i) == T_COMMENT && com)) {
        skip_trivia(ts, i + 1, nl, com)
    } else {
        i
    }
}

/// The position after the `;`, newlines and comments at `i`.
pub open spec fn skip_separators(ts: Seq<Tk>, i: int) -> int
    decreases ts.len() - i,
{
    let t = tag(ts, i);
    if 0 <= i < ts.len() && (t == T_SEMICOLON || t == T_NEWLINE || t == T_COMMENT) {
        skip_separators(ts, i + 1)
    } else {
        i
    }
}

/// A token of the variant `t` at `i`.
pub open spec fn consume_v(ts: Seq<Tk>, i: int, t: int) -> Step<()> {
    if i >= ts.len() {
        Step::Fail(WqErrorType::Eof)
    } else if tag(ts, i) == t {
        Step::Done((), i + 1)
    } else {
        Step::Fail(WqErrorType::Syntax)
    }
}

/// A `;`, after newlines and comments.
pub open spec fn semicolon_v(ts: Seq<Tk>, i: int) -> Step<()> {
    let k = skip_trivia(ts, i, true, true);
    if tag(ts, k) == T_SEMICOLON {
        Step::Done((), k + 1)
    } else if tag(ts, k) == T_EOF {
        Step::Fail(WqErrorType::Eof)
    } else {
        Step::Fail(WqErrorType::Syntax)
    }
}

/// A `;`, or a newline after comments; then newlines and comments.
pub open spec fn control_separator_v(ts: Seq<Tk>, i: int) -> Step<()> {
    if tag(ts, i) == T_SEMICOLON {
        Step::Done((), skip_trivia(ts, i + 1, true, true))
    } else {
        let k = skip_trivia(ts, i, false, true);
        if tag(ts, k) == T_NEWLINE {
            Step::Done((), skip_trivia(ts, k + 1, true, true))
        } else if tag(ts, k) == T_EOF {
            Step::Fail(WqErrorType::Eof)
        } else {
            Step::Fail(WqErrorType::Syntax)
        }
    }
}

/// The position after the newlines, comments and (unless `semicolon_ends`) `;` that follow a
/// statement of a branch.
pub open spec fn branch_gap(ts: Seq<Tk>, i: int, semicolon_ends: bool) -> int
    decreases ts.len() - i,
{
    let a = skip_trivia(ts, i, false, true);
    if (tag(ts, a) == T_NEWLINE || (tag(ts, a) == T_SEMICOLON && !semicolon_ends)) && i <= a {
        branch_gap(ts, a + 1, semicolon_ends)
    } else {
        a
    }
}

/// One statement as it is; several as a block.
pub open spec fn block_of(stmts: Seq<Ast>) -> Ast {
    if stmts.len() == 1 {
        stmts[0]
    } else {
        Ast::Block(stmts)
    }
}

/// One element as it is; several as a list.
pub open spec fn list_of(items: Seq<Ast>) -> Ast {
    if items.len() == 1 {
        items[0]
    } else {
        Ast::List(items)
    }
}

/// The text of a float with the opposite sign.
pub open spec fn negated_text(s: Seq<char>) -> Seq<char> {
    if s.len() > 0 && s[0] == '-' {
        s.drop_first()
    } else {
        seq!['-'].add(s)
    }
}

/// A tree with a minus applied: integer and float literals are negated in place (but the
/// least integer, which has no opposite).
pub open spec fn negated(node: Ast) -> Ast {
    match node {
        Ast::Lit(Val::Int(n)) => if n != i64::MIN {
            Ast::Lit(Val::Int((-n) as i64))
        } else {
            Ast::Un(UnaryOperator::Negate, Box::new(node))
        },
        Ast::Lit(Val::Float(f)) => Ast::Lit(Val::Float(negated_text(f))),
        _ => Ast::Un(UnaryOperator::Negate, Box::new(node)),
    }
}

/// The prefix operators at `i`: each `-` flips a pending negation, and a `#` is applied after
/// the pending negation. Gives the operators (outermost first), whether a negation is still
/// pending, and the position after them.
pub open spec fn prefix_ops(ts: Seq<Tk>, i: int, ops: Seq<UnaryOperator>, neg: bool) -> (
    Seq<UnaryOperator>,
    bool,
    int,
)
    decreases ts.len() - i,
{
    if tag(ts, i) == T_MINUS {
        prefix_ops(ts, i + 1, ops, !neg)
    } else if tag(ts, i) == T_SHARP {
        let ops1 = if neg {
            ops.push(UnaryOperator::Negate)
        } else {
            ops
        };
        prefix_ops(ts, i + 1, ops1.push(UnaryOperator::Count), false)
    } else {
        (ops, neg, i)
    }
}

/// `node` under the operators `ops`, the last one innermost.
pub open spec fn apply_prefix(ops: Seq<UnaryOperator>, node: Ast) -> Ast
    decreases ops.len(),
{
    if ops.len() == 0 {
        node
    } else {
        apply_prefix(ops.drop_last(), Ast::Un(ops.last(), Box::new(node)))
    }
}

/// `acc` with the operands `rest` raised to it from the right: `a ^ (b ^ acc)`.
pub open spec fn power_from(rest: Seq<Ast>, acc: Ast) -> Ast
    decreases rest.len(),
{
    if rest.len() == 0 {
        acc
    } else {
        power_from(
            rest.drop_last(),
            Ast::Bin(Box::new(rest.last()), BinaryOperator::Power, Box::new(acc)),
        )
    }
}

/// The operator of a comparison token.
pub open spec fn comparison_op_v(t: int) -> Option<BinaryOperator> {
    if t == T_EQUAL {
        Some(BinaryOperator::Equal)
    } else if t == T_NOT_EQUAL {
        Some(BinaryOperator::NotEqual)
    } else if t == T_LESS {
        Some(BinaryOperator::LessThan)
    } else if t == T_LESS_EQUAL {
        Some(BinaryOperator::LessThanOrEqual)
    } else if t == T_GREATER {
        Some(BinaryOperator::GreaterThan)
    } else if t == T_GREATER_EQUAL {
        Some(BinaryOperator::GreaterThanOrEqual)
    } else {
        None
    }
}

/// The operator of an additive token.
pub open spec fn additive_op_v(t: int) -> Option<BinaryOperator> {
    if t == T_PLUS {
        Some(BinaryOperator::Add)
    } else if t == T_MINUS {
        Some(BinaryOperator::Subtract)
    } else {
        None
    }
}

/// The operator of a multiplicative token.
pub open spec fn multiplicative_op_v(t: int) -> Option<BinaryOperator> {
    if t == T_MULTIPLY {
        Some(BinaryOperator::Multiply)
    } else if t == T_DIVIDE {
        Some(BinaryOperator::Divide)
    } else if t == T_DIVIDE_DOT {
        Some(BinaryOperator::DivideDot)
    } else if t == T_MODULO {
        Some(BinaryOperator::Modulo)
    } else if t == T_MODULO_DOT {
        Some(BinaryOperator::ModuloDot)
    } else {
        None
    }
}

/// Whether a token starts an argument written after a postfix expression without brackets.
pub open spec fn starts_argument(t: int) -> bool {
    t == T_INTEGER || t == T_FLOAT || t == T_CHARACTER || t == T_STRING || t == T_SYMBOL || t
        == T_IDENTIFIER || t == T_TRUE || t == T_FALSE || t == T_LEFT_PAREN
}

/// Whether a token ends a `@r` without a value.
pub open spec fn ends_return(t: int) -> bool {
    t == T_SEMICOLON || t == T_RIGHT_BRACKET || t == T_RIGHT_PAREN || t == T_RIGHT_BRACE || t
        == T_NEWLINE || t == T_EOF
}

/// Whether `i < j <= len`: a position that grew and stays in range.
pub open spec fn grew(ts: Seq<Tk>, i: int, j: int) -> bool {
    i < j <= ts.len()
}

/// The names of a parameter list `[a;b]` after its `[`.
pub open spec fn params_v(ts: Seq<Tk>, i: int, names: Seq<Seq<char>>) -> Step<Seq<Seq<char>>>
    decreases ts.len() - i,
{
    let k = skip_trivia(ts, i, true, true);
    if k >= ts.len() || k < i {
        Step::Fail(WqErrorType::Eof)
    } else {
        match ts[k] {
            Tk::Identifier(n) => params_v(ts, k + 1, names.push(n)),
            Tk::Semicolon => params_v(ts, k + 1, names),
            Tk::RightBracket => Step::Done(names, k + 1),
            Tk::Eof => Step::Fail(WqErrorType::Eof),
            _ => Step::Fail(WqErrorType::Syntax),
        }
    }
}

/// A whole program from `i`: statements separated by `;`, newlines or comments, up to the end.
pub open spec fn program_v(ts: Seq<Tk>, i: int) -> Step<Ast> {
    program_loop(ts, i, Seq::empty())
}

/// The statements of a program from `i`, after `stmts`.
pub open spec fn program_loop(ts: Seq<Tk>, i: int, stmts: Seq<Ast>) -> Step<Ast>
    decreases ts.len() - i,
{
    let k = skip_separators(ts, i);
    if tag(ts, k) == T_EOF {
        Step::Done(block_of(stmts), k)
    } else {
        match statement_v(ts, k) {
            Step::Done(s, j) => {
                let m = skip_separators(ts, j);
                if grew(ts, i, m) {
                    program_loop(ts, m, stmts.push(s))
                } else {
                    Step::Fail(WqErrorType::Syntax)
                }
            },
            Step::Fail(e) => Step::Fail(e),
        }
    }
}

/// The statements of a block from `i` up to its `}` (not consumed).
pub open spec fn block_v(ts: Seq<Tk>, i: int) -> Step<Ast>
    decreases ts.len() - i, 41int, 0int,
{
    block_loop(ts, i, i, Seq::empty())
}

pub open spec fn block_loop(ts: Seq<Tk>, i0: int, i: int, stmts: Seq<Ast>) -> Step<Ast>
    decreases ts.len() - i0, 40int, ts.len() - i,
{
    let k = skip_separators(ts, i);
    if tag(ts, k) == T_RIGHT_BRACE {
        Step::Done(block_of(stmts), k)
    } else if tag(ts, k) == T_EOF {
        Step::Fail(WqErrorType::Eof)
    } else if !(i0 <= i <= k <= ts.len()) {
        Step::Fail(WqErrorType::Syntax)
    } else {
        match statement_v(ts, k) {
            Step::Done(s, j) => {
                let m = skip_separators(ts, j);
                if grew(ts, i, m) {
                    block_loop(ts, i0, m, stmts.push(s))
                } else {
                    Step::Fail(WqErrorType::Syntax)
                }
            },
            Step::Fail(e) => Step::Fail(e),
        }
    }
}

pub open spec fn statement_v(ts: Seq<Tk>, i: int) -> Step<Ast>
    decreases ts.len() - i, 27int, 0int,
{
    expression_v(ts, i)
}

pub open spec fn expression_v(ts: Seq<Tk>, i: int) -> Step<Ast>
    decreases ts.len() - i, 25int, 0int,
{
    assignment_v(ts, i)
}

/// The value of an assignment after its `:` at `colon`: an error where the input ends there.
pub open spec fn assigned_value_v(ts: Seq<Tk>, i: int, colon: int) -> Step<Ast>
    decreases ts.len() - i, 22int, 0int,
{
    if tag(ts, colon + 1) == T_EOF {
        Step::Fail(WqErrorType::Syntax)
    } else if !grew(ts, i, colon + 1) {
        Step::Fail(WqErrorType::Syntax)
    } else {
        assignment_v(ts, colon + 1)
    }
}

/// An expression with an optional assignment: `name: value`, `x[i]: value`.
pub open spec fn assignment_v(ts: Seq<Tk>, i: int) -> Step<Ast>
    decreases ts.len() - i, 23int, 0int,
{
    match comma_v(ts, i) {
        Step::Fail(e) => Step::Fail(e),
        Step::Done(expr, j) => if tag(ts, j) != T_COLON {
            Step::Done(expr, j)
        } else {
            match expr {
                Ast::Var(name) => if name_id_v(name) is Some {
                    Step::Fail(WqErrorType::Syntax)
                } else {
                    match assigned_value_v(ts, i, j) {
                        Step::Done(v, m) => Step::Done(Ast::Assign(name, Box::new(v)), m),
                        Step::Fail(e) => Step::Fail(e),
                    }
                },
                Ast::Index(object, index) => match assigned_value_v(ts, i, j) {
                    Step::Done(v, m) => Step::Done(Ast::IndexAssign(object, index, Box::new(v)), m),
                    Step::Fail(e) => Step::Fail(e),
                },
                Ast::Postfix(object, items, explicit_call) => if explicit_call {
                    Step::Done(expr, j)
                } else {
                    match assigned_value_v(ts, i, j) {
                        Step::Done(v, m) => Step::Done(
                            Ast::IndexAssign(object, Box::new(list_of(items)), Box::new(v)),
                            m,
                        ),
                        Step::Fail(e) => Step::Fail(e),
                    }
                },
                _ => Step::Done(expr, j),
            }
        },
    }
}

/// Comma expressions: `,a,b` is a list; `a,b` joins with `cat`.
pub open spec fn comma_v(ts: Seq<Tk>, i: int) -> Step<Ast>
    decreases ts.len() - i, 21int, 0int,
{
    if tag(ts, i) == T_COMMA {
        leading_comma_loop(ts, i, i, Seq::empty())
    } else {
        match comparison_v(ts, i) {
            Step::Fail(e) => Step::Fail(e),
            Step::Done(e, j) => if grew(ts, i, j) {
                comma_loop(ts, i, j, e)
            } else {
                Step::Fail(WqErrorType::Syntax)
            },
        }
    }
}

pub open spec fn leading_comma_loop(ts: Seq<Tk>, i0: int, i: int, items: Seq<Ast>) -> Step<Ast>
    decreases ts.len() - i0, 20int, ts.len() - i,
{
    if tag(ts, i) != T_COMMA {
        Step::Done(Ast::List(items), i)
    } else if !(i0 <= i) {
        Step::Fail(WqErrorType::Syntax)
    } else {
        match comparison_v(ts, i + 1) {
            Step::Fail(e) => Step::Fail(e),
            Step::Done(e, j) => if grew(ts, i, j) {
                leading_comma_loop(ts, i0, j, items.push(e))
            } else {
                Step::Fail(WqErrorType::Syntax)
            },
        }
    }
}

pub open spec fn comma_loop(ts: Seq<Tk>, i0: int, i: int, left: Ast) -> Step<Ast>
    decreases ts.len() - i0, 20int, ts.len() - i,
{
    if tag(ts, i) != T_COMMA {
        Step::Done(left, i)
    } else if !(i0 <= i) {
        Step::Fail(WqErrorType::Syntax)
    } else {
        match comparison_v(ts, i + 1) {
            Step::Fail(e) => Step::Fail(e),
            Step::Done(r, j) => if grew(ts, i, j) {
                comma_loop(ts, i0, j, Ast::Call("cat"@, seq![left, r]))
            } else {
                Step::Fail(WqErrorType::Syntax)
            },
        }
    }
}

pub open spec fn comparison_v(ts: Seq<Tk>, i: int) -> Step<Ast>
    decreases ts.len() - i, 19int, 0int,
{
    match additive_v(ts, i) {
        Step::Fail(e) => Step::Fail(e),
        Step::Done(e, j) => if grew(ts, i, j) {
            comparison_loop(ts, i, j, e)
        } else {
            Step::Fail(WqErrorType::Syntax)
        },
    }
}

pub open spec fn comparison_loop(ts: Seq<Tk>, i0: int, i: int, left: Ast) -> Step<Ast>
    decreases ts.len() - i0, 18int, ts.len() - i,
{
    match comparison_op_v(tag(ts, i)) {
        None => Step::Done(left, i),
        Some(op) => if tag(ts, i + 1) == T_EOF {
            Step::Fail(WqErrorType::Syntax)
        } else if !(i0 <= i) {
            Step::Fail(WqErrorType::Syntax)
        } else {
            match additive_v(ts, i + 1) {
                Step::Fail(e) => Step::Fail(e),
                Step::Done(r, j) => if grew(ts, i, j) {
                    comparison_loop(ts, i0, j, Ast::Bin(Box::new(left), op, Box::new(r)))
                } else {
                    Step::Fail(WqErrorType::Syntax)
                },
            }
        },
    }
}

pub open spec fn additive_v(ts: Seq<Tk>, i: int) -> Step<Ast>
    decreases ts.len() - i, 17int, 0int,
{
    match multiplicative_v(ts, i) {
        Step::Fail(e) => Step::Fail(e),
        Step::Done(e, j) => if grew(ts, i, j) {
            additive_loop(ts, i, j, e)
        } else {
            Step::Fail(WqErrorType::Syntax)
        },
    }
}

pub open spec fn additive_loop(ts: Seq<Tk>, i0: int, i: int, left: Ast) -> Step<Ast>
    decreases ts.len() - i0, 16int, ts.len() - i,
{
    match additive_op_v(tag(ts, i)) {
        None => Step::Done(left, i),
        Some(op) => if tag(ts, i + 1) == T_EOF {
            Step::Fail(WqErrorType::Syntax)
        } else if !(i0 <= i) {
            Step::Fail(WqErrorType::Syntax)
        } else {
            match multiplicative_v(ts, i + 1) {
                Step::Fail(e) => Step::Fail(e),
                Step::Done(r, j) => if grew(ts, i, j) {
                    additive_loop(ts, i0, j, Ast::Bin(Box::new(left), op, Box::new(r)))
                } else {
                    Step::Fail(WqErrorType::Syntax)
                },
            }
        },
    }
}

pub open spec fn multiplicative_v(ts: Seq<Tk>, i: int) -> Step<Ast>
    decreases ts.len() - i, 15int, 0int,
{
    match unary_v(ts, i) {
        Step::Fail(e) => Step::Fail(e),
        Step::Done(e, j) => if grew(ts, i, j) {
            multiplicative_loop(ts, i, j, e)
        } else {
            Step::Fail(WqErrorType::Syntax)
        },
    }
}

pub open spec fn multiplicative_loop(ts: Seq<Tk>, i0: int, i: int, left: Ast) -> Step<Ast>
    decreases ts.len() - i0, 14int, ts.len() - i,
{
    match multiplicative_op_v(tag(ts, i)) {
        None => Step::Done(left, i),
        Some(op) => if tag(ts, i + 1) == T_EOF {
            Step::Fail(WqErrorType::Syntax)
        } else if !(i0 <= i) {
            Step::Fail(WqErrorType::Syntax)
        } else {
            match unary_v(ts, i + 1) {
                Step::Fail(e) => Step::Fail(e),
                Step::Done(r, j) => if grew(ts, i, j) {
                    multiplicative_loop(ts, i0, j, Ast::Bin(Box::new(left), op, Box::new(r)))
                } else {
                    Step::Fail(WqErrorType::Syntax)
                },
            }
        },
    }
}

/// Prefix `-` and `#` operators, then a power expression.
pub open spec fn unary_v(ts: Seq<Tk>, i: int) -> Step<Ast>
    decreases ts.len() - i, 13int, 0int,
{
    let (ops, neg, k) = prefix_ops(ts, i, Seq::empty(), false);
    if !(i <= k <= ts.len()) {
        Step::Fail(WqErrorType::Syntax)
    } else {
        match power_v(ts, k) {
            Step::Fail(e) => Step::Fail(e),
            Step::Done(node, j) => Step::Done(
                apply_prefix(
                    ops,
                    if neg {
                        negated(node)
                    } else {
                        node
                    },
                ),
                j,
            ),
        }
    }
}

/// Powers, grouped from the right.
pub open spec fn power_v(ts: Seq<Tk>, i: int) -> Step<Ast>
    decreases ts.len() - i, 11int, 0int,
{
    match postfix_v(ts, i) {
        Step::Fail(e) => Step::Fail(e),
        Step::Done(first, j) => if grew(ts, i, j) {
            power_loop(ts, i, j, seq![first])
        } else {
            Step::Fail(WqErrorType::Syntax)
        },
    }
}

pub open spec fn power_loop(ts: Seq<Tk>, i0: int, i: int, operands: Seq<Ast>) -> Step<Ast>
    decreases ts.len() - i0, 10int, ts.len() - i,
{
    if tag(ts, i) != T_POWER {
        Step::Done(power_from(operands.drop_last(), operands.last()), i)
    } else if tag(ts, i + 1) == T_EOF {
        Step::Fail(WqErrorType::Syntax)
    } else if !(i0 <= i) {
        Step::Fail(WqErrorType::Syntax)
    } else {
        match postfix_v(ts, i + 1) {
            Step::Fail(e) => Step::Fail(e),
            Step::Done(e, j) => if grew(ts, i, j) {
                power_loop(ts, i0, j, operands.push(e))
            } else {
                Step::Fail(WqErrorType::Syntax)
            },
        }
    }
}

/// A primary expression followed by bracketed items or by arguments written after it.
pub open spec fn postfix_v(ts: Seq<Tk>, i: int) -> Step<Ast>
    decreases ts.len() - i, 9int, 0int,
{
    match primary_v(ts, i) {
        Step::Fail(e) => Step::Fail(e),
        Step::Done(e, j) => if grew(ts, i, j) {
            postfix_loop(ts, i, j, e)
        } else {
            Step::Fail(WqErrorType::Syntax)
        },
    }
}

pub open spec fn postfix_loop(ts: Seq<Tk>, i0: int, i: int, expr: Ast) -> Step<Ast>
    decreases ts.len() - i0, 8int, ts.len() - i,
{
    let k = skip_trivia(ts, i, false, true);
    if !(i0 < i <= k <= ts.len()) {
        Step::Fail(WqErrorType::Syntax)
    } else if tag(ts, k) == T_LEFT_BRACKET {
        match bracket_items_v(ts, k + 1) {
            Step::Fail(e) => Step::Fail(e),
            Step::Done((items, explicit_call), j) => if grew(ts, i, j) {
                postfix_loop(ts, i0, j, Ast::Postfix(Box::new(expr), items, explicit_call))
            } else {
                Step::Fail(WqErrorType::Syntax)
            },
        }
    } else if starts_argument(tag(ts, k)) {
        match unary_v(ts, k) {
            Step::Fail(e) => Step::Fail(e),
            Step::Done(arg, j) => if grew(ts, i, j) {
                postfix_loop(ts, i0, j, Ast::Postfix(Box::new(expr), seq![arg], true))
            } else {
                Step::Fail(WqErrorType::Syntax)
            },
        }
    } else {
        Step::Done(expr, k)
    }
}

/// The items of `[...]` after the `[`, and whether the brackets make an explicit call.
pub open spec fn bracket_items_v(ts: Seq<Tk>, i: int) -> Step<(Seq<Ast>, bool)>
    decreases ts.len() - i, 41int, 0int,
{
    let t = tag(ts, i);
    if t == T_SEMICOLON {
        match consume_v(ts, i + 1, T_RIGHT_BRACKET as int) {
            Step::Done(_, j) => Step::Done((Seq::empty(), true), j),
            Step::Fail(e) => Step::Fail(e),
        }
    } else if t == T_RIGHT_BRACKET {
        Step::Done((Seq::empty(), true), i + 1)
    } else if t == T_EOF {
        Step::Fail(WqErrorType::Eof)
    } else {
        bracket_loop(ts, i, i, Seq::empty())
    }
}

pub open spec fn bracket_loop(ts: Seq<Tk>, i0: int, i: int, items: Seq<Ast>) -> Step<(Seq<Ast>, bool)>
    decreases ts.len() - i0, 40int, ts.len() - i,
{
    let k = skip_trivia(ts, i, true, true);
    if tag(ts, k) == T_RIGHT_BRACKET {
        Step::Done((items, false), k + 1)
    } else if !(i0 <= i <= k <= ts.len()) {
        Step::Fail(WqErrorType::Syntax)
    } else {
        match expression_v(ts, k) {
            Step::Fail(e) => Step::Fail(e),
            Step::Done(e, j) => {
                let items1 = items.push(e);
                let m = skip_trivia(ts, j, true, true);
                if tag(ts, m) == T_RIGHT_BRACKET {
                    Step::Done((items1, false), m + 1)
                } else {
                    match semicolon_v(ts, m) {
                        Step::Fail(e) => Step::Fail(e),
                        Step::Done(_, n) => {
                            let p = skip_trivia(ts, n, true, true);
                            if tag(ts, p) == T_RIGHT_BRACKET {
                                Step::Done((items1, true), p + 1)
                            } else if tag(ts, p) == T_EOF {
                                Step::Fail(WqErrorType::Eof)
                            } else if grew(ts, i, p) {
                                bracket_loop(ts, i0, p, items1)
                            } else {
                                Step::Fail(WqErrorType::Syntax)
                            }
                        },
                    }
                }
            },
        }
    }
}

/// A list `(a;b;c)` after its `(`; a single element is returned as it is.
pub open spec fn paren_list_v(ts: Seq<Tk>, i: int) -> Step<Ast>
    decreases ts.len() - i, 41int, 0int,
{
    paren_list_loop(ts, i, i, Seq::empty())
}

pub open spec fn paren_list_loop(ts: Seq<Tk>, i0: int, i: int, elements: Seq<Ast>) -> Step<Ast>
    decreases ts.len() - i0, 40int, ts.len() - i,
{
    let k = skip_trivia(ts, i, true, true);
    if tag(ts, k) == T_RIGHT_PAREN {
        Step::Done(list_of(elements), k + 1)
    } else if tag(ts, k) == T_EOF {
        Step::Fail(WqErrorType::Eof)
    } else if !(i0 <= i <= k <= ts.len()) {
        Step::Fail(WqErrorType::Syntax)
    } else {
        match expression_v(ts, k) {
            Step::Fail(e) => Step::Fail(e),
            Step::Done(e, j) => {
                let elements1 = elements.push(e);
                let m = skip_trivia(ts, j, true, true);
                if tag(ts, m) == T_RIGHT_PAREN {
                    Step::Done(list_of(elements1), m + 1)
                } else {
                    match semicolon_v(ts, m) {
                        Step::Fail(e) => Step::Fail(e),
                        Step::Done(_, n) => {
                            let p = skip_trivia(ts, n, true, true);
                            if tag(ts, p) == T_RIGHT_PAREN {
                                Step::Done(list_of(elements1), p + 1)
                            } else if tag(ts, p) == T_EOF {
                                Step::Fail(WqErrorType::Eof)
                            } else if grew(ts, i, p) {
                                paren_list_loop(ts, i0, p, elements1)
                            } else {
                                Step::Fail(WqErrorType::Syntax)
                            }
                        },
                    }
                }
            },
        }
    }
}

/// A dictionary `(`a:1;`b:2)` after its `(`.
pub open spec fn paren_dict_v(ts: Seq<Tk>, i: int) -> Step<Ast>
    decreases ts.len() - i, 41int, 0int,
{
    paren_dict_loop(ts, i, i, Seq::empty())
}

pub open spec fn paren_dict_loop(
    ts: Seq<Tk>,
    i0: int,
    i: int,
    pairs: Seq<(Seq<char>, Ast)>,
) -> Step<Ast>
    decreases ts.len() - i0, 40int, ts.len() - i,
{
    let k = skip_trivia(ts, i, true, true);
    if tag(ts, k) == T_RIGHT_PAREN {
        Step::Done(Ast::Dict(pairs), k + 1)
    } else if tag(ts, k) == T_EOF {
        Step::Fail(WqErrorType::Eof)
    } else if !(i0 <= i <= k < ts.len()) {
        Step::Fail(WqErrorType::Syntax)
    } else {
        match ts[k] {
            Tk::Symbol(key) => match consume_v(ts, k + 1, T_COLON as int) {
                Step::Fail(e) => Step::Fail(e),
                Step::Done(_, c) => match expression_v(ts, c) {
                    Step::Fail(e) => Step::Fail(e),
                    Step::Done(value, j) => {
                        let pairs1 = pairs.push((key, value));
                        let m = skip_trivia(ts, j, true, true);
                        if tag(ts, m) == T_RIGHT_PAREN {
                            Step::Done(Ast::Dict(pairs1), m + 1)
                        } else if tag(ts, m) == T_EOF {
                            Step::Fail(WqErrorType::Eof)
                        } else {
                            match semicolon_v(ts, m) {
                                Step::Fail(e) => Step::Fail(e),
                                Step::Done(_, n) => {
                                    let p = skip_trivia(ts, n, true, true);
                                    if tag(ts, p) == T_RIGHT_PAREN {
                                        Step::Done(Ast::Dict(pairs1), p + 1)
                                    } else if grew(ts, i, p) {
                                        paren_dict_loop(ts, i0, p, pairs1)
                                    } else {
                                        Step::Fail(WqErrorType::Syntax)
                                    }
                                },
                            }
                        }
                    },
                },
            },
            _ => Step::Fail(WqErrorType::Syntax),
        }
    }
}

/// The literal of a token, where it is one.
pub open spec fn literal_of(t: Tk) -> Option<Ast> {
    match t {
        Tk::Integer(n) => Some(Ast::Lit(Val::Int(n))),
        Tk::BigInteger(n) => Some(Ast::Lit(Val::BigInt(n))),
        Tk::Float(f) => Some(Ast::Lit(Val::Float(f))),
        Tk::Character(c) => Some(Ast::Lit(Val::Char(c))),
        Tk::Str(s) => Some(Ast::Lit(Val::List(char_vals(s)))),
        Tk::Symbol(s) => Some(Ast::Lit(Val::Symbol(s))),
        Tk::True => Some(Ast::Lit(Val::Bool(true))),
        Tk::False => Some(Ast::Lit(Val::Bool(false))),
        Tk::Inf => Some(Ast::Lit(Val::Float("inf"@))),
        Tk::Nan => Some(Ast::Lit(Val::Float("NaN"@))),
        Tk::AtBreak => Some(Ast::Break),
        Tk::AtContinue => Some(Ast::Continue),
        _ => None,
    }
}

/// A primary expression: a literal, a name, a list or dictionary in parentheses, a function,
/// a conditional, a loop, `@r` or `@t`.
pub open spec fn primary_v(ts: Seq<Tk>, i: int) -> Step<Ast>
    decreases ts.len() - i, 7int, 0int,
{
    if !(0 <= i < ts.len()) {
        Step::Fail(WqErrorType::Eof)
    } else {
        let t = tag(ts, i);
        if t == T_DOLLAR {
            conditional_v(ts, i)
        } else if t == T_DOLLAR_DOT {
            conditional_dot_v(ts, i)
        } else if t == T_LEFT_BRACE {
            function_v(ts, i)
        } else {
            match ts[i] {
                Tk::AtReturn => if ends_return(tag(ts, i + 1)) {
                    Step::Done(Ast::Return(None), i + 1)
                } else {
                    match expression_v(ts, i + 1) {
                        Step::Done(e, j) => Step::Done(Ast::Return(Some(Box::new(e))), j),
                        Step::Fail(e) => Step::Fail(e),
                    }
                },
                Tk::AtTry => match expression_v(ts, i + 1) {
                    Step::Done(e, j) => Step::Done(Ast::Try(Box::new(e)), j),
                    Step::Fail(e) => Step::Fail(e),
                },
                Tk::Identifier(name) => {
                    let k = skip_trivia(ts, i + 1, false, true);
                    if tag(ts, k) == T_LEFT_BRACKET && name == seq!['W'] && i < k {
                        while_v(ts, k + 1)
                    } else if tag(ts, k) == T_LEFT_BRACKET && name == seq!['N'] && i < k {
                        for_v(ts, k + 1)
                    } else {
                        Step::Done(Ast::Var(name), k)
                    }
                },
                Tk::LeftParen => {
                    let k = skip_trivia(ts, i + 1, true, true);
                    if tag(ts, k) == T_RIGHT_PAREN {
                        Step::Done(Ast::List(Seq::empty()), k + 1)
                    } else if !grew(ts, i, k) {
                        Step::Fail(WqErrorType::Syntax)
                    } else if tag(ts, k) == T_SYMBOL && tag(ts, k + 1) == T_COLON {
                        paren_dict_v(ts, k)
                    } else {
                        paren_list_v(ts, k)
                    }
                },
                Tk::Eof => Step::Fail(WqErrorType::Eof),
                t => match literal_of(t) {
                    Some(lit) => Step::Done(lit, i + 1),
                    None => Step::Fail(WqErrorType::Syntax),
                },
            }
        }
    }
}

/// A function `{[a;b] body}` at its `{`.
pub open spec fn function_v(ts: Seq<Tk>, i: int) -> Step<Ast>
    decreases ts.len() - i, 5int, 0int,
{
    let params: Step<Option<Seq<Seq<char>>>> = if tag(ts, i + 1) == T_LEFT_BRACKET {
        match params_v(ts, i + 2, Seq::empty()) {
            Step::Done(names, j) => Step::Done(Some(names), j),
            Step::Fail(e) => Step::Fail(e),
        }
    } else {
        Step::Done(None, i + 1)
    };
    match params {
        Step::Fail(e) => Step::Fail(e),
        Step::Done(ps, b) => if !grew(ts, i, b) {
            Step::Fail(WqErrorType::Syntax)
        } else {
            match block_v(ts, b) {
                Step::Fail(e) => Step::Fail(e),
                Step::Done(body, j) => match consume_v(ts, j, T_RIGHT_BRACE as int) {
                    Step::Fail(e) => Step::Fail(e),
                    Step::Done(_, m) => Step::Done(Ast::Function(ps, Box::new(body)), m),
                },
            }
        },
    }
}

/// Statements up to a `]` (or a `;` where `semicolon_ends`), which is not consumed.
pub open spec fn branch_v(ts: Seq<Tk>, i: int, semicolon_ends: bool) -> Step<Ast>
    decreases ts.len() - i, 41int, 0int,
{
    branch_loop(ts, i, i, semicolon_ends, Seq::empty())
}

pub open spec fn branch_loop(
    ts: Seq<Tk>,
    i0: int,
    i: int,
    semicolon_ends: bool,
    stmts: Seq<Ast>,
) -> Step<Ast>
    decreases ts.len() - i0, 40int, ts.len() - i,
{
    let k = skip_trivia(ts, i, true, true);
    let t = tag(ts, k);
    if t == T_EOF {
        Step::Fail(WqErrorType::Eof)
    } else if t == T_RIGHT_BRACKET || (semicolon_ends && t == T_SEMICOLON) {
        Step::Done(block_of(stmts), k)
    } else if !(i0 <= i <= k <= ts.len()) {
        Step::Fail(WqErrorType::Syntax)
    } else {
        match expression_v(ts, k) {
            Step::Fail(e) => Step::Fail(e),
            Step::Done(e, j) => {
                let m = branch_gap(ts, j, semicolon_ends);
                if grew(ts, i, m) {
                    branch_loop(ts, i0, m, semicolon_ends, stmts.push(e))
                } else {
                    Step::Fail(WqErrorType::Syntax)
                }
            },
        }
    }
}

/// A condition after `[` at `i`, then its separator: the condition and the position after.
pub open spec fn condition_v(ts: Seq<Tk>, i: int) -> Step<Ast>
    decreases ts.len() - i, 42int, 0int,
{
    let k = skip_trivia(ts, i, true, true);
    if !(i <= k <= ts.len()) {
        Step::Fail(WqErrorType::Syntax)
    } else {
        match expression_v(ts, k) {
            Step::Fail(e) => Step::Fail(e),
            Step::Done(c, j) => match control_separator_v(ts, j) {
                Step::Fail(e) => Step::Fail(e),
                Step::Done(_, n) => Step::Done(c, n),
            },
        }
    }
}

/// `$[condition; true; false]` at its `$`.
pub open spec fn conditional_v(ts: Seq<Tk>, i: int) -> Step<Ast>
    decreases ts.len() - i, 5int, 0int,
{
    match consume_v(ts, i + 1, T_LEFT_BRACKET as int) {
        Step::Fail(e) => Step::Fail(e),
        Step::Done(_, a) => if !grew(ts, i, a) {
            Step::Fail(WqErrorType::Syntax)
        } else {
            match condition_v(ts, a) {
                Step::Fail(e) => Step::Fail(e),
                Step::Done(c, n) => if !grew(ts, i, n) {
                    Step::Fail(WqErrorType::Syntax)
                } else {
                    match branch_v(ts, n, true) {
                        Step::Fail(e) => Step::Fail(e),
                        Step::Done(tb, m) => if !grew(ts, i, m) {
                            Step::Fail(WqErrorType::Syntax)
                        } else {
                            match else_branch_v(ts, m) {
                                Step::Fail(e) => Step::Fail(e),
                                Step::Done(fb, s) => Step::Done(
                                    Ast::Cond(Box::new(c), Box::new(tb), Some(Box::new(fb))),
                                    s,
                                ),
                            }
                        },
                    }
                },
            }
        },
    }
}

/// The `; false]` of a conditional at the end of its true branch.
pub open spec fn else_branch_v(ts: Seq<Tk>, i: int) -> Step<Ast>
    decreases ts.len() - i, 42int, 0int,
{
    if tag(ts, i) == T_RIGHT_BRACKET {
        Step::Fail(WqErrorType::Syntax)
    } else {
        match consume_v(ts, i, T_SEMICOLON as int) {
            Step::Fail(e) => Step::Fail(e),
            Step::Done(_, q) => match branch_v(ts, q, false) {
                Step::Fail(e) => Step::Fail(e),
                Step::Done(fb, r) => match consume_v(ts, r, T_RIGHT_BRACKET as int) {
                    Step::Fail(e) => Step::Fail(e),
                    Step::Done(_, s) => Step::Done(fb, s),
                },
            },
        }
    }
}

/// `$.[condition; true]` at its `$.`.
pub open spec fn conditional_dot_v(ts: Seq<Tk>, i: int) -> Step<Ast>
    decreases ts.len() - i, 5int, 0int,
{
    match consume_v(ts, i + 1, T_LEFT_BRACKET as int) {
        Step::Fail(e) => Step::Fail(e),
        Step::Done(_, a) => if !grew(ts, i, a) {
            Step::Fail(WqErrorType::Syntax)
        } else {
            match condition_v(ts, a) {
                Step::Fail(e) => Step::Fail(e),
                Step::Done(c, n) => if !grew(ts, i, n) {
                    Step::Fail(WqErrorType::Syntax)
                } else {
                    match branch_v(ts, n, false) {
                        Step::Fail(e) => Step::Fail(e),
                        Step::Done(tb, m) => match consume_v(ts, m, T_RIGHT_BRACKET as int) {
                            Step::Fail(e) => Step::Fail(e),
                            Step::Done(_, s) => Step::Done(Ast::Cond(Box::new(c), Box::new(tb), None), s),
                        },
                    }
                },
            }
        },
    }
}

/// The condition (or count) and body of `W[..]` or `N[..]` after the `[`.
pub open spec fn loop_parts_v(ts: Seq<Tk>, i: int) -> Step<(Ast, Ast)>
    decreases ts.len() - i, 43int, 0int,
{
    match condition_v(ts, i) {
        Step::Fail(e) => Step::Fail(e),
        Step::Done(c, n) => if !grew(ts, i, n) {
            Step::Fail(WqErrorType::Syntax)
        } else {
            match branch_v(ts, n, false) {
                Step::Fail(e) => Step::Fail(e),
                Step::Done(body, m) => match consume_v(ts, m, T_RIGHT_BRACKET as int) {
                    Step::Fail(e) => Step::Fail(e),
                    Step::Done(_, s) => Step::Done((c, body), s),
                },
            }
        },
    }
}

/// `W[condition; body]` after its `W[`.
pub open spec fn while_v(ts: Seq<Tk>, i: int) -> Step<Ast>
    decreases ts.len() - i, 44int, 0int,
{
    match loop_parts_v(ts, i) {
        Step::Fail(e) => Step::Fail(e),
        Step::Done((c, body), s) => Step::Done(Ast::While(Box::new(c), Box::new(body)), s),
    }
}

/// `N[count; body]` after its `N[`.
pub open spec fn for_v(ts: Seq<Tk>, i: int) -> Step<Ast>
    decreases ts.len() - i, 44int, 0int,
{
    match loop_parts_v(ts, i) {
        Step::Fail(e) => Step::Fail(e),
        Step::Done((c, body), s) => Step::Done(Ast::For(Box::new(c), Box::new(body)), s),
    }
}

} // verus!
