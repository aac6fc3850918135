//! The parser: from tokens to a syntax tree.

use vstd::prelude::*;
use crate::builtins::is_builtin_name;
use crate::error::{WqError, WqErrorType, WqResult};
use crate::text::{append_chars, append_str, chars_of, repeat_char, string_from_chars, usize_to_decimal};
use crate::grammar::{
    ast_of, asts_of, block_of, entries_of, list_of, negated_text, tag, skip_trivia,
    skip_separators, consume_v, semicolon_v, control_separator_v, branch_gap, comparison_op_v,
    additive_op_v, multiplicative_op_v, prefix_ops, apply_prefix, power_from, params_v, program_v,
    program_loop, block_v, block_loop, statement_v, expression_v, assigned_value_v, assignment_v,
    comma_v, leading_comma_loop, comma_loop, comparison_v, comparison_loop, additive_v,
    additive_loop, multiplicative_v, multiplicative_loop, unary_v, power_v, power_loop, postfix_v,
    postfix_loop, bracket_items_v, bracket_loop, paren_list_v, paren_list_loop, paren_dict_v,
    paren_dict_loop, primary_v, function_v, branch_v, branch_loop, condition_v, conditional_v,
    conditional_dot_v, else_branch_v, while_v, for_v, Ast, Step, T_INTEGER, T_FLOAT, T_CHARACTER, T_STRING,
    T_SYMBOL, T_IDENTIFIER, T_COMMENT, T_TRUE, T_FALSE, T_PLUS, T_MINUS, T_MULTIPLY, T_DIVIDE,
    T_DIVIDE_DOT, T_MODULO, T_MODULO_DOT, T_POWER, T_COLON, T_EQUAL, T_NOT_EQUAL, T_LESS,
    T_LESS_EQUAL, T_GREATER, T_GREATER_EQUAL, T_SHARP, T_DOLLAR, T_DOLLAR_DOT, T_LEFT_PAREN,
    T_RIGHT_PAREN, T_LEFT_BRACKET, T_RIGHT_BRACKET, T_LEFT_BRACE, T_RIGHT_BRACE, T_SEMICOLON,
    T_COMMA, T_NEWLINE, T_EOF,
};
use crate::token::{tag_of, Tk, Token, TokenType};
use crate::value::{str_value_of, Val, Value};

verus! {

/// A syntax tree.
#[derive(Debug, PartialEq)]
pub enum AstNode {
    Literal(Value),
    /// Variable reference
    Variable(String),
    BinaryOp { left: Box<AstNode>, operator: BinaryOperator, right: Box<AstNode> },
    UnaryOp { operator: UnaryOperator, operand: Box<AstNode> },
    Assignment { name: String, value: Box<AstNode> },
    /// List construction
    List(Vec<AstNode>),
    /// Dictionary construction
    Dict(Vec<(String, AstNode)>),
    /// Generic postfix expression: `object[items]` or `object item`
    Postfix { object: Box<AstNode>, items: Vec<AstNode>, explicit_call: bool },
    /// Function call
    Call { name: String, args: Vec<AstNode> },
    CallAnonymous { object: Box<AstNode>, args: Vec<AstNode> },
    /// Index access
    Index { object: Box<AstNode>, index: Box<AstNode> },
    /// Index assignment like `a[1]:3`
    IndexAssign { object: Box<AstNode>, index: Box<AstNode>, value: Box<AstNode> },
    /// Function definition; `None` for the implicit parameters `x`, `y`, `z`
    Function { params: Option<Vec<String>>, body: Box<AstNode> },
    /// Conditional expression
    Conditional {
        condition: Box<AstNode>,
        true_branch: Box<AstNode>,
        false_branch: Option<Box<AstNode>>,
    },
    /// While loop
    WhileLoop { condition: Box<AstNode>, body: Box<AstNode> },
    /// Counted loop
    ForLoop { count: Box<AstNode>, body: Box<AstNode> },
    Break,
    Continue,
    Return(Option<Box<AstNode>>),
    Assert(Box<AstNode>),
    Try(Box<AstNode>),
    /// Sequence of statements
    Block(Vec<AstNode>),
}

#[derive(Debug, Clone, Copy, PartialEq)]
pub enum BinaryOperator {
    Add,
    Subtract,
    Multiply,
    Power,
    Divide,
    DivideDot,
    Modulo,
    ModuloDot,
    Equal,
    NotEqual,
    LessThan,
    LessThanOrEqual,
    GreaterThan,
    GreaterThanOrEqual,
}

#[derive(Debug, Clone, Copy, PartialEq)]
pub enum UnaryOperator {
    Negate,
    /// The `#` operator
    Count,
}


/// A parser over a sequence of tokens and the source text they come from.
pub struct Parser {
    tokens: Vec<Token>,
    current: usize,
    source: Vec<char>,
}

/// Whether an error is a syntax error or an unexpected end of input.
pub open spec fn is_parse_error(e: WqError) -> bool {
    e.kind == WqErrorType::Syntax || e.kind == WqErrorType::Eof
}

/// The kinds of some tokens.
pub open spec fn kinds_of(ts: Seq<Token>) -> Seq<Tk> {
    ts.map_values(|t: Token| t.token_type@)
}

/// What a parse of a tree gave, as a step of the grammar.
pub open spec fn node_step(r: WqResult<AstNode>, pos: int) -> Step<Ast> {
    match r {
        Ok(n) => Step::Done(ast_of(n), pos),
        Err(e) => Step::Fail(e.kind),
    }
}

/// What a parse of bracketed items gave, as a step of the grammar.
pub open spec fn items_step(r: WqResult<(Vec<AstNode>, bool)>, pos: int) -> Step<(Seq<Ast>, bool)> {
    match r {
        Ok((items, call)) => Step::Done((asts_of(items@), call), pos),
        Err(e) => Step::Fail(e.kind),
    }
}

/// What a step that reads no tree gave.
pub open spec fn unit_step(r: WqResult<()>, pos: int) -> Step<()> {
    match r {
        Ok(_) => Step::Done((), pos),
        Err(e) => Step::Fail(e.kind),
    }
}

proof fn lemma_ast_variant(n: AstNode)
    ensures
        (ast_of(n) is Var) == (n is Variable),
        (ast_of(n) is Index) == (n is Index),
        (ast_of(n) is Postfix) == (n is Postfix),
{
}

proof fn lemma_asts_push(v: Seq<AstNode>, x: AstNode)
    ensures
        asts_of(v.push(x)) == asts_of(v).push(ast_of(x)),
{
    assert(asts_of(v.push(x)) =~= asts_of(v).push(ast_of(x)));
}

proof fn lemma_asts_drop_last(v: Seq<AstNode>)
    requires
        v.len() > 0,
    ensures
        asts_of(v.drop_last()) == asts_of(v).drop_last(),
        ast_of(v.last()) == asts_of(v).last(),
{
    assert(asts_of(v.drop_last()) =~= asts_of(v).drop_last());
}

proof fn lemma_asts_empty(v: Seq<AstNode>)
    requires
        v.len() == 0,
    ensures
        asts_of(v) == Seq::<Ast>::empty(),
{
    assert(asts_of(v) =~= Seq::<Ast>::empty());
}

proof fn lemma_asts_two(a: AstNode, b: AstNode)
    ensures
        asts_of(seq![a, b]) == seq![ast_of(a), ast_of(b)],
        asts_of(seq![a]) == seq![ast_of(a)],
{
    assert(asts_of(seq![a, b]) =~= seq![ast_of(a), ast_of(b)]);
    assert(asts_of(seq![a]) =~= seq![ast_of(a)]);
}

proof fn lemma_entries_push(v: Seq<(String, AstNode)>, x: (String, AstNode))
    ensures
        entries_of(v.push(x)) == entries_of(v).push((x.0@, ast_of(x.1))),
{
    assert(entries_of(v.push(x)) =~= entries_of(v).push((x.0@, ast_of(x.1))));
}

proof fn lemma_entries_empty(v: Seq<(String, AstNode)>)
    requires
        v.len() == 0,
    ensures
        entries_of(v) == Seq::<(Seq<char>, Ast)>::empty(),
{
    assert(entries_of(v) =~= Seq::<(Seq<char>, Ast)>::empty());
}

impl Parser {
    pub closed spec fn wf(&self) -> bool {
        self.current <= self.tokens.len()
    }

    /// The tokens being parsed.
    pub closed spec fn tokens(&self) -> Seq<Token> {
        self.tokens@
    }

    /// The index of the current token.
    pub closed spec fn cur(&self) -> int {
        self.current as int
    }

    /// A parser at the first of `tokens`.
    pub fn new(tokens: Vec<Token>, source: String) -> (p: Parser)
        ensures
            p.wf(),
            p.tokens() == tokens@,
            p.cur() == 0,
    {
        Parser { tokens, current: 0, source: chars_of(source.as_str()) }
    }

    /// The variant index of the current token; the end-of-input index past the last token.
    fn cur_tag(&self) -> (t: u8)
        requires
            self.wf(),
        ensures
            t == tag(kinds_of(self.tokens@), self.current as int),
    {
        if self.current < self.tokens.len() {
            tag_of(&self.tokens[self.current].token_type)
        } else {
            T_EOF
        }
    }

    /// The variant index of the token after the current one.
    fn peek_tag(&self) -> (t: u8)
        requires
            self.wf(),
        ensures
            t == tag(kinds_of(self.tokens@), self.current + 1),
    {
        if self.current < self.tokens.len() && self.current + 1 < self.tokens.len() {
            tag_of(&self.tokens[self.current + 1].token_type)
        } else {
            T_EOF
        }
    }

    fn advance(&mut self)
        requires
            old(self).wf(),
        ensures
            final(self).wf(),
            final(self).tokens == old(self).tokens,
            final(self).current == if old(self).current < old(self).tokens.len() {
                old(self).current + 1
            } else {
                old(self).current as int
            },
    {
        if self.current < self.tokens.len() {
            self.current += 1;
        }
    }

    /// A syntax error at a token: the message, the place, the source line and a pointer.
    fn syntax_error_at(&self, idx: usize, msg: &str) -> (e: WqError)
        ensures
            e.kind == WqErrorType::Syntax,
    {
        let (line, column) = if idx < self.tokens.len() {
            (self.tokens[idx].line, self.tokens[idx].column)
        } else {
            (0, 0)
        };
        let src_line = source_line(&self.source, line);
        let mut text: Vec<char> = Vec::new();
        append_str(&mut text, msg);
        append_str(&mut text, " at ");
        append_chars(&mut text, &usize_to_decimal(line));
        text.push(':');
        append_chars(&mut text, &usize_to_decimal(column));
        text.push('\n');
        append_chars(&mut text, &src_line);
        text.push('\n');
        append_chars(&mut text, &repeat_char(' ', column.saturating_sub(1)));
        text.push('^');
        WqError::new(WqErrorType::Syntax).msg(string_from_chars(text.as_slice()).as_str())
    }

    fn syntax_error(&self, msg: &str) -> (e: WqError)
        ensures
            e.kind == WqErrorType::Syntax,
    {
        self.syntax_error_at(self.current, msg)
    }

    fn eof_error(&self, msg: &str) -> (e: WqError)
        ensures
            e.kind == WqErrorType::Eof,
    {
        WqError::new(WqErrorType::Eof).msg(msg)
    }
}

/// Two pieces of text joined.
fn join3(a: &str, b: &str, c: &str) -> String {
    let mut v = chars_of(a);
    append_str(&mut v, b);
    append_str(&mut v, c);
    string_from_chars(v.as_slice())
}

fn join2(a: &str, b: &str) -> String {
    let mut v = chars_of(a);
    append_str(&mut v, b);
    string_from_chars(v.as_slice())
}

/// The text of a float with the opposite sign.
fn negate_float_text(t: &String) -> (r: String)
    ensures
        r@ == negated_text(t@),
{
    let cs = chars_of(t.as_str());
    let mut out: Vec<char> = Vec::new();
    if cs.len() > 0 && cs[0] == '-' {
        let mut k: usize = 1;
        while k < cs.len()
            invariant
                1 <= k <= cs.len(),
                cs@ == t@,
                cs@.len() > 0,
                out@ == cs@.subrange(1, k as int),
            decreases cs.len() - k,
        {
            out.push(cs[k]);
            k += 1;
            assert(out@ =~= cs@.subrange(1, k as int));
        }
        assert(out@ =~= cs@.drop_first());
    } else {
        out.push('-');
        append_chars(&mut out, &cs);
        assert(out@ =~= seq!['-'].add(cs@));
    }
    string_from_chars(out.as_slice())
}

impl Parser {
    pub closed spec fn rem(&self) -> int {
        self.tokens.len() - self.current
    }

    /// Skips newlines (when `allow_nl`) and comments (when `allow_com`).
    #[verifier::rlimit(50)]
    #[verifier::spinoff_prover]
    fn eat_trivia(&mut self, allow_nl: bool, allow_com: bool)
        requires
            old(self).wf(),
        ensures
            final(self).wf(),
            final(self).tokens == old(self).tokens,
            final(self).current >= old(self).current,
            final(self).current == skip_trivia(
                kinds_of(old(self).tokens@),
                old(self).current as int,
                allow_nl,
                allow_com,
            ),
    {
        let ghost ts = kinds_of(self.tokens@);
        while self.current < self.tokens.len()
            invariant
                self.wf(),
                self.tokens == old(self).tokens,
                ts == kinds_of(self.tokens@),
                self.current >= old(self).current,
                skip_trivia(ts, self.current as int, allow_nl, allow_com) == skip_trivia(
                    ts,
                    old(self).current as int,
                    allow_nl,
                    allow_com,
                ),
            ensures
                self.current == skip_trivia(ts, old(self).current as int, allow_nl, allow_com),
            decreases self.tokens.len() - self.current,
        {
            let t = self.cur_tag();
            if (t == T_NEWLINE && allow_nl) || (t == T_COMMENT && allow_com) {
                self.advance();
            } else {
                break;
            }
        }
    }

    /// Skips `;`, newlines and comments.
    #[verifier::rlimit(50)]
    #[verifier::spinoff_prover]
    fn eat_stmt_separators(&mut self)
        requires
            old(self).wf(),
        ensures
            final(self).wf(),
            final(self).tokens == old(self).tokens,
            final(self).current >= old(self).current,
            final(self).current == skip_separators(kinds_of(old(self).tokens@), old(self).current as int),
    {
        let ghost ts = kinds_of(self.tokens@);
        while self.current < self.tokens.len()
            invariant
                self.wf(),
                self.tokens == old(self).tokens,
                ts == kinds_of(self.tokens@),
                self.current >= old(self).current,
                skip_separators(ts, self.current as int) == skip_separators(ts, old(self).current as int),
            ensures
                self.current == skip_separators(ts, old(self).current as int),
            decreases self.tokens.len() - self.current,
        {
            let t = self.cur_tag();
            if t == T_SEMICOLON || t == T_NEWLINE || t == T_COMMENT {
                self.advance();
            } else {
                break;
            }
        }
    }

    /// Consumes a token of the variant `tag`, or fails.
    fn consume(&mut self, t: u8, what: &str) -> (r: WqResult<()>)
        requires
            old(self).wf(),
        ensures
            final(self).wf(),
            final(self).tokens == old(self).tokens,
            final(self).current >= old(self).current,
            unit_step(r, final(self).current as int) == consume_v(
                kinds_of(old(self).tokens@),
                old(self).current as int,
                t as int,
            ),
            r matches Err(e) ==> is_parse_error(e),
    {
        if self.current >= self.tokens.len() {
            return Err(self.eof_error("Unexpected end of input"));
        }
        if self.cur_tag() == t {
            self.advance();
            Ok(())
        } else {
            Err(self.syntax_error(join2("Expected ", what).as_str()))
        }
    }

    /// Requires a literal `;`: newlines and comments may come before it.
    fn require_semicolon(&mut self, ctx: &str) -> (r: WqResult<()>)
        requires
            old(self).wf(),
        ensures
            final(self).wf(),
            final(self).tokens == old(self).tokens,
            final(self).current >= old(self).current,
            unit_step(r, final(self).current as int) == semicolon_v(
                kinds_of(old(self).tokens@),
                old(self).current as int,
            ),
            r matches Err(e) ==> is_parse_error(e),
    {
        self.eat_trivia(true, true);
        let t = self.cur_tag();
        if t == T_SEMICOLON {
            self.advance();
            Ok(())
        } else if t == T_EOF {
            Err(self.eof_error(join2("Unexpected end of input in ", ctx).as_str()))
        } else {
            Err(self.syntax_error(join2("Expected ';' in ", ctx).as_str()))
        }
    }

    /// Requires a `;` or at least one newline (comments may come before it).
    fn require_control_separator(&mut self, ctx: &str) -> (r: WqResult<()>)
        requires
            old(self).wf(),
        ensures
            final(self).wf(),
            final(self).tokens == old(self).tokens,
            final(self).current >= old(self).current,
            unit_step(r, final(self).current as int) == control_separator_v(
                kinds_of(old(self).tokens@),
                old(self).current as int,
            ),
            r matches Err(e) ==> is_parse_error(e),
    {
        if self.cur_tag() == T_SEMICOLON {
            self.advance();
            self.eat_trivia(true, true);
            return Ok(());
        }
        self.eat_trivia(false, true);
        let t = self.cur_tag();
        if t == T_NEWLINE {
            self.advance();
            self.eat_trivia(true, true);
            Ok(())
        } else if t == T_EOF {
            Err(self.eof_error(join2("Unexpected end of input in ", ctx).as_str()))
        } else {
            Err(self.syntax_error(join2("Expected ';' or newline in ", ctx).as_str()))
        }
    }

    /// Fails where the input ends right after an operator.
    fn ensure_rhs_after_op(&self, op_idx: usize, ctx: &str) -> (r: WqResult<()>)
        requires
            self.wf(),
        ensures
            (r is Err) == (tag(kinds_of(self.tokens@), self.current as int) == T_EOF),
            r matches Err(e) ==> e.kind == WqErrorType::Syntax,
    {
        if self.cur_tag() == T_EOF {
            Err(self.syntax_error_at(op_idx, join2("Expected expression after ", ctx).as_str()))
        } else {
            Ok(())
        }
    }

    /// Parses a whole program: statements separated by `;`, newlines or comments. One
    /// statement is returned as it is; several as a block.
    #[verifier::rlimit(50)]
    #[verifier::spinoff_prover]
    pub fn parse(&mut self) -> (r: WqResult<AstNode>)
        requires
            old(self).wf(),
        ensures
            final(self).wf(),
            final(self).tokens() == old(self).tokens(),
            node_step(r, final(self).cur()) == program_v(kinds_of(old(self).tokens()), old(self).cur()),
            r matches Err(e) ==> is_parse_error(e),
            r is Ok ==> final(self).cur() >= old(self).cur(),
    {
        let ghost ts = kinds_of(self.tokens@);
        let mut statements: Vec<AstNode> = Vec::new();
        proof {
            lemma_asts_empty(statements@);
        }
        loop
            invariant
                self.wf(),
                self.tokens == old(self).tokens,
                ts == kinds_of(self.tokens@),
                self.current >= old(self).current,
                program_v(ts, old(self).current as int) == program_loop(
                    ts,
                    self.current as int,
                    asts_of(statements@),
                ),
            decreases self.tokens.len() - self.current,
        {
            let ghost c = self.current as int;
            self.eat_stmt_separators();
            if self.cur_tag() == T_EOF {
                return Ok(block_node(statements));
            }
            let stmt = self.parse_statement()?;
            proof {
                lemma_asts_push(statements@, stmt);
            }
            statements.push(stmt);
            self.eat_stmt_separators();
        }
    }

    #[verifier::rlimit(50)]
    #[verifier::spinoff_prover]
    fn parse_block(&mut self) -> (r: WqResult<AstNode>)
        requires
            old(self).wf(),
        ensures
            final(self).wf(),
            final(self).tokens == old(self).tokens,
            final(self).current >= old(self).current,
            node_step(r, final(self).current as int) == block_v(
                kinds_of(old(self).tokens@),
                old(self).current as int,
            ),
            r matches Err(e) ==> is_parse_error(e),
        decreases old(self).tokens.len() - old(self).current, 20nat,
    {
        let ghost ts = kinds_of(self.tokens@);
        let ghost i0 = self.current as int;
        let mut statements: Vec<AstNode> = Vec::new();
        proof {
            lemma_asts_empty(statements@);
        }
        loop
            invariant
                self.wf(),
                self.tokens == old(self).tokens,
                ts == kinds_of(self.tokens@),
                i0 == old(self).current,
                self.current >= i0,
                block_v(ts, i0) == block_loop(ts, i0, self.current as int, asts_of(statements@)),
            decreases self.tokens.len() - self.current,
        {
            let ghost c = self.current as int;
            self.eat_stmt_separators();
            let t = self.cur_tag();
            if t == T_RIGHT_BRACE {
                return Ok(block_node(statements));
            }
            if t == T_EOF {
                return Err(self.eof_error("Unexpected end of input in block"));
            }
            let stmt = self.parse_statement()?;
            proof {
                lemma_asts_push(statements@, stmt);
            }
            statements.push(stmt);
            self.eat_stmt_separators();
        }
    }

    #[verifier::rlimit(50)]
    #[verifier::spinoff_prover]
    fn parse_statement(&mut self) -> (r: WqResult<AstNode>)
        requires
            old(self).wf(),
        ensures
            final(self).wf(),
            final(self).tokens == old(self).tokens,
            final(self).current >= old(self).current,
            r is Ok ==> final(self).current > old(self).current,
            node_step(r, final(self).current as int) == statement_v(
                kinds_of(old(self).tokens@),
                old(self).current as int,
            ),
            r matches Err(e) ==> is_parse_error(e),
        decreases old(self).tokens.len() - old(self).current, 13nat,
    {
        self.parse_expression()
    }

    #[verifier::rlimit(50)]
    #[verifier::spinoff_prover]
    fn parse_expression(&mut self) -> (r: WqResult<AstNode>)
        requires
            old(self).wf(),
        ensures
            final(self).wf(),
            final(self).tokens == old(self).tokens,
            final(self).current >= old(self).current,
            r is Ok ==> final(self).current > old(self).current,
            node_step(r, final(self).current as int) == expression_v(
                kinds_of(old(self).tokens@),
                old(self).current as int,
            ),
            r matches Err(e) ==> is_parse_error(e),
        decreases old(self).tokens.len() - old(self).current, 12nat,
    {
        self.parse_assignment()
    }

    /// The value after the `:` at `colon` (the current token) of an assignment.
    #[verifier::rlimit(50)]
    #[verifier::spinoff_prover]
    fn parse_assigned_value(&mut self, colon: usize, Ghost(i0): Ghost<int>) -> (r: WqResult<AstNode>)
        requires
            old(self).wf(),
            old(self).current == colon,
            i0 <= colon,
            tag(kinds_of(old(self).tokens@), colon as int) == T_COLON,
        ensures
            final(self).wf(),
            final(self).tokens == old(self).tokens,
            final(self).current >= old(self).current,
            r is Ok ==> final(self).current > old(self).current,
            node_step(r, final(self).current as int) == assigned_value_v(
                kinds_of(old(self).tokens@),
                i0,
                colon as int,
            ),
            r matches Err(e) ==> is_parse_error(e),
        decreases old(self).tokens.len() - old(self).current, 10nat,
    {
        self.advance();
        self.ensure_rhs_after_op(colon, "':'")?;
        self.parse_assignment()
    }

    #[verifier::rlimit(100)]
    #[verifier::spinoff_prover]
    fn parse_assignment(&mut self) -> (r: WqResult<AstNode>)
        requires
            old(self).wf(),
        ensures
            final(self).wf(),
            final(self).tokens == old(self).tokens,
            final(self).current >= old(self).current,
            r is Ok ==> final(self).current > old(self).current,
            node_step(r, final(self).current as int) == assignment_v(
                kinds_of(old(self).tokens@),
                old(self).current as int,
            ),
            r matches Err(e) ==> is_parse_error(e),
        decreases old(self).tokens.len() - old(self).current, 11nat,
    {
        let ghost ts = kinds_of(self.tokens@);
        let ghost i0 = self.current as int;
        let expr = self.parse_comma()?;
        if self.cur_tag() != T_COLON {
            return Ok(expr);
        }
        let colon = self.current;
        let ghost e0 = ast_of(expr);
        match expr {
            AstNode::Variable(name) => {
                let name_chars = chars_of(name.as_str());
                if is_builtin_name(&name_chars) {
                    return Err(self.syntax_error(
                        join3(
                            "Cannot assign to '",
                            name.as_str(),
                            "' because a builtin with the same name exists",
                        ).as_str(),
                    ));
                }
                let value = self.parse_assigned_value(colon, Ghost(i0))?;
                Ok(AstNode::Assignment { name, value: Box::new(value) })
            },
            AstNode::Index { object, index } => {
                let value = self.parse_assigned_value(colon, Ghost(i0))?;
                Ok(AstNode::IndexAssign { object, index, value: Box::new(value) })
            },
            AstNode::Postfix { object, items, explicit_call } => {
                if explicit_call {
                    return Ok(AstNode::Postfix { object, items, explicit_call });
                }
                let value = self.parse_assigned_value(colon, Ghost(i0))?;
                let index = Box::new(list_node(items));
                Ok(AstNode::IndexAssign { object, index, value: Box::new(value) })
            },
            other => {
                proof {
                    lemma_ast_variant(other);
                }
                Ok(other)
            },
        }
    }

    #[verifier::rlimit(100)]
    #[verifier::spinoff_prover]
    fn parse_comma(&mut self) -> (r: WqResult<AstNode>)
        requires
            old(self).wf(),
        ensures
            final(self).wf(),
            final(self).tokens == old(self).tokens,
            final(self).current >= old(self).current,
            r is Ok ==> final(self).current > old(self).current,
            node_step(r, final(self).current as int) == comma_v(
                kinds_of(old(self).tokens@),
                old(self).current as int,
            ),
            r matches Err(e) ==> is_parse_error(e),
        decreases old(self).tokens.len() - old(self).current, 10nat,
    {
        let ghost ts = kinds_of(self.tokens@);
        let ghost i0 = self.current as int;
        if self.cur_tag() == T_COMMA {
            // leading-comma list: ,a,b,c
            let mut items: Vec<AstNode> = Vec::new();
            proof {
                lemma_asts_empty(items@);
            }
            while self.cur_tag() == T_COMMA
                invariant
                    self.wf(),
                    self.tokens == old(self).tokens,
                    ts == kinds_of(self.tokens@),
                    i0 == old(self).current,
                    self.current > i0 || (self.current == i0 && self.current < self.tokens.len()),
                    comma_v(ts, i0) == leading_comma_loop(ts, i0, self.current as int, asts_of(items@)),
                decreases self.tokens.len() - self.current,
            {
                self.advance();
                let e = self.parse_comparison()?;
                proof {
                    lemma_asts_push(items@, e);
                }
                items.push(e);
            }
            return Ok(AstNode::List(items));
        }
        let mut expr = self.parse_comparison()?;
        while self.cur_tag() == T_COMMA
            invariant
                self.wf(),
                self.tokens == old(self).tokens,
                ts == kinds_of(self.tokens@),
                i0 == old(self).current,
                self.current > i0,
                comma_v(ts, i0) == comma_loop(ts, i0, self.current as int, ast_of(expr)),
            decreases self.tokens.len() - self.current,
        {
            self.advance();
            let right = self.parse_comparison()?;
            let ghost l = ast_of(expr);
            let ghost rr = ast_of(right);
            let mut args: Vec<AstNode> = Vec::new();
            args.push(expr);
            args.push(right);
            proof {
                lemma_asts_two(args@[0], args@[1]);
                assert(args@ =~= seq![args@[0], args@[1]]);
            }
            expr = AstNode::Call { name: "cat".to_string(), args };
            assert(ast_of(expr) == Ast::Call("cat"@, seq![l, rr]));
        }
        Ok(expr)
    }

    fn comparison_op(&self) -> (r: Option<BinaryOperator>)
        requires
            self.wf(),
        ensures
            r == comparison_op_v(tag(kinds_of(self.tokens@), self.current as int)),
    {
        let t = self.cur_tag();
        if t == T_EQUAL {
            Some(BinaryOperator::Equal)
        } else if t == T_NOT_EQUAL {
            Some(BinaryOperator::NotEqual)
        } else if t == T_LESS {
            Some(BinaryOperator::LessThan)
        } else if t == T_LESS_EQUAL {
            Some(BinaryOperator::LessThanOrEqual)
        } else if t == T_GREATER {
            Some(BinaryOperator::GreaterThan)
        } else if t == T_GREATER_EQUAL {
            Some(BinaryOperator::GreaterThanOrEqual)
        } else {
            None
        }
    }

    fn additive_op(&self) -> (r: Option<BinaryOperator>)
        requires
            self.wf(),
        ensures
            r == additive_op_v(tag(kinds_of(self.tokens@), self.current as int)),
    {
        let t = self.cur_tag();
        if t == T_PLUS {
            Some(BinaryOperator::Add)
        } else if t == T_MINUS {
            Some(BinaryOperator::Subtract)
        } else {
            None
        }
    }

    fn multiplicative_op(&self) -> (r: Option<BinaryOperator>)
        requires
            self.wf(),
        ensures
            r == multiplicative_op_v(tag(kinds_of(self.tokens@), self.current as int)),
    {
        let t = self.cur_tag();
        if t == T_MULTIPLY {
            Some(BinaryOperator::Multiply)
        } else if t == T_DIVIDE {
            Some(BinaryOperator::Divide)
        } else if t == T_DIVIDE_DOT {
            Some(BinaryOperator::DivideDot)
        } else if t == T_MODULO {
            Some(BinaryOperator::Modulo)
        } else if t == T_MODULO_DOT {
            Some(BinaryOperator::ModuloDot)
        } else {
            None
        }
    }

    #[verifier::rlimit(50)]
    #[verifier::spinoff_prover]
    fn parse_comparison(&mut self) -> (r: WqResult<AstNode>)
        requires
            old(self).wf(),
        ensures
            final(self).wf(),
            final(self).tokens == old(self).tokens,
            final(self).current >= old(self).current,
            r is Ok ==> final(self).current > old(self).current,
            node_step(r, final(self).current as int) == comparison_v(
                kinds_of(old(self).tokens@),
                old(self).current as int,
            ),
            r matches Err(e) ==> is_parse_error(e),
        decreases old(self).tokens.len() - old(self).current, 9nat,
    {
        let ghost ts = kinds_of(self.tokens@);
        let ghost i0 = self.current as int;
        let mut left = self.parse_additive()?;
        loop
            invariant
                self.wf(),
                self.tokens == old(self).tokens,
                ts == kinds_of(self.tokens@),
                i0 == old(self).current,
                self.current > i0,
                comparison_v(ts, i0) == comparison_loop(ts, i0, self.current as int, ast_of(left)),
            decreases self.tokens.len() - self.current,
        {
            let op = match self.comparison_op() {
                Some(op) => op,
                None => {
                    return Ok(left);
                },
            };
            let op_idx = self.current;
            self.advance();
            self.ensure_rhs_after_op(op_idx, "comparison operator")?;
            let right = self.parse_additive()?;
            left = AstNode::BinaryOp { left: Box::new(left), operator: op, right: Box::new(right) };
        }
    }

    #[verifier::rlimit(50)]
    #[verifier::spinoff_prover]
    fn parse_additive(&mut self) -> (r: WqResult<AstNode>)
        requires
            old(self).wf(),
        ensures
            final(self).wf(),
            final(self).tokens == old(self).tokens,
            final(self).current >= old(self).current,
            r is Ok ==> final(self).current > old(self).current,
            node_step(r, final(self).current as int) == additive_v(
                kinds_of(old(self).tokens@),
                old(self).current as int,
            ),
            r matches Err(e) ==> is_parse_error(e),
        decreases old(self).tokens.len() - old(self).current, 8nat,
    {
        let ghost ts = kinds_of(self.tokens@);
        let ghost i0 = self.current as int;
        let mut left = self.parse_multiplicative()?;
        loop
            invariant
                self.wf(),
                self.tokens == old(self).tokens,
                ts == kinds_of(self.tokens@),
                i0 == old(self).current,
                self.current > i0,
                additive_v(ts, i0) == additive_loop(ts, i0, self.current as int, ast_of(left)),
            decreases self.tokens.len() - self.current,
        {
            let op = match self.additive_op() {
                Some(op) => op,
                None => {
                    return Ok(left);
                },
            };
            let op_idx = self.current;
            self.advance();
            self.ensure_rhs_after_op(op_idx, "binary operator")?;
            let right = self.parse_multiplicative()?;
            left = AstNode::BinaryOp { left: Box::new(left), operator: op, right: Box::new(right) };
        }
    }

    #[verifier::rlimit(50)]
    #[verifier::spinoff_prover]
    fn parse_multiplicative(&mut self) -> (r: WqResult<AstNode>)
        requires
            old(self).wf(),
        ensures
            final(self).wf(),
            final(self).tokens == old(self).tokens,
            final(self).current >= old(self).current,
            r is Ok ==> final(self).current > old(self).current,
            node_step(r, final(self).current as int) == multiplicative_v(
                kinds_of(old(self).tokens@),
                old(self).current as int,
            ),
            r matches Err(e) ==> is_parse_error(e),
        decreases old(self).tokens.len() - old(self).current, 7nat,
    {
        let ghost ts = kinds_of(self.tokens@);
        let ghost i0 = self.current as int;
        let mut left = self.parse_unary()?;
        loop
            invariant
                self.wf(),
                self.tokens == old(self).tokens,
                ts == kinds_of(self.tokens@),
                i0 == old(self).current,
                self.current > i0,
                multiplicative_v(ts, i0) == multiplicative_loop(ts, i0, self.current as int, ast_of(left)),
            decreases self.tokens.len() - self.current,
        {
            let op = match self.multiplicative_op() {
                Some(op) => op,
                None => {
                    return Ok(left);
                },
            };
            let op_idx = self.current;
            self.advance();
            self.ensure_rhs_after_op(op_idx, "binary operator")?;
            let right = self.parse_unary()?;
            left = AstNode::BinaryOp { left: Box::new(left), operator: op, right: Box::new(right) };
        }
    }

    #[verifier::rlimit(50)]
    #[verifier::spinoff_prover]
    fn parse_unary(&mut self) -> (r: WqResult<AstNode>)
        requires
            old(self).wf(),
        ensures
            final(self).wf(),
            final(self).tokens == old(self).tokens,
            final(self).current >= old(self).current,
            r is Ok ==> final(self).current > old(self).current,
            node_step(r, final(self).current as int) == unary_v(
                kinds_of(old(self).tokens@),
                old(self).current as int,
            ),
            r matches Err(e) ==> is_parse_error(e),
        decreases old(self).tokens.len() - old(self).current, 6nat,
    {
        let ghost ts = kinds_of(self.tokens@);
        let ghost i0 = self.current as int;
        let mut ops: Vec<UnaryOperator> = Vec::new();
        let mut negate = false;
        loop
            invariant
                self.wf(),
                self.tokens == old(self).tokens,
                ts == kinds_of(self.tokens@),
                i0 == old(self).current,
                self.current >= i0,
                prefix_ops(ts, i0, Seq::empty(), false) == prefix_ops(ts, self.current as int, ops@, negate),
            ensures
                prefix_ops(ts, i0, Seq::empty(), false) == (ops@, negate, self.current as int),
            decreases self.tokens.len() - self.current,
        {
            let t = self.cur_tag();
            if t == T_MINUS {
                self.advance();
                negate = !negate;
            } else if t == T_SHARP {
                if negate {
                    ops.push(UnaryOperator::Negate);
                    negate = false;
                }
                self.advance();
                ops.push(UnaryOperator::Count);
            } else {
                break;
            }
        }
        let mut node = self.parse_power()?;
        let ghost powered = ast_of(node);
        if negate {
            node = match node {
                AstNode::Literal(Value::Int(n)) => if n != i64::MIN {
                    AstNode::Literal(Value::Int(-n))
                } else {
                    AstNode::UnaryOp {
                        operator: UnaryOperator::Negate,
                        operand: Box::new(AstNode::Literal(Value::Int(n))),
                    }
                },
                AstNode::Literal(Value::Float(f)) => AstNode::Literal(Value::Float(negate_float_text(&f))),
                other => {
                    assert(!(powered matches Ast::Lit(Val::Int(_))) && !(powered matches Ast::Lit(
                        Val::Float(_),
                    )));
                    AstNode::UnaryOp { operator: UnaryOperator::Negate, operand: Box::new(other) }
                },
            };
        }
        let ghost start = ast_of(node);
        let ghost all_ops = ops@;
        while ops.len() > 0
            invariant
                apply_prefix(all_ops, start) == apply_prefix(ops@, ast_of(node)),
            decreases ops.len(),
        {
            let ghost before = ops@;
            let op = ops.pop().unwrap();
            assert(before.drop_last() =~= ops@);
            node = AstNode::UnaryOp { operator: op, operand: Box::new(node) };
        }
        Ok(node)
    }

    #[verifier::rlimit(50)]
    #[verifier::spinoff_prover]
    fn parse_power(&mut self) -> (r: WqResult<AstNode>)
        requires
            old(self).wf(),
        ensures
            final(self).wf(),
            final(self).tokens == old(self).tokens,
            final(self).current >= old(self).current,
            r is Ok ==> final(self).current > old(self).current,
            node_step(r, final(self).current as int) == power_v(
                kinds_of(old(self).tokens@),
                old(self).current as int,
            ),
            r matches Err(e) ==> is_parse_error(e),
        decreases old(self).tokens.len() - old(self).current, 5nat,
    {
        let ghost ts = kinds_of(self.tokens@);
        let ghost i0 = self.current as int;
        let mut operands: Vec<AstNode> = Vec::new();
        let first = self.parse_postfix()?;
        proof {
            lemma_asts_empty(operands@);
            lemma_asts_push(operands@, first);
            assert(Seq::<Ast>::empty().push(ast_of(first)) =~= seq![ast_of(first)]);
        }
        operands.push(first);
        while self.cur_tag() == T_POWER
            invariant
                self.wf(),
                self.tokens == old(self).tokens,
                ts == kinds_of(self.tokens@),
                i0 == old(self).current,
                self.current > i0,
                operands.len() >= 1,
                power_v(ts, i0) == power_loop(ts, i0, self.current as int, asts_of(operands@)),
            decreases self.tokens.len() - self.current,
        {
            let op_idx = self.current;
            self.advance();
            self.ensure_rhs_after_op(op_idx, "power operator")?;
            let e = self.parse_postfix()?;
            proof {
                lemma_asts_push(operands@, e);
            }
            operands.push(e);
        }
        // fold right: a ^ b ^ c => a ^ (b ^ c)
        let ghost all = asts_of(operands@);
        proof {
            lemma_asts_drop_last(operands@);
        }
        let mut acc = operands.pop().unwrap();
        while operands.len() > 0
            invariant
                power_from(all.drop_last(), all.last()) == power_from(asts_of(operands@), ast_of(acc)),
            decreases operands.len(),
        {
            proof {
                lemma_asts_drop_last(operands@);
            }
            let left = operands.pop().unwrap();
            acc = AstNode::BinaryOp {
                left: Box::new(left),
                operator: BinaryOperator::Power,
                right: Box::new(acc),
            };
        }
        Ok(acc)
    }
}

impl Parser {
    /// The items of `[...]` after the `[`, and whether the brackets make an explicit call
    /// (`[]`, `[;]`, or a trailing `;` before `]`).
    #[verifier::rlimit(50)]
    #[verifier::spinoff_prover]
    fn parse_bracket_items(&mut self) -> (r: WqResult<(Vec<AstNode>, bool)>)
        requires
            old(self).wf(),
        ensures
            final(self).wf(),
            final(self).tokens == old(self).tokens,
            final(self).current >= old(self).current,
            items_step(r, final(self).current as int) == bracket_items_v(
                kinds_of(old(self).tokens@),
                old(self).current as int,
            ),
            r matches Err(e) ==> is_parse_error(e),
        decreases old(self).tokens.len() - old(self).current, 20nat,
    {
        let ghost ts = kinds_of(self.tokens@);
        let ghost i0 = self.current as int;
        let t = self.cur_tag();
        if t == T_SEMICOLON {
            self.advance();
            self.consume(T_RIGHT_BRACKET, "']'")?;
            let v: Vec<AstNode> = Vec::new();
            proof {
                lemma_asts_empty(v@);
            }
            return Ok((v, true));
        }
        if t == T_RIGHT_BRACKET {
            self.advance();
            let v: Vec<AstNode> = Vec::new();
            proof {
                lemma_asts_empty(v@);
            }
            return Ok((v, true));
        }
        if t == T_EOF {
            return Err(self.eof_error("Unexpected end of input in bracket"));
        }
        let mut items: Vec<AstNode> = Vec::new();
        proof {
            lemma_asts_empty(items@);
        }
        loop
            invariant
                self.wf(),
                self.tokens == old(self).tokens,
                ts == kinds_of(self.tokens@),
                i0 == old(self).current,
                self.current >= i0,
                bracket_items_v(ts, i0) == bracket_loop(ts, i0, self.current as int, asts_of(items@)),
            decreases self.tokens.len() - self.current,
        {
            let ghost c = self.current as int;
            self.eat_trivia(true, true);
            if self.cur_tag() == T_RIGHT_BRACKET {
                self.advance();
                return Ok((items, false));
            }
            let e = self.parse_expression()?;
            proof {
                lemma_asts_push(items@, e);
            }
            items.push(e);
            self.eat_trivia(true, true);
            if self.cur_tag() == T_RIGHT_BRACKET {
                self.advance();
                return Ok((items, false));
            }
            self.require_semicolon("bracket items")?;
            self.eat_trivia(true, true);
            if self.cur_tag() == T_RIGHT_BRACKET {
                self.advance();
                return Ok((items, true));
            }
            if self.cur_tag() == T_EOF {
                return Err(self.eof_error("Unexpected end of input in bracket"));
            }
        }
    }

    #[verifier::rlimit(50)]
    #[verifier::spinoff_prover]
    fn parse_postfix(&mut self) -> (r: WqResult<AstNode>)
        requires
            old(self).wf(),
        ensures
            final(self).wf(),
            final(self).tokens == old(self).tokens,
            final(self).current >= old(self).current,
            r is Ok ==> final(self).current > old(self).current,
            node_step(r, final(self).current as int) == postfix_v(
                kinds_of(old(self).tokens@),
                old(self).current as int,
            ),
            r matches Err(e) ==> is_parse_error(e),
        decreases old(self).tokens.len() - old(self).current, 4nat,
    {
        let ghost ts = kinds_of(self.tokens@);
        let ghost i0 = self.current as int;
        let mut expr = self.parse_primary()?;
        loop
            invariant
                self.wf(),
                self.tokens == old(self).tokens,
                ts == kinds_of(self.tokens@),
                i0 == old(self).current,
                self.current > i0,
                postfix_v(ts, i0) == postfix_loop(ts, i0, self.current as int, ast_of(expr)),
            decreases self.tokens.len() - self.current,
        {
            // comments are skipped; newlines end the postfix chain
            self.eat_trivia(false, true);
            let t = self.cur_tag();
            if t == T_LEFT_BRACKET {
                self.advance();
                let (items, explicit_call) = self.parse_bracket_items()?;
                expr = AstNode::Postfix { object: Box::new(expr), items, explicit_call };
            } else if t == T_INTEGER || t == T_FLOAT || t == T_CHARACTER || t == T_STRING || t
                == T_SYMBOL || t == T_IDENTIFIER || t == T_TRUE || t == T_FALSE || t
                == T_LEFT_PAREN {
                let arg = self.parse_unary()?;
                let ghost a = ast_of(arg);
                let mut items: Vec<AstNode> = Vec::new();
                items.push(arg);
                proof {
                    lemma_asts_two(items@[0], items@[0]);
                    assert(items@ =~= seq![items@[0]]);
                }
                expr = AstNode::Postfix { object: Box::new(expr), items, explicit_call: true };
            } else {
                return Ok(expr);
            }
        }
    }

    /// A list `(a;b;c)` after its `(`; a single element is returned as it is.
    #[verifier::rlimit(50)]
    #[verifier::spinoff_prover]
    fn parse_paren_list(&mut self) -> (r: WqResult<AstNode>)
        requires
            old(self).wf(),
        ensures
            final(self).wf(),
            final(self).tokens == old(self).tokens,
            final(self).current >= old(self).current,
            node_step(r, final(self).current as int) == paren_list_v(
                kinds_of(old(self).tokens@),
                old(self).current as int,
            ),
            r matches Err(e) ==> is_parse_error(e),
        decreases old(self).tokens.len() - old(self).current, 20nat,
    {
        let ghost ts = kinds_of(self.tokens@);
        let ghost i0 = self.current as int;
        let mut elements: Vec<AstNode> = Vec::new();
        proof {
            lemma_asts_empty(elements@);
        }
        loop
            invariant
                self.wf(),
                self.tokens == old(self).tokens,
                ts == kinds_of(self.tokens@),
                i0 == old(self).current,
                self.current >= i0,
                paren_list_v(ts, i0) == paren_list_loop(ts, i0, self.current as int, asts_of(elements@)),
            decreases self.tokens.len() - self.current,
        {
            let ghost c = self.current as int;
            self.eat_trivia(true, true);
            let t = self.cur_tag();
            if t == T_RIGHT_PAREN {
                self.advance();
                return Ok(list_node(elements));
            }
            if t == T_EOF {
                return Err(self.eof_error("Unexpected end of input in list"));
            }
            let e = self.parse_expression()?;
            proof {
                lemma_asts_push(elements@, e);
            }
            elements.push(e);
            self.eat_trivia(true, true);
            if self.cur_tag() == T_RIGHT_PAREN {
                self.advance();
                return Ok(list_node(elements));
            }
            self.require_semicolon("list")?;
            self.eat_trivia(true, true);
            let t = self.cur_tag();
            if t == T_RIGHT_PAREN {
                self.advance();
                return Ok(list_node(elements));
            }
            if t == T_EOF {
                return Err(self.eof_error("Unexpected end of input in list"));
            }
        }
    }

    /// A dictionary `(`a:1;`b:2)` after its `(`.
    #[verifier::rlimit(50)]
    #[verifier::spinoff_prover]
    fn parse_paren_dict(&mut self) -> (r: WqResult<AstNode>)
        requires
            old(self).wf(),
        ensures
            final(self).wf(),
            final(self).tokens == old(self).tokens,
            final(self).current >= old(self).current,
            node_step(r, final(self).current as int) == paren_dict_v(
                kinds_of(old(self).tokens@),
                old(self).current as int,
            ),
            r matches Err(e) ==> is_parse_error(e),
        decreases old(self).tokens.len() - old(self).current, 20nat,
    {
        let ghost ts = kinds_of(self.tokens@);
        let ghost i0 = self.current as int;
        let mut pairs: Vec<(String, AstNode)> = Vec::new();
        proof {
            lemma_entries_empty(pairs@);
        }
        loop
            invariant
                self.wf(),
                self.tokens == old(self).tokens,
                ts == kinds_of(self.tokens@),
                i0 == old(self).current,
                self.current >= i0,
                paren_dict_v(ts, i0) == paren_dict_loop(ts, i0, self.current as int, entries_of(pairs@)),
            decreases self.tokens.len() - self.current,
        {
            let ghost c = self.current as int;
            self.eat_trivia(true, true);
            let t = self.cur_tag();
            if t == T_RIGHT_PAREN {
                self.advance();
                return Ok(AstNode::Dict(pairs));
            }
            if t == T_EOF {
                return Err(self.eof_error("Unexpected end of input in dict"));
            }
            let key = match &self.tokens[self.current].token_type {
                TokenType::Symbol(s) => s.clone(),
                _ => {
                    return Err(self.syntax_error("Expected symbol key in dict"));
                },
            };
            self.advance();
            self.consume(T_COLON, "':'")?;
            let value = self.parse_expression()?;
            proof {
                lemma_entries_push(pairs@, (key, value));
            }
            pairs.push((key, value));
            self.eat_trivia(true, true);
            let t = self.cur_tag();
            if t == T_RIGHT_PAREN {
                self.advance();
                return Ok(AstNode::Dict(pairs));
            }
            if t == T_EOF {
                return Err(self.eof_error("Unexpected end of input in dict"));
            }
            self.require_semicolon("dict")?;
            self.eat_trivia(true, true);
            if self.cur_tag() == T_RIGHT_PAREN {
                self.advance();
                return Ok(AstNode::Dict(pairs));
            }
        }
    }

    #[verifier::rlimit(100)]
    #[verifier::spinoff_prover]
    fn parse_primary(&mut self) -> (r: WqResult<AstNode>)
        requires
            old(self).wf(),
        ensures
            final(self).wf(),
            final(self).tokens == old(self).tokens,
            final(self).current >= old(self).current,
            r is Ok ==> final(self).current > old(self).current,
            node_step(r, final(self).current as int) == primary_v(
                kinds_of(old(self).tokens@),
                old(self).current as int,
            ),
            r matches Err(e) ==> is_parse_error(e),
        decreases old(self).tokens.len() - old(self).current, 3nat,
    {
        let ghost ts = kinds_of(self.tokens@);
        let ghost i0 = self.current as int;
        if self.current >= self.tokens.len() {
            return Err(self.eof_error("Unexpected end of input"));
        }
        let t = self.cur_tag();
        if t == T_DOLLAR {
            return self.parse_conditional();
        }
        if t == T_DOLLAR_DOT {
            return self.parse_conditional_dot();
        }
        if t == T_LEFT_BRACE {
            return self.parse_function();
        }
        assert(ts[i0] == self.tokens@[i0].token_type@);
        let node = match &self.tokens[self.current].token_type {
            TokenType::Integer(n) => AstNode::Literal(Value::Int(*n)),
            TokenType::BigInteger(b) => AstNode::Literal(Value::BigInt(b.clone())),
            TokenType::Float(f) => AstNode::Literal(Value::Float(f.clone())),
            TokenType::Character(c) => AstNode::Literal(Value::Char(*c)),
            TokenType::String(s) => AstNode::Literal(str_value_of(s.as_str())),
            TokenType::Symbol(s) => AstNode::Literal(Value::Symbol(s.clone())),
            TokenType::True => AstNode::Literal(Value::Bool(true)),
            TokenType::False => AstNode::Literal(Value::Bool(false)),
            TokenType::Inf => AstNode::Literal(Value::Float("inf".to_string())),
            TokenType::Nan => AstNode::Literal(Value::Float("NaN".to_string())),
            TokenType::AtBreak => AstNode::Break,
            TokenType::AtContinue => AstNode::Continue,
            TokenType::AtReturn => {
                self.advance();
                let t2 = self.cur_tag();
                if t2 == T_SEMICOLON || t2 == T_RIGHT_BRACKET || t2 == T_RIGHT_PAREN || t2
                    == T_RIGHT_BRACE || t2 == T_NEWLINE || t2 == T_EOF {
                    return Ok(AstNode::Return(None));
                }
                let e = self.parse_expression()?;
                return Ok(AstNode::Return(Some(Box::new(e))));
            },
            TokenType::AtTry => {
                self.advance();
                let e = self.parse_expression()?;
                return Ok(AstNode::Try(Box::new(e)));
            },
            TokenType::Identifier(name) => {
                let name = name.clone();
                self.advance();
                // comments may stand between W/N and '['; a newline may not
                self.eat_trivia(false, true);
                if self.cur_tag() == T_LEFT_BRACKET {
                    let nc = chars_of(name.as_str());
                    if nc.len() == 1 && nc[0] == 'W' {
                        assert(name@ =~= seq!['W']);
                        self.advance();
                        return self.parse_while();
                    } else if nc.len() == 1 && nc[0] == 'N' {
                        assert(name@ =~= seq!['N']);
                        self.advance();
                        return self.parse_for();
                    }
                    assert(name@ != seq!['W'] && name@ != seq!['N']) by {
                        if name@ == seq!['W'] || name@ == seq!['N'] {
                            assert(nc@.len() == 1);
                        }
                    }
                }
                return Ok(AstNode::Variable(name));
            },
            TokenType::LeftParen => {
                self.advance();
                self.eat_trivia(true, true);
                if self.cur_tag() == T_RIGHT_PAREN {
                    self.advance();
                    let v: Vec<AstNode> = Vec::new();
                    proof {
                        lemma_asts_empty(v@);
                    }
                    return Ok(AstNode::List(v));
                }
                // a symbol then ':' starts a dictionary
                if self.cur_tag() == T_SYMBOL && self.peek_tag() == T_COLON {
                    return self.parse_paren_dict();
                }
                return self.parse_paren_list();
            },
            TokenType::Eof => {
                return Err(self.eof_error("Unexpected end of input"));
            },
            _ => {
                return Err(self.syntax_error("Unexpected token"));
            },
        };
        self.advance();
        Ok(node)
    }

    /// A function `{[a;b] body}` at its `{`.
    #[verifier::rlimit(100)]
    #[verifier::spinoff_prover]
    fn parse_function(&mut self) -> (r: WqResult<AstNode>)
        requires
            old(self).wf(),
            old(self).current < old(self).tokens.len(),
        ensures
            final(self).wf(),
            final(self).tokens == old(self).tokens,
            final(self).current > old(self).current,
            node_step(r, final(self).current as int) == function_v(
                kinds_of(old(self).tokens@),
                old(self).current as int,
            ),
            r matches Err(e) ==> is_parse_error(e),
        decreases old(self).tokens.len() - old(self).current, 2nat,
    {
        let ghost ts = kinds_of(self.tokens@);
        let ghost i0 = self.current as int;
        self.advance();
        let mut params: Option<Vec<String>> = None;
        if self.cur_tag() == T_LEFT_BRACKET {
            self.advance();
            let mut names: Vec<String> = Vec::new();
            assert(names@.map_values(|p: String| p@) =~= Seq::<Seq<char>>::empty());
            loop
                invariant_except_break
                    params is None,
                    params_v(ts, i0 + 2, Seq::empty()) == params_v(
                        ts,
                        self.current as int,
                        names@.map_values(|p: String| p@),
                    ),
                invariant
                    self.wf(),
                    self.tokens == old(self).tokens,
                    ts == kinds_of(self.tokens@),
                    i0 == old(self).current,
                    self.current > i0,
                    tag(ts, i0 + 1) == T_LEFT_BRACKET,
                ensures
                    params matches Some(ns) && params_v(ts, i0 + 2, Seq::empty()) == Step::Done(
                        ns@.map_values(|p: String| p@),
                        self.current as int,
                    ),
                decreases self.tokens.len() - self.current,
            {
                self.eat_trivia(true, true);
                if self.current >= self.tokens.len() {
                    return Err(self.eof_error("Unexpected end of input in parameter list"));
                }
                assert(ts[self.current as int] == self.tokens@[self.current as int].token_type@);
                match &self.tokens[self.current].token_type {
                    TokenType::Identifier(name) => {
                        let ghost before = names@;
                        names.push(name.clone());
                        assert(names@.map_values(|p: String| p@) =~= before.map_values(
                            |p: String| p@,
                        ).push(name@));
                        self.advance();
                    },
                    TokenType::Semicolon => {
                        self.advance();
                    },
                    TokenType::RightBracket => {
                        self.advance();
                        params = Some(names);
                        break;
                    },
                    TokenType::Eof => {
                        return Err(self.eof_error("Unexpected end of input in parameter list"));
                    },
                    _ => {
                        return Err(self.syntax_error("Expected identifier, ';' or ']'"));
                    },
                }
            }
        }
        let body = self.parse_block()?;
        self.consume(T_RIGHT_BRACE, "'}'")?;
        Ok(AstNode::Function { params, body: Box::new(body) })
    }

    /// Statements up to one of the end tokens (not consumed); newlines separate them, and a
    /// `;` that is not an end token.
    #[verifier::rlimit(50)]
    #[verifier::spinoff_prover]
    fn parse_branch_sequence(&mut self, semicolon_ends: bool) -> (r: WqResult<AstNode>)
        requires
            old(self).wf(),
        ensures
            final(self).wf(),
            final(self).tokens == old(self).tokens,
            final(self).current >= old(self).current,
            node_step(r, final(self).current as int) == branch_v(
                kinds_of(old(self).tokens@),
                old(self).current as int,
                semicolon_ends,
            ),
            r matches Err(e) ==> is_parse_error(e),
        decreases old(self).tokens.len() - old(self).current, 20nat,
    {
        let ghost ts = kinds_of(self.tokens@);
        let ghost i0 = self.current as int;
        let mut stmts: Vec<AstNode> = Vec::new();
        proof {
            lemma_asts_empty(stmts@);
        }
        loop
            invariant
                self.wf(),
                self.tokens == old(self).tokens,
                ts == kinds_of(self.tokens@),
                i0 == old(self).current,
                self.current >= i0,
                branch_v(ts, i0, semicolon_ends) == branch_loop(
                    ts,
                    i0,
                    self.current as int,
                    semicolon_ends,
                    asts_of(stmts@),
                ),
            decreases self.tokens.len() - self.current,
        {
            let ghost c = self.current as int;
            self.eat_trivia(true, true);
            let t = self.cur_tag();
            if t == T_EOF {
                return Err(self.eof_error("Unexpected end of input in branch"));
            }
            if t == T_RIGHT_BRACKET || (semicolon_ends && t == T_SEMICOLON) {
                return Ok(block_node(stmts));
            }
            let e = self.parse_expression()?;
            proof {
                lemma_asts_push(stmts@, e);
            }
            stmts.push(e);
            let ghost j = self.current as int;
            loop
                invariant_except_break
                    branch_gap(ts, self.current as int, semicolon_ends) == branch_gap(ts, j, semicolon_ends),
                invariant
                    self.wf(),
                    self.tokens == old(self).tokens,
                    ts == kinds_of(self.tokens@),
                    self.current >= j,
                ensures
                    self.current == branch_gap(ts, j, semicolon_ends),
                decreases self.tokens.len() - self.current,
            {
                self.eat_trivia(false, true);
                let t = self.cur_tag();
                if t == T_NEWLINE {
                    self.advance();
                } else if t == T_SEMICOLON && !semicolon_ends {
                    self.advance();
                } else {
                    break;
                }
            }
        }
    }

    /// A condition (or count) after the `[` of a conditional or loop, and its separator.
    #[verifier::rlimit(50)]
    #[verifier::spinoff_prover]
    fn parse_condition(&mut self, ctx: &str) -> (r: WqResult<AstNode>)
        requires
            old(self).wf(),
        ensures
            final(self).wf(),
            final(self).tokens == old(self).tokens,
            final(self).current >= old(self).current,
            r is Ok ==> final(self).current > old(self).current,
            node_step(r, final(self).current as int) == condition_v(
                kinds_of(old(self).tokens@),
                old(self).current as int,
            ),
            r matches Err(e) ==> is_parse_error(e),
        decreases old(self).tokens.len() - old(self).current, 14nat,
    {
        self.eat_trivia(true, true);
        let condition = self.parse_expression()?;
        self.require_control_separator(ctx)?;
        Ok(condition)
    }

    /// `$[condition; true; false]` at its `$`.
    #[verifier::rlimit(100)]
    #[verifier::spinoff_prover]
    fn parse_conditional(&mut self) -> (r: WqResult<AstNode>)
        requires
            old(self).wf(),
            old(self).current < old(self).tokens.len(),
        ensures
            final(self).wf(),
            final(self).tokens == old(self).tokens,
            final(self).current > old(self).current,
            node_step(r, final(self).current as int) == conditional_v(
                kinds_of(old(self).tokens@),
                old(self).current as int,
            ),
            r matches Err(e) ==> is_parse_error(e),
        decreases old(self).tokens.len() - old(self).current, 2nat,
    {
        self.advance();
        self.consume(T_LEFT_BRACKET, "'['")?;
        let condition = self.parse_condition("$[condition; true ; false]")?;
        let true_branch = self.parse_branch_sequence(true)?;
        let false_branch = self.parse_else_branch()?;
        Ok(AstNode::Conditional {
            condition: Box::new(condition),
            true_branch: Box::new(true_branch),
            false_branch: Some(Box::new(false_branch)),
        })
    }

    /// The `; false]` of a conditional at the end of its true branch.
    #[verifier::rlimit(50)]
    #[verifier::spinoff_prover]
    fn parse_else_branch(&mut self) -> (r: WqResult<AstNode>)
        requires
            old(self).wf(),
        ensures
            final(self).wf(),
            final(self).tokens == old(self).tokens,
            final(self).current >= old(self).current,
            node_step(r, final(self).current as int) == else_branch_v(
                kinds_of(old(self).tokens@),
                old(self).current as int,
            ),
            r matches Err(e) ==> is_parse_error(e),
        decreases old(self).tokens.len() - old(self).current, 21nat,
    {
        if self.cur_tag() == T_RIGHT_BRACKET {
            return Err(self.syntax_error(
                "Expected false branch after true branch; use '$.[...]' for single-branch conditional",
            ));
        }
        self.consume(T_SEMICOLON, "';'")?;
        let false_branch = self.parse_branch_sequence(false)?;
        self.consume(T_RIGHT_BRACKET, "']'")?;
        Ok(false_branch)
    }

    /// `$.[condition; true]` at its `$.`.
    #[verifier::rlimit(100)]
    #[verifier::spinoff_prover]
    fn parse_conditional_dot(&mut self) -> (r: WqResult<AstNode>)
        requires
            old(self).wf(),
            old(self).current < old(self).tokens.len(),
        ensures
            final(self).wf(),
            final(self).tokens == old(self).tokens,
            final(self).current > old(self).current,
            node_step(r, final(self).current as int) == conditional_dot_v(
                kinds_of(old(self).tokens@),
                old(self).current as int,
            ),
            r matches Err(e) ==> is_parse_error(e),
        decreases old(self).tokens.len() - old(self).current, 2nat,
    {
        self.advance();
        self.consume(T_LEFT_BRACKET, "'['")?;
        let condition = self.parse_condition("$.[condition; true]")?;
        let true_branch = self.parse_branch_sequence(false)?;
        self.consume(T_RIGHT_BRACKET, "']'")?;
        Ok(AstNode::Conditional {
            condition: Box::new(condition),
            true_branch: Box::new(true_branch),
            false_branch: None,
        })
    }

    /// `W[condition; body]` after its `W[`.
    #[verifier::rlimit(100)]
    #[verifier::spinoff_prover]
    fn parse_while(&mut self) -> (r: WqResult<AstNode>)
        requires
            old(self).wf(),
        ensures
            final(self).wf(),
            final(self).tokens == old(self).tokens,
            final(self).current >= old(self).current,
            node_step(r, final(self).current as int) == while_v(
                kinds_of(old(self).tokens@),
                old(self).current as int,
            ),
            r matches Err(e) ==> is_parse_error(e),
        decreases old(self).tokens.len() - old(self).current, 21nat,
    {
        let condition = self.parse_condition("W[condition; body]")?;
        let body = self.parse_branch_sequence(false)?;
        self.consume(T_RIGHT_BRACKET, "']'")?;
        Ok(AstNode::WhileLoop { condition: Box::new(condition), body: Box::new(body) })
    }

    /// `N[count; body]` after its `N[`.
    #[verifier::rlimit(100)]
    #[verifier::spinoff_prover]
    fn parse_for(&mut self) -> (r: WqResult<AstNode>)
        requires
            old(self).wf(),
        ensures
            final(self).wf(),
            final(self).tokens == old(self).tokens,
            final(self).current >= old(self).current,
            node_step(r, final(self).current as int) == for_v(
                kinds_of(old(self).tokens@),
                old(self).current as int,
            ),
            r matches Err(e) ==> is_parse_error(e),
        decreases old(self).tokens.len() - old(self).current, 21nat,
    {
        let count = self.parse_condition("N[count; body]")?;
        let body = self.parse_branch_sequence(false)?;
        self.consume(T_RIGHT_BRACKET, "']'")?;
        Ok(AstNode::ForLoop { count: Box::new(count), body: Box::new(body) })
    }
}

/// One statement as it is; several as a block.
fn block_node(mut stmts: Vec<AstNode>) -> (r: AstNode)
    ensures
        ast_of(r) == block_of(asts_of(stmts@)),
{
    if stmts.len() == 1 {
        stmts.remove(0)
    } else {
        AstNode::Block(stmts)
    }
}

/// One element as it is; several as a list.
fn list_node(mut items: Vec<AstNode>) -> (r: AstNode)
    ensures
        ast_of(r) == list_of(asts_of(items@)),
{
    if items.len() == 1 {
        items.remove(0)
    } else {
        AstNode::List(items)
    }
}

/// The 1-based line `line` of a text (empty where there is none).
fn source_line(text: &Vec<char>, line: usize) -> Vec<char> {
    let mut n: usize = 1;
    let mut k: usize = 0;
    while k < text.len() && n < line
        invariant
            k <= text.len(),
        decreases text.len() - k,
    {
        if text[k] == '\n' {
            n += 1;
        }
        k += 1;
    }
    let mut r: Vec<char> = Vec::new();
    if line == 0 || n < line {
        return r;
    }
    while k < text.len() && text[k] != '\n'
        invariant
            k <= text.len(),
        decreases text.len() - k,
    {
        r.push(text[k]);
        k += 1;
    }
    if r.len() > 0 && r[r.len() - 1] == '\r' {
        r.pop();
    }
    r
}

} // verus!
