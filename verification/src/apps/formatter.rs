//! The source formatter: prints a syntax tree back as wq source, in a layout chosen by options.

use vstd::prelude::*;
use crate::astnode::{AstNode, UnpackItem, BinaryOperator, UnaryOperator, binary_op_display, binary_op_text, unary_op_display, unary_op_text};
use crate::error::{WqError, WqErrorType, WqResult};
use crate::escape::{quote_string, quote_v};
use crate::lexer::{Lexer, source_fits};
use crate::parser::{Parser, AstNode as ParsedNode, BinaryOperator as ParsedBinaryOp, UnaryOperator as ParsedUnaryOp};
use crate::resolver::{resolves_to, Resolver};
use crate::grammar::{ast_of, program_v, Step};
use crate::parser::kinds_of;
use crate::token::Tk;
use crate::lexspec::{lex_all, utf8_size};
use crate::text::{
    append_chars, append_str, chars_of, repeat_char, string_from_chars, trim_chars, trim_end_chars, trim_v,
    trim_end_v, split_chars, split_v,
};
use crate::value::{Value, Val, display_v, text_of_v};

verus! {

/// The layout options of the formatter.
#[derive(Debug, Clone, Copy)]
pub struct FormatConfig {
    pub indent_size: usize,
    /// A newline before the closing `]` of control blocks
    pub nlcd: bool,
    /// Calls of one argument written `f x` where possible
    pub no_bracket_calls: bool,
    /// Everything on one line where possible
    pub one_line_wizard: bool,
}

impl Default for FormatConfig {
    fn default() -> (r: FormatConfig)
        ensures
            r.indent_size == 2,
            !r.nlcd,
            !r.no_bracket_calls,
            !r.one_line_wizard,
    {
        FormatConfig { indent_size: 2, nlcd: false, no_bracket_calls: false, one_line_wizard: false }
    }
}

/// The formatter.
pub struct Formatter {
    opts: FormatConfig,
}

/// The next indentation level (kept at the largest level a machine word holds).
pub open spec fn succ(level: nat) -> nat {
    if level < usize::MAX { level + 1 } else { level }
}

/// The indentation of a level: `indent_size` spaces per level (none on one line).
pub open spec fn indent_v(c: FormatConfig, level: nat) -> Seq<char> {
    if c.one_line_wizard {
        Seq::empty()
    } else {
        let n = c.indent_size * level;
        Seq::new(if n < usize::MAX { n as nat } else { usize::MAX as nat }, |k: int| ' ')
    }
}

/// The closing bracket of a control block: on a line of its own where asked for.
pub open spec fn closing_v(c: FormatConfig, level: nat) -> Seq<char> {
    if c.one_line_wizard || !c.nlcd {
        "]"@
    } else {
        "\n"@ + indent_v(c, level) + "]"@
    }
}

/// Whether a float's text is that of a number below zero.
pub open spec fn float_negative_v(t: Seq<char>) -> bool {
    t.len() > 0 && t[0] == '-' && nonzero_mantissa_from(t, 1)
}

/// Whether a digit 1 to 9 (or the `i` of `inf`) comes at or after `k`, before any exponent.
pub open spec fn nonzero_mantissa_from(t: Seq<char>, k: int) -> bool
    decreases t.len() - k,
{
    if k < 0 || k >= t.len() {
        false
    } else if t[k] == 'e' || t[k] == 'E' {
        false
    } else if ('1' <= t[k] && t[k] <= '9') || t[k] == 'i' {
        true
    } else {
        nonzero_mantissa_from(t, k + 1)
    }
}

/// Whether an argument written after a function name (`f x`) needs parentheses.
pub open spec fn needs_paren_arg_v(n: AstNode) -> bool {
    match n {
        AstNode::Literal(v) => match v@ {
            Val::Int(i) => i < 0,
            Val::Float(t) => float_negative_v(t),
            _ => false,
        },
        AstNode::Variable(_) | AstNode::Function { .. } | AstNode::List(_) | AstNode::Dict(_)
        | AstNode::Call { .. } | AstNode::CallAnonymous { .. } | AstNode::Postfix { .. }
        | AstNode::Index { .. } | AstNode::BlockExpr(_) => false,
        _ => true,
    }
}

/// The text of a literal: a string-like value quoted, any other value's text.
pub open spec fn literal_text_v(v: Val) -> Seq<char> {
    match text_of_v(v) {
        Some(t) => quote_v(t, '"'),
        None => display_v(v),
    }
}

/// `:` with a space after it unless on one line.
pub open spec fn colon_v(c: FormatConfig) -> Seq<char> {
    if c.one_line_wizard { ":"@ } else { ": "@ }
}

/// The formatted text of a tree at an indentation level.
pub open spec fn fmt_v(c: FormatConfig, n: AstNode, level: nat) -> Seq<char>
    decreases n, 0int,
{
    match n {
        AstNode::Ellipsis => "..."@,
        AstNode::Postfix { object, items, .. } => fmt_v(c, *object, level) + "["@ + semi_join(
            c,
            items@,
            level,
            items@.len() as int,
        ) + "]"@,
        AstNode::Literal(v) => literal_text_v(v@),
        AstNode::Variable(name) => name@,
        AstNode::BinaryOp { left, operator, right } => if c.one_line_wizard {
            fmt_v(c, *left, level) + binary_op_text(operator) + fmt_v(c, *right, level)
        } else {
            fmt_v(c, *left, level) + " "@ + binary_op_text(operator) + " "@ + fmt_v(c, *right, level)
        },
        AstNode::ComparisonChain { first, rest } => fmt_v(c, *first, level) + chain_fmt(
            c,
            rest@,
            level,
            rest@.len() as int,
        ),
        AstNode::UnaryOp { operator, operand } => unary_op_text(operator) + fmt_v(c, *operand, level),
        AstNode::Range { start, end, step, inclusive } => fmt_v(c, *start, level) + (if inclusive {
            "..="@
        } else {
            ".."@
        }) + fmt_v(c, *end, level) + (match step {
            Some(s) => ".."@ + fmt_v(c, *s, level),
            None => Seq::empty(),
        }),
        AstNode::Assignment { name, value } => name@ + colon_v(c) + fmt_v(c, *value, level),
        AstNode::UnpackAssign { pattern, value } => "("@ + pattern_fmt(pattern@, pattern@.len() as int) + ")"@
            + colon_v(c) + fmt_v(c, *value, level),
        AstNode::List(items) => "("@ + semi_join(c, items@, level, items@.len() as int) + ")"@,
        AstNode::Dict(kvs) => "("@ + dict_fmt(c, kvs@, level, kvs@.len() as int) + ")"@,
        AstNode::Call { name, args } => if c.no_bracket_calls && args@.len() == 1 {
            name@ + " "@ + arg_fmt(c, args@[0], level)
        } else if c.no_bracket_calls && args@.len() == 0 {
            name@ + "[]"@
        } else {
            name@ + "["@ + semi_join(c, args@, level, args@.len() as int) + ";]"@
        },
        AstNode::CallAnonymous { object, args } => if c.no_bracket_calls && args@.len() == 1 {
            fmt_v(c, *object, level) + " "@ + arg_fmt(c, args@[0], level)
        } else if c.no_bracket_calls && args@.len() == 0 {
            fmt_v(c, *object, level) + "[]"@
        } else {
            fmt_v(c, *object, level) + "["@ + semi_join(c, args@, level, args@.len() as int) + ";]"@
        },
        AstNode::Index { object, index } => fmt_v(c, *object, level) + "["@ + fmt_v(c, *index, level) + "]"@,
        AstNode::IndexAssign { object, index, value } => fmt_v(c, *object, level) + "["@ + fmt_v(
            c,
            *index,
            level,
        ) + "]"@ + colon_v(c) + fmt_v(c, *value, level),
        AstNode::Function { params, body } => {
            let p = match params {
                Some(ps) => "["@ + names_fmt(ps@, ps@.len() as int) + "]"@,
                None => Seq::empty(),
            };
            match *body {
                AstNode::Block(stmts) => if c.one_line_wizard {
                    "{"@ + p + semi_join(c, stmts@, succ(level), stmts@.len() as int) + "}"@
                } else {
                    "{"@ + p + "\n"@ + line_block(c, stmts@, succ(level), stmts@.len() as int) + indent_v(c, level)
                        + "}"@
                },
                _ => "{"@ + p + fmt_v(c, *body, level) + "}"@,
            }
        },
        AstNode::Conditional { condition, true_branch, false_branch } => {
            let cond = fmt_v(c, *condition, level);
            let t = inline_v(c, *true_branch, succ(level));
            match false_branch {
                Some(f) => if c.one_line_wizard {
                    "$["@ + cond + ";"@ + t + ";"@ + inline_v(c, *f, succ(level)) + "]"@
                } else {
                    "$["@ + cond + ";\n"@ + t + ";\n"@ + inline_v(c, *f, succ(level)) + closing_v(c, level)
                },
                None => if c.one_line_wizard {
                    "$.["@ + cond + ";"@ + t + "]"@
                } else {
                    "$.["@ + cond + ";\n"@ + t + closing_v(c, level)
                },
            }
        },
        AstNode::WLoop { condition, body } => loop_fmt(
            c,
            "W["@,
            fmt_v(c, *condition, level),
            inline_v(c, *body, succ(level)),
            level,
        ),
        AstNode::NLoop { count, body } => loop_fmt(
            c,
            "N["@,
            fmt_v(c, *count, level),
            inline_v(c, *body, succ(level)),
            level,
        ),
        AstNode::FLoop { iterable, body } => loop_fmt(
            c,
            "F["@,
            fmt_v(c, *iterable, level),
            inline_v(c, *body, succ(level)),
            level,
        ),
        AstNode::Break => "@b"@,
        AstNode::Continue => "@c"@,
        AstNode::Return(e) => match e {
            Some(x) => if c.one_line_wizard {
                "@r"@ + fmt_v(c, *x, level)
            } else {
                "@r "@ + fmt_v(c, *x, level)
            },
            None => "@r"@,
        },
        AstNode::Try(e) => if c.one_line_wizard {
            "@t"@ + fmt_v(c, *e, level)
        } else {
            "@t "@ + fmt_v(c, *e, level)
        },
        AstNode::Block(stmts) => if c.one_line_wizard {
            semi_join(c, stmts@, level, stmts@.len() as int)
        } else {
            lines_join(c, stmts@, level, stmts@.len() as int)
        },
        AstNode::BlockExpr(stmts) => if stmts@.len() == 0 {
            "B[]"@
        } else if c.one_line_wizard {
            "B["@ + semi_join(c, stmts@, level, stmts@.len() as int) + "]"@
        } else {
            "B[\n"@ + lines_join(c, stmts@, succ(level), stmts@.len() as int) + closing_v(c, level)
        },
    }
}

/// A loop: its head, the first part, `;`, the body, and the closing bracket.
pub open spec fn loop_fmt(c: FormatConfig, head: Seq<char>, first: Seq<char>, body: Seq<char>, level: nat) -> Seq<
    char,
> {
    if c.one_line_wizard {
        head + first + ";"@ + body + "]"@
    } else {
        head + first + ";\n"@ + body + closing_v(c, level)
    }
}

/// A branch or loop body: a block as its statements (each indented on its own line, or
/// separated by `;` on one line), another tree indented.
pub open spec fn inline_v(c: FormatConfig, n: AstNode, level: nat) -> Seq<char>
    decreases n, 1int,
{
    match n {
        AstNode::Block(stmts) => if c.one_line_wizard {
            semi_join(c, stmts@, level, stmts@.len() as int)
        } else {
            lines_join(c, stmts@, level, stmts@.len() as int)
        },
        _ => if c.one_line_wizard {
            fmt_v(c, n, level)
        } else {
            indent_v(c, level) + fmt_v(c, n, level)
        },
    }
}

/// An argument after a function name: in parentheses where it needs them.
pub open spec fn arg_fmt(c: FormatConfig, n: AstNode, level: nat) -> Seq<char>
    decreases n, 1int,
{
    if needs_paren_arg_v(n) {
        "("@ + fmt_v(c, n, level) + ")"@
    } else {
        fmt_v(c, n, level)
    }
}

/// The formatted `items[..k]` separated by `;`.
pub open spec fn semi_join(c: FormatConfig, items: Seq<AstNode>, level: nat, k: int) -> Seq<char>
    decreases items, k,
{
    if k <= 0 || k > items.len() {
        Seq::empty()
    } else if k == 1 {
        fmt_v(c, items[0], level)
    } else {
        semi_join(c, items, level, k - 1) + ";"@ + fmt_v(c, items[k - 1], level)
    }
}

/// The formatted `items[..k]`, each indented, separated by line feeds.
pub open spec fn lines_join(c: FormatConfig, items: Seq<AstNode>, level: nat, k: int) -> Seq<char>
    decreases items, k,
{
    if k <= 0 || k > items.len() {
        Seq::empty()
    } else if k == 1 {
        indent_v(c, level) + fmt_v(c, items[0], level)
    } else {
        lines_join(c, items, level, k - 1) + "\n"@ + indent_v(c, level) + fmt_v(c, items[k - 1], level)
    }
}

/// The formatted `items[..k]`, each indented and followed by a line feed.
pub open spec fn line_block(c: FormatConfig, items: Seq<AstNode>, level: nat, k: int) -> Seq<char>
    decreases items, k,
{
    if k <= 0 || k > items.len() {
        Seq::empty()
    } else {
        line_block(c, items, level, k - 1) + indent_v(c, level) + fmt_v(c, items[k - 1], level) + "\n"@
    }
}

/// The operators and operands `rest[..k]` of a comparison chain.
pub open spec fn chain_fmt(c: FormatConfig, rest: Seq<(BinaryOperator, AstNode)>, level: nat, k: int) -> Seq<
    char,
>
    decreases rest, k,
{
    if k <= 0 || k > rest.len() {
        Seq::empty()
    } else if c.one_line_wizard {
        chain_fmt(c, rest, level, k - 1) + binary_op_text(rest[k - 1].0) + fmt_v(c, rest[k - 1].1, level)
    } else {
        chain_fmt(c, rest, level, k - 1) + " "@ + binary_op_text(rest[k - 1].0) + " "@ + fmt_v(
            c,
            rest[k - 1].1,
            level,
        )
    }
}

/// The entries `kvs[..k]` of a dictionary, each `` `key: value``, separated by `;`.
pub open spec fn dict_fmt(c: FormatConfig, kvs: Seq<(String, AstNode)>, level: nat, k: int) -> Seq<char>
    decreases kvs, k,
{
    if k <= 0 || k > kvs.len() {
        Seq::empty()
    } else {
        (if k == 1 { Seq::empty() } else { dict_fmt(c, kvs, level, k - 1) + ";"@ }) + "`"@ + kvs[k - 1].0@
            + colon_v(c) + fmt_v(c, kvs[k - 1].1, level)
    }
}

/// The text of an element of an unpacking pattern.
pub open spec fn pattern_item_fmt(p: UnpackItem) -> Seq<char> {
    match p {
        UnpackItem::Bind(n) => n@,
        UnpackItem::Skip => "_"@,
        UnpackItem::Ellipsis => "..."@,
    }
}

/// The elements `ps[..k]` of a pattern separated by `;`.
pub open spec fn pattern_fmt(ps: Seq<UnpackItem>, k: int) -> Seq<char>
    decreases k,
{
    if k <= 0 || k > ps.len() {
        Seq::empty()
    } else if k == 1 {
        pattern_item_fmt(ps[0])
    } else {
        pattern_fmt(ps, k - 1) + ";"@ + pattern_item_fmt(ps[k - 1])
    }
}

/// The names `ns[..k]` separated by `;`.
pub open spec fn names_fmt(ns: Seq<String>, k: int) -> Seq<char>
    decreases k,
{
    if k <= 0 || k > ns.len() {
        Seq::empty()
    } else if k == 1 {
        ns[0]@
    } else {
        names_fmt(ns, k - 1) + ";"@ + ns[k - 1]@
    }
}


impl Formatter {
    /// The options of the formatter.
    pub closed spec fn config(&self) -> FormatConfig {
        self.opts
    }

    /// A formatter with the given options.
    pub fn new(opts: FormatConfig) -> (r: Formatter)
        ensures
            r.config() == opts,
    {
        Formatter { opts }
    }

    /// The source text of a tree.
    pub fn format(&self, node: &AstNode) -> (r: String)
        ensures
            r@ == fmt_v(self.config(), *node, 0),
    {
        let v = self.format_node(node, 0);
        string_from_chars(v.as_slice())
    }

    fn indent(&self, level: usize) -> (r: Vec<char>)
        ensures
            r@ == indent_v(self.opts, level as nat),
    {
        if self.opts.one_line_wizard {
            Vec::new()
        } else {
            let a = self.opts.indent_size;
            let n: usize = if level == 0 {
                0
            } else if a <= usize::MAX / level {
                proof {
                    lemma_mul_fits(a as int, level as int, usize::MAX as int);
                }
                a * level
            } else {
                proof {
                    lemma_mul_exceeds(a as int, level as int, usize::MAX as int);
                }
                usize::MAX
            };
            let r = repeat_char(' ', n);
            assert(r@ =~= indent_v(self.opts, level as nat));
            r
        }
    }

    fn closing_bracket(&self, level: usize) -> (r: Vec<char>)
        ensures
            r@ == closing_v(self.opts, level as nat),
    {
        if self.opts.one_line_wizard || !self.opts.nlcd {
            chars_of("]")
        } else {
            let mut out = chars_of("\n");
            let ind = self.indent(level);
            append_chars(&mut out, &ind);
            append_str(&mut out, "]");
            out
        }
    }

    fn colon(&self) -> (r: &'static str)
        ensures
            r@ == colon_v(self.opts),
    {
        if self.opts.one_line_wizard {
            ":"
        } else {
            ": "
        }
    }

    fn needs_paren_arg(node: &AstNode) -> (r: bool)
        ensures
            r == needs_paren_arg_v(*node),
    {
        match node {
            AstNode::Literal(v) => match v {
                Value::Int(n) => *n < 0,
                Value::Float(t) => {
                    let cs = chars_of(t.as_str());
                    float_text_negative(&cs)
                },
                _ => false,
            },
            AstNode::Variable(_) | AstNode::Function { .. } | AstNode::List(_) | AstNode::Dict(_)
            | AstNode::Call { .. } | AstNode::CallAnonymous { .. } | AstNode::Postfix { .. }
            | AstNode::Index { .. } | AstNode::BlockExpr(_) => false,
            _ => true,
        }
    }

    fn fmt_arg_as_call(&self, node: &AstNode, level: usize) -> (r: Vec<char>)
        ensures
            r@ == arg_fmt(self.opts, *node, level as nat),
        decreases node, 3int,
    {
        let s = self.format_node(node, level);
        if Self::needs_paren_arg(node) {
            let mut out = chars_of("(");
            append_chars(&mut out, &s);
            append_str(&mut out, ")");
            out
        } else {
            s
        }
    }

    /// The formatted items separated by `;`.
    fn join_semicolon(&self, outer: &AstNode, items: &Vec<AstNode>, level: usize) -> (r: Vec<char>)
        requires
            forall|i: int| 0 <= i < items@.len() ==> decreases_to!(*outer => #[trigger] items@[i]),
        ensures
            r@ == semi_join(self.opts, items@, level as nat, items@.len() as int),
        decreases outer, 1int,
    {
        let mut out: Vec<char> = Vec::new();
        let mut i: usize = 0;
        while i < items.len()
            invariant
                i <= items.len(),
                forall|j: int| 0 <= j < items@.len() ==> decreases_to!(*outer => #[trigger] items@[j]),
                out@ == semi_join(self.opts, items@, level as nat, i as int),
            decreases items.len() - i,
        {
            assert(decreases_to!(*outer => items@[i as int]));
            if i > 0 {
                append_str(&mut out, ";");
            }
            let s = self.format_node(&items[i], level);
            append_chars(&mut out, &s);
            i += 1;
        }
        out
    }

    /// The formatted items, each indented, separated by line feeds.
    fn join_lines(&self, outer: &AstNode, items: &Vec<AstNode>, level: usize) -> (r: Vec<char>)
        requires
            forall|i: int| 0 <= i < items@.len() ==> decreases_to!(*outer => #[trigger] items@[i]),
        ensures
            r@ == lines_join(self.opts, items@, level as nat, items@.len() as int),
        decreases outer, 1int,
    {
        let mut out: Vec<char> = Vec::new();
        let mut i: usize = 0;
        while i < items.len()
            invariant
                i <= items.len(),
                forall|j: int| 0 <= j < items@.len() ==> decreases_to!(*outer => #[trigger] items@[j]),
                out@ == lines_join(self.opts, items@, level as nat, i as int),
            decreases items.len() - i,
        {
            assert(decreases_to!(*outer => items@[i as int]));
            if i > 0 {
                append_str(&mut out, "\n");
            }
            let ind = self.indent(level);
            append_chars(&mut out, &ind);
            let s = self.format_node(&items[i], level);
            append_chars(&mut out, &s);
            i += 1;
        }
        out
    }

    /// The formatted items, each indented and followed by a line feed.
    fn join_block_lines(&self, outer: &AstNode, items: &Vec<AstNode>, level: usize) -> (r: Vec<char>)
        requires
            forall|i: int| 0 <= i < items@.len() ==> decreases_to!(*outer => #[trigger] items@[i]),
        ensures
            r@ == line_block(self.opts, items@, level as nat, items@.len() as int),
        decreases outer, 1int,
    {
        let mut out: Vec<char> = Vec::new();
        let mut i: usize = 0;
        while i < items.len()
            invariant
                i <= items.len(),
                forall|j: int| 0 <= j < items@.len() ==> decreases_to!(*outer => #[trigger] items@[j]),
                out@ == line_block(self.opts, items@, level as nat, i as int),
            decreases items.len() - i,
        {
            assert(decreases_to!(*outer => items@[i as int]));
            let ind = self.indent(level);
            append_chars(&mut out, &ind);
            let s = self.format_node(&items[i], level);
            append_chars(&mut out, &s);
            append_str(&mut out, "\n");
            i += 1;
        }
        out
    }

    /// The source text of a tree at an indentation level.
    fn format_node(&self, node: &AstNode, level: usize) -> (r: Vec<char>)
        ensures
            r@ == fmt_v(self.opts, *node, level as nat),
        decreases node, 2int,
    {
        match node {
            AstNode::Ellipsis => chars_of("..."),
            AstNode::Postfix { object, items, explicit_call } => {
                assert forall|i: int| 0 <= i < items@.len() implies decreases_to!(*node => #[trigger] items@[i]) by {
                    assert(decreases_to!(*node => (*node)->items));
                    assert(decreases_to!(*items => items@));
                    assert(decreases_to!(items@ => items@[i]));
                }
                let mut out = self.format_node(object, level);
                append_str(&mut out, "[");
                let a = self.join_semicolon(node, items, level);
                append_chars(&mut out, &a);
                append_str(&mut out, "]");
                out
            },
            AstNode::Literal(v) => match v.try_to_string() {
                Ok(t) => chars_of(quote_string(t.as_str(), '"').as_str()),
                Err(_) => v.display_chars(),
            },
            AstNode::Variable(n) => chars_of(n.as_str()),
            AstNode::BinaryOp { left, operator, right } => {
                let mut out = self.format_node(left, level);
                if self.opts.one_line_wizard {
                    append_str(&mut out, binary_op_display(operator));
                } else {
                    append_str(&mut out, " ");
                    append_str(&mut out, binary_op_display(operator));
                    append_str(&mut out, " ");
                }
                let r = self.format_node(right, level);
                append_chars(&mut out, &r);
                out
            },
            AstNode::ComparisonChain { first, rest } => {
                let mut out = self.format_node(first, level);
                let ghost head = out@;
                let mut i: usize = 0;
                while i < rest.len()
                    invariant
                        *node == (AstNode::ComparisonChain { first: *first, rest: *rest }),
                        i <= rest.len(),
                        out@ == head + chain_fmt(self.opts, rest@, level as nat, i as int),
                    decreases rest.len() - i,
                {
                    assert(decreases_to!(*node => rest@[i as int].1)) by {
                        assert(decreases_to!(*node => (*node)->rest));
                        assert(decreases_to!(*rest => rest@));
                        assert(decreases_to!(rest@ => rest@[i as int]));
                        assert(decreases_to!(rest@[i as int] => rest@[i as int].1));
                    }
                    if self.opts.one_line_wizard {
                        append_str(&mut out, binary_op_display(&rest[i].0));
                    } else {
                        append_str(&mut out, " ");
                        append_str(&mut out, binary_op_display(&rest[i].0));
                        append_str(&mut out, " ");
                    }
                    let t = self.format_node(&rest[i].1, level);
                    append_chars(&mut out, &t);
                    i += 1;
                }
                out
            },
            AstNode::UnaryOp { operator, operand } => {
                let mut out = chars_of(unary_op_display(operator));
                let x = self.format_node(operand, level);
                append_chars(&mut out, &x);
                out
            },
            AstNode::Range { start, end, step, inclusive } => {
                let mut out = self.format_node(start, level);
                if *inclusive {
                    append_str(&mut out, "..=");
                } else {
                    append_str(&mut out, "..");
                }
                let e = self.format_node(end, level);
                append_chars(&mut out, &e);
                match step {
                    Some(st) => {
                        append_str(&mut out, "..");
                        let x = self.format_node(st, level);
                        append_chars(&mut out, &x);
                    },
                    None => {},
                }
                out
            },
            AstNode::Assignment { name, value } => {
                let mut out = chars_of(name.as_str());
                append_str(&mut out, self.colon());
                let v = self.format_node(value, level);
                append_chars(&mut out, &v);
                out
            },
            AstNode::UnpackAssign { pattern, value } => {
                let mut out = chars_of("(");
                let ghost head = out@;
                let mut i: usize = 0;
                while i < pattern.len()
                    invariant
                        i <= pattern.len(),
                        out@ == head + pattern_fmt(pattern@, i as int),
                    decreases pattern.len() - i,
                {
                    if i > 0 {
                        append_str(&mut out, ";");
                    }
                    match &pattern[i] {
                        UnpackItem::Bind(n) => append_str(&mut out, n.as_str()),
                        UnpackItem::Skip => append_str(&mut out, "_"),
                        UnpackItem::Ellipsis => append_str(&mut out, "..."),
                    }
                    i += 1;
                }
                append_str(&mut out, ")");
                append_str(&mut out, self.colon());
                let v = self.format_node(value, level);
                append_chars(&mut out, &v);
                out
            },
            AstNode::List(items) => {
                proof {
                    lemma_items_below(node, items);
                }
                let mut out = chars_of("(");
                let b = self.join_semicolon(node, items, level);
                append_chars(&mut out, &b);
                append_str(&mut out, ")");
                out
            },
            AstNode::Dict(kvs) => {
                let mut out = chars_of("(");
                let ghost head = out@;
                let mut i: usize = 0;
                while i < kvs.len()
                    invariant
                        *node == AstNode::Dict(*kvs),
                        i <= kvs.len(),
                        out@ == head + dict_fmt(self.opts, kvs@, level as nat, i as int),
                    decreases kvs.len() - i,
                {
                    assert(decreases_to!(*node => kvs@[i as int].1)) by {
                        assert(decreases_to!(*node => (*node)->Dict_0));
                        assert(decreases_to!(*kvs => kvs@));
                        assert(decreases_to!(kvs@ => kvs@[i as int]));
                        assert(decreases_to!(kvs@[i as int] => kvs@[i as int].1));
                    }
                    if i > 0 {
                        append_str(&mut out, ";");
                    }
                    append_str(&mut out, "`");
                    append_str(&mut out, kvs[i].0.as_str());
                    append_str(&mut out, self.colon());
                    let v = self.format_node(&kvs[i].1, level);
                    append_chars(&mut out, &v);
                    i += 1;
                }
                append_str(&mut out, ")");
                out
            },
            AstNode::Call { name, args } => {
                assert forall|i: int| 0 <= i < args@.len() implies decreases_to!(*node => #[trigger] args@[i]) by {
                    assert(decreases_to!(*node => (*node)->Call_args));
                    assert(decreases_to!(*args => args@));
                    assert(decreases_to!(args@ => args@[i]));
                }
                let mut out = chars_of(name.as_str());
                if self.opts.no_bracket_calls && args.len() == 1 {
                    append_str(&mut out, " ");
                    assert(decreases_to!(*node => args@[0]));
                    let a = self.fmt_arg_as_call(&args[0], level);
                    append_chars(&mut out, &a);
                } else if self.opts.no_bracket_calls && args.len() == 0 {
                    append_str(&mut out, "[]");
                } else {
                    append_str(&mut out, "[");
                    let a = self.join_semicolon(node, args, level);
                    append_chars(&mut out, &a);
                    append_str(&mut out, ";]");
                }
                out
            },
            AstNode::CallAnonymous { object, args } => {
                assert forall|i: int| 0 <= i < args@.len() implies decreases_to!(*node => #[trigger] args@[i]) by {
                    assert(decreases_to!(*node => (*node)->CallAnonymous_args));
                    assert(decreases_to!(*args => args@));
                    assert(decreases_to!(args@ => args@[i]));
                }
                let mut out = self.format_node(object, level);
                if self.opts.no_bracket_calls && args.len() == 1 {
                    append_str(&mut out, " ");
                    assert(decreases_to!(*node => args@[0]));
                    let a = self.fmt_arg_as_call(&args[0], level);
                    append_chars(&mut out, &a);
                } else if self.opts.no_bracket_calls && args.len() == 0 {
                    append_str(&mut out, "[]");
                } else {
                    append_str(&mut out, "[");
                    let a = self.join_semicolon(node, args, level);
                    append_chars(&mut out, &a);
                    append_str(&mut out, ";]");
                }
                out
            },
            AstNode::Index { object, index } => {
                let mut out = self.format_node(object, level);
                append_str(&mut out, "[");
                let x = self.format_node(index, level);
                append_chars(&mut out, &x);
                append_str(&mut out, "]");
                out
            },
            AstNode::IndexAssign { object, index, value } => {
                let mut out = self.format_node(object, level);
                append_str(&mut out, "[");
                let x = self.format_node(index, level);
                append_chars(&mut out, &x);
                append_str(&mut out, "]");
                append_str(&mut out, self.colon());
                let v = self.format_node(value, level);
                append_chars(&mut out, &v);
                out
            },
            AstNode::Function { params, body } => {
                let mut p: Vec<char> = Vec::new();
                match params {
                    Some(ps) => {
                        append_str(&mut p, "[");
                        let ghost head = p@;
                        let mut i: usize = 0;
                        while i < ps.len()
                            invariant
                                i <= ps.len(),
                                p@ == head + names_fmt(ps@, i as int),
                            decreases ps.len() - i,
                        {
                            if i > 0 {
                                append_str(&mut p, ";");
                            }
                            append_str(&mut p, ps[i].as_str());
                            i += 1;
                        }
                        append_str(&mut p, "]");
                    },
                    None => {},
                }
                let mut out = chars_of("{");
                match &**body {
                    AstNode::Block(stmts) => {
                        proof {
                            lemma_items_below(&**body, stmts);
                        }
                        if self.opts.one_line_wizard {
                            append_chars(&mut out, &p);
                            let b = self.join_semicolon(&**body, stmts, succ_level(level));
                            append_chars(&mut out, &b);
                            append_str(&mut out, "}");
                        } else {
                            append_chars(&mut out, &p);
                            append_str(&mut out, "\n");
                            let b = self.join_block_lines(&**body, stmts, succ_level(level));
                            append_chars(&mut out, &b);
                            let ind = self.indent(level);
                            append_chars(&mut out, &ind);
                            append_str(&mut out, "}");
                        }
                    },
                    _ => {
                        append_chars(&mut out, &p);
                        let b = self.format_node(body, level);
                        append_chars(&mut out, &b);
                        append_str(&mut out, "}");
                    },
                }
                out
            },
            AstNode::Conditional { condition, true_branch, false_branch } => {
                let cond = self.format_node(condition, level);
                let t = self.format_inline_block_or_stmt(true_branch, succ_level(level));
                match false_branch {
                    Some(f) => {
                        let fb = self.format_inline_block_or_stmt(f, succ_level(level));
                        let mut out = chars_of("$[");
                        append_chars(&mut out, &cond);
                        if self.opts.one_line_wizard {
                            append_str(&mut out, ";");
                            append_chars(&mut out, &t);
                            append_str(&mut out, ";");
                            append_chars(&mut out, &fb);
                            append_str(&mut out, "]");
                        } else {
                            append_str(&mut out, ";\n");
                            append_chars(&mut out, &t);
                            append_str(&mut out, ";\n");
                            append_chars(&mut out, &fb);
                            let cl = self.closing_bracket(level);
                            append_chars(&mut out, &cl);
                        }
                        out
                    },
                    None => {
                        let mut out = chars_of("$.[");
                        append_chars(&mut out, &cond);
                        if self.opts.one_line_wizard {
                            append_str(&mut out, ";");
                            append_chars(&mut out, &t);
                            append_str(&mut out, "]");
                        } else {
                            append_str(&mut out, ";\n");
                            append_chars(&mut out, &t);
                            let cl = self.closing_bracket(level);
                            append_chars(&mut out, &cl);
                        }
                        out
                    },
                }
            },
            AstNode::WLoop { condition, body } => {
                let first = self.format_node(condition, level);
                let b = self.format_inline_block_or_stmt(body, succ_level(level));
                self.loop_text("W[", &first, &b, level)
            },
            AstNode::NLoop { count, body } => {
                let first = self.format_node(count, level);
                let b = self.format_inline_block_or_stmt(body, succ_level(level));
                self.loop_text("N[", &first, &b, level)
            },
            AstNode::FLoop { iterable, body } => {
                let first = self.format_node(iterable, level);
                let b = self.format_inline_block_or_stmt(body, succ_level(level));
                self.loop_text("F[", &first, &b, level)
            },
            AstNode::Break => chars_of("@b"),
            AstNode::Continue => chars_of("@c"),
            AstNode::Return(e) => match e {
                Some(x) => {
                    let mut out = if self.opts.one_line_wizard {
                        chars_of("@r")
                    } else {
                        chars_of("@r ")
                    };
                    let v = self.format_node(x, level);
                    append_chars(&mut out, &v);
                    out
                },
                None => chars_of("@r"),
            },
            AstNode::Try(e) => {
                let mut out = if self.opts.one_line_wizard {
                    chars_of("@t")
                } else {
                    chars_of("@t ")
                };
                let v = self.format_node(e, level);
                append_chars(&mut out, &v);
                out
            },
            AstNode::Block(stmts) => {
                proof {
                    lemma_items_below(node, stmts);
                }
                if self.opts.one_line_wizard {
                    self.join_semicolon(node, stmts, level)
                } else {
                    self.join_lines(node, stmts, level)
                }
            },
            AstNode::BlockExpr(stmts) => {
                proof {
                    lemma_items_below(node, stmts);
                }
                if stmts.len() == 0 {
                    chars_of("B[]")
                } else if self.opts.one_line_wizard {
                    let mut out = chars_of("B[");
                    let b = self.join_semicolon(node, stmts, level);
                    append_chars(&mut out, &b);
                    append_str(&mut out, "]");
                    out
                } else {
                    let mut out = chars_of("B[\n");
                    let b = self.join_lines(node, stmts, succ_level(level));
                    append_chars(&mut out, &b);
                    let cl = self.closing_bracket(level);
                    append_chars(&mut out, &cl);
                    out
                }
            },
        }
    }

    fn loop_text(&self, head: &str, first: &Vec<char>, body: &Vec<char>, level: usize) -> (r: Vec<char>)
        ensures
            r@ == loop_fmt(self.opts, head@, first@, body@, level as nat),
    {
        let mut out = chars_of(head);
        append_chars(&mut out, first);
        if self.opts.one_line_wizard {
            append_str(&mut out, ";");
            append_chars(&mut out, body);
            append_str(&mut out, "]");
        } else {
            append_str(&mut out, ";\n");
            append_chars(&mut out, body);
            let cl = self.closing_bracket(level);
            append_chars(&mut out, &cl);
        }
        out
    }

    /// A branch or loop body.
    fn format_inline_block_or_stmt(&self, node: &AstNode, level: usize) -> (r: Vec<char>)
        ensures
            r@ == inline_v(self.opts, *node, level as nat),
        decreases node, 3int,
    {
        match node {
            AstNode::Block(stmts) => {
                proof {
                    lemma_items_below(node, stmts);
                }
                if self.opts.one_line_wizard {
                    self.join_semicolon(node, stmts, level)
                } else {
                    self.join_lines(node, stmts, level)
                }
            },
            _ => {
                if self.opts.one_line_wizard {
                    self.format_node(node, level)
                } else {
                    let mut out = self.indent(level);
                    let s = self.format_node(node, level);
                    append_chars(&mut out, &s);
                    out
                }
            },
        }
    }
}

proof fn lemma_mul_fits(a: int, b: int, m: int)
    by (nonlinear_arith)
    requires
        b > 0,
        m >= 0,
        0 <= a <= m / b,
    ensures
        a * b <= m,
{
}

proof fn lemma_mul_exceeds(a: int, b: int, m: int)
    by (nonlinear_arith)
    requires
        b > 0,
        m >= 0,
        a > m / b,
    ensures
        a * b > m,
{
}

/// The next indentation level.
fn succ_level(level: usize) -> (r: usize)
    ensures
        r as nat == succ(level as nat),
{
    if level < usize::MAX {
        level + 1
    } else {
        level
    }
}

/// Whether a float's text is that of a number below zero.
fn float_text_negative(t: &Vec<char>) -> (r: bool)
    ensures
        r == float_negative_v(t@),
{
    if t.len() == 0 || t[0] != '-' {
        return false;
    }
    let mut k: usize = 1;
    while k < t.len()
        invariant
            1 <= k <= t.len(),
            t@[0] == '-',
            nonzero_mantissa_from(t@, 1) == nonzero_mantissa_from(t@, k as int),
        decreases t.len() - k,
    {
        let c = t[k];
        if c == 'e' || c == 'E' {
            return false;
        }
        if ('1' <= c && c <= '9') || c == 'i' {
            return true;
        }
        k += 1;
    }
    false
}

/// The items of a list-like tree are below it.
proof fn lemma_items_below(node: &AstNode, items: &Vec<AstNode>)
    requires
        *node == AstNode::Block(*items) || *node == AstNode::BlockExpr(*items) || *node == AstNode::List(*items),
    ensures
        forall|i: int| 0 <= i < items@.len() ==> decreases_to!(*node => #[trigger] items@[i]),
{
    assert forall|i: int| 0 <= i < items@.len() implies decreases_to!(*node => #[trigger] items@[i]) by {
        if *node == AstNode::Block(*items) {
            assert(decreases_to!(*node => (*node)->Block_0));
        } else if *node == AstNode::BlockExpr(*items) {
            assert(decreases_to!(*node => (*node)->BlockExpr_0));
        } else {
            assert(decreases_to!(*node => (*node)->List_0));
        }
        assert(decreases_to!(*items => items@));
        assert(decreases_to!(items@ => items@[i]));
    }
}

/// Whether a line of a script is left out: blank, or a comment.
pub open spec fn skipped_line(t: Seq<char>) -> bool {
    t.len() == 0 || (t.len() >= 2 && t[0] == '/' && t[1] == '/')
}

/// Whether a line of a script is a meta command, copied as it is: it starts with `!`, or,
/// as the first line, with `#!`.
pub open spec fn meta_line(t: Seq<char>, i: int) -> bool {
    (t.len() >= 1 && t[0] == '!') || (i == 0 && t.len() >= 2 && t[0] == '#' && t[1] == '!')
}

/// The operator of the tree that the formatter works on for a parsed operator.
pub open spec fn lower_binary_v(op: ParsedBinaryOp) -> BinaryOperator {
    match op {
        ParsedBinaryOp::Add => BinaryOperator::Add,
        ParsedBinaryOp::Subtract => BinaryOperator::Subtract,
        ParsedBinaryOp::Multiply => BinaryOperator::Multiply,
        ParsedBinaryOp::Power => BinaryOperator::Power,
        ParsedBinaryOp::Divide => BinaryOperator::Divide,
        ParsedBinaryOp::DivideDot => BinaryOperator::DivideDot,
        ParsedBinaryOp::Modulo => BinaryOperator::Modulo,
        ParsedBinaryOp::ModuloDot => BinaryOperator::ModuloDot,
        ParsedBinaryOp::Equal => BinaryOperator::Equal,
        ParsedBinaryOp::NotEqual => BinaryOperator::NotEqual,
        ParsedBinaryOp::LessThan => BinaryOperator::LessThan,
        ParsedBinaryOp::LessThanOrEqual => BinaryOperator::LessThanOrEqual,
        ParsedBinaryOp::GreaterThan => BinaryOperator::GreaterThan,
        ParsedBinaryOp::GreaterThanOrEqual => BinaryOperator::GreaterThanOrEqual,
    }
}

/// The operator of the tree that the formatter works on for a parsed unary operator.
pub open spec fn lower_unary_v(op: ParsedUnaryOp) -> UnaryOperator {
    match op {
        ParsedUnaryOp::Negate => UnaryOperator::Negate,
        ParsedUnaryOp::Count => UnaryOperator::Count,
    }
}

/// Whether `b` is the parsed tree `a` in the form the formatter works on: the same shape,
/// a while loop as a `W` loop, a counted loop as an `N` loop, an assertion as a call of
/// `assert`.
pub open spec fn lowers_to(a: ParsedNode, b: AstNode) -> bool
    decreases a, 0int,
{
    match a {
        ParsedNode::Literal(v) => b matches AstNode::Literal(w) && w@ == v@,
        ParsedNode::Variable(n) => b == AstNode::Variable(n),
        ParsedNode::BinaryOp { left, operator, right } => b matches AstNode::BinaryOp {
            left: l2,
            operator: o2,
            right: r2,
        } && o2 == lower_binary_v(operator) && lowers_to(*left, *l2) && lowers_to(*right, *r2),
        ParsedNode::UnaryOp { operator, operand } => b matches AstNode::UnaryOp { operator: o2, operand: x2 }
            && o2 == lower_unary_v(operator) && lowers_to(*operand, *x2),
        ParsedNode::Assignment { name, value } => b matches AstNode::Assignment { name: n2, value: v2 } && n2
            == name && lowers_to(*value, *v2),
        ParsedNode::List(items) => b matches AstNode::List(i2) && items@.len() == i2@.len() && all_lower(
            items@,
            i2@,
            items@.len() as int,
        ),
        ParsedNode::Dict(kvs) => b matches AstNode::Dict(k2) && kvs@.len() == k2@.len() && dict_lower(
            kvs@,
            k2@,
            kvs@.len() as int,
        ),
        ParsedNode::Postfix { object, items, explicit_call } => b matches AstNode::Postfix {
            object: o2,
            items: i2,
            explicit_call: e2,
        } && e2 == explicit_call && lowers_to(*object, *o2) && items@.len() == i2@.len() && all_lower(
            items@,
            i2@,
            items@.len() as int,
        ),
        ParsedNode::Call { name, args } => b matches AstNode::Call { name: n2, args: a2 } && n2 == name
            && args@.len() == a2@.len() && all_lower(args@, a2@, args@.len() as int),
        ParsedNode::CallAnonymous { object, args } => b matches AstNode::CallAnonymous { object: o2, args: a2 }
            && lowers_to(*object, *o2) && args@.len() == a2@.len() && all_lower(args@, a2@, args@.len() as int),
        ParsedNode::Index { object, index } => b matches AstNode::Index { object: o2, index: x2 } && lowers_to(
            *object,
            *o2,
        ) && lowers_to(*index, *x2),
        ParsedNode::IndexAssign { object, index, value } => b matches AstNode::IndexAssign {
            object: o2,
            index: x2,
            value: v2,
        } && lowers_to(*object, *o2) && lowers_to(*index, *x2) && lowers_to(*value, *v2),
        ParsedNode::Function { params, body } => b matches AstNode::Function { params: p2, body: b2 } && (match (
            params,
            p2,
        ) {
            (Some(x), Some(y)) => x@ == y@,
            (None, None) => true,
            _ => false,
        }) && lowers_to(*body, *b2),
        ParsedNode::Conditional { condition, true_branch, false_branch } => b matches AstNode::Conditional {
            condition: c2,
            true_branch: t2,
            false_branch: f2,
        } && lowers_to(*condition, *c2) && lowers_to(*true_branch, *t2) && match false_branch {
            Some(f) => f2 matches Some(g) && lowers_to(*f, *g),
            None => f2 is None,
        },
        ParsedNode::WhileLoop { condition, body } => b matches AstNode::WLoop { condition: c2, body: b2 }
            && lowers_to(*condition, *c2) && lowers_to(*body, *b2),
        ParsedNode::ForLoop { count, body } => b matches AstNode::NLoop { count: c2, body: b2 } && lowers_to(
            *count,
            *c2,
        ) && lowers_to(*body, *b2),
        ParsedNode::Break => b == AstNode::Break,
        ParsedNode::Continue => b == AstNode::Continue,
        ParsedNode::Return(e) => b matches AstNode::Return(e2) && match e {
            Some(x) => e2 matches Some(y) && lowers_to(*x, *y),
            None => e2 is None,
        },
        ParsedNode::Assert(e) => b matches AstNode::Call { name: n2, args: a2 } && n2@ == "assert"@
            && a2@.len() == 1 && lowers_to(*e, a2@[0]),
        ParsedNode::Try(e) => b matches AstNode::Try(e2) && lowers_to(*e, *e2),
        ParsedNode::Block(stmts) => b matches AstNode::Block(s2) && stmts@.len() == s2@.len() && all_lower(
            stmts@,
            s2@,
            stmts@.len() as int,
        ),
    }
}

/// Whether `ys[..k]` are `xs[..k]` lowered, element by element.
pub open spec fn all_lower(xs: Seq<ParsedNode>, ys: Seq<AstNode>, k: int) -> bool
    decreases xs, k,
{
    if k <= 0 || k > xs.len() {
        true
    } else {
        all_lower(xs, ys, k - 1) && k - 1 < ys.len() && lowers_to(xs[k - 1], ys[k - 1])
    }
}

/// Whether the entries `ys[..k]` are the entries `xs[..k]` with their values lowered.
pub open spec fn dict_lower(xs: Seq<(String, ParsedNode)>, ys: Seq<(String, AstNode)>, k: int) -> bool
    decreases xs, k,
{
    if k <= 0 || k > xs.len() {
        true
    } else {
        dict_lower(xs, ys, k - 1) && k - 1 < ys.len() && ys[k - 1].0 == xs[k - 1].0 && lowers_to(
            xs[k - 1].1,
            ys[k - 1].1,
        )
    }
}

proof fn lemma_all_lower_ext(xs: Seq<ParsedNode>, ys: Seq<AstNode>, zs: Seq<AstNode>, k: int)
    requires
        0 <= k <= ys.len(),
        k <= zs.len(),
        forall|j: int| 0 <= j < k ==> ys[j] == zs[j],
        all_lower(xs, ys, k),
    ensures
        all_lower(xs, zs, k),
    decreases k,
{
    if k > 0 && k <= xs.len() {
        lemma_all_lower_ext(xs, ys, zs, k - 1);
    }
}

proof fn lemma_dict_lower_ext(
    xs: Seq<(String, ParsedNode)>,
    ys: Seq<(String, AstNode)>,
    zs: Seq<(String, AstNode)>,
    k: int,
)
    requires
        0 <= k <= ys.len(),
        k <= zs.len(),
        forall|j: int| 0 <= j < k ==> ys[j] == zs[j],
        dict_lower(xs, ys, k),
    ensures
        dict_lower(xs, zs, k),
    decreases k,
{
    if k > 0 && k <= xs.len() {
        lemma_dict_lower_ext(xs, ys, zs, k - 1);
    }
}

/// The operator of the tree that the formatter works on.
fn lower_binary(op: &ParsedBinaryOp) -> (r: BinaryOperator)
    ensures
        r == lower_binary_v(*op),
{
    match op {
        ParsedBinaryOp::Add => BinaryOperator::Add,
        ParsedBinaryOp::Subtract => BinaryOperator::Subtract,
        ParsedBinaryOp::Multiply => BinaryOperator::Multiply,
        ParsedBinaryOp::Power => BinaryOperator::Power,
        ParsedBinaryOp::Divide => BinaryOperator::Divide,
        ParsedBinaryOp::DivideDot => BinaryOperator::DivideDot,
        ParsedBinaryOp::Modulo => BinaryOperator::Modulo,
        ParsedBinaryOp::ModuloDot => BinaryOperator::ModuloDot,
        ParsedBinaryOp::Equal => BinaryOperator::Equal,
        ParsedBinaryOp::NotEqual => BinaryOperator::NotEqual,
        ParsedBinaryOp::LessThan => BinaryOperator::LessThan,
        ParsedBinaryOp::LessThanOrEqual => BinaryOperator::LessThanOrEqual,
        ParsedBinaryOp::GreaterThan => BinaryOperator::GreaterThan,
        ParsedBinaryOp::GreaterThanOrEqual => BinaryOperator::GreaterThanOrEqual,
    }
}

/// The trees of a list, in the form the formatter works on.
fn lower_list(outer: &ParsedNode, xs: &Vec<ParsedNode>) -> (r: Vec<AstNode>)
    requires
        forall|i: int| 0 <= i < xs@.len() ==> decreases_to!(*outer => #[trigger] xs@[i]),
    ensures
        r@.len() == xs@.len(),
        all_lower(xs@, r@, xs@.len() as int),
    decreases outer, 0int,
{
    let mut out: Vec<AstNode> = Vec::new();
    let mut i: usize = 0;
    while i < xs.len()
        invariant
            i <= xs.len(),
            out@.len() == i,
            forall|j: int| 0 <= j < xs@.len() ==> decreases_to!(*outer => #[trigger] xs@[j]),
            all_lower(xs@, out@, i as int),
        decreases xs.len() - i,
    {
        assert(decreases_to!(*outer => xs@[i as int]));
        let y = lower(&xs[i]);
        let ghost before = out@;
        out.push(y);
        proof {
            lemma_all_lower_ext(xs@, before, out@, i as int);
        }
        i += 1;
    }
    out
}

/// A parsed tree in the form the formatter works on: a while loop is a `W` loop, a counted
/// loop an `N` loop, an assertion a call of `assert`.
fn lower(n: &ParsedNode) -> (r: AstNode)
    ensures
        lowers_to(*n, r),
    decreases n, 1int,
{
    match n {
        ParsedNode::Literal(v) => {
            let c = v.clone();
            AstNode::Literal(c)
        },
        ParsedNode::Variable(name) => AstNode::Variable(name.clone()),
        ParsedNode::BinaryOp { left, operator, right } => AstNode::BinaryOp {
            left: Box::new(lower(left)),
            operator: lower_binary(operator),
            right: Box::new(lower(right)),
        },
        ParsedNode::UnaryOp { operator, operand } => AstNode::UnaryOp {
            operator: match operator {
                ParsedUnaryOp::Negate => UnaryOperator::Negate,
                ParsedUnaryOp::Count => UnaryOperator::Count,
            },
            operand: Box::new(lower(operand)),
        },
        ParsedNode::Assignment { name, value } => AstNode::Assignment {
            name: name.clone(),
            value: Box::new(lower(value)),
        },
        ParsedNode::List(items) => {
            assert forall|i: int| 0 <= i < items@.len() implies decreases_to!(*n => #[trigger] items@[i]) by {
                assert(decreases_to!(*n => (*n)->List_0));
                assert(decreases_to!(*items => items@));
                assert(decreases_to!(items@ => items@[i]));
            }
            AstNode::List(lower_list(n, items))
        },
        ParsedNode::Dict(kvs) => {
            let mut out: Vec<(String, AstNode)> = Vec::new();
            let mut i: usize = 0;
            while i < kvs.len()
                invariant
                    *n == ParsedNode::Dict(*kvs),
                    i <= kvs.len(),
                    out@.len() == i,
                    dict_lower(kvs@, out@, i as int),
                decreases kvs.len() - i,
            {
                assert(decreases_to!(*n => kvs@[i as int].1)) by {
                    assert(decreases_to!(*n => (*n)->Dict_0));
                    assert(decreases_to!(*kvs => kvs@));
                    assert(decreases_to!(kvs@ => kvs@[i as int]));
                    assert(decreases_to!(kvs@[i as int] => kvs@[i as int].1));
                }
                let y = lower(&kvs[i].1);
                let k = kvs[i].0.clone();
                let ghost before = out@;
                out.push((k, y));
                proof {
                    lemma_dict_lower_ext(kvs@, before, out@, i as int);
                }
                i += 1;
            }
            AstNode::Dict(out)
        },
        ParsedNode::Postfix { object, items, explicit_call } => {
            assert forall|i: int| 0 <= i < items@.len() implies decreases_to!(*n => #[trigger] items@[i]) by {
                assert(decreases_to!(*n => (*n)->items));
                assert(decreases_to!(*items => items@));
                assert(decreases_to!(items@ => items@[i]));
            }
            AstNode::Postfix {
                object: Box::new(lower(object)),
                items: lower_list(n, items),
                explicit_call: *explicit_call,
            }
        },
        ParsedNode::Call { name, args } => {
            assert forall|i: int| 0 <= i < args@.len() implies decreases_to!(*n => #[trigger] args@[i]) by {
                assert(decreases_to!(*n => (*n)->Call_args));
                assert(decreases_to!(*args => args@));
                assert(decreases_to!(args@ => args@[i]));
            }
            AstNode::Call { name: name.clone(), args: lower_list(n, args) }
        },
        ParsedNode::CallAnonymous { object, args } => {
            assert forall|i: int| 0 <= i < args@.len() implies decreases_to!(*n => #[trigger] args@[i]) by {
                assert(decreases_to!(*n => (*n)->CallAnonymous_args));
                assert(decreases_to!(*args => args@));
                assert(decreases_to!(args@ => args@[i]));
            }
            AstNode::CallAnonymous { object: Box::new(lower(object)), args: lower_list(n, args) }
        },
        ParsedNode::Index { object, index } => AstNode::Index {
            object: Box::new(lower(object)),
            index: Box::new(lower(index)),
        },
        ParsedNode::IndexAssign { object, index, value } => AstNode::IndexAssign {
            object: Box::new(lower(object)),
            index: Box::new(lower(index)),
            value: Box::new(lower(value)),
        },
        ParsedNode::Function { params, body } => {
            let p = match params {
                Some(ps) => {
                    let mut names: Vec<String> = Vec::new();
                    let mut i: usize = 0;
                    while i < ps.len()
                        invariant
                            i <= ps.len(),
                            names@ == ps@.take(i as int),
                        decreases ps.len() - i,
                    {
                        names.push(ps[i].clone());
                        i += 1;
                        assert(names@ =~= ps@.take(i as int));
                    }
                    assert(ps@.take(ps@.len() as int) =~= ps@);
                    Some(names)
                },
                None => None,
            };
            AstNode::Function { params: p, body: Box::new(lower(body)) }
        },
        ParsedNode::Conditional { condition, true_branch, false_branch } => AstNode::Conditional {
            condition: Box::new(lower(condition)),
            true_branch: Box::new(lower(true_branch)),
            false_branch: match false_branch {
                Some(f) => Some(Box::new(lower(f))),
                None => None,
            },
        },
        ParsedNode::WhileLoop { condition, body } => AstNode::WLoop {
            condition: Box::new(lower(condition)),
            body: Box::new(lower(body)),
        },
        ParsedNode::ForLoop { count, body } => AstNode::NLoop {
            count: Box::new(lower(count)),
            body: Box::new(lower(body)),
        },
        ParsedNode::Break => AstNode::Break,
        ParsedNode::Continue => AstNode::Continue,
        ParsedNode::Return(e) => AstNode::Return(
            match e {
                Some(x) => Some(Box::new(lower(x))),
                None => None,
            },
        ),
        ParsedNode::Assert(e) => {
            let mut args: Vec<AstNode> = Vec::new();
            args.push(lower(e));
            let name = "assert".to_string();
            AstNode::Call { name, args }
        },
        ParsedNode::Try(e) => AstNode::Try(Box::new(lower(e))),
        ParsedNode::Block(stmts) => {
            assert forall|i: int| 0 <= i < stmts@.len() implies decreases_to!(*n => #[trigger] stmts@[i]) by {
                assert(decreases_to!(*n => (*n)->Block_0));
                assert(decreases_to!(*stmts => stmts@));
                assert(decreases_to!(stmts@ => stmts@[i]));
            }
            AstNode::Block(lower_list(n, stmts))
        },
    }
}

/// Whether a trimmed line starts with the given text.
fn starts_with(t: &Vec<char>, p: &str) -> (r: bool)
    ensures
        r == (t@.len() >= p@.len() && t@.subrange(0, p@.len() as int) == p@),
{
    let pv = chars_of(p);
    if t.len() < pv.len() {
        return false;
    }
    let mut k: usize = 0;
    while k < pv.len()
        invariant
            pv@ == p@,
            t.len() >= pv.len(),
            k <= pv.len(),
            forall|j: int| 0 <= j < k ==> t@[j] == pv@[j],
        decreases pv.len() - k,
    {
        if t[k] != pv[k] {
            assert(t@.subrange(0, pv@.len() as int)[k as int] != p@[k as int]);
            return false;
        }
        k += 1;
    }
    assert(t@.subrange(0, p@.len() as int) =~= p@);
    true
}

/// The kinds of lexed tokens.
pub open spec fn lexed_kinds(ts: Seq<(Tk, int, int)>) -> Seq<Tk> {
    ts.map_values(|x: (Tk, int, int)| x.0)
}

/// Whether `r` is what formatting the code of a source text gives: an error where the text is
/// too large, where it does not lex, or (of the kind the parser gives) where it does not
/// parse; else the printing of the parsed tree, resolved and lowered.
#[verifier::opaque]
pub open spec fn source_formats(opts: FormatConfig, src: Seq<char>, r: WqResult<String>) -> bool {
    if !(utf8_size(src) < usize::MAX) {
        r matches Err(e) && e.kind == WqErrorType::Syntax
    } else {
        match lex_all(src, 0) {
            None => r is Err,
            Some(ts) => match program_v(lexed_kinds(ts), 0) {
                Step::Fail(k) => r matches Err(e) && e.kind == k,
                Step::Done(a, _) => r matches Ok(s) && exists|p: ParsedNode, q: ParsedNode, t: AstNode|
                    #![trigger resolves_to(p, q), lowers_to(q, t)]
                    ast_of(p) == a && resolves_to(p, q) && lowers_to(q, t) && s@ == fmt_v(opts, t, 0),
            },
        }
    }
}

/// A piece of a formatted script: text copied as it is, or a run of code lines to format.
pub enum ScriptPiece {
    Text(Seq<char>),
    Code(Seq<char>),
}

/// The pieces of a script from line `i` on, with the code lines `buf` waiting: a blank line
/// or a comment is left out; a meta command ends the waiting run of code (where it is not
/// blank) and is copied trimmed on a line of its own; a code line joins the run, trimmed,
/// with a newline.
#[verifier::opaque]
pub open spec fn script_pieces(ls: Seq<Seq<char>>, i: int, buf: Seq<char>) -> Seq<ScriptPiece>
    decreases ls.len() - i,
{
    if i < 0 || i >= ls.len() {
        if trim_v(buf).len() > 0 {
            seq![ScriptPiece::Code(buf)]
        } else {
            Seq::empty()
        }
    } else {
        let t = trim_v(ls[i]);
        if skipped_line(t) {
            script_pieces(ls, i + 1, buf)
        } else if meta_line(t, i) {
            if trim_v(buf).len() > 0 {
                seq![ScriptPiece::Code(buf), ScriptPiece::Text("\n"@), ScriptPiece::Text(t + "\n"@)]
                    + script_pieces(ls, i + 1, Seq::empty())
            } else {
                seq![ScriptPiece::Text(t + "\n"@)] + script_pieces(ls, i + 1, buf)
            }
        } else {
            script_pieces(ls, i + 1, buf + t + "\n"@)
        }
    }
}

/// The text of a piece: a copied text, or the formatted code `out`.
pub open spec fn piece_text(p: ScriptPiece, out: Seq<char>) -> Seq<char> {
    match p {
        ScriptPiece::Text(t) => t,
        ScriptPiece::Code(_) => out,
    }
}

/// The texts of some pieces joined, the code pieces formatted as `outs`.
#[verifier::opaque]
pub open spec fn joined(ps: Seq<ScriptPiece>, outs: Seq<Seq<char>>) -> Seq<char>
    decreases ps.len(),
{
    if ps.len() == 0 || outs.len() == 0 {
        Seq::empty()
    } else {
        joined(ps.drop_last(), outs.drop_last()) + piece_text(ps.last(), outs.last())
    }
}

/// Whether `out` is what formatting a run of code gives.
pub open spec fn code_formats(opts: FormatConfig, code: Seq<char>, out: Seq<char>) -> bool {
    exists|s: String| s@ == out && #[trigger] source_formats(opts, code, Ok(s))
}

/// Whether every code piece is formatted as its entry of `outs`.
#[verifier::opaque]
pub open spec fn codes_format(opts: FormatConfig, ps: Seq<ScriptPiece>, outs: Seq<Seq<char>>) -> bool {
    forall|k: int|
        0 <= k < ps.len() ==> match #[trigger] ps[k] {
            ScriptPiece::Code(c) => code_formats(opts, c, outs[k]),
            _ => true,
        }
}

/// Whether a run of code formats: it fits, lexes and parses.
pub open spec fn formattable(code: Seq<char>) -> bool {
    &&& utf8_size(code) < usize::MAX
    &&& lex_all(code, 0) matches Some(ts)
    &&& program_v(lexed_kinds(ts), 0) is Done
}

/// Whether `r` is what formatting a script gives: the pieces joined, each run of code
/// formatted, without trailing whitespace; the error of the first run of code that does not
/// format; and a result whenever every run formats.
pub open spec fn script_formats(opts: FormatConfig, content: Seq<char>, r: WqResult<String>) -> bool {
    let ps = script_pieces(split_v(content, '\n'), 0, Seq::empty());
    &&& r matches Ok(s) ==> exists|outs: Seq<Seq<char>>|
        outs.len() == ps.len() && #[trigger] codes_format(opts, ps, outs) && s@ == trim_end_v(joined(ps, outs))
    &&& r matches Err(e) ==> exists|k: int|
        0 <= k < ps.len() && (match #[trigger] ps[k] {
            ScriptPiece::Code(c) => source_formats(opts, c, Err(e)),
            _ => false,
        }) && forall|i: int|
            0 <= i < k ==> match #[trigger] ps[i] {
                ScriptPiece::Code(c) => formattable(c),
                _ => true,
            }
    &&& (forall|k: int|
        0 <= k < ps.len() ==> match #[trigger] ps[k] {
            ScriptPiece::Code(c) => formattable(c),
            _ => true,
        }) ==> r is Ok
}

proof fn lemma_pieces_meta(ls: Seq<Seq<char>>, i: int, buf: Seq<char>, emitted: Seq<ScriptPiece>)
    requires
        0 <= i < ls.len(),
        !skipped_line(trim_v(ls[i])),
        meta_line(trim_v(ls[i]), i),
    ensures
        trim_v(buf).len() > 0 ==> emitted + script_pieces(ls, i, buf) == emitted.push(ScriptPiece::Code(buf)).push(
            ScriptPiece::Text("\n"@),
        ).push(ScriptPiece::Text(trim_v(ls[i]) + "\n"@)) + script_pieces(ls, i + 1, Seq::empty()),
        trim_v(buf).len() > 0 ==> (emitted + script_pieces(ls, i, buf))[emitted.len() as int] == ScriptPiece::Code(buf),
        trim_v(buf).len() == 0 ==> emitted + script_pieces(ls, i, buf) == emitted.push(
            ScriptPiece::Text(trim_v(ls[i]) + "\n"@),
        ) + script_pieces(ls, i + 1, buf),
{
    reveal_with_fuel(script_pieces, 1);
    let t = trim_v(ls[i]);
    let rest = script_pieces(ls, i + 1, Seq::empty());
    if trim_v(buf).len() > 0 {
        assert(emitted + script_pieces(ls, i, buf) =~= emitted.push(ScriptPiece::Code(buf)).push(
            ScriptPiece::Text("\n"@),
        ).push(ScriptPiece::Text(t + "\n"@)) + rest);
    } else {
        assert(emitted + script_pieces(ls, i, buf) =~= emitted.push(ScriptPiece::Text(t + "\n"@))
            + script_pieces(ls, i + 1, buf));
    }
}

proof fn lemma_pieces_other(ls: Seq<Seq<char>>, i: int, buf: Seq<char>)
    requires
        0 <= i < ls.len(),
    ensures
        skipped_line(trim_v(ls[i])) ==> script_pieces(ls, i, buf) == script_pieces(ls, i + 1, buf),
        !skipped_line(trim_v(ls[i])) && !meta_line(trim_v(ls[i]), i) ==> script_pieces(ls, i, buf)
            == script_pieces(ls, i + 1, buf + trim_v(ls[i]) + "\n"@),
{
    reveal_with_fuel(script_pieces, 1);
}

proof fn lemma_pieces_end(ls: Seq<Seq<char>>, buf: Seq<char>, emitted: Seq<ScriptPiece>)
    ensures
        trim_v(buf).len() > 0 ==> emitted + script_pieces(ls, ls.len() as int, buf) == emitted.push(
            ScriptPiece::Code(buf),
        ),
        trim_v(buf).len() > 0 ==> (emitted + script_pieces(ls, ls.len() as int, buf))[emitted.len() as int]
            == ScriptPiece::Code(buf),
        trim_v(buf).len() == 0 ==> emitted + script_pieces(ls, ls.len() as int, buf) == emitted,
{
    reveal_with_fuel(script_pieces, 1);
    if trim_v(buf).len() > 0 {
        assert(emitted + script_pieces(ls, ls.len() as int, buf) =~= emitted.push(ScriptPiece::Code(buf)));
    } else {
        assert(emitted + script_pieces(ls, ls.len() as int, buf) =~= emitted);
    }
}

proof fn lemma_joined_push(ps: Seq<ScriptPiece>, outs: Seq<Seq<char>>, p: ScriptPiece, o: Seq<char>)
    requires
        ps.len() == outs.len(),
    ensures
        joined(ps.push(p), outs.push(o)) == joined(ps, outs) + piece_text(p, o),
{
    reveal_with_fuel(joined, 1);
    assert(ps.push(p).drop_last() =~= ps);
    assert(outs.push(o).drop_last() =~= outs);
}

proof fn lemma_codes_push(opts: FormatConfig, ps: Seq<ScriptPiece>, outs: Seq<Seq<char>>, p: ScriptPiece, o: Seq<char>)
    requires
        codes_format(opts, ps, outs),
        outs.len() == ps.len(),
        p matches ScriptPiece::Code(c) ==> code_formats(opts, c, o),
    ensures
        codes_format(opts, ps.push(p), outs.push(o)),
{
    reveal(codes_format);
    assert forall|k: int| 0 <= k < ps.push(p).len() implies match #[trigger] ps.push(p)[k] {
        ScriptPiece::Code(c) => code_formats(opts, c, outs.push(o)[k]),
        _ => true,
    } by {
        if k < ps.len() {
            assert(ps.push(p)[k] == ps[k]);
        }
    }
}

proof fn lemma_err_piece(
    opts: FormatConfig,
    ps: Seq<ScriptPiece>,
    k: int,
    c: Seq<char>,
    e: WqError,
    emitted: Seq<ScriptPiece>,
    outs: Seq<Seq<char>>,
)
    requires
        0 <= k < ps.len(),
        ps[k] == ScriptPiece::Code(c),
        source_formats(opts, c, Err(e)),
        k == emitted.len(),
        outs.len() == emitted.len(),
        forall|j: int| 0 <= j < k ==> ps[j] == emitted[j],
        codes_format(opts, emitted, outs),
    ensures
        exists|j: int|
            0 <= j < ps.len() && (match #[trigger] ps[j] {
                ScriptPiece::Code(c) => source_formats(opts, c, Err(e)),
                _ => false,
            }) && forall|i: int|
                0 <= i < j ==> match #[trigger] ps[i] {
                    ScriptPiece::Code(c) => formattable(c),
                    _ => true,
                },
        !(forall|j: int|
            0 <= j < ps.len() ==> match #[trigger] ps[j] {
                ScriptPiece::Code(c) => formattable(c),
                _ => true,
            }),
{
    reveal(source_formats);
    reveal(codes_format);
    assert(match ps[k] {
        ScriptPiece::Code(c) => source_formats(opts, c, Err(e)),
        _ => false,
    });
    assert forall|i: int| 0 <= i < k implies match #[trigger] ps[i] {
        ScriptPiece::Code(c) => formattable(c),
        _ => true,
    } by {
        assert(ps[i] == emitted[i]);
        match emitted[i] {
            ScriptPiece::Code(ci) => {
                assert(code_formats(opts, ci, outs[i]));
                let s0 = choose|s0: String| s0@ == outs[i] && #[trigger] source_formats(opts, ci, Ok(s0));
                assert(source_formats(opts, ci, Ok(s0)));
            },
            _ => {},
        }
    }
}

proof fn lemma_ok_script(opts: FormatConfig, ps: Seq<ScriptPiece>, outs: Seq<Seq<char>>)
    requires
        outs.len() == ps.len(),
        codes_format(opts, ps, outs),
    ensures
        exists|o: Seq<Seq<char>>|
            o.len() == ps.len() && #[trigger] codes_format(opts, ps, o) && joined(ps, o) == joined(ps, outs),
{
}

/// Whether a line is blank or a comment.
fn is_skipped_line(t: &Vec<char>) -> (r: bool)
    ensures
        r == skipped_line(t@),
{
    t.len() == 0 || (t.len() >= 2 && t[0] == '/' && t[1] == '/')
}

/// Whether a line is a meta command.
fn is_meta_line(t: &Vec<char>, i: usize) -> (r: bool)
    ensures
        r == meta_line(t@, i as int),
{
    (t.len() >= 1 && t[0] == '!') || (i == 0 && t.len() >= 2 && t[0] == '#' && t[1] == '!')
}

impl Formatter {
    /// Formats the code of a source text: lexes, parses and resolves it, then prints the tree.
    pub fn format_source(&self, src: &str) -> (r: WqResult<String>)
        ensures
            source_formats(self.config(), src@, r),
    {
        reveal(source_formats);
        if !source_fits(src) {
            return Err(WqError::new(WqErrorType::Syntax).msg("source too large"));
        }
        let mut lexer = Lexer::new(src);
        let tokens = lexer.tokenize()?;
        let ghost ts = lex_all(src@, 0)->Some_0;
        assert(kinds_of(tokens@) =~= lexed_kinds(ts));
        let mut parser = Parser::new(tokens, src.to_string());
        let ast = parser.parse()?;
        let ghost parsed = ast;
        let mut resolver = Resolver::new();
        let ast = resolver.resolve(ast);
        let ghost resolved = ast;
        let tree = lower(&ast);
        let out = self.format(&tree);
        assert(ast_of(parsed) == ast_of(parsed) && resolves_to(parsed, resolved) && lowers_to(resolved, tree)
            && out@ == fmt_v(self.config(), tree, 0));
        Ok(out)
    }

    /// Formats a script line by line: blank lines and comments are left out, meta commands
    /// (lines starting with `!`, or `#!` on the first line) are copied trimmed, and each run
    /// of code lines between them is formatted as one source text; the result without
    /// trailing whitespace.
    #[verifier::rlimit(100)]
    #[verifier::spinoff_prover]
    pub fn format_script(&self, content: &str) -> (r: WqResult<String>)
        ensures
            script_formats(self.config(), content@, r),
    {
        let cv = chars_of(content);
        let lines = split_chars(&cv, '\n');
        let ghost ls = split_v(content@, '\n');
        let ghost all = script_pieces(ls, 0, Seq::empty());
        let ghost mut emitted: Seq<ScriptPiece> = Seq::empty();
        let ghost mut outs: Seq<Seq<char>> = Seq::empty();
        let mut result: Vec<char> = Vec::new();
        let mut buffer: Vec<char> = Vec::new();
        let mut i: usize = 0;
        assert(all =~= emitted + script_pieces(ls, 0, buffer@));
        assert(codes_format(self.config(), emitted, outs)) by {
            reveal(codes_format);
        }
        assert(result@ == joined(emitted, outs)) by {
            reveal_with_fuel(joined, 1);
            assert(result@ =~= Seq::<char>::empty());
        }
        while i < lines.len()
            invariant
                cv@ == content@,
                ls == split_v(content@, '\n'),
                all == script_pieces(ls, 0, Seq::empty()),
                lines@.len() == ls.len(),
                forall|k: int| 0 <= k < lines@.len() ==> (#[trigger] lines@[k])@ == ls[k],
                i <= lines.len(),
                all == emitted + script_pieces(ls, i as int, buffer@),
                outs.len() == emitted.len(),
                codes_format(self.config(), emitted, outs),
                result@ == joined(emitted, outs),
            decreases lines.len() - i,
        {
            let t = trim_chars(&lines[i]);
            assert(t@ == trim_v(ls[i as int]));
            proof {
                lemma_pieces_other(ls, i as int, buffer@);
            }
            if is_skipped_line(&t) {
                i += 1;
                continue;
            }
            if is_meta_line(&t, i) {
                let bt = trim_chars(&buffer);
                if bt.len() > 0 {
                    let b = string_from_chars(buffer.as_slice());
                    let f = match self.format_source(b.as_str()) {
                        Ok(f) => f,
                        Err(e) => {
                            proof {
                                lemma_pieces_meta(ls, i as int, buffer@, emitted);
                                lemma_err_piece(self.config(), all, emitted.len() as int, buffer@, e, emitted, outs);
                            }
                            return Err(e);
                        },
                    };
                    let ghost e1 = emitted.push(ScriptPiece::Code(buffer@));
                    let ghost o1 = outs.push(f@);
                    let ghost e2 = e1.push(ScriptPiece::Text("\n"@));
                    let ghost o2 = o1.push(Seq::<char>::empty());
                    let ghost e3 = e2.push(ScriptPiece::Text(t@ + "\n"@));
                    let ghost o3 = o2.push(Seq::<char>::empty());
                    proof {
                        assert(code_formats(self.config(), buffer@, f@));
                        lemma_codes_push(self.config(), emitted, outs, ScriptPiece::Code(buffer@), f@);
                        lemma_codes_push(self.config(), e1, o1, ScriptPiece::Text("\n"@), Seq::empty());
                        lemma_codes_push(self.config(), e2, o2, ScriptPiece::Text(t@ + "\n"@), Seq::empty());
                        lemma_joined_push(emitted, outs, ScriptPiece::Code(buffer@), f@);
                        lemma_joined_push(e1, o1, ScriptPiece::Text("\n"@), Seq::empty());
                        lemma_joined_push(e2, o2, ScriptPiece::Text(t@ + "\n"@), Seq::empty());
                        lemma_pieces_meta(ls, i as int, buffer@, emitted);
                    }
                    let ghost r0 = result@;
                    append_str(&mut result, f.as_str());
                    append_str(&mut result, "\n");
                    append_chars(&mut result, &t);
                    append_str(&mut result, "\n");
                    proof {
                        assert(result@ =~= r0 + f@ + "\n"@ + (t@ + "\n"@));
                        emitted = e3;
                        outs = o3;
                    }
                    buffer = Vec::new();
                    assert(buffer@ =~= Seq::<char>::empty());
                    assert(all == emitted + script_pieces(ls, i as int + 1, buffer@));
                } else {
                    let ghost e1 = emitted.push(ScriptPiece::Text(t@ + "\n"@));
                    let ghost o1 = outs.push(Seq::empty());
                    proof {
                        lemma_codes_push(self.config(), emitted, outs, ScriptPiece::Text(t@ + "\n"@), Seq::empty());
                        lemma_joined_push(emitted, outs, ScriptPiece::Text(t@ + "\n"@), Seq::empty());
                        lemma_pieces_meta(ls, i as int, buffer@, emitted);
                    }
                    let ghost r0 = result@;
                    append_chars(&mut result, &t);
                    append_str(&mut result, "\n");
                    proof {
                        assert(result@ =~= r0 + (t@ + "\n"@));
                        emitted = e1;
                        outs = o1;
                    }
                    assert(all == emitted + script_pieces(ls, i as int + 1, buffer@));
                }
            } else {
                let ghost b0 = buffer@;
                append_chars(&mut buffer, &t);
                append_str(&mut buffer, "\n");
                assert(buffer@ =~= b0 + t@ + "\n"@);
                assert(all == emitted + script_pieces(ls, i as int + 1, buffer@));
            }
            i += 1;
        }
        let bt = trim_chars(&buffer);
        proof {
            lemma_pieces_end(ls, buffer@, emitted);
        }
        if bt.len() > 0 {
            let b = string_from_chars(buffer.as_slice());
            let f = match self.format_source(b.as_str()) {
                Ok(f) => f,
                Err(e) => {
                    proof {
                        lemma_err_piece(self.config(), all, emitted.len() as int, buffer@, e, emitted, outs);
                    }
                    return Err(e);
                },
            };
            let ghost e1 = emitted.push(ScriptPiece::Code(buffer@));
            let ghost o1 = outs.push(f@);
            proof {
                assert(code_formats(self.config(), buffer@, f@));
                lemma_codes_push(self.config(), emitted, outs, ScriptPiece::Code(buffer@), f@);
                lemma_joined_push(emitted, outs, ScriptPiece::Code(buffer@), f@);
            }
            append_str(&mut result, f.as_str());
            proof {
                emitted = e1;
                outs = o1;
            }
        }
        let out = trim_end_chars(&result);
        let r = string_from_chars(out.as_slice());
        proof {
            lemma_ok_script(self.config(), all, outs);
        }
        Ok(r)
    }
}

} // verus!
