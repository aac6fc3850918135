//! The syntax tree that the compiler and the formatter work on, and its s-expression text.

use vstd::prelude::*;
use crate::text::{append_chars, append_str, chars_of, string_from_chars};
use crate::value::{Value, display_v};

verus! {

/// An element of an unpacking pattern such as `(x;_;...)`.
#[derive(Debug, Clone, PartialEq)]
pub enum UnpackItem {
    Bind(String),
    Ellipsis,
    Skip,
}

/// A syntax tree.
#[derive(Debug, PartialEq)]
pub enum AstNode {
    Literal(Value),
    Variable(String),
    BinaryOp { left: Box<AstNode>, operator: BinaryOperator, right: Box<AstNode> },
    /// A chain of comparisons such as `a < b <= c`
    ComparisonChain { first: Box<AstNode>, rest: Vec<(BinaryOperator, AstNode)> },
    UnaryOp { operator: UnaryOperator, operand: Box<AstNode> },
    Range { start: Box<AstNode>, end: Box<AstNode>, step: Option<Box<AstNode>>, inclusive: bool },
    Assignment { name: String, value: Box<AstNode> },
    /// The ellipsis of an unpacking pattern
    Ellipsis,
    /// An unpacking assignment such as `(x;y):a`
    UnpackAssign { pattern: Vec<UnpackItem>, value: Box<AstNode> },
    /// List construction
    List(Vec<AstNode>),
    /// Dictionary construction
    Dict(Vec<(String, AstNode)>),
    /// A postfix expression whose meaning (call or index) is decided later
    Postfix { object: Box<AstNode>, items: Vec<AstNode>, explicit_call: bool },
    /// A call of a named function
    Call { name: String, args: Vec<AstNode> },
    /// A call of a function value
    CallAnonymous { object: Box<AstNode>, args: Vec<AstNode> },
    Index { object: Box<AstNode>, index: Box<AstNode> },
    /// An indexed assignment such as `a[1]:3`
    IndexAssign { object: Box<AstNode>, index: Box<AstNode>, value: Box<AstNode> },
    /// A function definition; `None` for the implicit parameters `x`, `y`, `z`
    Function { params: Option<Vec<String>>, body: Box<AstNode> },
    Conditional { condition: Box<AstNode>, true_branch: Box<AstNode>, false_branch: Option<Box<AstNode>> },
    /// A while loop `W[cond;body]`
    WLoop { condition: Box<AstNode>, body: Box<AstNode> },
    /// A counted loop `N[count;body]`
    NLoop { count: Box<AstNode>, body: Box<AstNode> },
    /// A loop over the elements of a value `F[xs;body]`
    FLoop { iterable: Box<AstNode>, body: Box<AstNode> },
    Break,
    Continue,
    Return(Option<Box<AstNode>>),
    Try(Box<AstNode>),
    /// A sequence of statements
    Block(Vec<AstNode>),
    /// A block expression `B[...]`
    BlockExpr(Vec<AstNode>),
}

#[derive(Debug, Clone, Copy, PartialEq, Eq, Structural)]
pub enum BinaryOperator {
    Add,
    Subtract,
    Multiply,
    Power,
    Divide,
    DivideDot,
    Modulo,
    ModuloDot,
    Matmul,
    Equal,
    NotEqual,
    LessThan,
    LessThanOrEqual,
    GreaterThan,
    GreaterThanOrEqual,
    Cat,
}

#[derive(Debug, Clone, Copy, PartialEq, Eq, Structural)]
pub enum UnaryOperator {
    Negate,
    Count,
}

/// The symbol of a binary operator.
pub open spec fn binary_op_text(op: BinaryOperator) -> Seq<char> {
    match op {
        BinaryOperator::Add => "+"@,
        BinaryOperator::Subtract => "-"@,
        BinaryOperator::Multiply => "*"@,
        BinaryOperator::Power => "^"@,
        BinaryOperator::Divide => "/"@,
        BinaryOperator::DivideDot => "/."@,
        BinaryOperator::Modulo => "%"@,
        BinaryOperator::ModuloDot => "%."@,
        BinaryOperator::Matmul => "**"@,
        BinaryOperator::Equal => "="@,
        BinaryOperator::NotEqual => "~"@,
        BinaryOperator::LessThan => "<"@,
        BinaryOperator::LessThanOrEqual => "<="@,
        BinaryOperator::GreaterThan => ">"@,
        BinaryOperator::GreaterThanOrEqual => ">="@,
        BinaryOperator::Cat => ","@,
    }
}

/// The symbol of a unary operator.
pub open spec fn unary_op_text(op: UnaryOperator) -> Seq<char> {
    match op {
        UnaryOperator::Negate => "-"@,
        UnaryOperator::Count => "#"@,
    }
}

/// The symbol of a binary operator.
pub fn binary_op_display(op: &BinaryOperator) -> (r: &'static str)
    ensures
        r@ == binary_op_text(*op),
{
    match op {
        BinaryOperator::Add => "+",
        BinaryOperator::Subtract => "-",
        BinaryOperator::Multiply => "*",
        BinaryOperator::Power => "^",
        BinaryOperator::Divide => "/",
        BinaryOperator::DivideDot => "/.",
        BinaryOperator::Modulo => "%",
        BinaryOperator::ModuloDot => "%.",
        BinaryOperator::Matmul => "**",
        BinaryOperator::Equal => "=",
        BinaryOperator::NotEqual => "~",
        BinaryOperator::LessThan => "<",
        BinaryOperator::LessThanOrEqual => "<=",
        BinaryOperator::GreaterThan => ">",
        BinaryOperator::GreaterThanOrEqual => ">=",
        BinaryOperator::Cat => ",",
    }
}

/// The symbol of a unary operator.
pub fn unary_op_display(op: &UnaryOperator) -> (r: &'static str)
    ensures
        r@ == unary_op_text(*op),
{
    match op {
        UnaryOperator::Negate => "-",
        UnaryOperator::Count => "#",
    }
}

/// What `format!("{:?}", s)` gives for a string: the string quoted, with escapes.
pub uninterp spec fn str_debug_text(s: Seq<char>) -> Seq<char>;

/// Whether a character is printable ASCII, a tab, a line feed or a carriage return.
pub open spec fn plain_ascii(c: char) -> bool {
    (' ' <= c && c <= '~') || c == '\t' || c == '\n' || c == '\r'
}

/// How `Debug` writes a plain ASCII character inside a quoted string: a backslash before
/// `"` and `\`, the escapes `\t`, `\n`, `\r`, and any other character as it is.
pub open spec fn debug_escape(c: char) -> Seq<char> {
    if c == '"' {
        seq!['\\', '"']
    } else if c == '\\' {
        seq!['\\', '\\']
    } else if c == '\t' {
        seq!['\\', 't']
    } else if c == '\n' {
        seq!['\\', 'n']
    } else if c == '\r' {
        seq!['\\', 'r']
    } else {
        seq![c]
    }
}

/// The characters of a string, each escaped as `Debug` escapes it.
pub open spec fn debug_escapes(s: Seq<char>) -> Seq<char>
    decreases s.len(),
{
    if s.len() == 0 {
        Seq::empty()
    } else {
        debug_escapes(s.drop_last()) + debug_escape(s.last())
    }
}

/// Formats a string with `Debug` (`format!("{s:?}")`); the result is `str_debug_text`. A
/// string of plain ASCII characters comes out between double quotes, each character escaped
/// as `debug_escape` says.
#[verifier::external_body]
fn str_debug(s: &str) -> (r: String)
    ensures
        r@ == str_debug_text(s@),
        (forall|i: int| 0 <= i < s@.len() ==> plain_ascii(#[trigger] s@[i])) ==> r@ == seq!['"'] + debug_escapes(
            s@,
        ) + seq!['"'],
{
    format!("{s:?}")
}

/// Whether a character is an ASCII letter or digit, or `_`.
pub open spec fn is_ident_char(c: char) -> bool {
    ('a' <= c && c <= 'z') || ('A' <= c && c <= 'Z') || ('0' <= c && c <= '9') || c == '_'
}

/// A name as the s-expression shows it: bare where it is letters, digits and `_` only,
/// otherwise quoted as `Debug` quotes a string.
pub open spec fn atom_ident_v(s: Seq<char>) -> Seq<char> {
    if forall|i: int| 0 <= i < s.len() ==> #[trigger] is_ident_char(s[i]) {
        s
    } else if forall|i: int| 0 <= i < s.len() ==> #[trigger] plain_ascii(s[i]) {
        seq!['"'] + debug_escapes(s) + seq!['"']
    } else {
        str_debug_text(s)
    }
}

/// A name as the s-expression shows it.
pub fn atom_ident(s: &str) -> (r: Vec<char>)
    ensures
        r@ == atom_ident_v(s@),
{
    let v = chars_of(s);
    let mut i: usize = 0;
    while i < v.len()
        invariant
            v@ == s@,
            i <= v.len(),
            forall|k: int| 0 <= k < i ==> #[trigger] is_ident_char(v@[k]),
        decreases v.len() - i,
    {
        let c = v[i];
        if !(('a' <= c && c <= 'z') || ('A' <= c && c <= 'Z') || ('0' <= c && c <= '9') || c == '_') {
            assert(!is_ident_char(s@[i as int]));
            return chars_of(str_debug(s).as_str());
        }
        i += 1;
    }
    v
}

/// The s-expression of a syntax tree: each node a parenthesised group of a head and its
/// parts separated by spaces; a literal shows the value's text.
pub open spec fn sexpr_v(n: AstNode) -> Seq<char>
    decreases n, 0int,
{
    match n {
        AstNode::Literal(v) => display_v(v@),
        AstNode::Variable(name) => atom_ident_v(name@),
        AstNode::UnaryOp { operator, operand } => "("@ + unary_op_text(operator) + " "@ + sexpr_v(*operand)
            + ")"@,
        AstNode::BinaryOp { left, operator, right } => "("@ + binary_op_text(operator) + " "@ + sexpr_v(*left)
            + " "@ + sexpr_v(*right) + ")"@,
        AstNode::ComparisonChain { first, rest } => "(CMP-CHAIN "@ + sexpr_v(*first) + chain_join(
            rest@,
            rest@.len() as int,
        ) + ")"@,
        AstNode::Range { start, end, step, inclusive } => "("@ + (if inclusive {
            "RANGE="@
        } else {
            "RANGE"@
        }) + " "@ + sexpr_v(*start) + " "@ + sexpr_v(*end) + (match step {
            Some(s) => " "@ + sexpr_v(*s),
            None => Seq::empty(),
        }) + ")"@,
        AstNode::Assignment { name, value } => "(ASSIGN "@ + atom_ident_v(name@) + " "@ + sexpr_v(*value) + ")"@,
        AstNode::Ellipsis => "(...)"@,
        AstNode::UnpackAssign { pattern, value } => "(UNPACK-ASSIGN ("@ + pattern_join(pattern@, pattern@.len() as int)
            + ") "@ + sexpr_v(*value) + ")"@,
        AstNode::List(items) => "(LIST"@ + sp_join(items@, items@.len() as int) + ")"@,
        AstNode::Dict(kvs) => "(DICT"@ + dict_join(kvs@, kvs@.len() as int) + ")"@,
        AstNode::Postfix { object, items, explicit_call } => "("@ + (if explicit_call {
            "POSTFIX*"@
        } else {
            "POSTFIX"@
        }) + " "@ + sexpr_v(*object) + sp_join(items@, items@.len() as int) + ")"@,
        AstNode::Call { name, args } => "("@ + atom_ident_v(name@) + sp_join(args@, args@.len() as int) + ")"@,
        AstNode::CallAnonymous { object, args } => "("@ + sexpr_v(*object) + sp_join(args@, args@.len() as int)
            + ")"@,
        AstNode::Index { object, index } => "(INDEX "@ + sexpr_v(*object) + " "@ + sexpr_v(*index) + ")"@,
        AstNode::IndexAssign { object, index, value } => "(INDEX-ASSIGN "@ + sexpr_v(*object) + " "@ + sexpr_v(
            *index,
        ) + " "@ + sexpr_v(*value) + ")"@,
        AstNode::Function { params, body } => "(FN "@ + (match params {
            Some(ps) => "("@ + names_join(ps@, ps@.len() as int) + ")"@,
            None => "(implicit)"@,
        }) + " "@ + sexpr_v(*body) + ")"@,
        AstNode::Conditional { condition, true_branch, false_branch } => "(IF "@ + sexpr_v(*condition) + " "@
            + sexpr_v(*true_branch) + (match false_branch {
            Some(f) => " "@ + sexpr_v(*f),
            None => Seq::empty(),
        }) + ")"@,
        AstNode::WLoop { condition, body } => "(W-LOOP "@ + sexpr_v(*condition) + " "@ + sexpr_v(*body) + ")"@,
        AstNode::NLoop { count, body } => "(N-LOOP "@ + sexpr_v(*count) + " "@ + sexpr_v(*body) + ")"@,
        AstNode::FLoop { iterable, body } => "(F-LOOP "@ + sexpr_v(*iterable) + " "@ + sexpr_v(*body) + ")"@,
        AstNode::Break => "(@b)"@,
        AstNode::Continue => "(@c)"@,
        AstNode::Return(e) => "(@r"@ + (match e {
            Some(x) => " "@ + sexpr_v(*x),
            None => Seq::empty(),
        }) + ")"@,
        AstNode::Try(e) => "(@t "@ + sexpr_v(*e) + ")"@,
        AstNode::Block(stmts) => "(BLOCK"@ + sp_join(stmts@, stmts@.len() as int) + ")"@,
        AstNode::BlockExpr(stmts) => "(B"@ + sp_join(stmts@, stmts@.len() as int) + ")"@,
    }
}

/// The s-expressions of `items[..k]`, each after a space.
pub open spec fn sp_join(items: Seq<AstNode>, k: int) -> Seq<char>
    decreases items, k,
{
    if k <= 0 || k > items.len() {
        Seq::empty()
    } else {
        sp_join(items, k - 1) + " "@ + sexpr_v(items[k - 1])
    }
}

/// The operators and operands of `rest[..k]` of a comparison chain, each after a space.
pub open spec fn chain_join(rest: Seq<(BinaryOperator, AstNode)>, k: int) -> Seq<char>
    decreases rest, k,
{
    if k <= 0 || k > rest.len() {
        Seq::empty()
    } else {
        chain_join(rest, k - 1) + " "@ + binary_op_text(rest[k - 1].0) + " "@ + sexpr_v(rest[k - 1].1)
    }
}

/// The entries of `kvs[..k]` of a dictionary, each a group of key and value after a space.
pub open spec fn dict_join(kvs: Seq<(String, AstNode)>, k: int) -> Seq<char>
    decreases kvs, k,
{
    if k <= 0 || k > kvs.len() {
        Seq::empty()
    } else {
        dict_join(kvs, k - 1) + " ("@ + atom_ident_v(kvs[k - 1].0@) + " "@ + sexpr_v(kvs[k - 1].1) + ")"@
    }
}

/// The text of an element of an unpacking pattern.
pub open spec fn pattern_item_text(p: UnpackItem) -> Seq<char> {
    match p {
        UnpackItem::Bind(n) => atom_ident_v(n@),
        UnpackItem::Skip => "_"@,
        UnpackItem::Ellipsis => "..."@,
    }
}

/// The elements of `ps[..k]` of a pattern separated by spaces.
pub open spec fn pattern_join(ps: Seq<UnpackItem>, k: int) -> Seq<char>
    decreases k,
{
    if k <= 0 || k > ps.len() {
        Seq::empty()
    } else if k == 1 {
        pattern_item_text(ps[0])
    } else {
        pattern_join(ps, k - 1) + " "@ + pattern_item_text(ps[k - 1])
    }
}

/// The names `ns[..k]` separated by spaces.
pub open spec fn names_join(ns: Seq<String>, k: int) -> Seq<char>
    decreases k,
{
    if k <= 0 || k > ns.len() {
        Seq::empty()
    } else if k == 1 {
        atom_ident_v(ns[0]@)
    } else {
        names_join(ns, k - 1) + " "@ + atom_ident_v(ns[k - 1]@)
    }
}

fn pattern_item_chars(p: &UnpackItem) -> (r: Vec<char>)
    ensures
        r@ == pattern_item_text(*p),
{
    match p {
        UnpackItem::Bind(n) => atom_ident(n.as_str()),
        UnpackItem::Skip => chars_of("_"),
        UnpackItem::Ellipsis => chars_of("..."),
    }
}

impl AstNode {
    /// The s-expression of the tree.
    pub fn sexpr(&self) -> (r: String)
        ensures
            r@ == sexpr_v(*self),
    {
        let v = self.sexpr_chars();
        string_from_chars(v.as_slice())
    }

    /// The s-expression of the tree, as characters.
    pub fn sexpr_chars(&self) -> (r: Vec<char>)
        ensures
            r@ == sexpr_v(*self),
        decreases self,
    {
        match self {
            AstNode::Literal(v) => v.display_chars(),
            AstNode::Variable(name) => atom_ident(name.as_str()),
            AstNode::UnaryOp { operator, operand } => {
                let mut out = chars_of("(");
                append_str(&mut out, unary_op_display(operator));
                append_str(&mut out, " ");
                let s = operand.sexpr_chars();
                append_chars(&mut out, &s);
                append_str(&mut out, ")");
                out
            },
            AstNode::BinaryOp { left, operator, right } => {
                let mut out = chars_of("(");
                append_str(&mut out, binary_op_display(operator));
                append_str(&mut out, " ");
                let l = left.sexpr_chars();
                append_chars(&mut out, &l);
                append_str(&mut out, " ");
                let r = right.sexpr_chars();
                append_chars(&mut out, &r);
                append_str(&mut out, ")");
                out
            },
            AstNode::ComparisonChain { first, rest } => {
                let mut out = chars_of("(CMP-CHAIN ");
                let f = first.sexpr_chars();
                append_chars(&mut out, &f);
                let ghost head = out@;
                let mut i: usize = 0;
                while i < rest.len()
                    invariant
                        *self == (AstNode::ComparisonChain { first: *first, rest: *rest }),
                        i <= rest.len(),
                        out@ == head + chain_join(rest@, i as int),
                    decreases rest.len() - i,
                {
                    assert(decreases_to!(*self => rest@[i as int].1)) by {
                        assert(decreases_to!(*self => (*self)->rest));
                        assert(decreases_to!(*rest => rest@));
                        assert(decreases_to!(rest@ => rest@[i as int]));
                        assert(decreases_to!(rest@[i as int] => rest@[i as int].1));
                    }
                    append_str(&mut out, " ");
                    append_str(&mut out, binary_op_display(&rest[i].0));
                    append_str(&mut out, " ");
                    let s = rest[i].1.sexpr_chars();
                    append_chars(&mut out, &s);
                    i += 1;
                }
                append_str(&mut out, ")");
                out
            },
            AstNode::Range { start, end, step, inclusive } => {
                let mut out = chars_of("(");
                if *inclusive {
                    append_str(&mut out, "RANGE=");
                } else {
                    append_str(&mut out, "RANGE");
                }
                append_str(&mut out, " ");
                let a = start.sexpr_chars();
                append_chars(&mut out, &a);
                append_str(&mut out, " ");
                let b = end.sexpr_chars();
                append_chars(&mut out, &b);
                match step {
                    Some(s) => {
                        append_str(&mut out, " ");
                        let c = s.sexpr_chars();
                        append_chars(&mut out, &c);
                    },
                    None => {},
                }
                append_str(&mut out, ")");
                out
            },
            AstNode::Assignment { name, value } => {
                let mut out = chars_of("(ASSIGN ");
                let n = atom_ident(name.as_str());
                append_chars(&mut out, &n);
                append_str(&mut out, " ");
                let v = value.sexpr_chars();
                append_chars(&mut out, &v);
                append_str(&mut out, ")");
                out
            },
            AstNode::Ellipsis => chars_of("(...)"),
            AstNode::UnpackAssign { pattern, value } => {
                let mut out = chars_of("(UNPACK-ASSIGN (");
                let ghost head = out@;
                let mut i: usize = 0;
                while i < pattern.len()
                    invariant
                        i <= pattern.len(),
                        out@ == head + pattern_join(pattern@, i as int),
                    decreases pattern.len() - i,
                {
                    if i > 0 {
                        append_str(&mut out, " ");
                    }
                    let t = pattern_item_chars(&pattern[i]);
                    append_chars(&mut out, &t);
                    i += 1;
                }
                append_str(&mut out, ") ");
                let v = value.sexpr_chars();
                append_chars(&mut out, &v);
                append_str(&mut out, ")");
                out
            },
            AstNode::List(items) => {
                let mut out = chars_of("(LIST");
                let ghost head = out@;
                let mut i: usize = 0;
                while i < items.len()
                    invariant
                        *self == AstNode::List(*items),
                        i <= items.len(),
                        out@ == head + sp_join(items@, i as int),
                    decreases items.len() - i,
                {
                    assert(decreases_to!(*self => items@[i as int])) by {
                        assert(decreases_to!(*self => (*self)->List_0));
                        assert(decreases_to!(*items => items@));
                        assert(decreases_to!(items@ => items@[i as int]));
                    }
                    append_str(&mut out, " ");
                    let s = items[i].sexpr_chars();
                    append_chars(&mut out, &s);
                    i += 1;
                }
                append_str(&mut out, ")");
                out
            },
            AstNode::Dict(kvs) => {
                let mut out = chars_of("(DICT");
                let ghost head = out@;
                let mut i: usize = 0;
                while i < kvs.len()
                    invariant
                        *self == AstNode::Dict(*kvs),
                        i <= kvs.len(),
                        out@ == head + dict_join(kvs@, i as int),
                    decreases kvs.len() - i,
                {
                    assert(decreases_to!(*self => kvs@[i as int].1)) by {
                        assert(decreases_to!(*self => (*self)->Dict_0));
                        assert(decreases_to!(*kvs => kvs@));
                        assert(decreases_to!(kvs@ => kvs@[i as int]));
                        assert(decreases_to!(kvs@[i as int] => kvs@[i as int].1));
                    }
                    append_str(&mut out, " (");
                    let k = atom_ident(kvs[i].0.as_str());
                    append_chars(&mut out, &k);
                    append_str(&mut out, " ");
                    let s = kvs[i].1.sexpr_chars();
                    append_chars(&mut out, &s);
                    append_str(&mut out, ")");
                    i += 1;
                }
                append_str(&mut out, ")");
                out
            },
            AstNode::Postfix { object, items, explicit_call } => {
                let mut out = chars_of("(");
                if *explicit_call {
                    append_str(&mut out, "POSTFIX*");
                } else {
                    append_str(&mut out, "POSTFIX");
                }
                append_str(&mut out, " ");
                let o = object.sexpr_chars();
                append_chars(&mut out, &o);
                let ghost head = out@;
                let mut i: usize = 0;
                while i < items.len()
                    invariant
                        *self == (AstNode::Postfix { object: *object, items: *items, explicit_call: *explicit_call }),
                        i <= items.len(),
                        out@ == head + sp_join(items@, i as int),
                    decreases items.len() - i,
                {
                    assert(decreases_to!(*self => items@[i as int])) by {
                        assert(decreases_to!(*self => (*self)->items));
                        assert(decreases_to!(*items => items@));
                        assert(decreases_to!(items@ => items@[i as int]));
                    }
                    append_str(&mut out, " ");
                    let s = items[i].sexpr_chars();
                    append_chars(&mut out, &s);
                    i += 1;
                }
                append_str(&mut out, ")");
                out
            },
            AstNode::Call { name, args } => {
                let mut out = chars_of("(");
                let n = atom_ident(name.as_str());
                append_chars(&mut out, &n);
                let ghost head = out@;
                let mut i: usize = 0;
                while i < args.len()
                    invariant
                        *self == (AstNode::Call { name: *name, args: *args }),
                        i <= args.len(),
                        out@ == head + sp_join(args@, i as int),
                    decreases args.len() - i,
                {
                    assert(decreases_to!(*self => args@[i as int])) by {
                        assert(decreases_to!(*self => (*self)->Call_args));
                        assert(decreases_to!(*args => args@));
                        assert(decreases_to!(args@ => args@[i as int]));
                    }
                    append_str(&mut out, " ");
                    let s = args[i].sexpr_chars();
                    append_chars(&mut out, &s);
                    i += 1;
                }
                append_str(&mut out, ")");
                out
            },
            AstNode::CallAnonymous { object, args } => {
                let mut out = chars_of("(");
                let o = object.sexpr_chars();
                append_chars(&mut out, &o);
                let ghost head = out@;
                let mut i: usize = 0;
                while i < args.len()
                    invariant
                        *self == (AstNode::CallAnonymous { object: *object, args: *args }),
                        i <= args.len(),
                        out@ == head + sp_join(args@, i as int),
                    decreases args.len() - i,
                {
                    assert(decreases_to!(*self => args@[i as int])) by {
                        assert(decreases_to!(*self => (*self)->CallAnonymous_args));
                        assert(decreases_to!(*args => args@));
                        assert(decreases_to!(args@ => args@[i as int]));
                    }
                    append_str(&mut out, " ");
                    let s = args[i].sexpr_chars();
                    append_chars(&mut out, &s);
                    i += 1;
                }
                append_str(&mut out, ")");
                out
            },
            AstNode::Index { object, index } => {
                let mut out = chars_of("(INDEX ");
                let o = object.sexpr_chars();
                append_chars(&mut out, &o);
                append_str(&mut out, " ");
                let x = index.sexpr_chars();
                append_chars(&mut out, &x);
                append_str(&mut out, ")");
                out
            },
            AstNode::IndexAssign { object, index, value } => {
                let mut out = chars_of("(INDEX-ASSIGN ");
                let o = object.sexpr_chars();
                append_chars(&mut out, &o);
                append_str(&mut out, " ");
                let x = index.sexpr_chars();
                append_chars(&mut out, &x);
                append_str(&mut out, " ");
                let v = value.sexpr_chars();
                append_chars(&mut out, &v);
                append_str(&mut out, ")");
                out
            },
            AstNode::Function { params, body } => {
                let mut out = chars_of("(FN ");
                match params {
                    Some(ps) => {
                        append_str(&mut out, "(");
                        let ghost head = out@;
                        let mut i: usize = 0;
                        while i < ps.len()
                            invariant
                                i <= ps.len(),
                                out@ == head + names_join(ps@, i as int),
                            decreases ps.len() - i,
                        {
                            if i > 0 {
                                append_str(&mut out, " ");
                            }
                            let n = atom_ident(ps[i].as_str());
                            append_chars(&mut out, &n);
                            i += 1;
                        }
                        append_str(&mut out, ")");
                    },
                    None => {
                        append_str(&mut out, "(implicit)");
                    },
                }
                append_str(&mut out, " ");
                let b = body.sexpr_chars();
                append_chars(&mut out, &b);
                append_str(&mut out, ")");
                out
            },
            AstNode::Conditional { condition, true_branch, false_branch } => {
                let mut out = chars_of("(IF ");
                let c = condition.sexpr_chars();
                append_chars(&mut out, &c);
                append_str(&mut out, " ");
                let t = true_branch.sexpr_chars();
                append_chars(&mut out, &t);
                match false_branch {
                    Some(f) => {
                        append_str(&mut out, " ");
                        let s = f.sexpr_chars();
                        append_chars(&mut out, &s);
                    },
                    None => {},
                }
                append_str(&mut out, ")");
                out
            },
            AstNode::WLoop { condition, body } => {
                let mut out = chars_of("(W-LOOP ");
                let c = condition.sexpr_chars();
                append_chars(&mut out, &c);
                append_str(&mut out, " ");
                let b = body.sexpr_chars();
                append_chars(&mut out, &b);
                append_str(&mut out, ")");
                out
            },
            AstNode::NLoop { count, body } => {
                let mut out = chars_of("(N-LOOP ");
                let c = count.sexpr_chars();
                append_chars(&mut out, &c);
                append_str(&mut out, " ");
                let b = body.sexpr_chars();
                append_chars(&mut out, &b);
                append_str(&mut out, ")");
                out
            },
            AstNode::FLoop { iterable, body } => {
                let mut out = chars_of("(F-LOOP ");
                let c = iterable.sexpr_chars();
                append_chars(&mut out, &c);
                append_str(&mut out, " ");
                let b = body.sexpr_chars();
                append_chars(&mut out, &b);
                append_str(&mut out, ")");
                out
            },
            AstNode::Break => chars_of("(@b)"),
            AstNode::Continue => chars_of("(@c)"),
            AstNode::Return(e) => {
                let mut out = chars_of("(@r");
                match e {
                    Some(x) => {
                        append_str(&mut out, " ");
                        let s = x.sexpr_chars();
                        append_chars(&mut out, &s);
                    },
                    None => {},
                }
                append_str(&mut out, ")");
                out
            },
            AstNode::Try(e) => {
                let mut out = chars_of("(@t ");
                let s = e.sexpr_chars();
                append_chars(&mut out, &s);
                append_str(&mut out, ")");
                out
            },
            AstNode::Block(stmts) => {
                let mut out = chars_of("(BLOCK");
                let ghost head = out@;
                let mut i: usize = 0;
                while i < stmts.len()
                    invariant
                        *self == AstNode::Block(*stmts),
                        i <= stmts.len(),
                        out@ == head + sp_join(stmts@, i as int),
                    decreases stmts.len() - i,
                {
                    assert(decreases_to!(*self => stmts@[i as int])) by {
                        assert(decreases_to!(*self => (*self)->Block_0));
                        assert(decreases_to!(*stmts => stmts@));
                        assert(decreases_to!(stmts@ => stmts@[i as int]));
                    }
                    append_str(&mut out, " ");
                    let s = stmts[i].sexpr_chars();
                    append_chars(&mut out, &s);
                    i += 1;
                }
                append_str(&mut out, ")");
                out
            },
            AstNode::BlockExpr(stmts) => {
                let mut out = chars_of("(B");
                let ghost head = out@;
                let mut i: usize = 0;
                while i < stmts.len()
                    invariant
                        *self == AstNode::BlockExpr(*stmts),
                        i <= stmts.len(),
                        out@ == head + sp_join(stmts@, i as int),
                    decreases stmts.len() - i,
                {
                    assert(decreases_to!(*self => stmts@[i as int])) by {
                        assert(decreases_to!(*self => (*self)->BlockExpr_0));
                        assert(decreases_to!(*stmts => stmts@));
                        assert(decreases_to!(stmts@ => stmts@[i as int]));
                    }
                    append_str(&mut out, " ");
                    let s = stmts[i].sexpr_chars();
                    append_chars(&mut out, &s);
                    i += 1;
                }
                append_str(&mut out, ")");
                out
            },
        }
    }
}

} // verus!
