//! How the tokens that are always written the same way are spelled, and the laws that tie
//! the lexer, the parser and the formatter to those spellings.

use vstd::prelude::*;
use crate::apps::formatter::{fmt_v, lower_binary_v, FormatConfig};
use crate::astnode::{binary_op_text, AstNode};
use crate::grammar::{additive_op_v, comparison_op_v, multiplicative_op_v};
use crate::lexspec::{
    at_token, char_at, ident_end, lemma_blank_end, lemma_ident_end, lex_all, lex_at, Lexed,
    pair_token, single_char_token, word_token, blank_end,
};
use crate::token::{tk_tag, Tk};

verus! {

/// The text of a token that is always written the same way: keywords, operators,
/// punctuation, directives and the line feed. `None` for literals, names, comments and the
/// end of the input.
pub open spec fn token_text(t: Tk) -> Option<Seq<char>> {
    match t {
        Tk::True => Some(seq!['t', 'r', 'u', 'e']),
        Tk::False => Some(seq!['f', 'a', 'l', 's', 'e']),
        Tk::Inf => Some(seq!['i', 'n', 'f']),
        Tk::Nan => Some(seq!['n', 'a', 'n']),
        Tk::Plus => Some(seq!['+']),
        Tk::Minus => Some(seq!['-']),
        Tk::Multiply => Some(seq!['*']),
        Tk::Matmul => Some(seq!['*', '*']),
        Tk::Divide => Some(seq!['/']),
        Tk::DivideDot => Some(seq!['/', '.']),
        Tk::Modulo => Some(seq!['%']),
        Tk::ModuloDot => Some(seq!['%', '.']),
        Tk::Power => Some(seq!['^']),
        Tk::Colon => Some(seq![':']),
        Tk::Equal => Some(seq!['=']),
        Tk::NotEqual => Some(seq!['~']),
        Tk::LessThan => Some(seq!['<']),
        Tk::LessThanOrEqual => Some(seq!['<', '=']),
        Tk::GreaterThan => Some(seq!['>']),
        Tk::GreaterThanOrEqual => Some(seq!['>', '=']),
        Tk::Sharp => Some(seq!['#']),
        Tk::Pipe => Some(seq!['|']),
        Tk::Dollar => Some(seq!['$']),
        Tk::DollarDot => Some(seq!['$', '.']),
        Tk::DollarDollar => Some(seq!['$', '$']),
        Tk::Range => Some(seq!['.', '.']),
        Tk::RangeInclusive => Some(seq!['.', '.', '=']),
        Tk::Ellipsis => Some(seq!['.', '.', '.']),
        Tk::AtBreak => Some(seq!['@', 'b']),
        Tk::AtContinue => Some(seq!['@', 'c']),
        Tk::AtReturn => Some(seq!['@', 'r']),
        Tk::AtTry => Some(seq!['@', 't']),
        Tk::AtFormat => Some(seq!['@', 'f']),
        Tk::LeftParen => Some(seq!['(']),
        Tk::RightParen => Some(seq![')']),
        Tk::LeftBracket => Some(seq!['[']),
        Tk::RightBracket => Some(seq![']']),
        Tk::LeftBrace => Some(seq!['{']),
        Tk::RightBrace => Some(seq!['}']),
        Tk::Semicolon => Some(seq![';']),
        Tk::Comma => Some(seq![',']),
        Tk::Apostrophe => Some(seq!['\'']),
        Tk::Backtick => Some(seq!['`']),
        Tk::Newline => Some(seq!['\n']),
        _ => None,
    }
}

/// A token of one or two characters is the token that those characters spell: the token
/// that `pair_token` gives for `c` (and `n` when it takes two) is written `c` (or `c n`).
/// So `>=` is `GreaterThanOrEqual`, never `LessThanOrEqual`.
pub proof fn lemma_pair_token_spelled(c: char, n: Option<char>)
    ensures
        pair_token(c, n) matches Some((t, w)) ==> {
            ||| w == 1 && token_text(t) == Some(seq![c])
            ||| w == 2 && n is Some && token_text(t) == Some(seq![c, n->Some_0])
        },
{
}

/// A token of one character is the token that the character spells.
pub proof fn lemma_single_char_token_spelled(c: char)
    ensures
        single_char_token(c) matches Some(t) ==> token_text(t) == Some(seq![c]),
{
}

/// Lexing reads a token of fixed spelling exactly where its spelling is written: where the
/// next token from `i` is one of those, its text in the source is its spelling.
pub proof fn lemma_lexed_token_spelled(s: Seq<char>, i: int)
    ensures
        lex_at(s, i) matches Lexed::Tok(t, a, b) ==> (token_text(t) is Some ==> 0 <= a <= b
            <= s.len() && token_text(t) == Some(s.subrange(a, b))),
    decreases s.len() - i,
{
    if 0 <= i < s.len() {
        let c = s[i];
        let n1 = char_at(s, i + 1);
        let n2 = char_at(s, i + 2);
        if c == ' ' || c == '\t' || c == '\r' {
            lemma_blank_end(s, i + 1);
            lemma_lexed_token_spelled(s, blank_end(s, i + 1));
        } else if c == '\n' {
            assert(s.subrange(i, i + 1) =~= seq![c]);
        } else if pair_token(c, n1) is Some {
            lemma_pair_token_spelled(c, n1);
            assert(s.subrange(i, i + 1) =~= seq![c]);
            if i + 1 < s.len() {
                assert(s.subrange(i, i + 2) =~= seq![c, s[i + 1]]);
            }
        } else if c == '/' {
            assert(s.subrange(i, i + 1) =~= seq![c]);
            if i + 1 < s.len() {
                assert(s.subrange(i, i + 2) =~= seq![c, s[i + 1]]);
            }
        } else if c == '.' {
            if n1 == Some('.') && n2 is Some {
                assert(s.subrange(i, i + 3) =~= seq![c, s[i + 1], s[i + 2]]);
            }
            if n1 == Some('.') {
                assert(s.subrange(i, i + 2) =~= seq![c, s[i + 1]]);
            }
            if !(n1 == Some('.')) {
                lemma_lexed_token_spelled(s, i + 1);
            }
        } else if c == '@' {
            if n1 is Some {
                assert(s.subrange(i, i + 2) =~= seq![c, s[i + 1]]);
            }
            if !(n1 == Some('l')) && !(n1 is Some && at_token(n1.unwrap()) is Some) {
                lemma_lexed_token_spelled(s, i + 1);
            }
        } else if single_char_token(c) is Some {
            lemma_single_char_token_spelled(c);
            assert(s.subrange(i, i + 1) =~= seq![c]);
        } else if c == '`' {
            lemma_ident_end(s, i + 1);
            assert(s.subrange(i, i + 1) =~= seq![c]);
        } else if crate::text::unicode_alphabetic(c) || c == '_' {
            lemma_ident_end(s, i);
            let w = s.subrange(i, ident_end(s, i));
            reveal_strlit("true");
            reveal_strlit("false");
            reveal_strlit("inf");
            reveal_strlit("nan");
            if w == "true"@ {
                assert(w =~= seq!['t', 'r', 'u', 'e']);
            } else if w == "false"@ {
                assert(w =~= seq!['f', 'a', 'l', 's', 'e']);
            } else if w == "inf"@ {
                assert(w =~= seq!['i', 'n', 'f']);
            } else if w == "nan"@ {
                assert(w =~= seq!['n', 'a', 'n']);
            }
            assert(word_token(w) is Identifier || token_text(word_token(w)) == Some(w));
        }
    }
}

/// Lexing a whole text: every token of fixed spelling in the result stands where its
/// spelling is written in the source.
pub proof fn lemma_lexed_tokens_spelled(s: Seq<char>, i: int)
    ensures
        lex_all(s, i) matches Some(ts) ==> forall|k: int|
            0 <= k < ts.len() && (#[trigger] token_text(ts[k].0)) is Some ==> 0 <= ts[k].1 <= ts[k].2
                <= s.len() && token_text(ts[k].0) == Some(s.subrange(ts[k].1, ts[k].2)),
    decreases s.len() - i,
{
    lemma_lexed_token_spelled(s, i);
    match lex_at(s, i) {
        Lexed::Bad(_) => {},
        Lexed::Tok(t, st, e) => {
            if t != Tk::Eof && i < e <= s.len() {
                lemma_lexed_tokens_spelled(s, e);
                match lex_all(s, e) {
                    Some(rest) => {
                        let ts = seq![(t, st, e)] + rest;
                        assert forall|k: int|
                            0 <= k < ts.len() && (#[trigger] token_text(ts[k].0)) is Some implies 0
                                <= ts[k].1 <= ts[k].2 <= s.len() && token_text(ts[k].0) == Some(
                                s.subrange(ts[k].1, ts[k].2),
                            ) by {
                            if k > 0 {
                                assert(ts[k] == rest[k - 1]);
                                assert(token_text(rest[k - 1].0) is Some);
                            }
                        }
                    },
                    None => {},
                }
            }
        },
    }
}

/// The operator that the parser gives a comparison token is the operator written that way:
/// the symbol of the operator is the token's spelling. So `<=` parses to `LessThanOrEqual`,
/// and no two comparison tokens give the same operator.
pub proof fn lemma_comparison_op_spelled(t: Tk)
    ensures
        comparison_op_v(tk_tag(t)) matches Some(op) ==> token_text(t) == Some(
            binary_op_text(lower_binary_v(op)),
        ),
{
    reveal_strlit("=");
    reveal_strlit("~");
    reveal_strlit("<");
    reveal_strlit("<=");
    reveal_strlit(">");
    reveal_strlit(">=");
    match comparison_op_v(tk_tag(t)) {
        Some(op) => {
            assert(token_text(t)->Some_0 =~= binary_op_text(lower_binary_v(op)));
        },
        None => {},
    }
}

/// The operator that the parser gives an additive token is the operator written that way.
pub proof fn lemma_additive_op_spelled(t: Tk)
    ensures
        additive_op_v(tk_tag(t)) matches Some(op) ==> token_text(t) == Some(
            binary_op_text(lower_binary_v(op)),
        ),
{
    reveal_strlit("+");
    reveal_strlit("-");
    match additive_op_v(tk_tag(t)) {
        Some(op) => {
            assert(token_text(t)->Some_0 =~= binary_op_text(lower_binary_v(op)));
        },
        None => {},
    }
}

/// The operator that the parser gives a multiplicative token is the operator written that
/// way.
pub proof fn lemma_multiplicative_op_spelled(t: Tk)
    ensures
        multiplicative_op_v(tk_tag(t)) matches Some(op) ==> token_text(t) == Some(
            binary_op_text(lower_binary_v(op)),
        ),
{
    reveal_strlit("*");
    reveal_strlit("/");
    reveal_strlit("/.");
    reveal_strlit("%");
    reveal_strlit("%.");
    match multiplicative_op_v(tk_tag(t)) {
        Some(op) => {
            assert(token_text(t)->Some_0 =~= binary_op_text(lower_binary_v(op)));
        },
        None => {},
    }
}

/// Formatting keeps the kind of a range: in the text of a range, right after the text of its
/// start, the lexer reads `RangeInclusive` where the range is inclusive and `Range` where it
/// is not (for the latter, where the end's text starts with neither `.` nor `=`, which
/// would make the two dots part of a longer token).
pub proof fn lemma_range_text_keeps_kind(
    c: FormatConfig,
    start: Box<AstNode>,
    end: Box<AstNode>,
    step: Option<Box<AstNode>>,
    inclusive: bool,
    level: nat,
)
    ensures
        ({
            let s = fmt_v(c, AstNode::Range { start, end, step, inclusive }, level);
            let p = fmt_v(c, *start, level).len() as int;
            let e = fmt_v(c, *end, level);
            &&& inclusive ==> lex_at(s, p) == Lexed::Tok(Tk::RangeInclusive, p, p + 3)
            &&& !inclusive && e.len() > 0 && e[0] != '.' && e[0] != '=' ==> lex_at(s, p)
                == Lexed::Tok(Tk::Range, p, p + 2)
        }),
{
    reveal_strlit("..=");
    reveal_strlit("..");
    let s = fmt_v(c, AstNode::Range { start, end, step, inclusive }, level);
    let a = fmt_v(c, *start, level);
    let p = a.len() as int;
    let e = fmt_v(c, *end, level);
    let tail = match step {
        Some(st) => ".."@ + fmt_v(c, *st, level),
        None => Seq::empty(),
    };
    if inclusive {
        assert(s == a + "..="@ + e + tail);
        assert(s[p] == '.' && s[p + 1] == '.' && s[p + 2] == '=');
    } else {
        assert(s == a + ".."@ + e + tail);
        assert(s[p] == '.' && s[p + 1] == '.');
        if e.len() > 0 {
            assert(s[p + 2] == e[0]);
        }
    }
}

/// Formatting keeps the operator of a binary operation: where operators are set off by
/// spaces, the lexer reads, right after the text of the left operand and its space, a token
/// whose spelling is the operator's symbol.
#[verifier::rlimit(40)]
pub proof fn lemma_binary_text_keeps_operator(
    c: FormatConfig,
    left: Box<AstNode>,
    operator: crate::astnode::BinaryOperator,
    right: Box<AstNode>,
    level: nat,
)
    ensures
        !c.one_line_wizard ==> ({
            let s = fmt_v(c, AstNode::BinaryOp { left, operator, right }, level);
            let p = fmt_v(c, *left, level).len() as int + 1;
            lex_at(s, p) matches Lexed::Tok(t, a, b) && a == p && b == p + binary_op_text(
                operator,
            ).len() && token_text(t) == Some(binary_op_text(operator))
        }),
{
    if !c.one_line_wizard {
        reveal_strlit(" ");
        reveal_strlit("+");
        reveal_strlit("-");
        reveal_strlit("*");
        reveal_strlit("^");
        reveal_strlit("/");
        reveal_strlit("/.");
        reveal_strlit("%");
        reveal_strlit("%.");
        reveal_strlit("**");
        reveal_strlit("=");
        reveal_strlit("~");
        reveal_strlit("<");
        reveal_strlit("<=");
        reveal_strlit(">");
        reveal_strlit(">=");
        reveal_strlit(",");
        let s = fmt_v(c, AstNode::BinaryOp { left, operator, right }, level);
        let l = fmt_v(c, *left, level);
        let r = fmt_v(c, *right, level);
        let o = binary_op_text(operator);
        let p = l.len() as int + 1;
        assert(s == l + " "@ + o + " "@ + r);
        assert forall|k: int| 0 <= k < o.len() implies s[p + k] == o[k] by {
            assert(s[p + k] == (l + " "@ + o)[p + k]);
        }
        assert(s[p + o.len()] == ' ');
        assert(1 <= o.len() <= 2);
        if o.len() == 1 {
            assert(s.subrange(p, p + 1) =~= o);
            assert(char_at(s, p + 1) == Some(' '));
        } else {
            assert(s.subrange(p, p + 2) =~= o);
            assert(char_at(s, p + 1) == Some(o[1]));
            assert(char_at(s, p + 2) == Some(' '));
        }
        assert(s[p] == o[0]);
        lemma_lexed_token_spelled(s, p);
    }
}

} // verus!
