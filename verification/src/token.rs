//! Tokens produced by the lexer.

use vstd::prelude::*;
use num_bigint::BigInt;

verus! {

/// The kind of a token, with its payload.
///
/// A floating-point literal is kept as its text, with the digit separators `_` removed:
/// the text is a literal that `f64::from_str` reads to a finite number.
#[derive(Debug, Clone, PartialEq)]
pub enum TokenType {
    Integer(i64),
    BigInteger(BigInt),
    Float(String),
    Character(char),
    String(String),
    Symbol(String),
    Identifier(String),
    Comment(String),
    True,
    False,
    Inf,
    Nan,
    Plus,
    Minus,
    Multiply,
    Matmul,
    Divide,
    DivideDot,
    Modulo,
    ModuloDot,
    Power,
    Colon,
    Equal,
    NotEqual,
    LessThan,
    LessThanOrEqual,
    GreaterThan,
    GreaterThanOrEqual,
    Sharp,
    Pipe,
    Dollar,
    DollarDot,
    DollarDollar,
    Range,
    RangeInclusive,
    Ellipsis,
    AtBreak,
    AtContinue,
    AtReturn,
    AtTry,
    AtFormat,
    LeftParen,
    RightParen,
    LeftBracket,
    RightBracket,
    LeftBrace,
    RightBrace,
    Semicolon,
    Comma,
    Apostrophe,
    Backtick,
    Newline,
    Eof,
}

/// The mathematical model of a token kind: strings are sequences of characters.
pub enum Tk {
    Integer(i64),
    BigInteger(int),
    Float(Seq<char>),
    Character(char),
    Str(Seq<char>),
    Symbol(Seq<char>),
    Identifier(Seq<char>),
    Comment(Seq<char>),
    True,
    False,
    Inf,
    Nan,
    Plus,
    Minus,
    Multiply,
    Matmul,
    Divide,
    DivideDot,
    Modulo,
    ModuloDot,
    Power,
    Colon,
    Equal,
    NotEqual,
    LessThan,
    LessThanOrEqual,
    GreaterThan,
    GreaterThanOrEqual,
    Sharp,
    Pipe,
    Dollar,
    DollarDot,
    DollarDollar,
    Range,
    RangeInclusive,
    Ellipsis,
    AtBreak,
    AtContinue,
    AtReturn,
    AtTry,
    AtFormat,
    LeftParen,
    RightParen,
    LeftBracket,
    RightBracket,
    LeftBrace,
    RightBrace,
    Semicolon,
    Comma,
    Apostrophe,
    Backtick,
    Newline,
    Eof,
}

impl View for TokenType {
    type V = Tk;

    open spec fn view(&self) -> Tk {
        match self {
            TokenType::Integer(n) => Tk::Integer(*n),
            TokenType::BigInteger(b) => Tk::BigInteger(crate::bigint::bigint_value(*b)),
            TokenType::Float(s) => Tk::Float(s@),
            TokenType::Character(c) => Tk::Character(*c),
            TokenType::String(s) => Tk::Str(s@),
            TokenType::Symbol(s) => Tk::Symbol(s@),
            TokenType::Identifier(s) => Tk::Identifier(s@),
            TokenType::Comment(s) => Tk::Comment(s@),
            TokenType::True => Tk::True,
            TokenType::False => Tk::False,
            TokenType::Inf => Tk::Inf,
            TokenType::Nan => Tk::Nan,
            TokenType::Plus => Tk::Plus,
            TokenType::Minus => Tk::Minus,
            TokenType::Multiply => Tk::Multiply,
            TokenType::Matmul => Tk::Matmul,
            TokenType::Divide => Tk::Divide,
            TokenType::DivideDot => Tk::DivideDot,
            TokenType::Modulo => Tk::Modulo,
            TokenType::ModuloDot => Tk::ModuloDot,
            TokenType::Power => Tk::Power,
            TokenType::Colon => Tk::Colon,
            TokenType::Equal => Tk::Equal,
            TokenType::NotEqual => Tk::NotEqual,
            TokenType::LessThan => Tk::LessThan,
            TokenType::LessThanOrEqual => Tk::LessThanOrEqual,
            TokenType::GreaterThan => Tk::GreaterThan,
            TokenType::GreaterThanOrEqual => Tk::GreaterThanOrEqual,
            TokenType::Sharp => Tk::Sharp,
            TokenType::Pipe => Tk::Pipe,
            TokenType::Dollar => Tk::Dollar,
            TokenType::DollarDot => Tk::DollarDot,
            TokenType::DollarDollar => Tk::DollarDollar,
            TokenType::Range => Tk::Range,
            TokenType::RangeInclusive => Tk::RangeInclusive,
            TokenType::Ellipsis => Tk::Ellipsis,
            TokenType::AtBreak => Tk::AtBreak,
            TokenType::AtContinue => Tk::AtContinue,
            TokenType::AtReturn => Tk::AtReturn,
            TokenType::AtTry => Tk::AtTry,
            TokenType::AtFormat => Tk::AtFormat,
            TokenType::LeftParen => Tk::LeftParen,
            TokenType::RightParen => Tk::RightParen,
            TokenType::LeftBracket => Tk::LeftBracket,
            TokenType::RightBracket => Tk::RightBracket,
            TokenType::LeftBrace => Tk::LeftBrace,
            TokenType::RightBrace => Tk::RightBrace,
            TokenType::Semicolon => Tk::Semicolon,
            TokenType::Comma => Tk::Comma,
            TokenType::Apostrophe => Tk::Apostrophe,
            TokenType::Backtick => Tk::Backtick,
            TokenType::Newline => Tk::Newline,
            TokenType::Eof => Tk::Eof,
        }
    }
}

/// A token with its place in the source: `position` is one more than the index of its first
/// character (or the source length at the end), `line` and `column` are 1-based, and the byte
/// offsets delimit its text in the UTF-8 source.
#[derive(Debug, Clone, PartialEq)]
pub struct Token {
    pub token_type: TokenType,
    pub position: usize,
    pub line: usize,
    pub column: usize,
    pub byte_start: usize,
    pub byte_end: usize,
}

impl Token {
    pub fn new(
        token_type: TokenType,
        position: usize,
        line: usize,
        column: usize,
        byte_start: usize,
        byte_end: usize,
    ) -> (t: Token)
        ensures
            t.token_type == token_type,
            t.position == position,
            t.line == line,
            t.column == column,
            t.byte_start == byte_start,
            t.byte_end == byte_end,
    {
        Token { token_type, position, line, column, byte_start, byte_end }
    }
}

impl TokenType {
    /// Whether the two kinds are the same variant, payloads aside.
    pub open spec fn same_variant(a: Tk, b: Tk) -> bool {
        tk_tag(a) == tk_tag(b)
    }
}

/// The index of a token kind's variant.
pub open spec fn tk_tag(t: Tk) -> int {
    match t {
        Tk::Integer(_) => 0,
        Tk::BigInteger(_) => 1,
        Tk::Float(_) => 2,
        Tk::Character(_) => 3,
        Tk::Str(_) => 4,
        Tk::Symbol(_) => 5,
        Tk::Identifier(_) => 6,
        Tk::Comment(_) => 7,
        Tk::True => 8,
        Tk::False => 9,
        Tk::Inf => 10,
        Tk::Nan => 11,
        Tk::Plus => 12,
        Tk::Minus => 13,
        Tk::Multiply => 14,
        Tk::Matmul => 15,
        Tk::Divide => 16,
        Tk::DivideDot => 17,
        Tk::Modulo => 18,
        Tk::ModuloDot => 19,
        Tk::Power => 20,
        Tk::Colon => 21,
        Tk::Equal => 22,
        Tk::NotEqual => 23,
        Tk::LessThan => 24,
        Tk::LessThanOrEqual => 25,
        Tk::GreaterThan => 26,
        Tk::GreaterThanOrEqual => 27,
        Tk::Sharp => 28,
        Tk::Pipe => 29,
        Tk::Dollar => 30,
        Tk::DollarDot => 31,
        Tk::DollarDollar => 32,
        Tk::Range => 33,
        Tk::RangeInclusive => 34,
        Tk::Ellipsis => 35,
        Tk::AtBreak => 36,
        Tk::AtContinue => 37,
        Tk::AtReturn => 38,
        Tk::AtTry => 39,
        Tk::AtFormat => 40,
        Tk::LeftParen => 41,
        Tk::RightParen => 42,
        Tk::LeftBracket => 43,
        Tk::RightBracket => 44,
        Tk::LeftBrace => 45,
        Tk::RightBrace => 46,
        Tk::Semicolon => 47,
        Tk::Comma => 48,
        Tk::Apostrophe => 49,
        Tk::Backtick => 50,
        Tk::Newline => 51,
        Tk::Eof => 52,
    }
}

/// The index of a token's variant.
pub fn tag_of(t: &TokenType) -> (r: u8)
    ensures
        r == tk_tag(t@),
{
    match t {
        TokenType::Integer(_) => 0,
        TokenType::BigInteger(_) => 1,
        TokenType::Float(_) => 2,
        TokenType::Character(_) => 3,
        TokenType::String(_) => 4,
        TokenType::Symbol(_) => 5,
        TokenType::Identifier(_) => 6,
        TokenType::Comment(_) => 7,
        TokenType::True => 8,
        TokenType::False => 9,
        TokenType::Inf => 10,
        TokenType::Nan => 11,
        TokenType::Plus => 12,
        TokenType::Minus => 13,
        TokenType::Multiply => 14,
        TokenType::Matmul => 15,
        TokenType::Divide => 16,
        TokenType::DivideDot => 17,
        TokenType::Modulo => 18,
        TokenType::ModuloDot => 19,
        TokenType::Power => 20,
        TokenType::Colon => 21,
        TokenType::Equal => 22,
        TokenType::NotEqual => 23,
        TokenType::LessThan => 24,
        TokenType::LessThanOrEqual => 25,
        TokenType::GreaterThan => 26,
        TokenType::GreaterThanOrEqual => 27,
        TokenType::Sharp => 28,
        TokenType::Pipe => 29,
        TokenType::Dollar => 30,
        TokenType::DollarDot => 31,
        TokenType::DollarDollar => 32,
        TokenType::Range => 33,
        TokenType::RangeInclusive => 34,
        TokenType::Ellipsis => 35,
        TokenType::AtBreak => 36,
        TokenType::AtContinue => 37,
        TokenType::AtReturn => 38,
        TokenType::AtTry => 39,
        TokenType::AtFormat => 40,
        TokenType::LeftParen => 41,
        TokenType::RightParen => 42,
        TokenType::LeftBracket => 43,
        TokenType::RightBracket => 44,
        TokenType::LeftBrace => 45,
        TokenType::RightBrace => 46,
        TokenType::Semicolon => 47,
        TokenType::Comma => 48,
        TokenType::Apostrophe => 49,
        TokenType::Backtick => 50,
        TokenType::Newline => 51,
        TokenType::Eof => 52,
    }
}

} // verus!
