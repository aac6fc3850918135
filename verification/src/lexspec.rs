//! The tokens of a source text, defined over its sequence of characters.

use vstd::prelude::*;
use crate::bigint::{bigint_from_digits, digits_value};
use crate::text::{is_digit, unicode_alphabetic, unicode_alphanumeric, unicode_whitespace};
use crate::token::Tk;

verus! {

// Places in the source ===================================================================

/// The number of bytes of a character in UTF-8.
pub open spec fn utf8_width(c: char) -> nat {
    let u = c as u32;
    if u < 0x80 {
        1
    } else if u < 0x800 {
        2
    } else if u < 0x10000 {
        3
    } else {
        4
    }
}

/// The number of bytes of a character sequence in UTF-8.
pub open spec fn utf8_size(s: Seq<char>) -> nat
    decreases s.len(),
{
    if s.len() == 0 {
        0
    } else {
        utf8_size(s.drop_last()) + utf8_width(s.last())
    }
}

/// The number of line feeds in a sequence.
pub open spec fn newlines(s: Seq<char>) -> nat
    decreases s.len(),
{
    if s.len() == 0 {
        0
    } else {
        newlines(s.drop_last()) + if s.last() == '\n' { 1nat } else { 0nat }
    }
}

/// The number of characters after the last line feed of a sequence.
pub open spec fn line_offset(s: Seq<char>) -> nat
    decreases s.len(),
{
    if s.len() == 0 {
        0
    } else if s.last() == '\n' {
        0
    } else {
        line_offset(s.drop_last()) + 1
    }
}

/// The byte offset of the character at index `i`.
pub open spec fn byte_at(s: Seq<char>, i: int) -> nat {
    utf8_size(s.take(i))
}

/// The 1-based line of the character at index `i`.
pub open spec fn line_at(s: Seq<char>, i: int) -> nat {
    1 + newlines(s.take(i))
}

/// The 1-based column of the character at index `i`.
pub open spec fn column_at(s: Seq<char>, i: int) -> nat {
    line_offset(s.take(i)) + 1
}

/// One more than `i`, or the length of the source at its end.
pub open spec fn position_at(s: Seq<char>, i: int) -> int {
    if i < s.len() {
        i + 1
    } else {
        s.len() as int
    }
}

// Character classes =====================================================================

/// Whitespace that the lexer skips: everything but the line feed.
pub open spec fn is_blank(c: char) -> bool {
    unicode_whitespace(c) && c != '\n'
}

/// A character of an identifier or a symbol.
pub open spec fn is_ident_char(c: char) -> bool {
    unicode_alphanumeric(c) || c == '_' || c == '?'
}

/// The index of the first character at or after `i` that is not blank.
pub open spec fn blank_end(s: Seq<char>, i: int) -> int
    decreases s.len() - i,
{
    if i < s.len() && is_blank(s[i]) {
        blank_end(s, i + 1)
    } else {
        i
    }
}

/// The index of the first character at or after `i` that is not an identifier character.
pub open spec fn ident_end(s: Seq<char>, i: int) -> int
    decreases s.len() - i,
{
    if i < s.len() && is_ident_char(s[i]) {
        ident_end(s, i + 1)
    } else {
        i
    }
}

/// The index of the first line feed at or after `i`, or the end.
pub open spec fn line_end(s: Seq<char>, i: int) -> int
    decreases s.len() - i,
{
    if i < s.len() && s[i] != '\n' {
        line_end(s, i + 1)
    } else {
        i
    }
}

/// The index of the first `"` at or after `i`, if any.
pub open spec fn quote_at_or_after(s: Seq<char>, i: int) -> Option<int>
    decreases s.len() - i,
{
    if i >= s.len() || i < 0 {
        None
    } else if s[i] == '"' {
        Some(i)
    } else {
        quote_at_or_after(s, i + 1)
    }
}

/// The index of the `"` that closes a string whose content starts at `i`: a backslash
/// takes the next character with it.
pub open spec fn string_close(s: Seq<char>, i: int) -> Option<int>
    decreases s.len() - i,
{
    if i >= s.len() || i < 0 {
        None
    } else if s[i] == '\\' {
        if i + 1 >= s.len() {
            None
        } else {
            string_close(s, i + 2)
        }
    } else if s[i] == '"' {
        Some(i)
    } else {
        string_close(s, i + 1)
    }
}

pub proof fn lemma_blank_end(s: Seq<char>, i: int)
    requires
        0 <= i <= s.len(),
    ensures
        i <= blank_end(s, i) <= s.len(),
        forall|k: int| i <= k < blank_end(s, i) ==> is_blank(#[trigger] s[k]),
        blank_end(s, i) < s.len() ==> !is_blank(s[blank_end(s, i)]),
    decreases s.len() - i,
{
    if i < s.len() && is_blank(s[i]) {
        lemma_blank_end(s, i + 1);
    }
}

pub proof fn lemma_ident_end(s: Seq<char>, i: int)
    requires
        0 <= i <= s.len(),
    ensures
        i <= ident_end(s, i) <= s.len(),
        forall|k: int| i <= k < ident_end(s, i) ==> is_ident_char(#[trigger] s[k]),
        ident_end(s, i) < s.len() ==> !is_ident_char(s[ident_end(s, i)]),
    decreases s.len() - i,
{
    if i < s.len() && is_ident_char(s[i]) {
        lemma_ident_end(s, i + 1);
    }
}

pub proof fn lemma_line_end(s: Seq<char>, i: int)
    requires
        0 <= i <= s.len(),
    ensures
        i <= line_end(s, i) <= s.len(),
        forall|k: int| i <= k < line_end(s, i) ==> #[trigger] s[k] != '\n',
        line_end(s, i) < s.len() ==> s[line_end(s, i)] == '\n',
    decreases s.len() - i,
{
    if i < s.len() && s[i] != '\n' {
        lemma_line_end(s, i + 1);
    }
}

pub proof fn lemma_quote_at_or_after(s: Seq<char>, i: int)
    requires
        0 <= i <= s.len(),
    ensures
        quote_at_or_after(s, i) matches Some(q) ==> i <= q < s.len() && s[q] == '"' && forall|k: int|
            i <= k < q ==> #[trigger] s[k] != '"',
        quote_at_or_after(s, i) is None ==> forall|k: int| i <= k < s.len() ==> #[trigger] s[k] != '"',
    decreases s.len() - i,
{
    if i < s.len() && s[i] != '"' {
        lemma_quote_at_or_after(s, i + 1);
    }
}

pub proof fn lemma_string_close(s: Seq<char>, i: int)
    requires
        0 <= i <= s.len(),
    ensures
        string_close(s, i) matches Some(q) ==> i <= q < s.len() && s[q] == '"',
    decreases s.len() - i,
{
    if i < s.len() {
        if s[i] == '\\' {
            if i + 1 < s.len() {
                lemma_string_close(s, i + 2);
            }
        } else if s[i] != '"' {
            lemma_string_close(s, i + 1);
        }
    }
}

// Escapes ==============================================================================

pub open spec fn is_hex_digit(c: char) -> bool {
    ('0' <= c && c <= '9') || ('a' <= c && c <= 'f') || ('A' <= c && c <= 'F')
}

/// Whether `v` is a Unicode scalar value.
pub open spec fn is_scalar(v: int) -> bool {
    0 <= v <= 0x10FFFF && !(0xD800 <= v <= 0xDFFF)
}

/// The number of hex digits from index `i` on.
pub open spec fn hex_run(r: Seq<char>, i: int) -> int
    decreases r.len() - i,
{
    if 0 <= i < r.len() && is_hex_digit(r[i]) {
        1 + hex_run(r, i + 1)
    } else {
        0
    }
}

/// A `\u{...}` escape at the start of `r` (which starts with `\u`): the character and the
/// number of characters the escape takes, or `None` where it is malformed.
pub open spec fn unicode_escape(r: Seq<char>) -> Option<(char, int)> {
    let n = hex_run(r, 3);
    if r.len() >= 3 && r[2] == '{' && 1 <= n <= 6 && 3 + n < r.len() && r[3 + n] == '}' {
        let v = digits_value(r.subrange(3, 3 + n), 16);
        if is_scalar(v) {
            Some((v as char, 4 + n))
        } else {
            None
        }
    } else {
        None
    }
}

/// The character that a one-letter escape `\e` stands for, if `e` is a known escape.
pub open spec fn simple_escape(e: char) -> Option<char> {
    if e == 'n' {
        Some('\n')
    } else if e == 't' {
        Some('\t')
    } else if e == 'r' {
        Some('\r')
    } else if e == '0' {
        Some('\0')
    } else if e == '\\' {
        Some('\\')
    } else if e == '"' {
        Some('"')
    } else if e == '\'' {
        Some('\'')
    } else {
        None
    }
}

/// The text that the content of a string literal stands for: `\n \t \r \0 \\ \" \'` are
/// replaced by the character they name, `\u{h..}` (one to six hex digits) by that scalar,
/// and a backslash before any other character is kept with it. `None` for a malformed or
/// invalid `\u` escape.
pub open spec fn unescape(r: Seq<char>) -> Option<Seq<char>>
    decreases r.len(),
{
    if r.len() == 0 {
        Some(Seq::<char>::empty())
    } else if r[0] != '\\' || r.len() == 1 {
        match unescape(r.drop_first()) {
            Some(rest) => Some(seq![r[0]] + rest),
            None => None,
        }
    } else if r[1] == 'u' {
        match unicode_escape(r) {
            Some((c, n)) => if n <= r.len() {
                match unescape(r.skip(n)) {
                    Some(rest) => Some(seq![c] + rest),
                    None => None,
                }
            } else {
                None
            },
            None => None,
        }
    } else {
        match simple_escape(r[1]) {
            Some(c) => match unescape(r.skip(2)) {
                Some(rest) => Some(seq![c] + rest),
                None => None,
            },
            None => match unescape(r.skip(2)) {
                Some(rest) => Some(seq![r[0], r[1]] + rest),
                None => None,
            },
        }
    }
}

// Numbers ==============================================================================

pub open spec fn is_base_digit(c: char, base: u32) -> bool {
    if base == 2 {
        c == '0' || c == '1'
    } else if base == 8 {
        '0' <= c && c <= '7'
    } else if base == 16 {
        is_hex_digit(c)
    } else {
        is_digit(c)
    }
}

/// The end of the digits of a prefixed literal (`0b`, `0o`, `0x`) from index `i`: digits of
/// the base, with single `_` between two digits.
pub open spec fn prefixed_end(s: Seq<char>, i: int, base: u32, prev_digit: bool) -> int
    decreases s.len() - i,
{
    if i < 0 || i >= s.len() {
        i
    } else if is_base_digit(s[i], base) {
        prefixed_end(s, i + 1, base, true)
    } else if s[i] == '_' && prev_digit && i + 1 < s.len() && is_base_digit(s[i + 1], base) {
        prefixed_end(s, i + 1, base, false)
    } else {
        i
    }
}

/// The end of a decimal literal that starts at `start` (a digit), scanned from `i`, and
/// whether it is a floating-point literal: digits, `_` between two digits, one fraction
/// `.d`, and one exponent `e`/`E` with an optional sign.
pub open spec fn decimal_end(s: Seq<char>, start: int, i: int, is_float: bool, has_exp: bool) -> (int, bool)
    decreases s.len() - i,
{
    if i < 0 || i >= s.len() {
        (i, is_float)
    } else if is_digit(s[i]) {
        decimal_end(s, start, i + 1, is_float, has_exp)
    } else if s[i] == '_' {
        if i > start && is_digit(s[i - 1]) && i + 1 < s.len() && is_digit(s[i + 1]) {
            decimal_end(s, start, i + 1, is_float, has_exp)
        } else {
            (i, is_float)
        }
    } else if s[i] == '.' && !is_float && !has_exp {
        if i + 1 < s.len() && is_digit(s[i + 1]) {
            decimal_end(s, start, i + 1, true, has_exp)
        } else {
            (i, is_float)
        }
    } else if (s[i] == 'e' || s[i] == 'E') && !has_exp {
        if i + 1 < s.len() && (s[i + 1] == '+' || s[i + 1] == '-') {
            decimal_end(s, start, i + 2, true, true)
        } else {
            decimal_end(s, start, i + 1, true, true)
        }
    } else {
        (i, is_float)
    }
}

/// A sequence without its `_` characters.
pub open spec fn drop_underscores(s: Seq<char>) -> Seq<char>
    decreases s.len(),
{
    if s.len() == 0 {
        s
    } else if s.last() == '_' {
        drop_underscores(s.drop_last())
    } else {
        drop_underscores(s.drop_last()).push(s.last())
    }
}

/// The digits of the decimal representation of the largest magnitude below which a decimal
/// literal reads to a finite `f64`, namely 2^1024 - 2^970 (at and above it, rounding gives
/// infinity).
pub open spec fn f64_limit_digits() -> Seq<char> {
    "179769313486231580793728971405303415079934132710037826936173778980444968292764750946649017977587207096330286416692887910946555547851940402630657488671505820681908902000708383676273854845817711531764475730270069855571366959622842914819860834936475292719074168444365510704342711559699508093042880177904174497792"@
}

/// The index of the first non-zero digit of `ds` at or after `i`, or its length.
pub open spec fn first_nonzero(ds: Seq<char>, i: int) -> int
    decreases ds.len() - i,
{
    if 0 <= i < ds.len() && ds[i] == '0' {
        first_nonzero(ds, i + 1)
    } else {
        i
    }
}

/// The index of the exponent marker of a literal, or its length.
pub open spec fn exp_index(lit: Seq<char>, i: int) -> int
    decreases lit.len() - i,
{
    if 0 <= i < lit.len() && lit[i] != 'e' && lit[i] != 'E' {
        exp_index(lit, i + 1)
    } else {
        i
    }
}

/// The index of the `.` of a literal before `end`, or `end`.
pub open spec fn dot_index(lit: Seq<char>, i: int, end: int) -> int
    decreases end - i,
{
    if 0 <= i < end && i < lit.len() && lit[i] != '.' {
        dot_index(lit, i + 1, end)
    } else {
        i
    }
}

/// The digits of the significand of a literal (integer and fraction digits).
pub open spec fn significand(lit: Seq<char>) -> Seq<char> {
    let e = exp_index(lit, 0);
    let d = dot_index(lit, 0, e);
    if d < e {
        lit.subrange(0, d) + lit.subrange(d + 1, e)
    } else {
        lit.subrange(0, e)
    }
}

/// The number of fraction digits of a literal.
pub open spec fn fraction_len(lit: Seq<char>) -> int {
    let e = exp_index(lit, 0);
    let d = dot_index(lit, 0, e);
    if d < e {
        e - d - 1
    } else {
        0
    }
}

/// The exponent of a literal (zero where it has none), with its sign.
pub open spec fn exponent(lit: Seq<char>) -> int {
    let e = exp_index(lit, 0);
    if e + 1 < lit.len() && lit[e + 1] == '-' {
        -digits_value(lit.subrange(e + 2, lit.len() as int), 10)
    } else if e + 1 < lit.len() && lit[e + 1] == '+' {
        digits_value(lit.subrange(e + 2, lit.len() as int), 10)
    } else if e < lit.len() {
        digits_value(lit.subrange(e + 1, lit.len() as int), 10)
    } else {
        0
    }
}

/// Whether a literal has an exponent marker with no digit after it (and its sign).
pub open spec fn exponent_is_empty(lit: Seq<char>) -> bool {
    let e = exp_index(lit, 0);
    &&& e < lit.len()
    &&& (e + 1 == lit.len() || ((lit[e + 1] == '-' || lit[e + 1] == '+') && e + 2 == lit.len()))
}

/// Lexicographic order of two digit strings of the same length: `a >= b`.
pub open spec fn digits_ge(a: Seq<char>, b: Seq<char>) -> bool
    decreases a.len(),
{
    if a.len() == 0 || b.len() == 0 {
        true
    } else if a[0] != b[0] {
        a[0] > b[0]
    } else {
        digits_ge(a.drop_first(), b.drop_first())
    }
}

/// Whether a decimal floating-point literal reads to a number of magnitude at least
/// 2^1024 - 2^970, where `f64` parsing gives infinity. With `sig` the significand without
/// its leading zeros, the literal's value lies in [10^(m-1), 10^m) for
/// `m = sig.len() - fraction_len + exponent`; the limit has 309 digits.
pub open spec fn float_overflows(lit: Seq<char>) -> bool {
    let ds = significand(lit);
    let f = first_nonzero(ds, 0);
    let sig = ds.skip(f);
    let m = sig.len() - fraction_len(lit) + exponent(lit);
    let lim = f64_limit_digits();
    if sig.len() == 0 {
        false
    } else if m < 309 {
        false
    } else if m > 309 {
        true
    } else if sig.len() <= 309 {
        digits_ge(sig + Seq::new((309 - sig.len()) as nat, |k: int| '0'), lim)
    } else {
        digits_ge(sig.take(309), lim)
    }
}

/// The token of a number literal that starts at `i` (a digit), and its end.
pub open spec fn number_at(s: Seq<char>, i: int) -> Lexed {
    let base: u32 = if i + 1 < s.len() && s[i] == '0' {
        if s[i + 1] == 'b' || s[i + 1] == 'B' {
            2
        } else if s[i + 1] == 'o' || s[i + 1] == 'O' {
            8
        } else if s[i + 1] == 'x' || s[i + 1] == 'X' {
            16
        } else {
            10
        }
    } else {
        10
    };
    if base != 10 {
        let e = prefixed_end(s, i + 2, base, false);
        if e == i + 2 {
            Lexed::Bad(i)
        } else {
            let lit = drop_underscores(s.subrange(i + 2, e));
            Lexed::Tok(integer_token(lit, base), i, e)
        }
    } else {
        let (e, is_float) = decimal_end(s, i, i, false, false);
        let lit = drop_underscores(s.subrange(i, e));
        if is_float {
            if exponent_is_empty(lit) || float_overflows(lit) {
                Lexed::Bad(i)
            } else {
                Lexed::Tok(Tk::Float(lit), i, e)
            }
        } else {
            Lexed::Tok(integer_token(lit, 10), i, e)
        }
    }
}

/// An integer token: `Integer` where the value fits in `i64`, else `BigInteger`.
pub open spec fn integer_token(lit: Seq<char>, base: u32) -> Tk {
    let v = digits_value(lit, base as int);
    if v <= i64::MAX {
        Tk::Integer(v as i64)
    } else {
        Tk::BigInteger(v)
    }
}

// Tokens ===============================================================================

/// The outcome of lexing at an index: a token with the indices where its text starts and
/// ends, or a syntax error at a start index.
pub enum Lexed {
    Tok(Tk, int, int),
    Bad(int),
}

/// The token of a string literal whose opening quote is at `i`.
pub open spec fn string_at(s: Seq<char>, i: int) -> Lexed {
    match string_close(s, i + 1) {
        None => Lexed::Bad(i),
        Some(close) => match unescape(s.subrange(i + 1, close)) {
            None => Lexed::Bad(i),
            Some(content) => if content.len() == 1 {
                Lexed::Tok(Tk::Character(content[0]), i, close + 1)
            } else {
                Lexed::Tok(Tk::Str(content), i, close + 1)
            },
        },
    }
}

/// The token of a raw string `@l"..."` that starts at `i`, scanned from `j` (after `@l`).
pub open spec fn raw_string_at(s: Seq<char>, i: int, j: int) -> Lexed {
    let q = blank_end(s, j);
    if q < s.len() && s[q] == '"' {
        match quote_at_or_after(s, q + 1) {
            None => Lexed::Bad(i),
            Some(close) => Lexed::Tok(Tk::Str(s.subrange(q + 1, close)), i, close + 1),
        }
    } else {
        Lexed::Bad(i)
    }
}

/// The keyword or identifier token of a word.
pub open spec fn word_token(w: Seq<char>) -> Tk {
    if w == "true"@ {
        Tk::True
    } else if w == "false"@ {
        Tk::False
    } else if w == "inf"@ {
        Tk::Inf
    } else if w == "nan"@ {
        Tk::Nan
    } else {
        Tk::Identifier(w)
    }
}

/// A token of one character that stands alone.
pub open spec fn single_char_token(c: char) -> Option<Tk> {
    if c == '+' {
        Some(Tk::Plus)
    } else if c == '-' {
        Some(Tk::Minus)
    } else if c == '^' {
        Some(Tk::Power)
    } else if c == ':' {
        Some(Tk::Colon)
    } else if c == '=' {
        Some(Tk::Equal)
    } else if c == '~' {
        Some(Tk::NotEqual)
    } else if c == '#' {
        Some(Tk::Sharp)
    } else if c == '|' {
        Some(Tk::Pipe)
    } else if c == '(' {
        Some(Tk::LeftParen)
    } else if c == ')' {
        Some(Tk::RightParen)
    } else if c == '[' {
        Some(Tk::LeftBracket)
    } else if c == ']' {
        Some(Tk::RightBracket)
    } else if c == '{' {
        Some(Tk::LeftBrace)
    } else if c == '}' {
        Some(Tk::RightBrace)
    } else if c == ';' {
        Some(Tk::Semicolon)
    } else if c == ',' {
        Some(Tk::Comma)
    } else if c == '\'' {
        Some(Tk::Apostrophe)
    } else {
        None
    }
}

/// A token of two characters `c n`, or of one `c`: `**`, `/.`, `%.`, `$$`, `$.`, `<=`, `>=`.
pub open spec fn pair_token(c: char, n: Option<char>) -> Option<(Tk, int)> {
    if c == '*' {
        if n == Some('*') { Some((Tk::Matmul, 2)) } else { Some((Tk::Multiply, 1)) }
    } else if c == '%' {
        if n == Some('.') { Some((Tk::ModuloDot, 2)) } else { Some((Tk::Modulo, 1)) }
    } else if c == '$' {
        if n == Some('$') {
            Some((Tk::DollarDollar, 2))
        } else if n == Some('.') {
            Some((Tk::DollarDot, 2))
        } else {
            Some((Tk::Dollar, 1))
        }
    } else if c == '<' {
        if n == Some('=') { Some((Tk::LessThanOrEqual, 2)) } else { Some((Tk::LessThan, 1)) }
    } else if c == '>' {
        if n == Some('=') { Some((Tk::GreaterThanOrEqual, 2)) } else { Some((Tk::GreaterThan, 1)) }
    } else {
        None
    }
}

/// The token of an `@` directive: `@b @c @r @t @f`.
pub open spec fn at_token(n: char) -> Option<Tk> {
    if n == 'b' {
        Some(Tk::AtBreak)
    } else if n == 'c' {
        Some(Tk::AtContinue)
    } else if n == 'r' {
        Some(Tk::AtReturn)
    } else if n == 't' {
        Some(Tk::AtTry)
    } else if n == 'f' {
        Some(Tk::AtFormat)
    } else {
        None
    }
}

pub open spec fn char_at(s: Seq<char>, i: int) -> Option<char> {
    if 0 <= i < s.len() {
        Some(s[i])
    } else {
        None
    }
}

/// The next token of `s` from index `i`: blanks, a lone `.` and an unknown `@` sequence
/// are skipped.
pub open spec fn lex_at(s: Seq<char>, i: int) -> Lexed
    decreases s.len() - i,
{
    if i < 0 || i >= s.len() {
        Lexed::Tok(Tk::Eof, i, i)
    } else {
        let c = s[i];
        let n1 = char_at(s, i + 1);
        let n2 = char_at(s, i + 2);
        if c == ' ' || c == '\t' || c == '\r' {
            proof {
                lemma_blank_end(s, i + 1);
            }
            lex_at(s, blank_end(s, i + 1))
        } else if c == '\n' {
            Lexed::Tok(Tk::Newline, i, i + 1)
        } else if pair_token(c, n1) is Some {
            let (t, n) = pair_token(c, n1).unwrap();
            Lexed::Tok(t, i, i + n)
        } else if c == '/' {
            if n1 == Some('/') {
                let e = line_end(s, i + 1);
                Lexed::Tok(Tk::Comment(s.subrange(i + 1, e)), i, e)
            } else if n1 == Some('.') {
                Lexed::Tok(Tk::DivideDot, i, i + 2)
            } else {
                Lexed::Tok(Tk::Divide, i, i + 1)
            }
        } else if c == '.' {
            if n1 == Some('.') && n2 == Some('.') {
                Lexed::Tok(Tk::Ellipsis, i, i + 3)
            } else if n1 == Some('.') && n2 == Some('=') {
                Lexed::Tok(Tk::RangeInclusive, i, i + 3)
            } else if n1 == Some('.') {
                Lexed::Tok(Tk::Range, i, i + 2)
            } else {
                lex_at(s, i + 1)
            }
        } else if c == '@' {
            if n1 == Some('l') {
                raw_string_at(s, i, i + 2)
            } else if n1 is Some && at_token(n1.unwrap()) is Some {
                Lexed::Tok(at_token(n1.unwrap()).unwrap(), i, i + 2)
            } else {
                lex_at(s, i + 1)
            }
        } else if single_char_token(c) is Some {
            Lexed::Tok(single_char_token(c).unwrap(), i, i + 1)
        } else if c == '`' {
            let e = ident_end(s, i + 1);
            if e == i + 1 {
                Lexed::Tok(Tk::Backtick, i, i + 1)
            } else {
                Lexed::Tok(Tk::Symbol(s.subrange(i + 1, e)), i, e)
            }
        } else if c == '"' {
            string_at(s, i)
        } else if is_digit(c) {
            number_at(s, i)
        } else if unicode_alphabetic(c) || c == '_' {
            let e = ident_end(s, i);
            Lexed::Tok(word_token(s.subrange(i, e)), i, e)
        } else {
            Lexed::Bad(i)
        }
    }
}

/// The tokens of `s` from index `i` up to and including the end-of-input token, each with
/// the indices where its text starts and ends; `None` at the first syntax error.
pub open spec fn lex_all(s: Seq<char>, i: int) -> Option<Seq<(Tk, int, int)>>
    decreases s.len() - i,
{
    match lex_at(s, i) {
        Lexed::Bad(_) => None,
        Lexed::Tok(t, st, e) => if t == Tk::Eof {
            Some(seq![(t, st, e)])
        } else if i < e <= s.len() {
            match lex_all(s, e) {
                Some(rest) => Some(seq![(t, st, e)] + rest),
                None => None,
            }
        } else {
            None
        },
    }
}

} // verus!
