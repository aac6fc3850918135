//! The lexer: from source text to tokens.

use vstd::prelude::*;
use num_bigint::BigInt;
use crate::bigint::{bigint_from_str_radix, digits_value, radix_digit_value, all_radix_digits, is_radix_digit, radix_body};
use crate::error::{WqError, WqErrorType, WqResult};
use crate::lexspec::{
    at_token, blank_end, byte_at, char_at, column_at, decimal_end, digits_ge, dot_index,
    drop_underscores, exp_index, exponent, exponent_is_empty, f64_limit_digits, first_nonzero,
    float_overflows, fraction_len, hex_run, ident_end, integer_token, is_base_digit, is_blank,
    is_hex_digit, is_ident_char, is_scalar, lemma_blank_end, lemma_ident_end, lemma_line_end,
    lemma_quote_at_or_after, lemma_string_close, lex_all, lex_at, line_at, line_end,
    line_offset, newlines, number_at, pair_token, position_at, prefixed_end, quote_at_or_after,
    raw_string_at, significand, simple_escape, single_char_token, string_at, string_close,
    unescape, unicode_escape, utf8_size, utf8_width, word_token, Lexed,
};
use crate::text::{chars_eq_str, 
    append_chars, append_str, chars_of, is_alphabetic, is_alphanumeric, is_digit, is_whitespace,
    repeat_char, string_from_chars, sub_chars, unicode_alphabetic, usize_to_decimal,
};
use crate::token::{Tk, Token, TokenType};

verus! {

/// A lexer over a source text. It keeps the index of its current character, and the line,
/// column, byte offset and position of that character.
pub struct Lexer {
    chars: Vec<char>,
    source: String,
    idx: usize,
    position: usize,
    line: usize,
    column: usize,
    byte_pos: usize,
    global_source: Option<Vec<char>>,
    line_base: usize,
    col_base: usize,
}

/// The place where a token starts.
struct Mark {
    idx: usize,
    position: usize,
    line: usize,
    column: usize,
    byte_pos: usize,
}

/// Whether a token has the kind `t` and the places of the indices `st` and `e` of `s`.
pub open spec fn token_agrees(s: Seq<char>, tok: Token, t: Tk, st: int, e: int) -> bool {
    &&& tok.token_type@ == t
    &&& tok.position == position_at(s, st)
    &&& tok.line == line_at(s, st)
    &&& tok.column == column_at(s, st)
    &&& tok.byte_start == byte_at(s, st)
    &&& tok.byte_end == byte_at(s, e)
}

pub proof fn lemma_take_last(s: Seq<char>, i: int)
    requires
        0 <= i < s.len(),
    ensures
        s.take(i + 1).drop_last() == s.take(i),
        s.take(i + 1).last() == s[i],
        s.take(i + 1).len() == i + 1,
{
    assert(s.take(i + 1).drop_last() =~= s.take(i));
}

pub proof fn lemma_places_bounded(s: Seq<char>, i: int)
    requires
        0 <= i <= s.len(),
    ensures
        i <= utf8_size(s.take(i)) <= utf8_size(s),
        newlines(s.take(i)) <= i,
        line_offset(s.take(i)) <= i,
    decreases s.len() - i,
{
    if i < s.len() {
        lemma_places_bounded(s, i + 1);
        lemma_take_last(s, i);
    } else {
        assert(s.take(i) =~= s);
    }
    lemma_prefix_bounds(s.take(i));
}

proof fn lemma_prefix_bounds(t: Seq<char>)
    ensures
        t.len() <= utf8_size(t),
        newlines(t) <= t.len(),
        line_offset(t) <= t.len(),
    decreases t.len(),
{
    if t.len() > 0 {
        lemma_prefix_bounds(t.drop_last());
    }
}

pub proof fn lemma_size_mono(s: Seq<char>, i: int, j: int)
    requires
        0 <= i <= j <= s.len(),
    ensures
        utf8_size(s.take(i)) <= utf8_size(s.take(j)),
    decreases j - i,
{
    if i < j {
        lemma_size_mono(s, i, j - 1);
        lemma_take_last(s, j - 1);
    }
}

proof fn lemma_size_strict(s: Seq<char>, i: int)
    requires
        0 <= i < s.len(),
    ensures
        utf8_size(s.take(i)) < utf8_size(s.take(i + 1)),
{
    lemma_take_last(s, i);
}

/// The `n`-th line (from 0) of a text, without its line feed and a carriage return before
/// it; empty past the last line.
fn nth_line(text: &Vec<char>, n: usize) -> (r: Vec<char>) {
    let mut line: usize = 0;
    let mut k: usize = 0;
    while k < text.len() && line < n
        invariant
            k <= text.len(),
        decreases text.len() - k,
    {
        if text[k] == '\n' {
            line += 1;
        }
        k += 1;
    }
    let mut r: Vec<char> = Vec::new();
    if line < n {
        return r;
    }
    while k < text.len() && text[k] != '\n'
        invariant
            k <= text.len(),
        decreases text.len() - k,
    {
        r.push(text[k]);
        k += 1;
    }
    if r.len() > 0 && r[r.len() - 1] == '\r' {
        r.pop();
    }
    r
}

/// The number of UTF-8 bytes of a character.
pub fn utf8_len(c: char) -> (n: usize)
    ensures
        n == utf8_width(c),
{
    let u = c as u32;
    if u < 0x80 {
        1
    } else if u < 0x800 {
        2
    } else if u < 0x10000 {
        3
    } else {
        4
    }
}

/// Whether the UTF-8 size of a text is below `usize::MAX`, as a lexer's source must be.
pub fn source_fits(input: &str) -> (r: bool)
    ensures
        r == (utf8_size(input@) < usize::MAX),
{
    let v = chars_of(input);
    let mut total: usize = 0;
    let mut i: usize = 0;
    while i < v.len()
        invariant
            v@ == input@,
            i <= v.len(),
            total == utf8_size(v@.take(i as int)),
            total < usize::MAX,
        decreases v.len() - i,
    {
        proof {
            lemma_take_last(v@, i as int);
        }
        let w = utf8_len(v[i]);
        if total >= usize::MAX - w {
            proof {
                lemma_size_mono(v@, i + 1, v@.len() as int);
                assert(v@.take(v@.len() as int) =~= v@);
            }
            return false;
        }
        total = total + w;
        i += 1;
    }
    assert(v@.take(v@.len() as int) =~= v@);
    true
}

impl Lexer {
    /// The characters of the source.
    pub closed spec fn src(&self) -> Seq<char> {
        self.chars@
    }

    /// The index of the current character.
    pub closed spec fn pos(&self) -> int {
        self.idx as int
    }

    pub closed spec fn wf(&self) -> bool {
        let s = self.chars@;
        &&& self.chars@ == self.source@
        &&& utf8_size(s) < usize::MAX
        &&& self.idx <= s.len()
        &&& self.position == position_at(s, self.idx as int)
        &&& self.line == line_at(s, self.idx as int)
        &&& self.column == line_offset(s.take(self.idx as int))
        &&& self.byte_pos == byte_at(s, self.idx as int)
    }

    spec fn mark_ok(&self, m: Mark) -> bool {
        let s = self.chars@;
        &&& m.idx <= s.len()
        &&& m.position == position_at(s, m.idx as int)
        &&& m.line == line_at(s, m.idx as int)
        &&& m.column == line_offset(s.take(m.idx as int))
        &&& m.byte_pos == byte_at(s, m.idx as int)
    }

    fn mark(&self) -> (m: Mark)
        requires
            self.wf(),
        ensures
            self.mark_ok(m),
            m.idx == self.idx,
    {
        Mark {
            idx: self.idx,
            position: self.position,
            line: self.line,
            column: self.column,
            byte_pos: self.byte_pos,
        }
    }

    /// A lexer at the start of `input`.
    pub fn new(input: &str) -> (l: Lexer)
        requires
            utf8_size(input@) < usize::MAX,
        ensures
            l.wf(),
            l.src() == input@,
            l.pos() == 0,
    {
        let chars = chars_of(input);
        let position = if chars.len() > 0 { 1 } else { 0 };
        let l = Lexer {
            chars,
            source: input.to_string(),
            idx: 0,
            position,
            line: 1,
            column: 0,
            byte_pos: 0,
            global_source: None,
            line_base: 0,
            col_base: 0,
        };
        proof {
            let s = l.chars@;
            assert(s.take(0) =~= Seq::<char>::empty());
        }
        l
    }

    /// Moves to the next character.
    fn advance(&mut self)
        requires
            old(self).wf(),
            old(self).idx < old(self).chars.len(),
        ensures
            final(self).wf(),
            final(self).idx == old(self).idx + 1,
            final(self).chars == old(self).chars,
            final(self).source == old(self).source,
            final(self).global_source == old(self).global_source,
            final(self).line_base == old(self).line_base,
            final(self).col_base == old(self).col_base,
    {
        let ghost s = self.chars@;
        let ghost i = self.idx as int;
        let c = self.chars[self.idx];
        proof {
            lemma_take_last(s, i);
            lemma_places_bounded(s, i + 1);
        }
        self.byte_pos = self.byte_pos + utf8_len(c);
        if c == '\n' {
            self.line = self.line + 1;
            self.column = 0;
        } else {
            self.column = self.column + 1;
        }
        self.idx = self.idx + 1;
        self.position = if self.idx < self.chars.len() { self.idx + 1 } else { self.chars.len() };
    }

    /// Moves forward to index `e`.
    fn advance_to(&mut self, e: usize)
        requires
            old(self).wf(),
            old(self).idx <= e <= old(self).chars.len(),
        ensures
            final(self).wf(),
            final(self).idx == e,
            final(self).chars == old(self).chars,
            final(self).source == old(self).source,
            final(self).global_source == old(self).global_source,
            final(self).line_base == old(self).line_base,
            final(self).col_base == old(self).col_base,
    {
        while self.idx < e
            invariant
                self.wf(),
                self.idx <= e <= self.chars.len(),
                self.chars == old(self).chars,
                self.source == old(self).source,
                self.global_source == old(self).global_source,
                self.line_base == old(self).line_base,
                self.col_base == old(self).col_base,
            decreases e - self.idx,
        {
            self.advance();
        }
    }

    /// The character at index `i`, if any.
    fn char_at(&self, i: usize) -> (r: Option<char>)
        ensures
            r == char_at(self.chars@, i as int),
    {
        if i < self.chars.len() {
            Some(self.chars[i])
        } else {
            None
        }
    }

    fn scan_blank_end(&self, i: usize) -> (e: usize)
        requires
            i <= self.chars.len(),
        ensures
            e == blank_end(self.chars@, i as int),
    {
        let mut j = i;
        while j < self.chars.len() && is_whitespace(self.chars[j]) && self.chars[j] != '\n'
            invariant
                i <= j <= self.chars.len(),
                blank_end(self.chars@, j as int) == blank_end(self.chars@, i as int),
            decreases self.chars.len() - j,
        {
            j += 1;
        }
        j
    }

    fn scan_ident_end(&self, i: usize) -> (e: usize)
        requires
            i <= self.chars.len(),
        ensures
            e == ident_end(self.chars@, i as int),
    {
        let mut j = i;
        while j < self.chars.len() && (is_alphanumeric(self.chars[j]) || self.chars[j] == '_'
            || self.chars[j] == '?')
            invariant
                i <= j <= self.chars.len(),
                ident_end(self.chars@, j as int) == ident_end(self.chars@, i as int),
            decreases self.chars.len() - j,
        {
            j += 1;
        }
        j
    }

    fn scan_line_end(&self, i: usize) -> (e: usize)
        requires
            i <= self.chars.len(),
        ensures
            e == line_end(self.chars@, i as int),
    {
        let mut j = i;
        while j < self.chars.len() && self.chars[j] != '\n'
            invariant
                i <= j <= self.chars.len(),
                line_end(self.chars@, j as int) == line_end(self.chars@, i as int),
            decreases self.chars.len() - j,
        {
            j += 1;
        }
        j
    }

    fn scan_quote(&self, i: usize) -> (r: Option<usize>)
        requires
            i <= self.chars.len(),
        ensures
            r matches Some(q) ==> quote_at_or_after(self.chars@, i as int) == Some(q as int),
            r is None ==> quote_at_or_after(self.chars@, i as int) is None,
    {
        let mut j = i;
        while j < self.chars.len() && self.chars[j] != '"'
            invariant
                i <= j <= self.chars.len(),
                quote_at_or_after(self.chars@, j as int) == quote_at_or_after(self.chars@, i as int),
            decreases self.chars.len() - j,
        {
            j += 1;
        }
        if j < self.chars.len() {
            Some(j)
        } else {
            None
        }
    }

    fn scan_string_close(&self, i: usize) -> (r: Option<usize>)
        requires
            i <= self.chars.len(),
        ensures
            r matches Some(q) ==> string_close(self.chars@, i as int) == Some(q as int),
            r is None ==> string_close(self.chars@, i as int) is None,
    {
        let mut j = i;
        while j < self.chars.len()
            invariant
                i <= j <= self.chars.len() + 1,
                string_close(self.chars@, j as int) == string_close(self.chars@, i as int),
            decreases self.chars.len() + 1 - j,
        {
            let c = self.chars[j];
            if c == '\\' {
                if j + 1 >= self.chars.len() {
                    return None;
                }
                j += 2;
            } else if c == '"' {
                return Some(j);
            } else {
                j += 1;
            }
        }
        None
    }
}

} // verus!

verus! {

/// Calls `char::from_u32`, which gives the character of a Unicode scalar value and `None`
/// for any other number.
#[verifier::external_body]
pub fn char_from_u32(v: u32) -> (r: Option<char>)
    ensures
        is_scalar(v as int) ==> r == Some(v as char),
        !is_scalar(v as int) ==> r is None,
{
    char::from_u32(v)
}

/// The value of a digit character in bases up to 36 (99 for a non-digit).
fn digit_value(c: char) -> (d: u32)
    ensures
        d == radix_digit_value(c),
{
    if '0' <= c && c <= '9' {
        (c as u32) - ('0' as u32)
    } else if 'a' <= c && c <= 'z' {
        (c as u32) - ('a' as u32) + 10
    } else if 'A' <= c && c <= 'Z' {
        (c as u32) - ('A' as u32) + 10
    } else {
        99
    }
}

fn is_hex(c: char) -> (r: bool)
    ensures
        r == is_hex_digit(c),
{
    ('0' <= c && c <= '9') || ('a' <= c && c <= 'f') || ('A' <= c && c <= 'F')
}

pub proof fn lemma_digits_value_nonneg(ds: Seq<char>, radix: int)
    requires
        radix >= 1,
    ensures
        digits_value(ds, radix) >= 0,
    decreases ds.len(),
{
    if ds.len() > 0 {
        lemma_digits_value_nonneg(ds.drop_last(), radix);
        assert(digits_value(ds.drop_last(), radix) * radix >= 0) by (nonlinear_arith)
            requires
                digits_value(ds.drop_last(), radix) >= 0,
                radix >= 1,
        ;
    }
}

/// A digit string is worth at least as much as any of its prefixes.
pub proof fn lemma_digits_value_prefix(ds: Seq<char>, k: int, radix: int)
    requires
        radix >= 1,
        0 <= k <= ds.len(),
    ensures
        digits_value(ds, radix) >= digits_value(ds.take(k), radix),
    decreases ds.len() - k,
{
    if k == ds.len() {
        assert(ds.take(k) =~= ds);
    } else {
        lemma_digits_value_prefix(ds, k + 1, radix);
        lemma_take_last_any(ds, k);
        let p = ds.take(k);
        lemma_digits_value_nonneg(p, radix);
        let v = digits_value(p, radix);
        assert(v * radix >= v) by (nonlinear_arith)
            requires
                v >= 0,
                radix >= 1,
        ;
    }
}

proof fn lemma_take_last_any<A>(s: Seq<A>, i: int)
    requires
        0 <= i < s.len(),
    ensures
        s.take(i + 1).drop_last() == s.take(i),
        s.take(i + 1).last() == s[i],
{
    assert(s.take(i + 1).drop_last() =~= s.take(i));
}

/// The value of a digit string, where it fits in `i64`.
fn digits_to_i64(lit: &Vec<char>, base: u32) -> (r: Option<i64>)
    requires
        2 <= base <= 36,
    ensures
        digits_value(lit@, base as int) <= i64::MAX ==> r == Some(
            digits_value(lit@, base as int) as i64,
        ),
        digits_value(lit@, base as int) > i64::MAX ==> r is None,
{
    let mut v: i64 = 0;
    let mut i: usize = 0;
    while i < lit.len()
        invariant
            2 <= base <= 36,
            i <= lit.len(),
            v as int == digits_value(lit@.take(i as int), base as int),
            v >= 0,
        decreases lit.len() - i,
    {
        proof {
            lemma_take_last_any(lit@, i as int);
        }
        let d = digit_value(lit[i]);
        let m = v.checked_mul(base as i64);
        match m {
            None => {
                proof {
                    lemma_digits_value_prefix(lit@, i as int + 1, base as int);
                    lemma_digits_value_nonneg(lit@.take(i as int + 1).drop_last(), base as int);
                }
                return None;
            },
            Some(m) => {
                let a = m.checked_add(d as i64);
                match a {
                    None => {
                        proof {
                            lemma_digits_value_prefix(lit@, i as int + 1, base as int);
                        }
                        return None;
                    },
                    Some(a) => {
                        v = a;
                    },
                }
            },
        }
        i += 1;
    }
    assert(lit@.take(lit.len() as int) =~= lit@);
    Some(v)
}

/// The characters of `v` without its `_`.
fn drop_underscores_vec(v: &Vec<char>) -> (r: Vec<char>)
    ensures
        r@ == drop_underscores(v@),
{
    let mut r: Vec<char> = Vec::new();
    let mut i: usize = 0;
    while i < v.len()
        invariant
            i <= v.len(),
            r@ == drop_underscores(v@.take(i as int)),
        decreases v.len() - i,
    {
        proof {
            lemma_take_last_any(v@, i as int);
        }
        if v[i] != '_' {
            r.push(v[i]);
        }
        i += 1;
    }
    assert(v@.take(v.len() as int) =~= v@);
    r
}

/// The text a string literal's content stands for (see `unescape`).
fn unescape_vec(raw: &Vec<char>) -> (r: Option<Vec<char>>)
    ensures
        unescape(raw@) matches Some(t) ==> r matches Some(v) && v@ == t,
        unescape(raw@) is None ==> r is None,
{
    let mut out: Vec<char> = Vec::new();
    let mut j: usize = 0;
    let n = raw.len();
    assert(raw@.skip(0) =~= raw@);
    while j < n
        invariant
            n == raw.len(),
            j <= n,
            unescape(raw@.skip(j as int)) matches Some(rest) ==> unescape(raw@) == Some(out@ + rest),
            unescape(raw@.skip(j as int)) is None ==> unescape(raw@) is None,
        decreases n - j,
    {
        let ghost r = raw@.skip(j as int);
        let c = raw[j];
        if c != '\\' || j + 1 == n {
            assert(r.drop_first() =~= raw@.skip(j + 1));
            proof {
                if let Some(rest) = unescape(raw@.skip(j + 1)) {
                    assert(out@.push(c) + rest =~= out@ + (seq![c] + rest));
                }
            }
            out.push(c);
            j += 1;
        } else if raw[j + 1] == 'u' {
            // \u{h..}
            if j + 2 >= n || raw[j + 2] != '{' {
                return None;
            }
            let mut k = j + 3;
            let mut v: u32 = 0;
            let mut cnt: usize = 0;
            while k < n && is_hex(raw[k])
                invariant
                    n == raw.len(),
                    j + 3 <= k <= n,
                    cnt == k - (j + 3),
                    r == raw@.skip(j as int),
                    hex_run(r, 3) == cnt + hex_run(r, (k - j) as int),
                    cnt <= 6 ==> v as int == digits_value(raw@.subrange(j + 3, k as int), 16),
                    cnt <= 6 ==> v < pow16(cnt as nat),
                decreases n - k,
            {
                proof {
                    assert(r[(k - j) as int] == raw@[k as int]);
                    lemma_take_last_any(raw@.subrange(j + 3, k + 1), (k - (j + 3)) as int);
                    assert(raw@.subrange(j + 3, k + 1).take((k - (j + 3)) as int) =~= raw@.subrange(j + 3, k as int));
                    assert(raw@.subrange(j + 3, k + 1).take((k + 1 - (j + 3)) as int) =~= raw@.subrange(j + 3, k + 1));
                }
                if cnt < 6 {
                    let d = digit_value(raw[k]);
                    proof {
                        let p = pow16(cnt as nat);
                        assert(v * 16 + d < p * 16) by (nonlinear_arith)
                            requires v < p, d < 16;
                        lemma_pow16_small(cnt as nat);
                    }
                    v = v * 16 + d;
                }
                cnt += 1;
                k += 1;
            }
            proof {
                if k < n {
                    assert(r[(k - j) as int] == raw@[k as int]);
                }
                assert(hex_run(r, (k - j) as int) == 0);
            }
            if cnt < 1 || cnt > 6 || k >= n || raw[k] != '}' {
                return None;
            }
            proof {
                assert(r[3 + cnt] == raw@[k as int]);
                assert(r.subrange(3, 3 + cnt) =~= raw@.subrange(j + 3, k as int));
            }
            match char_from_u32(v) {
                None => {
                    return None;
                },
                Some(ch) => {
                    assert(r.skip(4 + cnt) =~= raw@.skip(k + 1));
                    proof {
                        if let Some(rest) = unescape(raw@.skip(k + 1)) {
                            assert(out@.push(ch) + rest =~= out@ + (seq![ch] + rest));
                        }
                    }
                    out.push(ch);
                    j = k + 1;
                },
            }
        } else {
            let e = raw[j + 1];
            assert(r.skip(2) =~= raw@.skip(j + 2));
            let simple = if e == 'n' {
                Some('\n')
            } else if e == 't' {
                Some('\t')
            } else if e == 'r' {
                Some('\r')
            } else if e == '0' {
                Some('\0')
            } else if e == '\\' {
                Some('\\')
            } else if e == '"' {
                Some('"')
            } else if e == '\'' {
                Some('\'')
            } else {
                None
            };
            assert(simple == simple_escape(e));
            match simple {
                Some(ch) => {
                    proof {
                        if let Some(rest) = unescape(raw@.skip(j + 2)) {
                            assert(out@.push(ch) + rest =~= out@ + (seq![ch] + rest));
                        }
                    }
                    out.push(ch);
                },
                None => {
                    proof {
                        if let Some(rest) = unescape(raw@.skip(j + 2)) {
                            assert(out@.push(c).push(e) + rest =~= out@ + (seq![c, e] + rest));
                        }
                    }
                    out.push(c);
                    out.push(e);
                },
            }
            j += 2;
        }
    }
    proof {
        assert(raw@.skip(n as int) =~= Seq::<char>::empty());
        assert(out@ + Seq::<char>::empty() =~= out@);
    }
    Some(out)
}

pub open spec fn pow16(n: nat) -> int
    decreases n,
{
    if n == 0 {
        1
    } else {
        16 * pow16((n - 1) as nat)
    }
}

proof fn lemma_pow16_small(n: nat)
    requires
        n <= 6,
    ensures
        pow16(n) <= 0x1000000,
        pow16(n) >= 1,
{
    reveal_with_fuel(pow16, 7);
    if n == 0 {
    } else if n == 1 {
    } else if n == 2 {
    } else if n == 3 {
    } else if n == 4 {
    } else if n == 5 {
    } else {
    }
}

} // verus!

verus! {

/// `digits_value` of `lit[a..]` in base 10, or `2^100` where it is larger.
fn saturated_decimal(lit: &Vec<char>, a: usize) -> (r: i128)
    requires
        a <= lit.len(),
    ensures
        0 <= r <= 0x10000000000000000000000000,
        digits_value(lit@.subrange(a as int, lit.len() as int), 10) < 0x10000000000000000000000000
            ==> r == digits_value(lit@.subrange(a as int, lit.len() as int), 10),
        digits_value(lit@.subrange(a as int, lit.len() as int), 10) >= 0x10000000000000000000000000
            ==> r == 0x10000000000000000000000000,
{
    let cap: i128 = 0x10000000000000000000000000;
    let mut v: i128 = 0;
    let mut i = a;
    let ghost t = lit@.subrange(a as int, lit.len() as int);
    while i < lit.len()
        invariant
            a <= i <= lit.len(),
            t == lit@.subrange(a as int, lit.len() as int),
            0 <= v <= cap,
            cap == 0x10000000000000000000000000,
            digits_value(t.take(i - a), 10) < cap ==> v == digits_value(t.take(i - a), 10),
            digits_value(t.take(i - a), 10) >= cap ==> v == cap,
        decreases lit.len() - i,
    {
        proof {
            lemma_take_last_any(t, i - a);
            assert(t[i - a] == lit@[i as int]);
            lemma_digits_value_nonneg(t.take(i - a), 10);
        }
        let d = digit_value(lit[i]);
        if v < cap {
            let w = v * 10 + d as i128;
            v = if w < cap { w } else { cap };
        }
        i += 1;
    }
    assert(t.take(lit.len() - a) =~= t);
    v
}

/// `a >= b` for digit strings of the same length, in lexicographic order.
fn digits_ge_vec(a: &Vec<char>, b: &Vec<char>) -> (r: bool)
    requires
        a.len() == b.len(),
    ensures
        r == digits_ge(a@, b@),
{
    let mut k: usize = 0;
    assert(a@.skip(0) =~= a@);
    assert(b@.skip(0) =~= b@);
    while k < a.len()
        invariant
            a.len() == b.len(),
            k <= a.len(),
            digits_ge(a@.skip(k as int), b@.skip(k as int)) == digits_ge(a@, b@),
        decreases a.len() - k,
    {
        assert(a@.skip(k as int).drop_first() =~= a@.skip(k + 1));
        assert(b@.skip(k as int).drop_first() =~= b@.skip(k + 1));
        if a[k] != b[k] {
            return a[k] > b[k];
        }
        k += 1;
    }
    true
}

/// Whether a floating-point literal overflows `f64` (see `float_overflows`).
fn float_overflows_vec(lit: &Vec<char>) -> (r: bool)
    ensures
        r == float_overflows(lit@),
{
    let n = lit.len();
    let mut e: usize = 0;
    while e < n && lit[e] != 'e' && lit[e] != 'E'
        invariant
            e <= n == lit.len(),
            exp_index(lit@, e as int) == exp_index(lit@, 0),
        decreases n - e,
    {
        e += 1;
    }
    let mut d: usize = 0;
    while d < e && lit[d] != '.'
        invariant
            d <= e <= n == lit.len(),
            exp_index(lit@, 0) == e,
            dot_index(lit@, d as int, e as int) == dot_index(lit@, 0, e as int),
        decreases e - d,
    {
        d += 1;
    }
    let mut ds = sub_chars(lit, 0, d);
    let frac: usize;
    if d < e {
        let tail = sub_chars(lit, d + 1, e);
        append_chars(&mut ds, &tail);
        frac = e - d - 1;
    } else {
        frac = 0;
    }
    assert(ds@ == significand(lit@));
    // The exponent, saturated at 2^100 in magnitude.
    let expo: i128 = if e < n && n - e > 1 && lit[e + 1] == '-' {
        0 - saturated_decimal(lit, e + 2)
    } else if e < n && n - e > 1 && lit[e + 1] == '+' {
        saturated_decimal(lit, e + 2)
    } else if e < n {
        saturated_decimal(lit, e + 1)
    } else {
        0
    };
    let mut f: usize = 0;
    while f < ds.len() && ds[f] == '0'
        invariant
            f <= ds.len(),
            first_nonzero(ds@, f as int) == first_nonzero(ds@, 0),
        decreases ds.len() - f,
    {
        f += 1;
    }
    let sig = sub_chars(&ds, f, ds.len());
    assert(sig@ == ds@.skip(f as int));
    if sig.len() == 0 {
        return false;
    }
    let m: i128 = sig.len() as i128 - frac as i128 + expo;
    proof {
        let ex = exponent(lit@);
        let mt = sig.len() - frac + ex;
        assert(frac == fraction_len(lit@));
        if e + 1 < n && lit[e + 1 as int] == '-' {
            lemma_digits_value_nonneg(lit@.subrange(e + 2, n as int), 10);
        } else if e + 1 < n && lit[e + 1 as int] == '+' {
            lemma_digits_value_nonneg(lit@.subrange(e + 2, n as int), 10);
        } else if e < n {
            lemma_digits_value_nonneg(lit@.subrange(e + 1, n as int), 10);
        }
        assert(m < 309 <==> mt < 309);
        assert(m > 309 <==> mt > 309);
    }
    if m < 309 {
        false
    } else if m > 309 {
        true
    } else {
        let lim = chars_of("179769313486231580793728971405303415079934132710037826936173778980444968292764750946649017977587207096330286416692887910946555547851940402630657488671505820681908902000708383676273854845817711531764475730270069855571366959622842914819860834936475292719074168444365510704342711559699508093042880177904174497792");
        assert(lim@ == f64_limit_digits());
        assert(lim@.len() == 309) by {
            reveal_strlit("179769313486231580793728971405303415079934132710037826936173778980444968292764750946649017977587207096330286416692887910946555547851940402630657488671505820681908902000708383676273854845817711531764475730270069855571366959622842914819860834936475292719074168444365510704342711559699508093042880177904174497792");
        }
        if sig.len() <= 309 {
            let zeros = repeat_char('0', 309 - sig.len());
            let mut padded = sig.clone();
            append_chars(&mut padded, &zeros);
            assert(padded@ == sig@ + Seq::new((309 - sig.len()) as nat, |k: int| '0'));
            digits_ge_vec(&padded, &lim)
        } else {
            let top = sub_chars(&sig, 0, 309);
            assert(top@ == sig@.take(309));
            digits_ge_vec(&top, &lim)
        }
    }
}

} // verus!

verus! {

proof fn lemma_base_digit_is_radix_digit(c: char, base: u32)
    requires
        base == 2 || base == 8 || base == 10 || base == 16,
        is_base_digit(c, base),
    ensures
        is_radix_digit(c, base),
{
}

proof fn lemma_drop_underscores(t: Seq<char>, base: u32)
    requires
        forall|k: int| 0 <= k < t.len() ==> t[k] == '_' || is_base_digit(#[trigger] t[k], base),
    ensures
        forall|k: int|
            0 <= k < drop_underscores(t).len() ==> is_base_digit(#[trigger] drop_underscores(t)[k], base),
        t.len() > 0 && t[0] != '_' ==> drop_underscores(t).len() > 0,
    decreases t.len(),
{
    if t.len() > 0 {
        let p = t.drop_last();
        assert forall|k: int| 0 <= k < p.len() implies p[k] == '_' || is_base_digit(#[trigger] p[k], base) by {
            assert(p[k] == t[k]);
        }
        lemma_drop_underscores(p, base);
        if t.len() > 1 {
            assert(p[0] == t[0]);
        }
        if t.last() != '_' {
            let d = drop_underscores(t);
            assert(d == drop_underscores(p).push(t.last()));
            assert(is_base_digit(t[t.len() - 1], base));
            assert forall|k: int| 0 <= k < d.len() implies is_base_digit(#[trigger] d[k], base) by {
                if k < d.len() - 1 {
                    assert(d[k] == drop_underscores(p)[k]);
                }
            }
        }
    }
}

proof fn lemma_prefixed_end(s: Seq<char>, i: int, base: u32, prev: bool)
    requires
        0 <= i <= s.len(),
    ensures
        i <= prefixed_end(s, i, base, prev) <= s.len(),
        forall|k: int| i <= k < prefixed_end(s, i, base, prev) ==> #[trigger] s[k] == '_' || is_base_digit(s[k], base),
        prefixed_end(s, i, base, prev) > i && !prev ==> is_base_digit(s[i], base),
    decreases s.len() - i,
{
    if i < s.len() {
        if is_base_digit(s[i], base) {
            lemma_prefixed_end(s, i + 1, base, true);
        } else if s[i] == '_' && prev && i + 1 < s.len() && is_base_digit(s[i + 1], base) {
            lemma_prefixed_end(s, i + 1, base, false);
        }
    }
}

proof fn lemma_decimal_end(s: Seq<char>, start: int, i: int, is_float: bool, has_exp: bool)
    requires
        0 <= i <= s.len(),
    ensures
        i <= decimal_end(s, start, i, is_float, has_exp).0 <= s.len(),
        is_float ==> decimal_end(s, start, i, is_float, has_exp).1,
        i < s.len() && is_digit(s[i]) ==> decimal_end(s, start, i, is_float, has_exp).0 > i,
        !is_float && !decimal_end(s, start, i, is_float, has_exp).1 ==> forall|k: int|
            i <= k < decimal_end(s, start, i, is_float, has_exp).0 ==> #[trigger] s[k] == '_' || is_digit(s[k]),
    decreases s.len() - i,
{
    if i < s.len() {
        if is_digit(s[i]) {
            lemma_decimal_end(s, start, i + 1, is_float, has_exp);
        } else if s[i] == '_' {
            if i > start && is_digit(s[i - 1]) && i + 1 < s.len() && is_digit(s[i + 1]) {
                lemma_decimal_end(s, start, i + 1, is_float, has_exp);
            }
        } else if s[i] == '.' && !is_float && !has_exp {
            if i + 1 < s.len() && is_digit(s[i + 1]) {
                lemma_decimal_end(s, start, i + 1, true, has_exp);
            }
        } else if (s[i] == 'e' || s[i] == 'E') && !has_exp {
            if i + 1 < s.len() && (s[i + 1] == '+' || s[i + 1] == '-') {
                lemma_decimal_end(s, start, i + 2, true, true);
            } else {
                lemma_decimal_end(s, start, i + 1, true, true);
            }
        }
    }
}

fn is_base_digit_exec(c: char, base: u32) -> (r: bool)
    ensures
        r == is_base_digit(c, base),
{
    if base == 2 {
        c == '0' || c == '1'
    } else if base == 8 {
        '0' <= c && c <= '7'
    } else if base == 16 {
        is_hex(c)
    } else {
        '0' <= c && c <= '9'
    }
}

fn is_digit_exec(c: char) -> (r: bool)
    ensures
        r == is_digit(c),
{
    '0' <= c && c <= '9'
}

proof fn lemma_filter_keeps_digits(s: Seq<char>)
    requires
        forall|k: int| 0 <= k < s.len() ==> s[k] != '_',
    ensures
        s.filter(|c: char| c != '_') == s,
    decreases s.len(),
{
    reveal_with_fuel(Seq::<char>::filter, 1);
    if s.len() > 0 {
        lemma_filter_keeps_digits(s.drop_last());
        assert(s.last() != '_');
        assert(s.filter(|c: char| c != '_') == s.drop_last().filter(|c: char| c != '_').push(s.last()));
        assert(s.drop_last().push(s.last()) =~= s);
    } else {
        assert(s.filter(|c: char| c != '_') == s);
    }
}

/// The integer token of a digit string of a base.
fn integer_token_exec(lit: &Vec<char>, base: u32) -> (t: TokenType)
    requires
        base == 2 || base == 8 || base == 10 || base == 16,
        lit.len() > 0,
        forall|k: int| 0 <= k < lit.len() ==> is_base_digit(#[trigger] lit@[k], base),
    ensures
        t@ == integer_token(lit@, base),
{
    match digits_to_i64(lit, base) {
        Some(v) => TokenType::Integer(v),
        None => {
            let text = string_from_chars(lit.as_slice());
            proof {
                assert forall|k: int| 0 <= k < lit@.len() implies #[trigger] is_radix_digit(lit@[k], base) by {
                    lemma_base_digit_is_radix_digit(lit@[k], base);
                }
                assert(is_radix_digit(lit@[0], base));
                assert(radix_body(lit@) == lit@);
                assert forall|k: int| 0 <= k < lit@.len() implies lit@[k] != '_' by {
                    assert(is_base_digit(lit@[k], base));
                }
                lemma_filter_keeps_digits(lit@);
            }
            match bigint_from_str_radix(text.as_str(), base) {
                Ok(b) => TokenType::BigInteger(b),
                Err(_) => TokenType::Integer(0),
            }
        },
    }
}

impl Lexer {
    fn scan_prefixed_end(&self, i: usize, base: u32) -> (e: usize)
        requires
            i <= self.chars.len(),
        ensures
            e == prefixed_end(self.chars@, i as int, base, false),
    {
        let mut j = i;
        let mut prev = false;
        let n = self.chars.len();
        while j < n
            invariant
                i <= j <= n == self.chars.len(),
                prefixed_end(self.chars@, j as int, base, prev) == prefixed_end(
                    self.chars@,
                    i as int,
                    base,
                    false,
                ),
            decreases n - j,
        {
            let c = self.chars[j];
            if is_base_digit_exec(c, base) {
                prev = true;
            } else if c == '_' && prev && j + 1 < n && is_base_digit_exec(self.chars[j + 1], base) {
                prev = false;
            } else {
                return j;
            }
            j += 1;
        }
        j
    }

    fn scan_decimal_end(&self, start: usize) -> (r: (usize, bool))
        requires
            start <= self.chars.len(),
        ensures
            (r.0 as int, r.1) == decimal_end(self.chars@, start as int, start as int, false, false),
    {
        let mut j = start;
        let mut is_float = false;
        let mut has_exp = false;
        let n = self.chars.len();
        while j < n
            invariant
                start <= j <= n == self.chars.len(),
                decimal_end(self.chars@, start as int, j as int, is_float, has_exp) == decimal_end(
                    self.chars@,
                    start as int,
                    start as int,
                    false,
                    false,
                ),
            decreases n - j,
        {
            let c = self.chars[j];
            if is_digit_exec(c) {
                j += 1;
            } else if c == '_' {
                if j > start && is_digit_exec(self.chars[j - 1]) && j + 1 < n && is_digit_exec(
                    self.chars[j + 1],
                ) {
                    j += 1;
                } else {
                    return (j, is_float);
                }
            } else if c == '.' && !is_float && !has_exp {
                if j + 1 < n && is_digit_exec(self.chars[j + 1]) {
                    is_float = true;
                    j += 1;
                } else {
                    return (j, is_float);
                }
            } else if (c == 'e' || c == 'E') && !has_exp {
                is_float = true;
                has_exp = true;
                if j + 1 < n && (self.chars[j + 1] == '+' || self.chars[j + 1] == '-') {
                    j += 2;
                } else {
                    j += 1;
                }
            } else {
                return (j, is_float);
            }
        }
        (j, is_float)
    }

    /// Lexes a number literal at the current character, a digit.
    fn lex_number(&mut self) -> (r: WqResult<TokenType>)
        requires
            old(self).wf(),
            old(self).idx < old(self).chars.len(),
            is_digit(old(self).chars@[old(self).idx as int]),
        ensures
            final(self).wf(),
            final(self).chars == old(self).chars,
            final(self).source == old(self).source,
            final(self).global_source == old(self).global_source,
            number_at(old(self).chars@, old(self).idx as int) matches Lexed::Tok(t, _, e) ==> (r matches Ok(
                tt,
            ) && tt@ == t && final(self).idx == e),
            number_at(old(self).chars@, old(self).idx as int) is Bad ==> (r matches Err(err) && err.kind
                == WqErrorType::Syntax),
    {
        let ghost s = self.chars@;
        let i = self.idx;
        let n = self.chars.len();
        let mut base: u32 = 10;
        if i + 1 < n && self.chars[i] == '0' {
            let c1 = self.chars[i + 1];
            if c1 == 'b' || c1 == 'B' {
                base = 2;
            } else if c1 == 'o' || c1 == 'O' {
                base = 8;
            } else if c1 == 'x' || c1 == 'X' {
                base = 16;
            }
        }
        if base != 10 {
            let e = self.scan_prefixed_end(i + 2, base);
            proof {
                lemma_prefixed_end(s, i + 2, base, false);
            }
            if e == i + 2 {
                self.advance_to(e);
                return Err(self.syntax_error(i, e, "expected digits after base prefix"));
            }
            let region = sub_chars(&self.chars, i + 2, e);
            let lit = drop_underscores_vec(&region);
            proof {
                assert forall|k: int| 0 <= k < region@.len() implies region@[k] == '_' || is_base_digit(
                    #[trigger] region@[k],
                    base,
                ) by {
                    assert(region@[k] == s[i + 2 + k]);
                }
                lemma_drop_underscores(region@, base);
            }
            let t = integer_token_exec(&lit, base);
            self.advance_to(e);
            Ok(t)
        } else {
            let (e, is_float) = self.scan_decimal_end(i);
            proof {
                lemma_decimal_end(s, i as int, i as int, false, false);
            }
            let region = sub_chars(&self.chars, i, e);
            let lit = drop_underscores_vec(&region);
            if is_float {
                let bad = exponent_is_empty_vec(&lit) || float_overflows_vec(&lit);
                if bad {
                    self.advance_to(e);
                    return Err(self.syntax_error(i, e, "float literal overflow"));
                }
                let text = string_from_chars(lit.as_slice());
                self.advance_to(e);
                Ok(TokenType::Float(text))
            } else {
                proof {
                    assert forall|k: int| 0 <= k < region@.len() implies region@[k] == '_' || is_base_digit(
                        #[trigger] region@[k],
                        10,
                    ) by {
                        assert(region@[k] == s[i + k]);
                    }
                    lemma_drop_underscores(region@, 10);
                }
                let t = integer_token_exec(&lit, 10);
                self.advance_to(e);
                Ok(t)
            }
        }
    }

    /// A syntax error of the lexer for the text from index `start` to index `end`, with a
    /// note that gives the line and column and points at the text under its line.
    fn syntax_error(&self, start: usize, end: usize, msg: &str) -> (e: WqError)
        ensures
            e.kind == WqErrorType::Syntax,
    {
        let n = self.chars.len();
        let st = if start < n { start } else { n };
        let en = if end < st { st } else if end < n { end } else { n };
        // local line index and the start of that line
        let mut line_idx: usize = 0;
        let mut line_start: usize = 0;
        let mut k: usize = 0;
        while k < st
            invariant
                st <= n == self.chars.len(),
                k <= st,
                line_idx <= k,
                line_start <= k,
            decreases st - k,
        {
            if self.chars[k] == '\n' {
                line_idx += 1;
                line_start = k + 1;
            }
            k += 1;
        }
        let mut disp_col = (st - line_start).saturating_add(1);
        let mut width: usize = 0;
        let mut j = st;
        while j < en && self.chars[j] != '\n'
            invariant
                st <= j <= en <= n == self.chars.len(),
                width == j - st,
            decreases en - j,
        {
            width += 1;
            j += 1;
        }
        if width == 0 {
            width = 1;
        }
        let disp_line: usize;
        let src_line: Vec<char>;
        match &self.global_source {
            Some(gs) => {
                disp_line = line_idx.saturating_add(1).saturating_add(self.line_base);
                if line_idx == 0 {
                    disp_col = disp_col.saturating_add(self.col_base);
                }
                src_line = nth_line(gs, disp_line - 1);
            },
            None => {
                disp_line = line_idx.saturating_add(1);
                src_line = nth_line(&self.chars, line_idx);
            },
        }
        let mut note: Vec<char> = Vec::new();
        append_str(&mut note, "at ");
        append_chars(&mut note, &usize_to_decimal(disp_line));
        note.push(':');
        append_chars(&mut note, &usize_to_decimal(disp_col));
        note.push('\n');
        append_chars(&mut note, &src_line);
        note.push('\n');
        append_chars(&mut note, &repeat_char(' ', disp_col - 1));
        append_chars(&mut note, &repeat_char('~', width));
        WqError::new(WqErrorType::Syntax).src("lexer").msg(msg).attach_note(
            string_from_chars(note.as_slice()),
        )
    }

    /// The lexer with a surrounding source: `base_offset` is the byte offset in
    /// `global_source` where this lexer's text starts. Error notes then give lines and columns
    /// in the surrounding source.
    pub fn with_ctx(self, global_source: &str, base_offset: usize) -> (l: Lexer)
        requires
            self.wf(),
            base_offset >= utf8_size(global_source@) || exists|k: int|
                0 <= k <= global_source@.len() && utf8_size(global_source@.take(k)) == base_offset,
        ensures
            l.wf(),
            l.src() == self.src(),
            l.pos() == self.pos(),
            lex_all(l.src(), l.pos()) == lex_all(self.src(), self.pos()),
            l.context() == Some(global_source@),
            exists|k: int|
                0 <= k <= global_source@.len() && utf8_size(global_source@.take(k)) == if base_offset
                    >= utf8_size(global_source@) {
                    utf8_size(global_source@)
                } else {
                    base_offset as nat
                } && l.line_base() == newlines(global_source@.take(k)) && l.col_base()
                    == line_offset(global_source@.take(k)),
    {
        let gs = chars_of(global_source);
        let ghost g = gs@;
        let mut k: usize = 0;
        let mut bytes: usize = 0;
        let mut nl: usize = 0;
        let mut col: usize = 0;
        proof {
            assert(g.take(0) =~= Seq::<char>::empty());
        }
        while k < gs.len() && bytes < base_offset
            invariant
                g == gs@,
                g == global_source@,
                k <= gs.len(),
                bytes == utf8_size(g.take(k as int)),
                nl == newlines(g.take(k as int)),
                col == line_offset(g.take(k as int)),
                bytes <= base_offset,
                base_offset >= utf8_size(g) || exists|j: int|
                    k <= j <= g.len() && utf8_size(g.take(j)) == base_offset,
            decreases gs.len() - k,
        {
            proof {
                lemma_take_last(g, k as int);
                lemma_places_bounded(g, k as int + 1);
                if base_offset < utf8_size(g) {
                    let j = choose|j: int| k <= j <= g.len() && utf8_size(g.take(j)) == base_offset;
                    if j > k {
                        lemma_size_mono(g, k as int + 1, j);
                    }
                }
            }
            let c = gs[k];
            bytes = bytes + utf8_len(c);
            if c == '\n' {
                nl = nl + 1;
                col = 0;
            } else {
                col = col + 1;
            }
            k += 1;
        }
        proof {
            if k == gs.len() {
                assert(g.take(k as int) =~= g);
            }
            if base_offset < utf8_size(g) && bytes < base_offset {
                let j = choose|j: int| k <= j <= g.len() && utf8_size(g.take(j)) == base_offset;
                assert(k == g.len());
                assert(j == k);
            }
            if base_offset >= utf8_size(g) && k < g.len() {
                lemma_size_mono(g, k as int, g.len() as int);
                assert(g.take(g.len() as int) =~= g);
                if (k as int) < (g.len() as int) {
                    lemma_size_strict(g, k as int);
                }
            }
        }
        Lexer { global_source: Some(gs), line_base: nl, col_base: col, ..self }
    }

    /// The surrounding source given to `with_ctx`, if any.
    pub closed spec fn context(&self) -> Option<Seq<char>> {
        match self.global_source {
            Some(g) => Some(g@),
            None => None,
        }
    }

    pub closed spec fn line_base(&self) -> nat {
        self.line_base as nat
    }

    pub closed spec fn col_base(&self) -> nat {
        self.col_base as nat
    }
}

/// Whether a floating-point literal has an exponent marker with no digits after it.
fn exponent_is_empty_vec(lit: &Vec<char>) -> (r: bool)
    ensures
        r == exponent_is_empty(lit@),
{
    let n = lit.len();
    let mut e: usize = 0;
    while e < n && lit[e] != 'e' && lit[e] != 'E'
        invariant
            e <= n == lit.len(),
            exp_index(lit@, e as int) == exp_index(lit@, 0),
        decreases n - e,
    {
        e += 1;
    }
    e < n && (e + 1 == n || ((lit[e + 1] == '-' || lit[e + 1] == '+') && e + 2 == n))
}

} // verus!

verus! {


fn word_token_exec(w: &Vec<char>) -> (t: TokenType)
    ensures
        t@ == word_token(w@),
{
    if chars_eq_str(w, "true") {
        TokenType::True
    } else if chars_eq_str(w, "false") {
        TokenType::False
    } else if chars_eq_str(w, "inf") {
        TokenType::Inf
    } else if chars_eq_str(w, "nan") {
        TokenType::Nan
    } else {
        TokenType::Identifier(string_from_chars(w.as_slice()))
    }
}

fn single_char_token_exec(c: char) -> (r: Option<TokenType>)
    ensures
        r matches Some(t) ==> single_char_token(c) == Some(t@),
        r is None ==> single_char_token(c) is None,
{
    if c == '+' {
        Some(TokenType::Plus)
    } else if c == '-' {
        Some(TokenType::Minus)
    } else if c == '^' {
        Some(TokenType::Power)
    } else if c == ':' {
        Some(TokenType::Colon)
    } else if c == '=' {
        Some(TokenType::Equal)
    } else if c == '~' {
        Some(TokenType::NotEqual)
    } else if c == '#' {
        Some(TokenType::Sharp)
    } else if c == '|' {
        Some(TokenType::Pipe)
    } else if c == '(' {
        Some(TokenType::LeftParen)
    } else if c == ')' {
        Some(TokenType::RightParen)
    } else if c == '[' {
        Some(TokenType::LeftBracket)
    } else if c == ']' {
        Some(TokenType::RightBracket)
    } else if c == '{' {
        Some(TokenType::LeftBrace)
    } else if c == '}' {
        Some(TokenType::RightBrace)
    } else if c == ';' {
        Some(TokenType::Semicolon)
    } else if c == ',' {
        Some(TokenType::Comma)
    } else if c == '\'' {
        Some(TokenType::Apostrophe)
    } else {
        None
    }
}

fn pair_token_exec(c: char, n: Option<char>) -> (r: Option<(TokenType, usize)>)
    ensures
        r matches Some((t, k)) ==> pair_token(c, n) == Some((t@, k as int)),
        r is None ==> pair_token(c, n) is None,
{
    if c == '*' {
        if n == Some('*') {
            Some((TokenType::Matmul, 2))
        } else {
            Some((TokenType::Multiply, 1))
        }
    } else if c == '%' {
        if n == Some('.') {
            Some((TokenType::ModuloDot, 2))
        } else {
            Some((TokenType::Modulo, 1))
        }
    } else if c == '$' {
        if n == Some('$') {
            Some((TokenType::DollarDollar, 2))
        } else if n == Some('.') {
            Some((TokenType::DollarDot, 2))
        } else {
            Some((TokenType::Dollar, 1))
        }
    } else if c == '<' {
        if n == Some('=') {
            Some((TokenType::LessThanOrEqual, 2))
        } else {
            Some((TokenType::LessThan, 1))
        }
    } else if c == '>' {
        if n == Some('=') {
            Some((TokenType::GreaterThanOrEqual, 2))
        } else {
            Some((TokenType::GreaterThan, 1))
        }
    } else {
        None
    }
}

fn at_token_exec(n: char) -> (r: Option<TokenType>)
    ensures
        r matches Some(t) ==> at_token(n) == Some(t@),
        r is None ==> at_token(n) is None,
{
    if n == 'b' {
        Some(TokenType::AtBreak)
    } else if n == 'c' {
        Some(TokenType::AtContinue)
    } else if n == 'r' {
        Some(TokenType::AtReturn)
    } else if n == 't' {
        Some(TokenType::AtTry)
    } else if n == 'f' {
        Some(TokenType::AtFormat)
    } else {
        None
    }
}

impl Lexer {
    /// Lexes a string or character literal whose opening quote is the current character.
    fn lex_string(&mut self) -> (r: WqResult<TokenType>)
        requires
            old(self).wf(),
            old(self).idx < old(self).chars.len(),
        ensures
            final(self).wf(),
            final(self).chars == old(self).chars,
            final(self).source == old(self).source,
            final(self).global_source == old(self).global_source,
            string_at(old(self).chars@, old(self).idx as int) matches Lexed::Tok(t, _, e) ==> (r matches Ok(
                tt,
            ) && tt@ == t && final(self).idx == e),
            string_at(old(self).chars@, old(self).idx as int) is Bad ==> (r matches Err(err) && err.kind
                == WqErrorType::Syntax),
    {
        let i = self.idx;
        proof {
            lemma_string_close(self.chars@, i + 1);
        }
        match self.scan_string_close(i + 1) {
            None => {
                let n = self.chars.len();
                self.advance_to(n);
                Err(self.syntax_error(i, n, "string is not properly terminated"))
            },
            Some(close) => {
                let raw = sub_chars(&self.chars, i + 1, close);
                let content = unescape_vec(&raw);
                self.advance_to(close + 1);
                match content {
                    None => Err(self.syntax_error(i, close + 1, "invalid unicode escape")),
                    Some(content) => {
                        if content.len() == 1 {
                            Ok(TokenType::Character(content[0]))
                        } else {
                            Ok(TokenType::String(string_from_chars(content.as_slice())))
                        }
                    },
                }
            },
        }
    }

    /// Lexes a raw string `@l"..."` whose `@` is at index `i`; the scan starts at index `j`.
    fn lex_raw_string(&mut self, i: usize, j: usize) -> (r: WqResult<TokenType>)
        requires
            old(self).wf(),
            old(self).idx == j,
            j <= old(self).chars.len(),
        ensures
            final(self).wf(),
            final(self).chars == old(self).chars,
            final(self).source == old(self).source,
            final(self).global_source == old(self).global_source,
            raw_string_at(old(self).chars@, i as int, j as int) matches Lexed::Tok(t, _, e) ==> (r matches Ok(
                tt,
            ) && tt@ == t && final(self).idx == e),
            raw_string_at(old(self).chars@, i as int, j as int) is Bad ==> (r matches Err(err) && err.kind
                == WqErrorType::Syntax),
    {
        let q = self.scan_blank_end(j);
        proof {
            lemma_blank_end(self.chars@, j as int);
        }
        self.advance_to(q);
        if q < self.chars.len() && self.chars[q] == '"' {
            proof {
                lemma_quote_at_or_after(self.chars@, q + 1);
            }
            match self.scan_quote(q + 1) {
                None => {
                    let n = self.chars.len();
                    self.advance_to(n);
                    Err(self.syntax_error(i, n, "string is not properly terminated"))
                },
                Some(close) => {
                    let content = sub_chars(&self.chars, q + 1, close);
                    self.advance_to(close + 1);
                    Ok(TokenType::String(string_from_chars(content.as_slice())))
                },
            }
        } else {
            Err(self.syntax_error(i, q, "expected '\"' after raw string prefix"))
        }
    }

    /// The next token; blanks, a lone `.` and unknown `@` sequences are skipped.
    #[verifier::rlimit(60)]
    #[verifier::spinoff_prover]
    pub fn next_token(&mut self) -> (r: WqResult<Token>)
        requires
            old(self).wf(),
        ensures
            final(self).wf(),
            final(self).src() == old(self).src(),
            lex_at(old(self).src(), old(self).pos()) matches Lexed::Tok(t, st, e) ==> (r matches Ok(tok)
                && token_agrees(old(self).src(), tok, t, st, e) && final(self).pos() == e),
            lex_at(old(self).src(), old(self).pos()) is Bad ==> (r matches Err(err) && err.kind
                == WqErrorType::Syntax),
    {
        let ghost s = self.chars@;
        let ghost start = self.idx as int;
        loop
            invariant
                self.wf(),
                self.chars@ == s,
                s == old(self).chars@,
                start == old(self).idx,
                self.idx <= s.len(),
                lex_at(s, self.idx as int) == lex_at(s, start),
            decreases s.len() - self.idx,
        {
            let m = self.mark();
            let i = self.idx;
            let n = self.chars.len();
            proof {
                lemma_places_bounded(s, i as int);
                lemma_places_bounded(s, s.len() as int);
                assert(s.take(s.len() as int) =~= s);
            }
            if i >= n {
                return Ok(Token::new(TokenType::Eof, m.position, m.line, m.column + 1, m.byte_pos, self.byte_pos));
            }
            let c = self.chars[i];
            let n1 = self.char_at(i + 1);
            let n2 = self.char_at(i + 2);
            if c == ' ' || c == '\t' || c == '\r' {
                let e = self.scan_blank_end(i + 1);
                proof {
                    lemma_blank_end(s, i + 1);
                }
                self.advance_to(e);
                continue;
            }
            if c == '\n' {
                self.advance();
                return Ok(Token::new(TokenType::Newline, m.position, m.line, m.column + 1, m.byte_pos, self.byte_pos));
            }
            match pair_token_exec(c, n1) {
                Some((t, k)) => {
                    self.advance_to(i + k);
                    return Ok(Token::new(t, m.position, m.line, m.column + 1, m.byte_pos, self.byte_pos));
                },
                None => {},
            }
            if c == '/' {
                if n1 == Some('/') {
                    let e = self.scan_line_end(i + 1);
                    proof {
                        lemma_line_end(s, i + 1);
                    }
                    let text = sub_chars(&self.chars, i + 1, e);
                    self.advance_to(e);
                    let t = TokenType::Comment(string_from_chars(text.as_slice()));
                    return Ok(Token::new(t, m.position, m.line, m.column + 1, m.byte_pos, self.byte_pos));
                } else if n1 == Some('.') {
                    self.advance_to(i + 2);
                    return Ok(Token::new(TokenType::DivideDot, m.position, m.line, m.column + 1, m.byte_pos, self.byte_pos));
                } else {
                    self.advance();
                    return Ok(Token::new(TokenType::Divide, m.position, m.line, m.column + 1, m.byte_pos, self.byte_pos));
                }
            }
            if c == '.' {
                if n1 == Some('.') && n2 == Some('.') {
                    self.advance_to(i + 3);
                    return Ok(Token::new(TokenType::Ellipsis, m.position, m.line, m.column + 1, m.byte_pos, self.byte_pos));
                } else if n1 == Some('.') && n2 == Some('=') {
                    self.advance_to(i + 3);
                    return Ok(Token::new(TokenType::RangeInclusive, m.position, m.line, m.column + 1, m.byte_pos, self.byte_pos));
                } else if n1 == Some('.') {
                    self.advance_to(i + 2);
                    return Ok(Token::new(TokenType::Range, m.position, m.line, m.column + 1, m.byte_pos, self.byte_pos));
                } else {
                    self.advance();
                    continue;
                }
            }
            if c == '@' {
                if n1 == Some('l') {
                    self.advance_to(i + 2);
                    let t = self.lex_raw_string(i, i + 2);
                    match t {
                        Ok(t) => {
                            return Ok(Token::new(t, m.position, m.line, m.column + 1, m.byte_pos, self.byte_pos));
                        },
                        Err(e) => {
                            return Err(e);
                        },
                    }
                }
                let at = match n1 {
                    Some(d) => at_token_exec(d),
                    None => None,
                };
                match at {
                    Some(t) => {
                        self.advance_to(i + 2);
                        return Ok(Token::new(t, m.position, m.line, m.column + 1, m.byte_pos, self.byte_pos));
                    },
                    None => {
                        self.advance();
                        continue;
                    },
                }
            }
            match single_char_token_exec(c) {
                Some(t) => {
                    self.advance();
                    return Ok(Token::new(t, m.position, m.line, m.column + 1, m.byte_pos, self.byte_pos));
                },
                None => {},
            }
            if c == '`' {
                let e = self.scan_ident_end(i + 1);
                proof {
                    lemma_ident_end(s, i + 1);
                }
                if e == i + 1 {
                    self.advance();
                    return Ok(Token::new(TokenType::Backtick, m.position, m.line, m.column + 1, m.byte_pos, self.byte_pos));
                }
                let text = sub_chars(&self.chars, i + 1, e);
                self.advance_to(e);
                let t = TokenType::Symbol(string_from_chars(text.as_slice()));
                return Ok(Token::new(t, m.position, m.line, m.column + 1, m.byte_pos, self.byte_pos));
            }
            if c == '"' {
                let t = self.lex_string();
                match t {
                    Ok(t) => {
                        return Ok(Token::new(t, m.position, m.line, m.column + 1, m.byte_pos, self.byte_pos));
                    },
                    Err(e) => {
                        return Err(e);
                    },
                }
            }
            if is_digit_exec(c) {
                let t = self.lex_number();
                match t {
                    Ok(t) => {
                        return Ok(Token::new(t, m.position, m.line, m.column + 1, m.byte_pos, self.byte_pos));
                    },
                    Err(e) => {
                        return Err(e);
                    },
                }
            }
            if is_alphabetic(c) || c == '_' {
                let e = self.scan_ident_end(i);
                proof {
                    lemma_ident_end(s, i as int);
                }
                let w = sub_chars(&self.chars, i, e);
                self.advance_to(e);
                let t = word_token_exec(&w);
                return Ok(Token::new(t, m.position, m.line, m.column + 1, m.byte_pos, self.byte_pos));
            }
            let err = self.syntax_error(i, i + 1, "unrecognized character");
            self.advance();
            return Err(err);
        }
    }

    /// All tokens from the current place up to and including the end-of-input token.
    pub fn tokenize(&mut self) -> (r: WqResult<Vec<Token>>)
        requires
            old(self).wf(),
        ensures
            final(self).wf(),
            final(self).src() == old(self).src(),
            lex_all(old(self).src(), old(self).pos()) matches Some(ts) ==> (r matches Ok(toks) && toks.len()
                == ts.len() && forall|k: int|
                0 <= k < ts.len() ==> token_agrees(
                    old(self).src(),
                    #[trigger] toks[k],
                    ts[k].0,
                    ts[k].1,
                    ts[k].2,
                )),
            lex_all(old(self).src(), old(self).pos()) is None ==> r is Err,
            r matches Err(e) ==> e.kind == WqErrorType::Syntax,
            r matches Ok(toks) ==> toks.len() > 0 && toks@.last().token_type is Eof && forall|k: int|
                0 <= k < toks.len() - 1 ==> !(#[trigger] toks@[k].token_type is Eof),
    {
        let ghost s = self.chars@;
        let ghost p0 = self.idx as int;
        let ghost mut done: Seq<(Tk, int, int)> = Seq::empty();
        let mut tokens: Vec<Token> = Vec::new();
        loop
            invariant
                self.wf(),
                self.chars@ == s,
                s == old(self).chars@,
                p0 == old(self).idx,
                self.idx <= s.len(),
                tokens.len() == done.len(),
                forall|k: int|
                    0 <= k < done.len() ==> token_agrees(s, #[trigger] tokens[k], done[k].0, done[k].1, done[k].2),
                lex_all(s, self.idx as int) matches Some(rest) ==> lex_all(s, p0) == Some(done + rest),
                lex_all(s, self.idx as int) is None ==> lex_all(s, p0) is None,
                forall|k: int| 0 <= k < tokens.len() ==> !(#[trigger] tokens@[k].token_type is Eof),
            decreases s.len() - self.idx,
        {
            let before = self.idx;
            let tok = match self.next_token() {
                Ok(t) => t,
                Err(e) => {
                    return Err(e);
                },
            };
            let is_eof = match tok.token_type {
                TokenType::Eof => true,
                _ => false,
            };
            let ghost entry = lex_at(s, before as int);
            if is_eof {
                proof {
                    let (t, st, e) = (entry->Tok_0, entry->Tok_1, entry->Tok_2);
                    assert(lex_all(s, before as int) == Some(seq![(t, st, e)]));
                    done = done + seq![(t, st, e)];
                }
                tokens.push(tok);
                proof {
                    assert(done + Seq::<(Tk, int, int)>::empty() =~= done);
                }
                return Ok(tokens);
            }
            if self.idx <= before {
                proof {
                    assert(lex_all(s, before as int) is None);
                }
                return Err(self.syntax_error(before, before, "no progress"));
            }
            proof {
                let (t, st, e) = (entry->Tok_0, entry->Tok_1, entry->Tok_2);
                if let Some(rest) = lex_all(s, e) {
                    assert(done + (seq![(t, st, e)] + rest) =~= (done + seq![(t, st, e)]) + rest);
                }
                done = done + seq![(t, st, e)];
            }
            tokens.push(tok);
        }
    }
}

} // verus!
