//! Quoting text as a string literal that the lexer reads back.

use vstd::prelude::*;
use crate::lexspec::{unescape, simple_escape, string_close, string_at, Lexed};
use crate::token::Tk;
use crate::text::{chars_of, string_from_chars};

verus! {

/// The escaped form of one character inside a literal quoted with `delim`.
pub open spec fn escape_char(c: char, delim: char) -> Seq<char> {
    if c == '\\' {
        seq!['\\', '\\']
    } else if c == '\n' {
        seq!['\\', 'n']
    } else if c == '\t' {
        seq!['\\', 't']
    } else if c == '\r' {
        seq!['\\', 'r']
    } else if c == '\0' {
        seq!['\\', '0']
    } else if c == delim {
        seq!['\\', delim]
    } else {
        seq![c]
    }
}

/// The escaped form of a text inside a literal quoted with `delim`.
pub open spec fn escape_v(s: Seq<char>, delim: char) -> Seq<char>
    decreases s.len(),
{
    if s.len() == 0 {
        Seq::empty()
    } else {
        escape_v(s.drop_last(), delim) + escape_char(s.last(), delim)
    }
}

/// A text quoted with `delim`, its special characters escaped.
pub open spec fn quote_v(s: Seq<char>, delim: char) -> Seq<char> {
    seq![delim] + escape_v(s, delim) + seq![delim]
}

/// Quotes a text with `delim`, escaping the backslash, newline, tab, carriage return, NUL
/// and the delimiter.
pub fn quote_string(s: &str, delim: char) -> (r: String)
    ensures
        r@ == quote_v(s@, delim),
{
    let v = chars_of(s);
    let mut out: Vec<char> = Vec::new();
    out.push(delim);
    let mut i: usize = 0;
    while i < v.len()
        invariant
            i <= v.len(),
            v@ == s@,
            out@ == seq![delim] + escape_v(v@.take(i as int), delim),
        decreases v.len() - i,
    {
        let c = v[i];
        if c == '\\' {
            out.push('\\');
            out.push('\\');
        } else if c == '\n' {
            out.push('\\');
            out.push('n');
        } else if c == '\t' {
            out.push('\\');
            out.push('t');
        } else if c == '\r' {
            out.push('\\');
            out.push('r');
        } else if c == '\0' {
            out.push('\\');
            out.push('0');
        } else if c == delim {
            out.push('\\');
            out.push(delim);
        } else {
            out.push(c);
        }
        assert(v@.take(i + 1).drop_last() =~= v@.take(i as int));
        assert(out@ =~= seq![delim] + escape_v(v@.take(i + 1), delim));
        i += 1;
    }
    out.push(delim);
    assert(v@.take(v.len() as int) =~= v@);
    string_from_chars(out.as_slice())
}

/// Escaping distributes over concatenation.
pub proof fn lemma_escape_concat(a: Seq<char>, b: Seq<char>, delim: char)
    ensures
        escape_v(a + b, delim) == escape_v(a, delim) + escape_v(b, delim),
    decreases b.len(),
{
    if b.len() == 0 {
        assert(a + b =~= a);
        assert(escape_v(a, delim) + escape_v(b, delim) =~= escape_v(a, delim));
    } else {
        lemma_escape_concat(a, b.drop_last(), delim);
        assert((a + b).drop_last() =~= a + b.drop_last());
        assert((a + b).last() == b.last());
        assert(escape_v(a + b, delim) =~= escape_v(a, delim) + escape_v(b, delim));
    }
}

/// The escaped form of one character.
proof fn lemma_escape_single(c: char, delim: char)
    ensures
        escape_v(seq![c], delim) == escape_char(c, delim),
{
    assert(seq![c].drop_last() =~= Seq::<char>::empty());
    assert(escape_v(Seq::<char>::empty(), delim) =~= Seq::<char>::empty());
    assert(escape_v(seq![c], delim) =~= escape_char(c, delim));
}

/// The escaped form of a text, split at its first character.
proof fn lemma_escape_first(s: Seq<char>, delim: char)
    requires
        s.len() > 0,
    ensures
        escape_v(s, delim) == escape_char(s[0], delim) + escape_v(s.drop_first(), delim),
{
    assert(s =~= seq![s[0]] + s.drop_first());
    lemma_escape_concat(seq![s[0]], s.drop_first(), delim);
    lemma_escape_single(s[0], delim);
}

/// Reading the escapes back gives the text: unescaping what was escaped for `"` or `'`
/// is the identity.
pub proof fn law_unescape_escape(s: Seq<char>, delim: char)
    requires
        delim == '"' || delim == '\'',
    ensures
        unescape(escape_v(s, delim)) == Some(s),
    decreases s.len(),
{
    if s.len() > 0 {
        lemma_escape_first(s, delim);
        law_unescape_escape(s.drop_first(), delim);
        let c = s[0];
        let e = escape_char(c, delim);
        let t = escape_v(s.drop_first(), delim);
        let r = e + t;
        if e.len() == 1 {
            assert(r[0] == c);
            assert(c != '\\');
            assert(r.drop_first() =~= t);
        } else {
            assert(r[0] == '\\');
            assert(r[1] != 'u');
            assert(simple_escape(r[1]) == Some(c));
            assert(r.skip(2) =~= t);
        }
        assert(s =~= seq![c] + s.drop_first());
    } else {
        assert(escape_v(s, delim) =~= Seq::<char>::empty());
    }
}

/// The scan for the closing quote of a quoted text, from the escape of any character on,
/// ends at the final quote.
#[verifier::rlimit(40)]
proof fn lemma_close_from(s: Seq<char>, k: int)
    requires
        0 <= k <= s.len(),
    ensures
        string_close(quote_v(s, '"'), 1 + escape_v(s.take(k), '"').len() as int) == Some(
            (quote_v(s, '"').len() - 1) as int,
        ),
    decreases s.len() - k,
{
    let q = quote_v(s, '"');
    let p: int = 1 + escape_v(s.take(k), '"').len() as int;
    lemma_escape_concat(s.take(k), s.skip(k), '"');
    assert(s.take(k) + s.skip(k) =~= s);
    if k == s.len() {
        assert(s.skip(k) =~= Seq::<char>::empty());
        assert(escape_v(s.skip(k), '"') =~= Seq::<char>::empty());
        assert(q[p] == '"');
    } else {
        lemma_escape_first(s.skip(k), '"');
        assert(s.skip(k)[0] == s[k]);
        assert(s.skip(k).drop_first() =~= s.skip(k + 1));
        let e = escape_char(s[k], '"');
        assert(s.take(k + 1) =~= s.take(k) + seq![s[k]]);
        lemma_escape_concat(s.take(k), seq![s[k]], '"');
        lemma_escape_single(s[k], '"');
        lemma_close_from(s, k + 1);
        assert(q[p] == e[0]);
        if e.len() == 2 {
            assert(q[p + 1] == e[1]);
        }
    }
}

/// A quoted text is read back by the lexer as the same text: the string token of
/// `quote_string(s, '"')` holds `s` (a one-character text reads as a character).
pub proof fn law_lex_quoted_string(s: Seq<char>)
    ensures
        string_at(quote_v(s, '"'), 0) == (if s.len() == 1 {
            Lexed::Tok(Tk::Character(s[0]), 0, quote_v(s, '"').len() as int)
        } else {
            Lexed::Tok(Tk::Str(s), 0, quote_v(s, '"').len() as int)
        }),
{
    let q = quote_v(s, '"');
    assert(s.take(0) =~= Seq::<char>::empty());
    assert(escape_v(s.take(0), '"') =~= Seq::<char>::empty());
    lemma_close_from(s, 0);
    assert(q.subrange(1, q.len() - 1) =~= escape_v(s, '"'));
    law_unescape_escape(s, '"');
}

} // verus!
