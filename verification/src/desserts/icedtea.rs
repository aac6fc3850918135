//! Text in a box drawn with `+`, `-` and `|`.

use vstd::prelude::*;
use crate::lexspec::utf8_size;
use crate::text::{append_chars, append_str, chars_of, repeat_char, split_chars, split_v, string_from_chars, lemma_split_nonempty};
use crate::lexer::{utf8_len, lemma_take_last, lemma_size_mono};

verus! {

/// A line without a carriage return at its end.
pub open spec fn strip_cr(l: Seq<char>) -> Seq<char> {
    if l.len() > 0 && l.last() == '\r' { l.drop_last() } else { l }
}

/// The lines of a text as `str::lines` gives them: split at line feeds, a carriage return
/// before a line feed dropped, and no empty line after a final line feed.
pub open spec fn lines_v(s: Seq<char>) -> Seq<Seq<char>> {
    let parts = split_v(s, '\n');
    let n = parts.len();
    let kept = if parts[n - 1].len() == 0 { n - 1 } else { n as int };
    Seq::new(kept as nat, |i: int| if i < n - 1 { strip_cr(parts[i]) } else { parts[i] })
}

/// The largest UTF-8 size among `ls[..k]`.
pub open spec fn max_size(ls: Seq<Seq<char>>, k: int) -> nat
    decreases k,
{
    if k <= 0 || k > ls.len() {
        0
    } else {
        let m = max_size(ls, k - 1);
        let s = utf8_size(ls[k - 1]);
        if s > m { s } else { m }
    }
}

/// `n` copies of a character.
pub open spec fn copies(c: char, n: nat) -> Seq<char> {
    Seq::new(n, |i: int| c)
}

/// The rows of the box for `ls[..k]`: each line between `|` and spaces, padded to `width`.
pub open spec fn box_rows(ls: Seq<Seq<char>>, pad: nat, width: nat, k: int) -> Seq<char>
    decreases k,
{
    if k <= 0 || k > ls.len() {
        Seq::empty()
    } else {
        box_rows(ls, pad, width, k - 1) + "|"@ + copies(' ', pad) + ls[k - 1] + copies(
            ' ',
            (pad + (width - utf8_size(ls[k - 1]))) as nat,
        ) + "|\n"@
    }
}

/// A text in a box: a border of `+` and `-`, then each line between `|` with `padding`
/// spaces on each side, padded to the longest line (lengths in UTF-8 bytes), then the border.
pub open spec fn boxed_text_v(text: Seq<char>, padding: nat) -> Seq<char> {
    let ls = lines_v(text);
    let width = max_size(ls, ls.len() as int);
    let border = "+"@ + copies('-', width + 2 * padding) + "+"@;
    border + "\n"@ + box_rows(ls, padding, width, ls.len() as int) + border
}

/// The UTF-8 size of a text that fits in a machine word.
fn size_of(v: &Vec<char>) -> (r: usize)
    requires
        utf8_size(v@) <= usize::MAX,
    ensures
        r == utf8_size(v@),
{
    let mut total: usize = 0;
    let mut i: usize = 0;
    while i < v.len()
        invariant
            i <= v.len(),
            utf8_size(v@) <= usize::MAX,
            total == utf8_size(v@.take(i as int)),
        decreases v.len() - i,
    {
        proof {
            lemma_take_last(v@, i as int);
            lemma_size_mono(v@, i + 1, v@.len() as int);
            assert(v@.take(v@.len() as int) =~= v@);
        }
        total = total + utf8_len(v[i]);
        i += 1;
    }
    assert(v@.take(v@.len() as int) =~= v@);
    total
}

/// The lines of a text.
pub fn lines_of(text: &str) -> (r: Vec<Vec<char>>)
    ensures
        r@.len() == lines_v(text@).len(),
        forall|i: int| 0 <= i < r@.len() ==> (#[trigger] r@[i])@ == lines_v(text@)[i],
{
    let v = chars_of(text);
    let parts = split_chars(&v, '\n');
    proof {
        lemma_split_nonempty(v@, '\n');
    }
    let n = parts.len();
    let kept = if parts[n - 1].len() == 0 { n - 1 } else { n };
    let mut out: Vec<Vec<char>> = Vec::new();
    let mut i: usize = 0;
    while i < kept
        invariant
            v@ == text@,
            n == parts@.len(),
            n == split_v(v@, '\n').len(),
            n >= 1,
            kept <= n,
            kept == lines_v(text@).len(),
            forall|k: int| 0 <= k < n ==> (#[trigger] parts@[k])@ == split_v(v@, '\n')[k],
            i <= kept,
            out@.len() == i,
            forall|k: int| 0 <= k < i ==> (#[trigger] out@[k])@ == lines_v(text@)[k],
        decreases kept - i,
    {
        let p = &parts[i];
        let mut line: Vec<char> = Vec::new();
        let mut j: usize = 0;
        let cut = if i < n - 1 && p.len() > 0 && p[p.len() - 1] == '\r' { p.len() - 1 } else { p.len() };
        while j < cut
            invariant
                j <= cut <= p@.len(),
                line@ == p@.take(j as int),
            decreases cut - j,
        {
            line.push(p[j]);
            assert(line@ =~= p@.take(j + 1));
            j += 1;
        }
        assert(line@ =~= lines_v(text@)[i as int]);
        out.push(line);
        i += 1;
    }
    out
}

/// A text in a box of `+`, `-` and `|`, with `padding` spaces on each side of each line.
pub fn create_boxed_text(text: &str, padding: usize) -> (r: String)
    requires
        max_size(lines_v(text@), lines_v(text@).len() as int) + 2 * padding + 2 <= usize::MAX,
    ensures
        r@ == boxed_text_v(text@, padding as nat),
{
    let lines = lines_of(text);
    let ghost ls = lines_v(text@);
    let ghost w = max_size(ls, ls.len() as int);
    assert forall|k: int| 0 <= k < ls.len() implies utf8_size(#[trigger] ls[k]) <= w by {
        lemma_max_size_ge(ls, ls.len() as int, k);
    }
    let mut max_len: usize = 0;
    let mut i: usize = 0;
    while i < lines.len()
        invariant
            i <= lines.len(),
            lines@.len() == ls.len(),
            forall|k: int| 0 <= k < lines@.len() ==> (#[trigger] lines@[k])@ == ls[k],
            max_len == max_size(ls, i as int),
            forall|k: int| 0 <= k < ls.len() ==> utf8_size(#[trigger] ls[k]) <= w,
            w == max_size(ls, ls.len() as int),
            w + 2 * padding + 2 <= usize::MAX,
            max_size(ls, i as int) <= w,
        decreases lines.len() - i,
    {
        let s = size_of(&lines[i]);
        if s > max_len {
            max_len = s;
        }
        proof {
            lemma_max_size_bound(ls, i as int + 1, w);
        }
        i += 1;
    }
    let total = max_len + padding * 2;
    let mut border = chars_of("+");
    let dashes = repeat_char('-', total);
    append_chars(&mut border, &dashes);
    append_str(&mut border, "+");
    assert(dashes@ =~= copies('-', (w + 2 * padding) as nat));
    let mut out: Vec<char> = Vec::new();
    append_chars(&mut out, &border);
    append_str(&mut out, "\n");
    let ghost head = out@;
    let mut k: usize = 0;
    while k < lines.len()
        invariant
            k <= lines.len(),
            lines@.len() == ls.len(),
            forall|j: int| 0 <= j < lines@.len() ==> (#[trigger] lines@[j])@ == ls[j],
            forall|j: int| 0 <= j < ls.len() ==> utf8_size(#[trigger] ls[j]) <= w,
            max_len == w,
            w + 2 * padding + 2 <= usize::MAX,
            out@ == head + box_rows(ls, padding as nat, w, k as int),
        decreases lines.len() - k,
    {
        let line = &lines[k];
        let s = size_of(line);
        let spaces = max_len - s;
        append_str(&mut out, "|");
        let left = repeat_char(' ', padding);
        append_chars(&mut out, &left);
        append_chars(&mut out, line);
        let right = repeat_char(' ', padding + spaces);
        append_chars(&mut out, &right);
        append_str(&mut out, "|\n");
        assert(left@ =~= copies(' ', padding as nat));
        assert(right@ =~= copies(' ', (padding + (w - utf8_size(ls[k as int]))) as nat));
        k += 1;
    }
    append_chars(&mut out, &border);
    string_from_chars(out.as_slice())
}

proof fn lemma_max_size_ge(ls: Seq<Seq<char>>, k: int, j: int)
    requires
        0 <= j < k <= ls.len(),
    ensures
        utf8_size(ls[j]) <= max_size(ls, k),
    decreases k,
{
    if j < k - 1 {
        lemma_max_size_ge(ls, k - 1, j);
    }
}

proof fn lemma_max_size_bound(ls: Seq<Seq<char>>, k: int, w: nat)
    requires
        0 <= k <= ls.len(),
        forall|j: int| 0 <= j < ls.len() ==> utf8_size(#[trigger] ls[j]) <= w,
    ensures
        max_size(ls, k) <= w,
    decreases k,
{
    if k > 0 {
        lemma_max_size_bound(ls, k - 1, w);
    }
}

} // verus!
