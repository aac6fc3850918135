//! String builtins: conversion to text, templates, grapheme counts, words and trimming.

use vstd::prelude::*;
use crate::builtin_table::{STR, FMT, GRAPHEMES, WS_Q, WORDS, TRIM, TRIM_S, TRIM_E};
use crate::builtins::typeb::text_val;
use crate::builtins::wqerror_helper::{check_arity, is_arity_error, is_type_mismatch, builtin_src, builtin_src_v, type_mismatch};
use crate::error::{WqError, WqErrorType, WqResult};
use crate::text::{
    append_chars, append_str, chars_of, decimal_digits, string_from_chars, trim_chars, trim_end_chars,
    trim_start_chars, trim_end_v, trim_start_v, trim_v, unicode_whitespace, usize_to_decimal,
};
use crate::value::{Value, Val, display_v, is_str_v, text_of_v, str_value, lemma_vals_push, lemma_list_view, vals};
use unicode_segmentation::UnicodeSegmentation;

verus! {

/// The number of extended grapheme clusters of a string, as `unicode_segmentation` counts them.
pub uninterp spec fn grapheme_count_v(s: Seq<char>) -> nat;

/// The pieces of a string between its word boundaries, as `unicode_segmentation` splits it.
pub uninterp spec fn word_bounds_v(s: Seq<char>) -> Seq<Seq<char>>;

/// The concatenation of some texts.
pub open spec fn concat_texts(ps: Seq<Seq<char>>) -> Seq<char>
    decreases ps.len(),
{
    if ps.len() == 0 {
        Seq::empty()
    } else {
        concat_texts(ps.drop_last()) + ps.last()
    }
}

/// Counts the extended grapheme clusters of `s` with `UnicodeSegmentation::graphemes(s, true)`;
/// the count is `grapheme_count_v(s@)`, and no cluster is empty, so it is at most the number
/// of characters.
#[verifier::external_body]
fn grapheme_count(s: &str) -> (n: usize)
    ensures
        n == grapheme_count_v(s@),
        n <= s@.len(),
{
    s.graphemes(true).count()
}

/// Splits `s` at its word boundaries with `UnicodeSegmentation::split_word_bounds`; the
/// pieces are `word_bounds_v(s@)`, and, as the crate documents, their concatenation is `s`.
#[verifier::external_body]
fn word_bounds(s: &str) -> (r: Vec<String>)
    ensures
        r@.map_values(|x: String| x@) == word_bounds_v(s@),
        concat_texts(r@.map_values(|x: String| x@)) == s@,
{
    s.split_word_bounds().map(|w| w.to_string()).collect()
}

/// What `str[x]` gives: a string as it is; any other value as its text.
pub open spec fn to_str_ok(args: Seq<Value>, r: WqResult<Value>) -> bool {
    if args.len() != 1 {
        r matches Err(e) && is_arity_error(e, STR as int, seq![1usize], args.len())
    } else if is_str_v(args[0]@) {
        r matches Ok(v) && v@ == args[0]@
    } else {
        r matches Ok(v) && v@ == text_val(display_v(args[0]@))
    }
}

/// `str[x]`: the text of a value.
pub fn to_str(args: &[Value]) -> (r: WqResult<Value>)
    ensures
        to_str_ok(args@, r),
{
    let arity: [usize; 1] = [1];
    assert(arity@ =~= seq![1usize]);
    check_arity(STR, &arity, args)?;
    if args[0].is_str() {
        return Ok(args[0].clone());
    }
    let t = args[0].display_chars();
    Ok(str_value(&t))
}

/// Puts an element before the pieces of a template, if they parsed.
pub open spec fn prepend_part(x: Option<char>, r: Result<Seq<Option<char>>, int>) -> Result<Seq<Option<char>>, int> {
    match r {
        Ok(s) => Ok(seq![x] + s),
        Err(p) => Err(p),
    }
}

/// Puts some pieces before the pieces of a template, if they parsed.
pub open spec fn join_parts(done: Seq<Option<char>>, r: Result<Seq<Option<char>>, int>) -> Result<Seq<Option<char>>, int> {
    match r {
        Ok(s) => Ok(done + s),
        Err(p) => Err(p),
    }
}

/// The pieces of a `fmt` template from position `i` on: characters, where `{{` and `}}` give
/// one brace, and placeholders `{}` (as `None`); `Err` with the position of the first brace
/// that is neither.
pub open spec fn fmt_parts(t: Seq<char>, i: int) -> Result<Seq<Option<char>>, int>
    decreases t.len() - i,
{
    if i < 0 || i >= t.len() {
        Ok(Seq::empty())
    } else if t[i] == '{' {
        if i + 1 < t.len() && t[i + 1] == '{' {
            prepend_part(Some('{'), fmt_parts(t, i + 2))
        } else if i + 1 < t.len() && t[i + 1] == '}' {
            prepend_part(None, fmt_parts(t, i + 2))
        } else {
            Err(i)
        }
    } else if t[i] == '}' {
        if i + 1 < t.len() && t[i + 1] == '}' {
            prepend_part(Some('}'), fmt_parts(t, i + 2))
        } else {
            Err(i)
        }
    } else {
        prepend_part(Some(t[i]), fmt_parts(t, i + 1))
    }
}

/// The number of placeholders among some pieces.
pub open spec fn holes(parts: Seq<Option<char>>) -> nat
    decreases parts.len(),
{
    if parts.len() == 0 {
        0
    } else {
        holes(parts.drop_last()) + if parts.last() is None { 1nat } else { 0nat }
    }
}

/// The text of some pieces, placeholder `k` replaced by `texts[k]`.
pub open spec fn render(parts: Seq<Option<char>>, texts: Seq<Seq<char>>) -> Seq<char>
    decreases parts.len(),
{
    if parts.len() == 0 {
        Seq::empty()
    } else {
        render(parts.drop_last(), texts) + match parts.last() {
            Some(c) => seq![c],
            None => texts[holes(parts.drop_last()) as int],
        }
    }
}

/// The text that `fmt` puts for a value: the characters of a string or a character, the text
/// of any other value.
pub open spec fn arg_text_v(v: Val) -> Seq<char> {
    match text_of_v(v) {
        Some(t) => t,
        None => display_v(v),
    }
}

/// The texts of the values after the template.
pub open spec fn fmt_texts(args: Seq<Value>) -> Seq<Seq<char>> {
    Seq::new((args.len() - 1) as nat, |k: int| arg_text_v(args[k + 1]@))
}

/// What `fmt[template;args...]` gives: the template with its placeholders replaced, in
/// order, by the texts of the arguments; an error without a template, for a template that is
/// not text, for a lone brace, and where the number of arguments is not that of the
/// placeholders.
pub open spec fn fmt_ok(args: Seq<Value>, r: WqResult<Value>) -> bool {
    if args.len() == 0 {
        r matches Err(e) && e.kind == WqErrorType::Arity && e.msg@ == "expected at least 1 arg, got 0"@
    } else {
        match text_of_v(args[0]@) {
            None => r matches Err(e) && e.kind == WqErrorType::Domain && e.src@ == builtin_src_v(FMT as int)
                && e.msg@ == "expected char or list<char>"@,
            Some(t) => match fmt_parts(t, 0) {
                Err(p) => r matches Err(e) && e.kind == WqErrorType::Domain && e.src@ == builtin_src_v(FMT as int)
                    && e.msg@ == "unescaped '{'; use '{{' for a literal or '{}' for a placeholder"@
                    && e.notes@.len() == 2 && e.notes@[0]@ == "at template pos "@ + decimal_digits(p as nat),
                Ok(parts) => if holes(parts) != args.len() - 1 {
                    r matches Err(e) && e.kind == WqErrorType::Arity && e.src@ == builtin_src_v(FMT as int)
                        && e.msg@ == "expected "@ + decimal_digits(holes(parts)) + ", got "@ + decimal_digits(
                        (args.len() - 1) as nat,
                    )
                } else {
                    r matches Ok(v) && v@ == text_val(render(parts, fmt_texts(args)))
                },
            },
        }
    }
}

proof fn lemma_join_prepend(done: Seq<Option<char>>, x: Option<char>, r: Result<Seq<Option<char>>, int>)
    ensures
        join_parts(done, prepend_part(x, r)) == join_parts(done.push(x), r),
{
    if let Ok(s) = r {
        assert(done + (seq![x] + s) =~= done.push(x) + s);
    }
}

/// The text of a value as `fmt` puts it.
fn arg_text(v: &Value) -> (r: Vec<char>)
    ensures
        r@ == arg_text_v(v@),
{
    match v.try_to_string() {
        Ok(s) => chars_of(s.as_str()),
        Err(_) => v.display_chars(),
    }
}

/// Reads a `fmt` template into pieces; `Err` with the position of a lone brace.
fn parse_template(t: &Vec<char>) -> (r: Result<Vec<Option<char>>, usize>)
    ensures
        match fmt_parts(t@, 0) {
            Ok(p) => r matches Ok(x) && x@ == p,
            Err(p) => r matches Err(q) && q as int == p,
        },
{
    let mut parts: Vec<Option<char>> = Vec::new();
    let mut i: usize = 0;
    let n = t.len();
    assert(parts@ + Seq::<Option<char>>::empty() =~= parts@);
    while i < n
        invariant
            n == t@.len(),
            i <= n + 1,
            fmt_parts(t@, 0) == join_parts(parts@, fmt_parts(t@, i as int)),
        decreases n + 1 - i,
    {
        let c = t[i];
        let next: Option<char> = if i + 1 < n { Some(t[i + 1]) } else { None };
        if c == '{' {
            if next == Some('{') {
                proof {
                    lemma_join_prepend(parts@, Some('{'), fmt_parts(t@, i + 2));
                }
                parts.push(Some('{'));
                i += 2;
            } else if next == Some('}') {
                proof {
                    lemma_join_prepend(parts@, None, fmt_parts(t@, i + 2));
                }
                parts.push(None);
                i += 2;
            } else {
                return Err(i);
            }
        } else if c == '}' {
            if next == Some('}') {
                proof {
                    lemma_join_prepend(parts@, Some('}'), fmt_parts(t@, i + 2));
                }
                parts.push(Some('}'));
                i += 2;
            } else {
                return Err(i);
            }
        } else {
            proof {
                lemma_join_prepend(parts@, Some(c), fmt_parts(t@, i + 1));
            }
            parts.push(Some(c));
            i += 1;
        }
    }
    assert(parts@ + Seq::<Option<char>>::empty() =~= parts@);
    Ok(parts)
}

/// The number of placeholders among some pieces.
fn count_holes(parts: &Vec<Option<char>>) -> (n: usize)
    ensures
        n == holes(parts@),
{
    let mut n: usize = 0;
    let mut j: usize = 0;
    while j < parts.len()
        invariant
            j <= parts@.len(),
            n == holes(parts@.take(j as int)),
            n <= j,
        decreases parts.len() - j,
    {
        assert(parts@.take(j + 1).drop_last() =~= parts@.take(j as int));
        if parts[j].is_none() {
            n += 1;
        }
        j += 1;
    }
    assert(parts@.take(parts@.len() as int) =~= parts@);
    n
}

proof fn lemma_holes_prefix(parts: Seq<Option<char>>, j: int)
    requires
        0 <= j <= parts.len(),
    ensures
        holes(parts.take(j)) <= holes(parts),
    decreases parts.len() - j,
{
    if j < parts.len() {
        lemma_holes_prefix(parts, j + 1);
        assert(parts.take(j + 1).drop_last() =~= parts.take(j));
    } else {
        assert(parts.take(j) =~= parts);
    }
}

/// Fills the placeholders of some pieces with texts, in order.
fn render_parts(parts: &Vec<Option<char>>, texts: &Vec<Vec<char>>) -> (r: Vec<char>)
    requires
        holes(parts@) == texts@.len(),
    ensures
        r@ == render(parts@, texts@.map_values(|x: Vec<char>| x@)),
{
    let ghost ts = texts@.map_values(|x: Vec<char>| x@);
    let mut out: Vec<char> = Vec::new();
    let mut h: usize = 0;
    let mut j: usize = 0;
    while j < parts.len()
        invariant
            j <= parts@.len(),
            holes(parts@) == texts@.len(),
            ts == texts@.map_values(|x: Vec<char>| x@),
            h == holes(parts@.take(j as int)),
            out@ == render(parts@.take(j as int), ts),
        decreases parts.len() - j,
    {
        assert(parts@.take(j + 1).drop_last() =~= parts@.take(j as int));
        assert(parts@.take(j + 1).last() == parts@[j as int]);
        match parts[j] {
            Some(c) => {
                out.push(c);
                assert(out@ =~= render(parts@.take(j + 1), ts));
            },
            None => {
                proof {
                    lemma_holes_prefix(parts@, j + 1);
                }
                assert(h < texts.len());
                append_chars(&mut out, &texts[h]);
                h += 1;
            },
        }
        j += 1;
    }
    assert(parts@.take(parts@.len() as int) =~= parts@);
    out
}

/// `fmt[template;args...]`: a template with its `{}` placeholders filled in.
pub fn fmt(args: &[Value]) -> (r: WqResult<Value>)
    ensures
        fmt_ok(args@, r),
{
    if args.len() == 0 {
        return Err(WqError::new(WqErrorType::Arity).msg("expected at least 1 arg, got 0"));
    }
    let template = match args[0].try_to_string() {
        Ok(s) => chars_of(s.as_str()),
        Err(_) => {
            return Err(
                WqError::new(WqErrorType::Domain).src(builtin_src(FMT).as_str()).msg("expected char or list<char>").at_arg(
                    0,
                ),
            );
        },
    };
    let parts = match parse_template(&template) {
        Ok(p) => p,
        Err(pos) => {
            let mut note = chars_of("at template pos ");
            let d = usize_to_decimal(pos);
            append_chars(&mut note, &d);
            return Err(
                WqError::new(WqErrorType::Domain).src(builtin_src(FMT).as_str()).msg(
                    "unescaped '{'; use '{{' for a literal or '{}' for a placeholder",
                ).attach_note(string_from_chars(note.as_slice())).at_arg(0),
            );
        },
    };
    let needed = count_holes(&parts);
    let provided = args.len() - 1;
    if needed != provided {
        let mut m = chars_of("expected ");
        append_chars(&mut m, &usize_to_decimal(needed));
        append_str(&mut m, ", got ");
        append_chars(&mut m, &usize_to_decimal(provided));
        let ms = string_from_chars(m.as_slice());
        return Err(WqError::new(WqErrorType::Arity).src(builtin_src(FMT).as_str()).msg(ms.as_str()));
    }
    let mut texts: Vec<Vec<char>> = Vec::new();
    let mut k: usize = 1;
    while k < args.len()
        invariant
            1 <= k <= args@.len(),
            texts@.len() == k - 1,
            forall|q: int| 0 <= q < k - 1 ==> #[trigger] texts@[q]@ == arg_text_v(args@[q + 1]@),
        decreases args.len() - k,
    {
        texts.push(arg_text(&args[k]));
        k += 1;
    }
    assert(texts@.map_values(|x: Vec<char>| x@) =~= fmt_texts(args@));
    let out = render_parts(&parts, &texts);
    Ok(str_value(&out))
}

/// What a builtin that reads one string argument gives where it is not a string: the error
/// of `try_to_string`, with the builtin as its source.
pub open spec fn text_arg_error(e: WqError, id: int) -> bool {
    e.kind == WqErrorType::Type && e.src@ == builtin_src_v(id)
}

/// The text of the one argument of a builtin.
fn text_arg(id: usize, v: &Value) -> (r: WqResult<Vec<char>>)
    requires
        id < crate::builtin_table::BUILTIN_COUNT,
    ensures
        match text_of_v(v@) {
            Some(t) => r matches Ok(x) && x@ == t,
            None => r matches Err(e) && text_arg_error(e, id as int),
        },
{
    match v.try_to_string() {
        Ok(s) => Ok(chars_of(s.as_str())),
        Err(e) => Err(e.src(builtin_src(id).as_str())),
    }
}

/// What `graphemes[s]` gives: the number of extended grapheme clusters of a string.
pub open spec fn graphemes_ok(args: Seq<Value>, r: WqResult<Value>) -> bool {
    if args.len() != 1 {
        r matches Err(e) && is_arity_error(e, GRAPHEMES as int, seq![1usize], args.len())
    } else {
        match text_of_v(args[0]@) {
            None => r matches Err(e) && text_arg_error(e, GRAPHEMES as int),
            Some(t) => r matches Ok(v) && v@ == Val::Int(grapheme_count_v(t) as i64),
        }
    }
}

/// `graphemes[s]`: the number of user-perceived characters of a string.
pub fn graphemes(args: &[Value]) -> (r: WqResult<Value>)
    requires
        args@.len() == 1 ==> (text_of_v(args@[0]@) matches Some(t) ==> t.len() <= i64::MAX),
    ensures
        graphemes_ok(args@, r),
{
    let arity: [usize; 1] = [1];
    assert(arity@ =~= seq![1usize]);
    check_arity(GRAPHEMES, &arity, args)?;
    let t = text_arg(GRAPHEMES, &args[0])?;
    let s = string_from_chars(t.as_slice());
    let n = grapheme_count(s.as_str());
    Ok(Value::Int(n as i64))
}

/// Whether a text holds something besides whitespace.
pub open spec fn has_content(p: Seq<char>) -> bool {
    trim_v(p).len() > 0
}

/// The pieces among the first `k` that hold something besides whitespace, as strings.
pub open spec fn word_vals(ps: Seq<Seq<char>>, k: int) -> Seq<Val>
    decreases k,
{
    if k <= 0 || k > ps.len() {
        Seq::empty()
    } else if has_content(ps[k - 1]) {
        word_vals(ps, k - 1).push(text_val(ps[k - 1]))
    } else {
        word_vals(ps, k - 1)
    }
}

/// What `words[s]` gives: the pieces of a string between its word boundaries, but for those
/// that are whitespace only.
pub open spec fn words_ok(args: Seq<Value>, r: WqResult<Value>) -> bool {
    if args.len() != 1 {
        r matches Err(e) && is_arity_error(e, WORDS as int, seq![1usize], args.len())
    } else {
        match text_of_v(args[0]@) {
            None => r matches Err(e) && text_arg_error(e, WORDS as int),
            Some(t) => {
                let ps = word_bounds_v(t);
                r matches Ok(v) && v@ == Val::List(word_vals(ps, ps.len() as int))
            },
        }
    }
}

/// `words[s]`: the words of a string, split at Unicode word boundaries.
pub fn words(args: &[Value]) -> (r: WqResult<Value>)
    ensures
        words_ok(args@, r),
{
    let arity: [usize; 1] = [1];
    assert(arity@ =~= seq![1usize]);
    check_arity(WORDS, &arity, args)?;
    let t = text_arg(WORDS, &args[0])?;
    let s = string_from_chars(t.as_slice());
    let pieces = word_bounds(s.as_str());
    let ghost ps = word_bounds_v(t@);
    assert(pieces@.len() == ps.len());
    assert(forall|q: int| 0 <= q < pieces@.len() ==> #[trigger] pieces@[q]@ == ps[q]) by {
        assert forall|q: int| 0 <= q < pieces@.len() implies #[trigger] pieces@[q]@ == ps[q] by {
            assert(pieces@.map_values(|x: String| x@)[q] == pieces@[q]@);
        }
    }
    let mut out: Vec<Value> = Vec::new();
    let mut i: usize = 0;
    while i < pieces.len()
        invariant
            pieces@.len() == ps.len(),
            forall|q: int| 0 <= q < pieces@.len() ==> #[trigger] pieces@[q]@ == ps[q],
            i <= pieces@.len(),
            vals(out@) == word_vals(ps, i as int),
        decreases pieces.len() - i,
    {
        let p = chars_of(pieces[i].as_str());
        let trimmed = trim_chars(&p);
        if trimmed.len() > 0 {
            let x = str_value(&p);
            let ghost before = out@;
            out.push(x);
            proof {
                lemma_vals_push(before, x);
            }
        }
        i += 1;
    }
    proof {
        lemma_list_view(out);
    }
    Ok(Value::List(out))
}

/// Which end of a string a trim removes whitespace from.
pub enum TrimEnds {
    Both,
    Start,
    End,
}

/// A string trimmed at some ends.
pub open spec fn trimmed_v(ends: TrimEnds, t: Seq<char>) -> Seq<char> {
    match ends {
        TrimEnds::Both => trim_v(t),
        TrimEnds::Start => trim_start_v(t),
        TrimEnds::End => trim_end_v(t),
    }
}

/// What `trim`, `trim_start` and `trim_end` give: the string without the whitespace at
/// those ends.
pub open spec fn trim_ok(id: int, ends: TrimEnds, args: Seq<Value>, r: WqResult<Value>) -> bool {
    if args.len() != 1 {
        r matches Err(e) && is_arity_error(e, id, seq![1usize], args.len())
    } else {
        match text_of_v(args[0]@) {
            None => r matches Err(e) && text_arg_error(e, id),
            Some(t) => r matches Ok(v) && v@ == text_val(trimmed_v(ends, t)),
        }
    }
}

fn trim_builtin(id: usize, ends: TrimEnds, args: &[Value]) -> (r: WqResult<Value>)
    requires
        id < crate::builtin_table::BUILTIN_COUNT,
    ensures
        trim_ok(id as int, ends, args@, r),
{
    let arity: [usize; 1] = [1];
    assert(arity@ =~= seq![1usize]);
    check_arity(id, &arity, args)?;
    let t = text_arg(id, &args[0])?;
    let out = match ends {
        TrimEnds::Both => trim_chars(&t),
        TrimEnds::Start => trim_start_chars(&t),
        TrimEnds::End => trim_end_chars(&t),
    };
    Ok(str_value(&out))
}

/// `trim[s]`: a string without leading or trailing whitespace.
pub fn trim(args: &[Value]) -> (r: WqResult<Value>)
    ensures
        trim_ok(TRIM as int, TrimEnds::Both, args@, r),
{
    trim_builtin(TRIM, TrimEnds::Both, args)
}

/// `trim_start[s]`: a string without leading whitespace.
pub fn trim_start(args: &[Value]) -> (r: WqResult<Value>)
    ensures
        trim_ok(TRIM_S as int, TrimEnds::Start, args@, r),
{
    trim_builtin(TRIM_S, TrimEnds::Start, args)
}

/// `trim_end[s]`: a string without trailing whitespace.
pub fn trim_end(args: &[Value]) -> (r: WqResult<Value>)
    ensures
        trim_ok(TRIM_E as int, TrimEnds::End, args@, r),
{
    trim_builtin(TRIM_E, TrimEnds::End, args)
}

/// `ws?[c]`: whether a character is whitespace.
pub fn is_whitespace(args: &[Value]) -> (r: WqResult<Value>)
    ensures
        args@.len() != 1 ==> (r matches Err(e) && is_arity_error(e, WS_Q as int, seq![1usize], args@.len())),
        args@.len() == 1 ==> match args@[0]@ {
            Val::Char(c) => r matches Ok(v) && v@ == Val::Bool(unicode_whitespace(c)),
            x => r matches Err(e) && is_type_mismatch(e, WS_Q as int, 0, "char"@, x),
        },
{
    let arity: [usize; 1] = [1];
    assert(arity@ =~= seq![1usize]);
    check_arity(WS_Q, &arity, args)?;
    match &args[0] {
        Value::Char(c) => Ok(Value::Bool(crate::text::is_whitespace(*c))),
        v => Err(type_mismatch(WS_Q, 0, "char", v)),
    }
}

} // verus!
