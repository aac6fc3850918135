//! `format`: a template with backslash escapes and `{}` placeholders.

use vstd::prelude::*;
use crate::builtins::str_builtins::{holes, render};
use crate::builtins::typeb::text_val;
use crate::error::{WqError, WqErrorType, WqResult};
use crate::text::{append_chars, chars_of};
use crate::value::{Value, Val, display_v, text_of_v, str_value};

verus! {

/// The pieces of a `format` template from position `i` on: `\\` gives a backslash and `\n`
/// a newline, `{{` and `}}` give one brace, `{}` is a placeholder (`None`); any other
/// character, a lone brace or backslash among them, stands for itself.
pub open spec fn format_parts(t: Seq<char>, i: int) -> Seq<Option<char>>
    decreases t.len() - i,
{
    if i < 0 || i >= t.len() {
        Seq::empty()
    } else {
        let next: Option<char> = if i + 1 < t.len() { Some(t[i + 1]) } else { None };
        if t[i] == '\\' && next == Some('\\') {
            seq![Some('\\')] + format_parts(t, i + 2)
        } else if t[i] == '\\' && next == Some('n') {
            seq![Some('\n')] + format_parts(t, i + 2)
        } else if t[i] == '{' && next == Some('{') {
            seq![Some('{')] + format_parts(t, i + 2)
        } else if t[i] == '{' && next == Some('}') {
            seq![None] + format_parts(t, i + 2)
        } else if t[i] == '}' && next == Some('}') {
            seq![Some('}')] + format_parts(t, i + 2)
        } else {
            seq![Some(t[i])] + format_parts(t, i + 1)
        }
    }
}

/// The texts of the values after the template.
pub open spec fn format_texts(args: Seq<Value>) -> Seq<Seq<char>> {
    Seq::new((args.len() - 1) as nat, |k: int| display_v(args[k + 1]@))
}

/// What `format_string` gives: the template with its escapes read and its placeholders
/// replaced, in order, by the texts of the arguments; an error without a template, for a
/// template that is not text, and where there are more or fewer arguments than
/// placeholders.
pub open spec fn format_ok(args: Seq<Value>, r: WqResult<Value>) -> bool {
    if args.len() == 0 {
        r matches Err(e) && e.kind == WqErrorType::Arity && e.msg@ == "format expects at least 1 argument"@
    } else {
        match text_of_v(args[0]@) {
            None => r matches Err(e) && e.kind == WqErrorType::Type,
            Some(t) => {
                let parts = format_parts(t, 0);
                if holes(parts) > args.len() - 1 {
                    r matches Err(e) && e.kind == WqErrorType::Arity && e.msg@ == "format expects more arguments"@
                } else if holes(parts) < args.len() - 1 {
                    r matches Err(e) && e.kind == WqErrorType::Arity && e.msg@ == "too many arguments for format"@
                } else {
                    r matches Ok(v) && v@ == text_val(render(parts, format_texts(args)))
                }
            },
        }
    }
}

/// Formats a template: `format_string[template;args...]`.
pub fn format_string(args: &[Value]) -> (r: WqResult<Value>)
    ensures
        format_ok(args@, r),
{
    if args.len() == 0 {
        return Err(WqError::new(WqErrorType::Arity).msg("format expects at least 1 argument"));
    }
    let s = args[0].try_to_string()?;
    let t = chars_of(s.as_str());
    let n = t.len();
    let mut out: Vec<char> = Vec::new();
    let mut i: usize = 0;
    let mut arg_idx: usize = 0;
    let ghost texts = format_texts(args@);
    let ghost all = format_parts(t@, 0);
    let ghost mut done: Seq<Option<char>> = Seq::empty();
    assert(done + format_parts(t@, 0) =~= all);
    while i < n
        invariant
            n == t@.len(),
            i <= n + 1,
            args@.len() >= 1,
            text_of_v(args@[0]@) == Some(t@),
            texts == format_texts(args@),
            all == format_parts(t@, 0),
            all == done + format_parts(t@, i as int),
            arg_idx == holes(done),
            arg_idx <= args@.len() - 1,
            out@ == render(done, texts),
        decreases n + 1 - i,
    {
        let c = t[i];
        let next: Option<char> = if i + 1 < n { Some(t[i + 1]) } else { None };
        let ghost rest = format_parts(t@, i as int);
        let piece: Option<char>;
        let step: usize;
        if c == '\\' && next == Some('\\') {
            piece = Some('\\');
            step = 2;
        } else if c == '\\' && next == Some('n') {
            piece = Some('\n');
            step = 2;
        } else if c == '{' && next == Some('{') {
            piece = Some('{');
            step = 2;
        } else if c == '{' && next == Some('}') {
            piece = None;
            step = 2;
        } else if c == '}' && next == Some('}') {
            piece = Some('}');
            step = 2;
        } else {
            piece = Some(c);
            step = 1;
        }
        assert(rest == seq![piece] + format_parts(t@, i + step));
        proof {
            assert(done + rest =~= done.push(piece) + format_parts(t@, i + step));
            assert(done.push(piece).drop_last() =~= done);
        }
        match piece {
            Some(x) => {
                out.push(x);
            },
            None => {
                if arg_idx >= args.len() - 1 {
                    proof {
                        lemma_holes_grow(done.push(piece), format_parts(t@, i + step));
                        assert(done.push(piece) + format_parts(t@, i + step) == all);
                        assert(holes(done.push(piece)) == holes(done) + 1);
                        assert(text_of_v(args@[0]@) == Some(t@));
                        assert(holes(all) > args@.len() - 1);
                    }
                    return Err(WqError::new(WqErrorType::Arity).msg("format expects more arguments"));
                }
                let d = args[arg_idx + 1].display_chars();
                append_chars(&mut out, &d);
                arg_idx += 1;
            },
        }
        proof {
            done = done.push(piece);
        }
        i += step;
    }
    assert(done =~= all) by {
        assert(format_parts(t@, i as int) =~= Seq::<Option<char>>::empty());
    }
    if arg_idx + 1 < args.len() {
        return Err(WqError::new(WqErrorType::Arity).msg("too many arguments for format"));
    }
    Ok(str_value(&out))
}

/// Pieces that come after others add to their placeholders, never take from them.
proof fn lemma_holes_grow(a: Seq<Option<char>>, b: Seq<Option<char>>)
    ensures
        holes(a + b) >= holes(a),
    decreases b.len(),
{
    if b.len() == 0 {
        assert(a + b =~= a);
    } else {
        lemma_holes_grow(a, b.drop_last());
        assert((a + b).drop_last() =~= a + b.drop_last());
    }
}

} // verus!
