//! The instruction interpreters that can run compiled code, chosen by name.

pub mod default;

use vstd::prelude::*;
use crate::text::{chars_of, chars_eq_str, trim_chars, ascii_lower_chars, trim_v, ascii_lower_v};

verus! {

/// An interpreter.
#[derive(Clone, Copy, Debug, PartialEq, Eq, Structural)]
pub enum InterpreterKind {
    Default,
    Sample,
}

/// The interpreter a name selects, once trimmed and put in lower case.
pub open spec fn interpreter_of_name(s: Seq<char>) -> Option<InterpreterKind> {
    if s == "default"@ || s == "def"@ || s == "definterp"@ {
        Some(InterpreterKind::Default)
    } else if s == "sample"@ {
        Some(InterpreterKind::Sample)
    } else {
        None
    }
}

/// The name of an interpreter.
pub open spec fn interpreter_name(k: InterpreterKind) -> Seq<char> {
    match k {
        InterpreterKind::Default => "default"@,
        InterpreterKind::Sample => "sample"@,
    }
}

impl InterpreterKind {
    /// The name of the interpreter.
    pub fn name(&self) -> (r: &'static str)
        ensures
            r@ == interpreter_name(*self),
    {
        match self {
            InterpreterKind::Default => "default",
            InterpreterKind::Sample => "sample",
        }
    }

    /// The interpreter a name selects, once trimmed and put in ASCII lower case; `def` and
    /// `definterp` name the default one.
    pub fn from_name(name: &str) -> (r: Option<InterpreterKind>)
        ensures
            r == interpreter_of_name(ascii_lower_v(trim_v(name@))),
    {
        let v = chars_of(name);
        let t = trim_chars(&v);
        let s = ascii_lower_chars(&t);
        if chars_eq_str(&s, "default") || chars_eq_str(&s, "def") || chars_eq_str(&s, "definterp") {
            Some(InterpreterKind::Default)
        } else if chars_eq_str(&s, "sample") {
            Some(InterpreterKind::Sample)
        } else {
            None
        }
    }
}

} // verus!
