//! The results of loading a script: the report of what it bound, or why it failed.

use vstd::prelude::*;
use crate::error::{WqError, WqErrorType};
use crate::value::Value;

verus! {

/// What loading a script reports: its label, the names it bound anew and those it rebound,
/// its warnings, and the value of its last expression.
pub struct LoadReport {
    pub label: String,
    pub new_bindings: Vec<String>,
    pub overridden: Vec<String>,
    pub warnings: Vec<String>,
    pub result: Option<Value>,
}

/// Why loading a script failed: a load of a file already being loaded, a file that could not
/// be read (its path and the system's message), an evaluation error (where it happened), or
/// a bad directive.
pub enum LoadErrorKind {
    Cycle(String),
    Io(String, String),
    Eval(String, Box<WqError>),
    Directive(String),
}

/// A failed load, with the stack of the files being loaded (outermost first).
pub struct LoadError {
    pub kind: LoadErrorKind,
    pub stack: Vec<String>,
}

/// Whether an error class is raised while running code (every class but syntax errors and
/// an unexpected end of input).
pub open spec fn runtime_kind(k: WqErrorType) -> bool {
    !(k == WqErrorType::Syntax || k == WqErrorType::Eof)
}

/// Whether an error class is raised while running code.
pub fn is_runtime_kind(k: WqErrorType) -> (r: bool)
    ensures
        r == runtime_kind(k),
{
    !(k == WqErrorType::Syntax || k == WqErrorType::Eof)
}

impl LoadError {
    /// A failed load with a copy of the loading stack.
    pub fn with_stack(kind: LoadErrorKind, stack: &[String]) -> (r: LoadError)
        ensures
            r.kind == kind,
            r.stack@ == stack@,
    {
        let mut s: Vec<String> = Vec::new();
        let mut i: usize = 0;
        while i < stack.len()
            invariant
                i <= stack@.len(),
                s@ == stack@.take(i as int),
            decreases stack.len() - i,
        {
            s.push(stack[i].clone());
            assert(s@ =~= stack@.take(i + 1));
            i += 1;
        }
        assert(stack@.take(stack@.len() as int) =~= stack@);
        LoadError { kind, stack: s }
    }

    /// Whether the load failed while running code.
    pub fn is_runtime(&self) -> (r: bool)
        ensures
            r == (self.kind matches LoadErrorKind::Eval(_, e) && runtime_kind(e.kind)),
    {
        match &self.kind {
            LoadErrorKind::Eval(_, e) => is_runtime_kind(e.kind),
            _ => false,
        }
    }
}

} // verus!
