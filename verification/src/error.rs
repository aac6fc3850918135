//! Errors raised while lexing, parsing and running builtins.

use vstd::prelude::*;

verus! {

/// The class of an error.
#[derive(Debug, Clone, Copy, PartialEq, Eq, Structural)]
pub enum WqErrorType {
    Syntax,
    Eof,
    Arity,
    Domain,
    Index,
    Io,
    NotBound,
    NumericOverflow,
    Raise,
    Exec,
    Vm,
    Type,
    Runtime,
    Encode,
}

/// An error: its class, the component that raised it, a message and notes.
#[derive(Debug, Clone, PartialEq)]
pub struct WqError {
    pub kind: WqErrorType,
    pub src: String,
    pub msg: String,
    pub notes: Vec<String>,
}

pub type WqResult<T> = Result<T, WqError>;

impl WqError {
    pub fn new(kind: WqErrorType) -> (e: WqError)
        ensures
            e.kind == kind,
            e.src@.len() == 0,
            e.msg@.len() == 0,
            e.notes@.len() == 0,
    {
        WqError { kind, src: String::new(), msg: String::new(), notes: Vec::new() }
    }

    /// Sets the component that raised the error.
    pub fn src(self, src: &str) -> (e: WqError)
        ensures
            e.kind == self.kind,
            e.src@ == src@,
            e.msg == self.msg,
            e.notes == self.notes,
    {
        WqError { kind: self.kind, src: src.to_string(), msg: self.msg, notes: self.notes }
    }

    /// Sets the message.
    pub fn msg(self, msg: &str) -> (e: WqError)
        ensures
            e.kind == self.kind,
            e.src == self.src,
            e.msg@ == msg@,
            e.notes == self.notes,
    {
        WqError { kind: self.kind, src: self.src, msg: msg.to_string(), notes: self.notes }
    }

    /// Appends a note.
    pub fn attach_note(self, note: String) -> (e: WqError)
        ensures
            e.kind == self.kind,
            e.src == self.src,
            e.msg == self.msg,
            e.notes@ == self.notes@.push(note),
    {
        let mut notes = self.notes;
        notes.push(note);
        WqError { kind: self.kind, src: self.src, msg: self.msg, notes }
    }
}

} // verus!
