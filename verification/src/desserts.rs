//! Small helpers around the interpreter.

pub mod icedtea;
pub mod daydream;
