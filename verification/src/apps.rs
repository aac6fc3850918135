//! Applications built on the language: the source formatter.

pub mod formatter;
