//! A lexer, parser, formatter and a set of pure builtins for the wq language.

pub mod text;
pub mod collate;
pub mod bigint;
pub mod token;
pub mod error;
pub mod lexspec;
pub mod lexer;
pub mod spelling;
pub mod value;
pub mod parser;
pub mod grammar;
pub mod resolver;
pub mod builtin_table;
pub mod builtins;
pub mod debug_flags;
pub mod bcast;
pub mod astnode;
pub mod escape;
pub mod apps;
pub mod interpreters;
pub mod hotchoco;
pub mod evaluator;
pub mod desserts;
pub mod colored;
pub mod repl;
pub mod vm;
pub mod compiler;
