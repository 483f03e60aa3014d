//! A tree-walking interpreter for the Lox language.
//!
//! Source text is scanned into tokens (`scanner`), parsed into a tree of
//! statements (`parser`, which computes the functions of `grammar`),
//! resolved into a table of scope distances (`resolver`) and then run
//! (`interpreter`, which takes the steps that `machine` describes). `lox`
//! puts the four together.
//!
//! Lox numbers are IEEE-754 doubles. The library carries them as bit
//! patterns, compares and negates them itself, and leaves their
//! arithmetic, their reading and their writing to the embedding program.
//! It does not print either. Whatever it needs of the embedding program it
//! asks for with an `Action`, and the answer is handed to it as an
//! `Event`.

pub mod number;
pub mod text;
pub mod table;
pub mod token;
pub mod lox_native_function;
pub mod error;
pub mod scanner;
pub mod expr;
pub mod stmt;
pub mod piece;
pub mod ast_printer;
pub mod grammar;
pub mod recovery;
pub mod parser;
pub mod resolver;
pub mod environment;
pub mod lox_callable;
pub mod lox_function;
pub mod lox_class;
pub mod lox_instance;
pub mod machine;
pub mod invariants;
pub mod interpreter;
pub mod lox;
