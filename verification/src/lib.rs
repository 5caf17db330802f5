//! The declarations of a C translation unit, read from its cursors and
//! types and described on their own terms.
//!
//! The input is an [`ast::TranslationUnit`]: every cursor and every type of
//! the unit as a plain record, with the relations between them written as
//! indices. [`parser::parse`] visits each declaration once and hands back
//! [`ir::Bindings`]: the top-level declarations in the order in which they
//! were found, and the records of composites, enums, aliases, variables and
//! functions that they refer to by handle.
//!
//! What each step computes is defined in [`semantics`] as a function on the
//! state of a run, and what a whole run computes in [`run`]; the executable
//! steps in [`parser`] are proved to compute exactly that. [`invariants`]
//! shows what every step keeps, and [`laws`] what follows for the caller.

pub mod ast;
pub mod context;
pub mod invariants;
pub mod ir;
pub mod laws;
pub mod log;
pub mod options;
pub mod parser;
pub mod run;
pub mod semantics;
pub mod text;
