//! What the caller chooses.

use vstd::prelude::*;
use crate::ir::IntegerKind;

verus! {

/// The options of a run of the parser.
#[derive(Debug)]
pub struct ClangParserOptions {
    /// Names of declarations that are visited again, at their definition,
    /// once the top-level declarations have all been visited.
    pub builtin_names: Vec<String>,
    /// Whether declarations that are located in no file are included.
    pub builtins: bool,
    /// If not empty, only declarations from a file whose path contains one
    /// of these are included.
    pub match_pat: Vec<String>,
    /// Whether the caller wants the cursors printed before they are visited.
    pub emit_ast: bool,
    /// Whether a bitfield is an error rather than a warning.
    pub fail_on_bitfield: bool,
    /// Whether a type of an unsupported kind is an error rather than a warning.
    pub fail_on_unknown_type: bool,
    /// If set, the integer kind of every enum.
    pub override_enum_ty: Option<IntegerKind>,
    /// Arguments for whoever produces the translation unit.
    pub clang_args: Vec<String>,
}

} // verus!
