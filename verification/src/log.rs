//! What the parser reports while it works.

use vstd::prelude::*;
use crate::ast::TypeKind;

verus! {

/// What a report is about. It names the items by index, so that the caller
/// can word it with the unit at hand.
#[derive(Clone, Copy, Debug, PartialEq, Eq, Structural)]
pub enum Diagnostic {
    /// The unit's own diagnostic with this index.
    Unit { index: usize },
    /// A type of a kind that has no counterpart was met while converting
    /// for this cursor.
    UnsupportedType { kind: TypeKind, cursor: usize },
    /// The field is a bitfield of the composite whose cursor is `parent`.
    Bitfield { field: usize, parent: usize },
}

/// One report: an error or a warning.
#[derive(Clone, Copy, Debug, PartialEq, Eq, Structural)]
pub struct Report {
    pub is_error: bool,
    pub diagnostic: Diagnostic,
}

/// The reports of a run, in the order in which they were made.
#[derive(Debug, PartialEq, Eq)]
pub struct Logger {
    pub reports: Vec<Report>,
}

impl Logger {
    /// A logger without reports.
    pub fn new() -> (l: Logger)
        ensures
            l.reports@ == Seq::<Report>::empty(),
    {
        Logger { reports: Vec::new() }
    }

    /// Records an error.
    pub fn error(&mut self, d: Diagnostic)
        ensures
            final(self).reports@ == old(self).reports@.push(
                Report { is_error: true, diagnostic: d },
            ),
    {
        self.reports.push(Report { is_error: true, diagnostic: d });
    }

    /// Records a warning.
    pub fn warn(&mut self, d: Diagnostic)
        ensures
            final(self).reports@ == old(self).reports@.push(
                Report { is_error: false, diagnostic: d },
            ),
    {
        self.reports.push(Report { is_error: false, diagnostic: d });
    }
}

} // verus!
