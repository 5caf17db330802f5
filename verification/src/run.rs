//! A whole run of the parser, from the unit's diagnostics to the last
//! declaration taken from the queue.

use vstd::prelude::*;
use crate::ast::TranslationUnit;
use crate::invariants::{lemma_log_err_warn, lemma_top_children, lemma_visit_top, step_ok};
use crate::ir::BindingsView;
use crate::log::{Diagnostic, Report};
use crate::options::ClangParserOptions;
use crate::semantics::{
    is_error_severity, lemma_bounded_set, lemma_records_declared_kept, log_diagnostics,
    log_err_warn, top_children, visit_top, State,
};

verus! {

/// The registry of a state that is well formed over `unit` holds no more
/// declarations than the unit has cursors.
pub proof fn lemma_registry_bound(unit: &TranslationUnit, st: State)
    requires
        st.wf(unit),
    ensures
        st.registry.len() <= unit.cursors.len(),
{
    lemma_bounded_set(st.registry.dom(), unit.cursors.len() as nat);
}

/// How much is left to do at most once the top-level cursors were visited:
/// the declarations in the queue, and those that are not registered and so
/// may still be queued.
pub open spec fn budget(unit: &TranslationUnit, st: State) -> int {
    unit.cursors.len() - st.registry.len() + st.builtin_defs.len()
}

/// The state after the first cursor of the queue was taken out.
pub open spec fn take_first(st: State) -> State {
    State { builtin_defs: st.builtin_defs.drop_first(), ..st }
}

/// Taking the first cursor out of the queue keeps the state well formed,
/// and the cursor is one of the unit.
pub proof fn lemma_take_first(unit: &TranslationUnit, st: State)
    requires
        unit.wf(),
        st.wf(unit),
        st.builtin_defs.len() > 0,
    ensures
        take_first(st).wf(unit),
        st.builtin_defs.first() < unit.cursors.len(),
        unit.cursor(st.builtin_defs.first()).definition < unit.cursors.len(),
{
    let taken = take_first(st);
    assert(st.builtin_defs[0] < unit.cursors.len());
    assert(unit.cursor_ok(st.builtin_defs.first() as int));
    assert forall|k: usize| #[trigger] taken.registry.contains_key(k) implies k < unit.cursors.len()
        && taken.entry_ok(unit, k) by {
        assert(st.entry_ok(unit, k));
    }
    assert forall|i: int| 0 <= i < taken.builtin_defs.len() implies #[trigger] taken.builtin_defs[i]
        < unit.cursors.len() by {
        assert(taken.builtin_defs[i] == st.builtin_defs[i + 1]);
    }
    assert(taken.bindings() == st.bindings());
    lemma_records_declared_kept(st, taken);
}

/// The state after the first cursor of the queue was taken out and its
/// definition visited as a top-level cursor.
pub open spec fn drain_one(unit: &TranslationUnit, opts: &ClangParserOptions, st: State) -> State {
    visit_top(unit, opts, take_first(st), unit.cursor(st.builtin_defs.first()).definition)
}

/// Taking a cursor from the queue keeps the state well formed, extends it,
/// and leaves less to do.
pub proof fn lemma_drain_one(unit: &TranslationUnit, opts: &ClangParserOptions, st: State)
    requires
        unit.wf(),
        st.wf(unit),
        st.builtin_defs.len() > 0,
    ensures
        step_ok(unit, st, drain_one(unit, opts, st)),
        0 <= budget(unit, drain_one(unit, opts, st)) < budget(unit, st),
{
    lemma_take_first(unit, st);
    lemma_visit_top(unit, opts, take_first(st), unit.cursor(st.builtin_defs.first()).definition);
    lemma_registry_bound(unit, drain_one(unit, opts, st));
}

/// The state after the queue was emptied: for as long as it holds a cursor,
/// the first is taken out and its definition visited, which may queue more.
pub open spec fn drain(unit: &TranslationUnit, opts: &ClangParserOptions, st: State) -> State
    decreases budget(unit, st),
    when unit.wf() && st.wf(unit)
    via drain_terminates
{
    if st.builtin_defs.len() == 0 {
        st
    } else {
        drain(unit, opts, drain_one(unit, opts, st))
    }
}

#[via_fn]
proof fn drain_terminates(unit: &TranslationUnit, opts: &ClangParserOptions, st: State) {
    if st.builtin_defs.len() > 0 {
        lemma_drain_one(unit, opts, st);
    }
}

/// Emptying the queue keeps the state well formed, extends it, and leaves
/// the queue empty.
pub proof fn lemma_drain(unit: &TranslationUnit, opts: &ClangParserOptions, st: State)
    requires
        unit.wf(),
        st.wf(unit),
    ensures
        step_ok(unit, st, drain(unit, opts, st)),
        drain(unit, opts, st).builtin_defs.len() == 0,
    decreases budget(unit, st),
{
    if st.builtin_defs.len() > 0 {
        lemma_drain_one(unit, opts, st);
        lemma_drain(unit, opts, drain_one(unit, opts, st));
    }
}

/// Reporting the unit's diagnostics keeps the state well formed, extends
/// it, and leaves everything but the reports as it is.
pub proof fn lemma_log_diagnostics(unit: &TranslationUnit, st: State, i: int)
    requires
        st.wf(unit),
    ensures
        step_ok(unit, st, log_diagnostics(unit, st, i)),
        log_diagnostics(unit, st, i).bindings() == st.bindings(),
        log_diagnostics(unit, st, i).registry == st.registry,
        log_diagnostics(unit, st, i).builtin_defs == st.builtin_defs,
    decreases unit.diagnostics.len() - i,
{
    if 0 <= i < unit.diagnostics.len() {
        let d = Diagnostic::Unit { index: i as usize };
        let is_err = is_error_severity(unit.diagnostics[i].severity);
        lemma_log_err_warn(unit, st, d, is_err);
        lemma_log_diagnostics(unit, log_err_warn(st, d, is_err), i + 1);
    }
}

/// The state that a run on `unit` ends in, having started with the given
/// reports: the unit's diagnostics are reported; if one of them is an error
/// the run ends there; else the top-level cursors are visited in order, and
/// then the queue is emptied.
pub open spec fn run(
    unit: &TranslationUnit,
    opts: &ClangParserOptions,
    reports: Seq<Report>,
) -> State {
    let st = log_diagnostics(unit, State::initial(reports), 0);
    if st.err_count > 0 {
        st
    } else {
        drain(unit, opts, top_children(unit, opts, st, 0))
    }
}

/// A run ends in a well-formed state with an empty queue: every handle in
/// what it found has a record. The reports it started with are the first of
/// the reports it ends with.
pub proof fn lemma_run(
    unit: &TranslationUnit,
    opts: &ClangParserOptions,
    reports: Seq<Report>,
)
    requires
        unit.wf(),
    ensures
        step_ok(unit, State::initial(reports), run(unit, opts, reports)),
        run(unit, opts, reports).builtin_defs.len() == 0,
        run(unit, opts, reports).bindings().closed(),
{
    let start = State::initial(reports);
    assert(start.wf(unit));
    lemma_log_diagnostics(unit, start, 0);
    let st = log_diagnostics(unit, start, 0);
    if st.err_count == 0 {
        lemma_top_children(unit, opts, st, 0);
        lemma_drain(unit, opts, top_children(unit, opts, st, 0));
    }
}

/// What a run on `unit` hands back: the reports are those of the state the
/// run ended in; the run succeeded if and only if no error was counted, and
/// then the bindings are the top-level declarations and the records of that
/// state.
pub open spec fn parse_ends(
    unit: &TranslationUnit,
    opts: &ClangParserOptions,
    reports: Seq<Report>,
    result: Result<BindingsView, ()>,
    reports_after: Seq<Report>,
) -> bool {
    let end = run(unit, opts, reports);
    &&& reports_after == end.reports
    &&& match result {
        Ok(b) => end.err_count == 0 && b == end.bindings(),
        Err(_) => end.err_count > 0,
    }
}

} // verus!
