//! What holds of the parser's steps whatever the unit and the state.

use vstd::prelude::*;
use crate::ast::{decl_class, is_external, CursorKind, DeclClass, TranslationUnit, TypeKind};
use crate::ir::{CompMemberView, FieldInfoView, Global, IntegerKind, TypeView};
use crate::log::{Diagnostic, Report};
use crate::options::ClangParserOptions;
use crate::invariants::lemma_visit_top;
use crate::semantics::{
    add_field, conv_ptr_ty, conv_ty, decl_name, enum_kind, folds, layout_of, log_err_warn,
    nested_handle, opaque_decl, table_of, visit_top, State,
};

verus! {

/// Two cursors with the same canonical cursor get the same answer from the
/// registry, and the second lookup changes nothing.
pub proof fn lemma_same_declaration_same_answer(
    unit: &TranslationUnit,
    opts: &ClangParserOptions,
    st: State,
    c1: usize,
    c2: usize,
)
    requires
        unit.cursor(c1).canonical == unit.cursor(c2).canonical,
    ensures
        decl_name(unit, opts, decl_name(unit, opts, st, c1).0, c2) == decl_name(unit, opts, st, c1),
{
}

/// Once a declaration has been looked up, every cursor with the same
/// canonical cursor gets the same answer in every state that extends the
/// one after the lookup, whatever was visited in between, and the lookup
/// changes nothing.
pub proof fn lemma_answer_is_kept(
    unit: &TranslationUnit,
    opts: &ClangParserOptions,
    st: State,
    later: State,
    c1: usize,
    c2: usize,
)
    requires
        unit.cursor(c1).canonical == unit.cursor(c2).canonical,
        decl_name(unit, opts, st, c1).0.extended_by(later),
    ensures
        decl_name(unit, opts, later, c2) == (later, decl_name(unit, opts, st, c1).1),
{
    let k = unit.cursor(c1).canonical;
    assert(decl_name(unit, opts, st, c1).0.registry.contains_key(k));
}

/// Two declarations that are not the same never share a record.
pub proof fn lemma_distinct_declarations_distinct_records(
    unit: &TranslationUnit,
    st: State,
    c1: usize,
    c2: usize,
)
    requires
        st.wf(unit),
        st.registry.contains_key(unit.cursor(c1).canonical),
        st.registry.contains_key(unit.cursor(c2).canonical),
        unit.cursor(c1).canonical != unit.cursor(c2).canonical,
        table_of(st.registry[unit.cursor(c1).canonical]) == table_of(
            st.registry[unit.cursor(c2).canonical],
        ),
        st.registry[unit.cursor(c1).canonical] != Global::Opaque,
    ensures
        st.registry[unit.cursor(c1).canonical].handle() != st.registry[unit.cursor(
            c2,
        ).canonical].handle(),
{
}

/// A pointer to a struct or union that is registered converts to a pointer
/// to the record of that declaration, and the state stays as it is: a field
/// of a composite that points to the composite itself refers to the
/// composite's own record.
pub proof fn lemma_pointer_to_registered_composite(
    unit: &TranslationUnit,
    opts: &ClangParserOptions,
    st: State,
    p: usize,
    c: usize,
)
    requires
        unit.wf(),
        p < unit.types.len(),
        c < unit.cursors.len(),
        unit.ty(p).kind == TypeKind::Pointer,
        unit.ty(unit.ty(p).pointee_type).kind == TypeKind::Record,
        decl_class(unit.cursor(unit.ty(unit.ty(p).pointee_type).declaration).kind)
            == DeclClass::Composite,
        st.registry.contains_key(
            unit.cursor(unit.ty(unit.ty(p).pointee_type).declaration).canonical,
        ),
    ensures
        conv_ty(unit, opts, st, p, c) == (
            st,
            TypeView::Pointer(
                Box::new(
                    TypeView::Composite(
                        st.registry[unit.cursor(
                            unit.ty(unit.ty(p).pointee_type).declaration,
                        ).canonical].handle(),
                    ),
                ),
                unit.ty(unit.ty(p).pointee_type).is_const,
                layout_of(unit, p),
            ),
        ),
{
    let t = unit.ty(p).pointee_type;
    assert(unit.type_ok(p as int));
    assert(unit.type_ok(t as int));
    assert(conv_ty(unit, opts, st, p, c) == conv_ptr_ty(unit, opts, st, t, c, layout_of(unit, p)));
    assert(conv_ty(unit, opts, st, t, c).0 == st);
}

/// What was found before a top-level cursor is visited stays, in its order,
/// before what is found at that cursor, and so before what is found at any
/// cursor visited later.
pub proof fn lemma_found_in_order_of_visit(
    unit: &TranslationUnit,
    opts: &ClangParserOptions,
    st: State,
    c1: usize,
    c2: usize,
)
    requires
        unit.wf(),
        st.wf(unit),
        c1 < unit.cursors.len(),
        c2 < unit.cursors.len(),
    ensures
        st.globals.is_prefix_of(visit_top(unit, opts, st, c1).globals),
        visit_top(unit, opts, st, c1).globals.is_prefix_of(
            visit_top(unit, opts, visit_top(unit, opts, st, c1), c2).globals,
        ),
{
    let s1 = visit_top(unit, opts, st, c1);
    let s2 = visit_top(unit, opts, s1, c2);
    lemma_visit_top(unit, opts, st, c1);
    lemma_visit_top(unit, opts, s1, c2);
    assert(st.globals =~= s1.globals.subrange(0, st.globals.len() as int));
    assert(s1.globals =~= s2.globals.subrange(0, s1.globals.len() as int));
}

/// A declaration that is added twice as it stands, by whichever of its
/// cursors, is twice among the top-level declarations, both times with the
/// same record.
pub proof fn lemma_declared_twice_shares_record(
    unit: &TranslationUnit,
    opts: &ClangParserOptions,
    st: State,
    c1: usize,
    c2: usize,
)
    requires
        unit.cursor(c1).canonical == unit.cursor(c2).canonical,
    ensures
        opaque_decl(unit, opts, opaque_decl(unit, opts, st, c1), c2).globals == st.globals.push(
            decl_name(unit, opts, st, c1).1,
        ).push(decl_name(unit, opts, st, c1).1),
        opaque_decl(unit, opts, opaque_decl(unit, opts, st, c1), c2).bindings().comps
            == opaque_decl(unit, opts, st, c1).bindings().comps,
{
    let k = unit.cursor(c1).canonical;
    assert(decl_name(unit, opts, st, c1).0.registry.contains_key(k));
}

/// A field that belongs to the anonymous composite just before it takes
/// that member's place: the members are as many as before. Any other field
/// comes after the members there are.
pub proof fn lemma_field_folds_or_follows(
    members: Seq<CompMemberView>,
    foreign: TypeKind,
    field: FieldInfoView,
)
    ensures
        folds(members, foreign, field.ty) ==> {
            &&& add_field(members, foreign, field).len() == members.len()
            &&& add_field(members, foreign, field).drop_last() == members.drop_last()
            &&& add_field(members, foreign, field).last() == CompMemberView::NestedCompositeField(
                nested_handle(foreign, field.ty).unwrap(),
                field,
            )
            &&& members.last() == CompMemberView::NestedComposite(
                nested_handle(foreign, field.ty).unwrap(),
            )
        },
        !folds(members, foreign, field.ty) ==> add_field(members, foreign, field) == members.push(
            CompMemberView::Field(field),
        ),
{
    if folds(members, foreign, field.ty) {
        assert(add_field(members, foreign, field).drop_last() =~= members.drop_last());
    }
}

/// An anonymous composite stays a member of its own unless the field after
/// it has a type that is, points to, or is an array of that very composite.
pub proof fn lemma_unrelated_field_does_not_fold(
    members: Seq<CompMemberView>,
    h: usize,
    foreign: TypeKind,
    field: FieldInfoView,
)
    requires
        members.len() > 0,
        members.last() == CompMemberView::NestedComposite(h),
        nested_handle(foreign, field.ty) != Some(h),
    ensures
        add_field(members, foreign, field) == members.push(CompMemberView::Field(field)),
{
}

/// With an override every enum has the override as its kind; without one an
/// enum has the kind of its underlying type.
pub proof fn lemma_enum_kind(k: IntegerKind, underlying: TypeKind)
    ensures
        enum_kind(Some(k), underlying) == k,
        enum_kind(None, TypeKind::UShort) == IntegerKind::UShort,
        enum_kind(None, TypeKind::UInt) == IntegerKind::UInt,
        enum_kind(None, TypeKind::Short) == IntegerKind::Short,
        enum_kind(None, TypeKind::Int) == IntegerKind::Int,
{
}

/// A function or a variable that is not visible outside the unit leaves the
/// state as it is: it is not registered, and it is no top-level declaration
/// of the result.
pub proof fn lemma_internal_linkage_is_skipped(
    unit: &TranslationUnit,
    opts: &ClangParserOptions,
    st: State,
    c: usize,
)
    requires
        unit.cursor(c).kind == CursorKind::FunctionDecl || unit.cursor(c).kind
            == CursorKind::VarDecl,
        !is_external(unit.cursor(c).linkage),
    ensures
        visit_top(unit, opts, st, c) == st,
{
}

/// A warning is recorded and not counted; an error is recorded and counted
/// once.
pub proof fn lemma_report_counts(st: State, d: Diagnostic)
    ensures
        log_err_warn(st, d, false).err_count == st.err_count,
        log_err_warn(st, d, false).reports == st.reports.push(
            Report { is_error: false, diagnostic: d },
        ),
        log_err_warn(st, d, true).err_count == st.err_count + 1,
        log_err_warn(st, d, true).reports == st.reports.push(
            Report { is_error: true, diagnostic: d },
        ),
{
}

} // verus!
