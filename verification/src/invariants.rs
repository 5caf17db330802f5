//! Every step of the parser keeps the state well formed and takes back
//! nothing of what the state held.

use vstd::prelude::*;
use crate::ast::{
    is_external, is_function_kind, is_missing, may_be_function, CursorKind, TranslationUnit,
    TypeKind,
};
use crate::ir::{
    lemma_closed_with_more_records, lemma_params_closed_grow, lemma_type_held_later, type_closed,
    CompMemberView, EnumItemView, FieldInfoView, Global, Layout, TypeView,
};
use crate::log::Diagnostic;
use crate::options::ClangParserOptions;
use crate::semantics::{
    add_field, composite_children, conv_args, conv_decl_ty, conv_params, conv_ptr_ty, conv_ty,
    decl_name, enum_children, fwd_decl, get_abi, included, layout_of, lemma_add_field_held, lemma_bounded_set,
    lemma_declared_kept, lemma_push_global, lemma_records_declared_kept, lemma_with_alias,
    lemma_with_items, lemma_with_members, lemma_with_var, log_err_warn, opaque_decl, opaque_ty,
    table_of, top_children, typedef_target, visit_composite, visit_enum, visit_top, FwdDecl, State,
};

verus! {

/// `after` is a well-formed state that extends `before`.
pub open spec fn step_ok(unit: &TranslationUnit, before: State, after: State) -> bool {
    after.wf(unit) && before.extended_by(after)
}

/// `after` is a well-formed state that extends `before` with the same
/// top-level declarations, and every handle in `t` has a record in it.
pub open spec fn conv_ok(unit: &TranslationUnit, before: State, after: State, t: TypeView) -> bool {
    step_ok(unit, before, after) && after.globals == before.globals && after.holds_type(t)
}

/// As [`conv_ok`], for a list of parameters.
pub open spec fn params_ok(
    unit: &TranslationUnit,
    before: State,
    after: State,
    ps: Seq<(Seq<char>, TypeView)>,
) -> bool {
    step_ok(unit, before, after) && after.globals == before.globals && after.holds_params(ps)
}

/// A report keeps the state well formed and extends it.
pub proof fn lemma_log_err_warn(unit: &TranslationUnit, st: State, d: Diagnostic, is_err: bool)
    requires
        st.wf(unit),
    ensures
        step_ok(unit, st, log_err_warn(st, d, is_err)),
        log_err_warn(st, d, is_err).bindings() == st.bindings(),
        log_err_warn(st, d, is_err).registry == st.registry,
        log_err_warn(st, d, is_err).builtin_defs == st.builtin_defs,
{
    let after = log_err_warn(st, d, is_err);
    lemma_records_declared_kept(st, after);
    assert forall|k: usize| #[trigger] after.registry.contains_key(k) implies k < unit.cursors.len()
        && after.entry_ok(unit, k) by {
        assert(st.entry_ok(unit, k));
    }
}

/// A lookup keeps the state well formed, extends it, leaves the top-level
/// declarations alone, and answers with what the registry holds from then
/// on, which fits the kind of the cursor and has a record.
pub proof fn lemma_decl_name(
    unit: &TranslationUnit,
    opts: &ClangParserOptions,
    st: State,
    c: usize,
)
    requires
        unit.wf(),
        st.wf(unit),
        c < unit.cursors.len(),
    ensures
        step_ok(unit, st, decl_name(unit, opts, st, c).0),
        decl_name(unit, opts, st, c).0.globals == st.globals,
        decl_name(unit, opts, st, c).0.registry.contains_key(unit.cursor(c).canonical),
        decl_name(unit, opts, st, c).0.registry[unit.cursor(c).canonical] == decl_name(
            unit,
            opts,
            st,
            c,
        ).1,
        decl_name(unit, opts, st, c).0.entry_ok(unit, unit.cursor(c).canonical),
        decl_name(unit, opts, st, c).0.bindings().holds_global(decl_name(unit, opts, st, c).1),
{
    assert(unit.cursor_ok(c as int));
    let k = unit.cursor(c).canonical;
    assert(unit.cursor_ok(k as int));
    let after = decl_name(unit, opts, st, c).0;
    if st.registry.contains_key(k) {
        assert(st.entry_ok(unit, k));
    } else {
        assert(after.registry.dom() =~= st.registry.dom().insert(k));
        lemma_bounded_set(after.registry.dom(), unit.cursors.len() as nat);
        assert forall|x: usize| #[trigger] after.registry.contains_key(x) implies x
            < unit.cursors.len() && after.entry_ok(unit, x) by {
            if x != k {
                assert(st.registry.contains_key(x));
                assert(st.entry_ok(unit, x));
            }
        }
        assert forall|k1: usize, k2: usize|
            #![trigger after.registry[k1], after.registry[k2]]
            after.registry.contains_key(k1) && after.registry.contains_key(k2) && k1 != k2
                && table_of(after.registry[k1]) == table_of(
                after.registry[k2],
            ) && table_of(after.registry[k1]) != 4 implies after.registry[k1].handle()
            != after.registry[k2].handle() by {
            if k1 != k {
                assert(st.registry.contains_key(k1));
                assert(st.entry_ok(unit, k1));
            }
            if k2 != k {
                assert(st.registry.contains_key(k2));
                assert(st.entry_ok(unit, k2));
            }
        }
        lemma_closed_with_more_records(st.bindings(), after.bindings());
        let g = decl_name(unit, opts, st, c).1;
        assert(after.registry.contains_key(k) && after.registry[k] == g);
        assert forall|h: usize| h < after.comps.len() implies #[trigger] after.declared(
            Global::CompDeclaration(h),
        ) by {
            if h < st.comps.len() {
                lemma_declared_kept(st, after, Global::CompDeclaration(h));
            }
        }
        assert forall|h: usize| h < after.enums.len() implies #[trigger] after.declared(
            Global::EnumDeclaration(h),
        ) by {
            if h < st.enums.len() {
                lemma_declared_kept(st, after, Global::EnumDeclaration(h));
            }
        }
        assert forall|h: usize| h < after.aliases.len() implies #[trigger] after.declared(
            Global::TypeAlias(h),
        ) by {
            if h < st.aliases.len() {
                lemma_declared_kept(st, after, Global::TypeAlias(h));
            }
        }
        assert forall|h: usize| h < after.vars.len() implies #[trigger] after.declared(
            Global::Variable(h),
        ) || #[trigger] after.declared(Global::Function(h)) by {
            if h < st.vars.len() {
                if st.declared(Global::Variable(h)) {
                    lemma_declared_kept(st, after, Global::Variable(h));
                } else {
                    lemma_declared_kept(st, after, Global::Function(h));
                }
            }
        }
    }
}

/// Adding a declaration as it stands keeps the state well formed and
/// extends it.
pub proof fn lemma_opaque_decl(
    unit: &TranslationUnit,
    opts: &ClangParserOptions,
    st: State,
    c: usize,
)
    requires
        unit.wf(),
        st.wf(unit),
        c < unit.cursors.len(),
    ensures
        step_ok(unit, st, opaque_decl(unit, opts, st, c)),
{
    lemma_decl_name(unit, opts, st, c);
    let (st1, g) = decl_name(unit, opts, st, c);
    lemma_push_global(unit, st1, g);
}

/// The type of a declaration has records for its handles.
pub proof fn lemma_conv_decl_ty(
    unit: &TranslationUnit,
    opts: &ClangParserOptions,
    st: State,
    c: usize,
)
    requires
        unit.wf(),
        st.wf(unit),
        c < unit.cursors.len(),
    ensures
        conv_ok(unit, st, conv_decl_ty(unit, opts, st, c).0, conv_decl_ty(unit, opts, st, c).1),
{
    assert(unit.cursor_ok(c as int));
    lemma_decl_name(unit, opts, st, c);
}

/// Converting a type keeps the state well formed, extends it, leaves the
/// top-level declarations alone, and gives a type with records for its
/// handles.
pub proof fn lemma_conv_ty(
    unit: &TranslationUnit,
    opts: &ClangParserOptions,
    st: State,
    t: usize,
    c: usize,
)
    requires
        unit.wf(),
        st.wf(unit),
        t < unit.types.len(),
        c < unit.cursors.len(),
    ensures
        conv_ok(unit, st, conv_ty(unit, opts, st, t, c).0, conv_ty(unit, opts, st, t, c).1),
    decreases 2 * (unit.cursors.len() - c) + 1, t, 0nat,
{
    assert(unit.type_ok(t as int));
    let d = unit.ty(t);
    match d.kind {
        TypeKind::Pointer => {
            lemma_conv_ptr_ty(unit, opts, st, d.pointee_type, c, layout_of(unit, t));
        },
        TypeKind::VariableArray | TypeKind::DependentSizedArray | TypeKind::IncompleteArray => {
            lemma_conv_ptr_ty(unit, opts, st, d.elem_type, c, layout_of(unit, t));
        },
        TypeKind::Record | TypeKind::Typedef | TypeKind::Unexposed | TypeKind::Enum => {
            lemma_conv_decl_ty(unit, opts, st, d.declaration);
        },
        TypeKind::ConstantArray => {
            lemma_conv_ty(unit, opts, st, d.elem_type, c);
        },
        _ => {
            lemma_log_err_warn(
                unit,
                st,
                Diagnostic::UnsupportedType { kind: d.kind, cursor: c },
                opts.fail_on_unknown_type,
            );
        },
    }
}

/// As [`lemma_conv_ty`], for a pointer to the type.
pub proof fn lemma_conv_ptr_ty(
    unit: &TranslationUnit,
    opts: &ClangParserOptions,
    st: State,
    t: usize,
    c: usize,
    layout: Layout,
)
    requires
        unit.wf(),
        st.wf(unit),
        t < unit.types.len(),
        c < unit.cursors.len(),
    ensures
        conv_ok(
            unit,
            st,
            conv_ptr_ty(unit, opts, st, t, c, layout).0,
            conv_ptr_ty(unit, opts, st, t, c, layout).1,
        ),
    decreases 2 * (unit.cursors.len() - c) + 1, t, 1nat,
{
    reveal_with_fuel(type_closed, 2);
    assert(unit.type_ok(t as int));
    assert(unit.typedef_ok(t as int));
    let d = unit.ty(t);
    assert(unit.cursor_ok(d.declaration as int));
    if d.kind == TypeKind::Void {
    } else if may_be_function(d.kind) {
        if unit.ty(d.ret_type).kind != TypeKind::Invalid {
            lemma_conv_params(unit, opts, st, c, 0, Seq::empty());
            let (st1, params) = conv_params(unit, opts, st, c, 0, Seq::empty());
            lemma_conv_ty(unit, opts, st1, d.ret_type, c);
            let (st2, ret) = conv_ty(unit, opts, st1, d.ret_type, c);
            lemma_params_closed_grow(
                params,
                st1.comps.len(),
                st1.enums.len(),
                st1.aliases.len(),
                st2.comps.len(),
                st2.enums.len(),
                st2.aliases.len(),
            );
        } else if unit.cursor(d.declaration).kind != CursorKind::NoDeclFound {
            lemma_conv_decl_ty(unit, opts, st, d.declaration);
        }
    } else if d.kind == TypeKind::Typedef && is_function_kind(
        unit.ty(unit.cursor(d.declaration).typedef_type).kind,
    ) {
        lemma_conv_ptr_ty(unit, opts, st, unit.cursor(d.declaration).typedef_type, c, layout);
    } else {
        lemma_conv_ty(unit, opts, st, t, c);
    }
}

/// As [`lemma_conv_ty`], for the parameters among the children of a cursor.
pub proof fn lemma_conv_params(
    unit: &TranslationUnit,
    opts: &ClangParserOptions,
    st: State,
    c: usize,
    i: int,
    acc: Seq<(Seq<char>, TypeView)>,
)
    requires
        unit.wf(),
        st.wf(unit),
        c < unit.cursors.len(),
        0 <= i,
        st.holds_params(acc),
    ensures
        params_ok(
            unit,
            st,
            conv_params(unit, opts, st, c, i, acc).0,
            conv_params(unit, opts, st, c, i, acc).1,
        ),
    decreases 2 * (unit.cursors.len() - c), unit.cursor(c).children.len() - i, 0nat,
{
    assert(unit.cursor_ok(c as int));
    let children = unit.cursor(c).children;
    if i < children.len() {
        let p = children[i];
        assert(unit.cursor_ok(p as int));
        if unit.cursor(p).kind == CursorKind::ParmDecl {
            lemma_conv_ty(unit, opts, st, unit.cursor(p).cur_type, p);
            let (st1, ty) = conv_ty(unit, opts, st, unit.cursor(p).cur_type, p);
            lemma_params_closed_grow(
                acc,
                st.comps.len(),
                st.enums.len(),
                st.aliases.len(),
                st1.comps.len(),
                st1.enums.len(),
                st1.aliases.len(),
            );
            lemma_conv_params(unit, opts, st1, c, i + 1, acc.push((unit.cursor(p).spelling@, ty)));
        } else {
            lemma_conv_params(unit, opts, st, c, i + 1, acc);
        }
    }
}

/// As [`lemma_conv_ty`], for the parameters of a function.
pub proof fn lemma_conv_args(
    unit: &TranslationUnit,
    opts: &ClangParserOptions,
    st: State,
    c: usize,
    i: int,
    acc: Seq<(Seq<char>, TypeView)>,
)
    requires
        unit.wf(),
        st.wf(unit),
        c < unit.cursors.len(),
        st.holds_params(acc),
    ensures
        params_ok(
            unit,
            st,
            conv_args(unit, opts, st, c, i, acc).0,
            conv_args(unit, opts, st, c, i, acc).1,
        ),
    decreases unit.cursor(c).args.len() - i,
{
    assert(unit.cursor_ok(c as int));
    let args = unit.cursor(c).args;
    if 0 <= i < args.len() {
        assert(unit.cursor_ok(args[i] as int));
        let a = unit.cursor(args[i]);
        lemma_conv_ty(unit, opts, st, a.cur_type, c);
        let (st1, ty) = conv_ty(unit, opts, st, a.cur_type, c);
        lemma_params_closed_grow(
            acc,
            st.comps.len(),
            st.enums.len(),
            st.aliases.len(),
            st1.comps.len(),
            st1.enums.len(),
            st1.aliases.len(),
        );
        lemma_conv_args(unit, opts, st1, c, i + 1, acc.push((a.spelling@, ty)));
    }
}

/// Visiting a child of a composite keeps the state well formed and extends
/// it.
pub proof fn lemma_visit_composite(
    unit: &TranslationUnit,
    opts: &ClangParserOptions,
    st: State,
    c: usize,
    parent: usize,
    h: usize,
)
    requires
        unit.wf(),
        st.wf(unit),
        c < unit.cursors.len(),
        h < st.comps.len(),
    ensures
        step_ok(unit, st, visit_composite(unit, opts, st, c, parent, h)),
    decreases unit.cursors.len() - c, 1nat, 0nat,
{
    assert(unit.cursor_ok(c as int));
    let d = unit.cursor(c);
    match d.kind {
        CursorKind::FieldDecl => {
            lemma_conv_ty(unit, opts, st, d.cur_type, c);
            let (st1, ty) = conv_ty(unit, opts, st, d.cur_type, c);
            let report = Diagnostic::Bitfield { field: c, parent };
            lemma_log_err_warn(unit, st1, report, opts.fail_on_bitfield);
            let st2 = if d.bit_width is Some {
                log_err_warn(st1, report, opts.fail_on_bitfield)
            } else {
                st1
            };
            let field = FieldInfoView { name: d.spelling@, ty, bitfield: d.bit_width };
            let members = st2.bindings().comps[h as int].members;
            assert forall|j: int| 0 <= j < members.len() implies st2.bindings().holds_member(
                #[trigger] members[j],
            ) by {
                assert(st2.bindings().holds_member(st2.bindings().comps[h as int].members[j]));
            }
            lemma_add_field_held(st2, members, unit.ty(d.cur_type).kind, field);
            lemma_with_members(
                unit,
                st2,
                h,
                add_field(members, unit.ty(d.cur_type).kind, field),
            );
        },
        CursorKind::StructDecl | CursorKind::UnionDecl => {
            match fwd_decl(unit, c) {
                FwdDecl::Definition => {
                    lemma_decl_name(unit, opts, st, c);
                    let (st1, g) = decl_name(unit, opts, st, c);
                    lemma_composite_children(unit, opts, st1, c, g.handle(), 0);
                    let st2 = composite_children(unit, opts, st1, c, g.handle(), 0);
                    let members = st2.bindings().comps[h as int].members;
                    let longer = members.push(CompMemberView::NestedComposite(g.handle()));
                    assert forall|j: int| 0 <= j < longer.len() implies st2.bindings().holds_member(
                        #[trigger] longer[j],
                    ) by {
                        if j < members.len() {
                            assert(st2.bindings().holds_member(
                                st2.bindings().comps[h as int].members[j],
                            ));
                        }
                    }
                    lemma_with_members(unit, st2, h, longer);
                },
                FwdDecl::Undefined => {
                    lemma_opaque_decl(unit, opts, st, c);
                },
                FwdDecl::Elsewhere => {},
            }
        },
        _ => {},
    }
}

/// Visiting the children of a composite keeps the state well formed and
/// extends it.
pub proof fn lemma_composite_children(
    unit: &TranslationUnit,
    opts: &ClangParserOptions,
    st: State,
    c: usize,
    h: usize,
    i: int,
)
    requires
        unit.wf(),
        st.wf(unit),
        c < unit.cursors.len(),
        h < st.comps.len(),
        0 <= i,
    ensures
        step_ok(unit, st, composite_children(unit, opts, st, c, h, i)),
    decreases unit.cursors.len() - c, 0nat, unit.cursor(c).children.len() - i,
{
    assert(unit.cursor_ok(c as int));
    let children = unit.cursor(c).children;
    if i < children.len() {
        lemma_visit_composite(unit, opts, st, children[i], c, h);
        lemma_composite_children(
            unit,
            opts,
            visit_composite(unit, opts, st, children[i], c, h),
            c,
            h,
            i + 1,
        );
    }
}

/// Visiting a child of an enum keeps the state well formed, extends it,
/// and leaves the registry and the top-level declarations alone.
pub proof fn lemma_visit_enum(unit: &TranslationUnit, st: State, c: usize, h: usize)
    requires
        st.wf(unit),
        h < st.enums.len(),
    ensures
        step_ok(unit, st, visit_enum(unit, st, c, h)),
        visit_enum(unit, st, c, h).globals == st.globals,
        visit_enum(unit, st, c, h).registry == st.registry,
        visit_enum(unit, st, c, h).enums.len() == st.enums.len(),
{
    let d = unit.cursor(c);
    if d.kind == CursorKind::EnumConstantDecl {
        lemma_with_items(
            unit,
            st,
            h,
            st.enums[h as int].items.push(EnumItemView { name: d.spelling@, val: d.enum_val }),
        );
    }
}

/// Visiting the children of an enum keeps the state well formed, extends
/// it, and leaves the registry and the top-level declarations alone.
pub proof fn lemma_enum_children(unit: &TranslationUnit, st: State, c: usize, h: usize, i: int)
    requires
        st.wf(unit),
        h < st.enums.len(),
    ensures
        step_ok(unit, st, enum_children(unit, st, c, h, i)),
        enum_children(unit, st, c, h, i).globals == st.globals,
        enum_children(unit, st, c, h, i).registry == st.registry,
    decreases unit.cursor(c).children.len() - i,
{
    let children = unit.cursor(c).children;
    if 0 <= i < children.len() {
        lemma_visit_enum(unit, st, children[i], h);
        lemma_enum_children(unit, visit_enum(unit, st, children[i], h), c, h, i + 1);
    }
}

/// Looking at the type behind a typedef keeps the state well formed and
/// extends it.
pub proof fn lemma_opaque_ty(
    unit: &TranslationUnit,
    opts: &ClangParserOptions,
    st: State,
    t: usize,
)
    requires
        unit.wf(),
        st.wf(unit),
        t < unit.types.len(),
    ensures
        step_ok(unit, st, opaque_ty(unit, opts, st, t)),
{
    assert(unit.type_ok(t as int));
    let d = unit.ty(t);
    if (d.kind == TypeKind::Record || d.kind == TypeKind::Enum) && is_missing(
        unit.cursor(unit.cursor(d.declaration).definition).kind,
    ) {
        lemma_opaque_decl(unit, opts, st, d.declaration);
    }
}

/// Visiting a top-level cursor keeps the state well formed and extends it:
/// what was found before stays, in its order, before what is found now.
pub proof fn lemma_visit_top(
    unit: &TranslationUnit,
    opts: &ClangParserOptions,
    st: State,
    c: usize,
)
    requires
        unit.wf(),
        st.wf(unit),
        c < unit.cursors.len(),
    ensures
        step_ok(unit, st, visit_top(unit, opts, st, c)),
{
    assert(unit.cursor_ok(c as int));
    let d = unit.cursor(c);
    if included(unit, opts, c) {
        match d.kind {
            CursorKind::StructDecl | CursorKind::UnionDecl => {
                match fwd_decl(unit, c) {
                    FwdDecl::Definition => {
                        lemma_decl_name(unit, opts, st, c);
                        let (st1, g) = decl_name(unit, opts, st, c);
                        lemma_composite_children(unit, opts, st1, c, g.handle(), 0);
                        let st2 = composite_children(unit, opts, st1, c, g.handle(), 0);
                        lemma_push_global(unit, st2, Global::Composite(g.handle()));
                    },
                    FwdDecl::Undefined => {
                        lemma_opaque_decl(unit, opts, st, c);
                    },
                    FwdDecl::Elsewhere => {},
                }
            },
            CursorKind::EnumDecl => {
                match fwd_decl(unit, c) {
                    FwdDecl::Definition => {
                        lemma_decl_name(unit, opts, st, c);
                        let (st1, g) = decl_name(unit, opts, st, c);
                        lemma_enum_children(unit, st1, c, g.handle(), 0);
                        let st2 = enum_children(unit, st1, c, g.handle(), 0);
                        lemma_push_global(unit, st2, Global::Enum(g.handle()));
                    },
                    FwdDecl::Undefined => {
                        lemma_opaque_decl(unit, opts, st, c);
                    },
                    FwdDecl::Elsewhere => {},
                }
            },
            CursorKind::FunctionDecl => {
                if is_external(d.linkage) {
                    lemma_visit_function(unit, opts, st, c);
                }
            },
            CursorKind::VarDecl => {
                if is_external(d.linkage) {
                    lemma_visit_variable(unit, opts, st, c);
                }
            },
            CursorKind::TypedefDecl => {
                assert(unit.type_ok(d.typedef_type as int));
                let under = typedef_target(unit, c);
                lemma_conv_ty(unit, opts, st, under, c);
                let (st1, ty) = conv_ty(unit, opts, st, under, c);
                lemma_decl_name(unit, opts, st1, c);
                let (st2, g) = decl_name(unit, opts, st1, c);
                lemma_type_held_later(st1.bindings(), st2.bindings(), ty);
                lemma_with_alias(unit, st2, g.handle(), ty);
                let st3 = st2.with_alias(g.handle(), ty);
                lemma_push_global(unit, st3, g);
                lemma_opaque_ty(unit, opts, st3.push_global(g), under);
            },
            _ => {},
        }
    }
}

/// A function that is included and visible outside the unit is converted
/// and becomes the last top-level declaration, after all there were.
pub proof fn lemma_visit_function(
    unit: &TranslationUnit,
    opts: &ClangParserOptions,
    st: State,
    c: usize,
)
    requires
        unit.wf(),
        st.wf(unit),
        c < unit.cursors.len(),
        unit.cursor(c).kind == CursorKind::FunctionDecl,
        is_external(unit.cursor(c).linkage),
        included(unit, opts, c),
    ensures
        step_ok(unit, st, visit_top(unit, opts, st, c)),
        visit_top(unit, opts, st, c).registry.contains_key(unit.cursor(c).canonical),
        visit_top(unit, opts, st, c).registry[unit.cursor(c).canonical] is Function,
        visit_top(unit, opts, st, c).globals == st.globals.push(
            visit_top(unit, opts, st, c).registry[unit.cursor(c).canonical],
        ),
{
    assert(unit.cursor_ok(c as int));
    let d = unit.cursor(c);
    lemma_conv_args(unit, opts, st, c, 0, Seq::empty());
    let (st1, args) = conv_args(unit, opts, st, c, 0, Seq::empty());
    lemma_conv_ty(unit, opts, st1, d.ret_type, c);
    let (st2, ret) = conv_ty(unit, opts, st1, d.ret_type, c);
    let f = unit.ty(d.cur_type);
    lemma_decl_name(unit, opts, st2, c);
    let (st3, g) = decl_name(unit, opts, st2, c);
    lemma_params_closed_grow(
        args,
        st1.comps.len(),
        st1.enums.len(),
        st1.aliases.len(),
        st3.comps.len(),
        st3.enums.len(),
        st3.aliases.len(),
    );
    lemma_type_held_later(st2.bindings(), st3.bindings(), ret);
    let ty = TypeView::Function(Box::new(ret), args, f.is_variadic, get_abi(f.call_conv));
    let is_const = st3.vars[g.handle() as int].is_const;
    lemma_with_var(unit, st3, g.handle(), ty, is_const);
    lemma_push_global(unit, st3.with_var(g.handle(), ty, is_const), g);
}

/// A variable that is included and visible outside the unit is converted
/// and becomes the last top-level declaration, after all there were.
pub proof fn lemma_visit_variable(
    unit: &TranslationUnit,
    opts: &ClangParserOptions,
    st: State,
    c: usize,
)
    requires
        unit.wf(),
        st.wf(unit),
        c < unit.cursors.len(),
        unit.cursor(c).kind == CursorKind::VarDecl,
        is_external(unit.cursor(c).linkage),
        included(unit, opts, c),
    ensures
        step_ok(unit, st, visit_top(unit, opts, st, c)),
        visit_top(unit, opts, st, c).registry.contains_key(unit.cursor(c).canonical),
        visit_top(unit, opts, st, c).registry[unit.cursor(c).canonical] is Variable,
        visit_top(unit, opts, st, c).globals == st.globals.push(
            visit_top(unit, opts, st, c).registry[unit.cursor(c).canonical],
        ),
{
    assert(unit.cursor_ok(c as int));
    let d = unit.cursor(c);
    lemma_conv_ty(unit, opts, st, d.cur_type, c);
    let (st1, ty) = conv_ty(unit, opts, st, d.cur_type, c);
    lemma_decl_name(unit, opts, st1, c);
    let (st2, g) = decl_name(unit, opts, st1, c);
    lemma_type_held_later(st1.bindings(), st2.bindings(), ty);
    let is_const = unit.ty(d.cur_type).is_const;
    lemma_with_var(unit, st2, g.handle(), ty, is_const);
    lemma_push_global(unit, st2.with_var(g.handle(), ty, is_const), g);
}

/// Visiting the top-level cursors keeps the state well formed and extends
/// it.
pub proof fn lemma_top_children(
    unit: &TranslationUnit,
    opts: &ClangParserOptions,
    st: State,
    i: int,
)
    requires
        unit.wf(),
        st.wf(unit),
    ensures
        step_ok(unit, st, top_children(unit, opts, st, i)),
    decreases unit.cursor(unit.root).children.len() - i,
{
    assert(unit.cursor_ok(unit.root as int));
    let children = unit.cursor(unit.root).children;
    if 0 <= i < children.len() {
        lemma_visit_top(unit, opts, st, children[i]);
        lemma_top_children(unit, opts, visit_top(unit, opts, st, children[i]), i + 1);
    }
}

} // verus!
