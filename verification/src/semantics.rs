//! What the parser computes, as functions on the state of a run.
//!
//! The state holds the registry of declarations, the records made so far,
//! the top-level declarations found so far, the queue of declarations to
//! visit again, and the reports. Every step of the parser is a function from
//! a state to the next one.

use vstd::prelude::*;
use crate::ast::{
    decl_class, is_external, is_function_kind, is_missing, may_be_function, CallingConv, CursorKind,
    DeclClass, Severity, TranslationUnit, TypeKind,
};
use crate::ir::{
    lemma_closed_with_more_records, params_closed, Abi, BindingsView, CompInfoView, CompKind,
    CompMemberView, EnumInfoView, EnumItemView, FieldInfoView, FloatKind, Global, IntegerKind,
    Layout, TypeAliasInfoView, TypeView, VarInfoView,
};
use crate::log::{Diagnostic, Report};
use crate::options::ClangParserOptions;

verus! {

/// The state of a run.
pub ghost struct State {
    /// From the canonical cursor of a declaration to what stands for it.
    pub registry: Map<usize, Global>,
    pub globals: Seq<Global>,
    /// Canonical cursors to visit again, first in first out.
    pub builtin_defs: Seq<usize>,
    pub err_count: nat,
    pub comps: Seq<CompInfoView>,
    pub enums: Seq<EnumInfoView>,
    pub aliases: Seq<TypeAliasInfoView>,
    pub vars: Seq<VarInfoView>,
    /// The reports so far, errors and warnings, in order.
    pub reports: Seq<Report>,
}

/// Whether a composite declared by a cursor of this kind is a struct or a
/// union.
pub open spec fn comp_kind(kind: CursorKind) -> CompKind {
    if kind == CursorKind::UnionDecl {
        CompKind::Union
    } else {
        CompKind::Struct
    }
}

/// The layout of type `t` as the unit reports it.
pub open spec fn layout_of(unit: &TranslationUnit, t: usize) -> Layout {
    Layout { size: unit.ty(t).size, align: unit.ty(t).align }
}

/// The table that a declaration's record lives in: 0 to 3, or 4 for none.
pub open spec fn table_of(g: Global) -> int {
    match g {
        Global::Composite(_) | Global::CompDeclaration(_) => 0,
        Global::Enum(_) | Global::EnumDeclaration(_) => 1,
        Global::TypeAlias(_) => 2,
        Global::Variable(_) | Global::Function(_) => 3,
        Global::Opaque => 4,
    }
}

impl State {
    /// The state before anything was visited, with the reports made earlier.
    pub open spec fn initial(reports: Seq<Report>) -> State {
        State {
            registry: Map::empty(),
            globals: Seq::empty(),
            builtin_defs: Seq::empty(),
            err_count: 0,
            comps: Seq::empty(),
            enums: Seq::empty(),
            aliases: Seq::empty(),
            vars: Seq::empty(),
            reports,
        }
    }

    /// The top-level declarations and the records of the state.
    pub open spec fn bindings(self) -> BindingsView {
        BindingsView {
            globals: self.globals,
            comps: self.comps,
            enums: self.enums,
            aliases: self.aliases,
            vars: self.vars,
        }
    }

    /// Whether every handle in `t` has a record.
    pub open spec fn holds_type(self, t: TypeView) -> bool {
        self.bindings().holds_type(t)
    }

    /// Whether every handle in the types of `ps` has a record.
    pub open spec fn holds_params(self, ps: Seq<(Seq<char>, TypeView)>) -> bool {
        params_closed(ps, self.comps.len(), self.enums.len(), self.aliases.len())
    }

    /// What the registry holds for canonical cursor `k` fits the kind of `k`
    /// and refers to a record that exists and has the spelling of `k` as its
    /// name and, for a composite or an enum, the layout of the type of `k`.
    pub open spec fn entry_ok(self, unit: &TranslationUnit, k: usize) -> bool {
        let g = self.registry[k];
        let h = g.handle() as int;
        let d = unit.cursor(k);
        match decl_class(d.kind) {
            DeclClass::Composite => {
                &&& g is CompDeclaration
                &&& h < self.comps.len()
                &&& self.comps[h].name == d.spelling@
                &&& self.comps[h].kind == comp_kind(d.kind)
                &&& self.comps[h].layout == layout_of(unit, d.cur_type)
            },
            DeclClass::Enum => {
                &&& g is EnumDeclaration
                &&& h < self.enums.len()
                &&& self.enums[h].name == d.spelling@
                &&& self.enums[h].layout == layout_of(unit, d.cur_type)
            },
            DeclClass::Alias => {
                &&& g is TypeAlias
                &&& h < self.aliases.len()
                &&& self.aliases[h].name == d.spelling@
            },
            DeclClass::Variable => {
                &&& g is Variable
                &&& h < self.vars.len()
                &&& self.vars[h].name == d.spelling@
            },
            DeclClass::Function => {
                &&& g is Function
                &&& h < self.vars.len()
                &&& self.vars[h].name == d.spelling@
            },
            DeclClass::Opaque => g is Opaque,
        }
    }

    /// Whether `g` stands for a declaration in the registry.
    pub open spec fn declared(self, g: Global) -> bool {
        exists|k: usize| self.registry.contains_key(k) && #[trigger] self.registry[k] == g
    }

    /// Every record was made for a declaration in the registry.
    pub open spec fn records_declared(self) -> bool {
        &&& forall|h: usize|
            h < self.comps.len() ==> #[trigger] self.declared(Global::CompDeclaration(h))
        &&& forall|h: usize|
            h < self.enums.len() ==> #[trigger] self.declared(Global::EnumDeclaration(h))
        &&& forall|h: usize| h < self.aliases.len() ==> #[trigger] self.declared(Global::TypeAlias(h))
        &&& forall|h: usize|
            h < self.vars.len() ==> #[trigger] self.declared(Global::Variable(h))
                || #[trigger] self.declared(Global::Function(h))
    }

    /// The invariant of a run over `unit`: the registry speaks of cursors of
    /// the unit and of records that exist, every record stands for one
    /// declaration and no record for two, the queue holds cursors of the
    /// unit, and every handle in the bindings has a record.
    pub open spec fn wf(self, unit: &TranslationUnit) -> bool {
        &&& self.bindings().closed()
        &&& self.records_declared()
        &&& self.registry.dom().finite()
        &&& self.comps.len() + self.enums.len() + self.aliases.len() + self.vars.len()
            <= self.registry.len()
        &&& forall|k: usize| #[trigger]
            self.registry.contains_key(k) ==> k < unit.cursors.len() && self.entry_ok(unit, k)
        &&& forall|k1: usize, k2: usize|
            #![trigger self.registry[k1], self.registry[k2]]
            self.registry.contains_key(k1) && self.registry.contains_key(k2) && k1 != k2
                && table_of(self.registry[k1]) == table_of(self.registry[k2]) && table_of(
                self.registry[k1],
            ) != 4 ==> self.registry[k1].handle() != self.registry[k2].handle()
        &&& forall|i: int|
            0 <= i < self.builtin_defs.len() ==> #[trigger] self.builtin_defs[i]
                < unit.cursors.len()
        &&& self.err_count <= self.reports.len()
    }

    /// Nothing that `self` holds was taken back in `later`: every declaration
    /// registered keeps what stands for it, the top-level declarations and
    /// the reports so far are the first of those of `later`, no record is
    /// gone, and the queue grew by no more than the registry did.
    pub open spec fn extended_by(self, later: State) -> bool {
        &&& forall|k: usize| #[trigger]
            self.registry.contains_key(k) ==> later.registry.contains_key(k) && later.registry[k]
                == self.registry[k]
        &&& self.registry.len() <= later.registry.len()
        &&& later.builtin_defs.len() - later.registry.len() <= self.builtin_defs.len()
            - self.registry.len()
        &&& self.globals.len() <= later.globals.len()
        &&& forall|i: int|
            0 <= i < self.globals.len() ==> #[trigger] later.globals[i] == self.globals[i]
        &&& self.comps.len() <= later.comps.len()
        &&& self.enums.len() <= later.enums.len()
        &&& self.aliases.len() <= later.aliases.len()
        &&& self.vars.len() <= later.vars.len()
        &&& self.reports.len() <= later.reports.len()
        &&& forall|i: int|
            0 <= i < self.reports.len() ==> #[trigger] later.reports[i] == self.reports[i]
        &&& self.err_count <= later.err_count
    }

    /// The state with one more top-level declaration.
    pub open spec fn push_global(self, g: Global) -> State {
        State { globals: self.globals.push(g), ..self }
    }

    /// The state with other members in the composite with record `h`.
    pub open spec fn with_members(self, h: usize, members: Seq<CompMemberView>) -> State {
        State {
            comps: self.comps.update(h as int, CompInfoView { members, ..self.comps[h as int] }),
            ..self
        }
    }

    /// The state with other constants in the enum with record `h`.
    pub open spec fn with_items(self, h: usize, items: Seq<EnumItemView>) -> State {
        State {
            enums: self.enums.update(h as int, EnumInfoView { items, ..self.enums[h as int] }),
            ..self
        }
    }

    /// The state with another type behind the alias with record `h`.
    pub open spec fn with_alias(self, h: usize, ty: TypeView) -> State {
        State {
            aliases: self.aliases.update(
                h as int,
                TypeAliasInfoView { ty, ..self.aliases[h as int] },
            ),
            ..self
        }
    }

    /// The state with another type and constness of the variable or
    /// function with record `h`.
    pub open spec fn with_var(self, h: usize, ty: TypeView, is_const: bool) -> State {
        State {
            vars: self.vars.update(h as int, VarInfoView { ty, is_const, ..self.vars[h as int] }),
            ..self
        }
    }
}

/// What stands for a declaration in a state stands for it in every state
/// whose registry holds all that the state's registry holds.
pub proof fn lemma_declared_kept(st: State, later: State, g: Global)
    requires
        st.declared(g),
        forall|k: usize| #[trigger]
            st.registry.contains_key(k) ==> later.registry.contains_key(k) && later.registry[k]
                == st.registry[k],
    ensures
        later.declared(g),
{
    let k = choose|k: usize| st.registry.contains_key(k) && #[trigger] st.registry[k] == g;
    assert(later.registry.contains_key(k) && later.registry[k] == g);
}

/// With the same registry and as many records of each kind, every record
/// still stands for a declaration.
pub proof fn lemma_records_declared_kept(st: State, later: State)
    requires
        st.records_declared(),
        later.registry == st.registry,
        later.comps.len() == st.comps.len(),
        later.enums.len() == st.enums.len(),
        later.aliases.len() == st.aliases.len(),
        later.vars.len() == st.vars.len(),
    ensures
        later.records_declared(),
{
    assert forall|h: usize| h < later.comps.len() implies #[trigger] later.declared(
        Global::CompDeclaration(h),
    ) by {
        lemma_declared_kept(st, later, Global::CompDeclaration(h));
    }
    assert forall|h: usize| h < later.enums.len() implies #[trigger] later.declared(
        Global::EnumDeclaration(h),
    ) by {
        lemma_declared_kept(st, later, Global::EnumDeclaration(h));
    }
    assert forall|h: usize| h < later.aliases.len() implies #[trigger] later.declared(
        Global::TypeAlias(h),
    ) by {
        lemma_declared_kept(st, later, Global::TypeAlias(h));
    }
    assert forall|h: usize| h < later.vars.len() implies #[trigger] later.declared(
        Global::Variable(h),
    ) || #[trigger] later.declared(Global::Function(h)) by {
        if st.declared(Global::Variable(h)) {
            lemma_declared_kept(st, later, Global::Variable(h));
        } else {
            lemma_declared_kept(st, later, Global::Function(h));
        }
    }
}

/// Changing the members of a composite to members whose handles have
/// records keeps the state well formed, and extends it.
pub proof fn lemma_with_members(
    unit: &TranslationUnit,
    st: State,
    h: usize,
    members: Seq<CompMemberView>,
)
    requires
        st.wf(unit),
        h < st.comps.len(),
        forall|j: int| 0 <= j < members.len() ==> st.bindings().holds_member(#[trigger] members[j]),
    ensures
        st.with_members(h, members).wf(unit),
        st.extended_by(st.with_members(h, members)),
{
    let after = st.with_members(h, members);
    lemma_records_declared_kept(st, after);
    assert forall|k: usize| #[trigger] after.registry.contains_key(k) implies k < unit.cursors.len()
        && after.entry_ok(unit, k) by {
        assert(st.entry_ok(unit, k));
    }
    assert forall|x: int, j: int|
        0 <= x < after.comps.len() && 0 <= j < after.comps[x].members.len()
        implies after.bindings().holds_member(#[trigger] after.comps[x].members[j]) by {
        if x == h {
            assert(st.bindings().holds_member(members[j]));
        } else {
            assert(st.bindings().holds_member(st.bindings().comps[x].members[j]));
        }
    }
    assert forall|i: int| 0 <= i < after.globals.len() implies after.bindings().holds_global(
        #[trigger] after.globals[i],
    ) by {
        assert(st.bindings().holds_global(st.bindings().globals[i]));
    }
    assert forall|x: int| 0 <= x < after.aliases.len() implies after.bindings().holds_type(
        (#[trigger] after.aliases[x]).ty,
    ) by {
        assert(st.bindings().holds_type(st.bindings().aliases[x].ty));
    }
    assert forall|x: int| 0 <= x < after.vars.len() implies after.bindings().holds_type(
        (#[trigger] after.vars[x]).ty,
    ) by {
        assert(st.bindings().holds_type(st.bindings().vars[x].ty));
    }
}

/// Adding a field whose type holds only handles with records to members
/// that hold only such handles gives members that hold only such handles.
pub proof fn lemma_add_field_held(
    st: State,
    members: Seq<CompMemberView>,
    foreign: TypeKind,
    field: FieldInfoView,
)
    requires
        forall|j: int| 0 <= j < members.len() ==> st.bindings().holds_member(#[trigger] members[j]),
        st.holds_type(field.ty),
    ensures
        forall|j: int|
            0 <= j < add_field(members, foreign, field).len() ==> st.bindings().holds_member(
                #[trigger] add_field(members, foreign, field)[j],
            ),
{
    let after = add_field(members, foreign, field);
    assert forall|j: int| 0 <= j < after.len() implies st.bindings().holds_member(
        #[trigger] after[j],
    ) by {
        if folds(members, foreign, field.ty) {
            if j < after.len() - 1 {
                assert(after[j] == members[j]);
            } else {
                assert(st.bindings().holds_member(members[members.len() - 1]));
            }
        } else {
            if j < members.len() {
                assert(after[j] == members[j]);
            }
        }
    }
}

/// Changing the items of an enum keeps the state well formed, and extends
/// it.
pub proof fn lemma_with_items(
    unit: &TranslationUnit,
    st: State,
    h: usize,
    items: Seq<EnumItemView>,
)
    requires
        st.wf(unit),
        h < st.enums.len(),
    ensures
        st.with_items(h, items).wf(unit),
        st.extended_by(st.with_items(h, items)),
{
    let after = st.with_items(h, items);
    lemma_records_declared_kept(st, after);
    assert forall|k: usize| #[trigger] after.registry.contains_key(k) implies k < unit.cursors.len()
        && after.entry_ok(unit, k) by {
        assert(st.entry_ok(unit, k));
    }
    lemma_closed_with_more_records(st.bindings(), after.bindings());
}

/// Changing the type of an alias to one whose handles have records keeps
/// the state well formed, and extends it.
pub proof fn lemma_with_alias(unit: &TranslationUnit, st: State, h: usize, ty: TypeView)
    requires
        st.wf(unit),
        h < st.aliases.len(),
        st.holds_type(ty),
    ensures
        st.with_alias(h, ty).wf(unit),
        st.extended_by(st.with_alias(h, ty)),
{
    let after = st.with_alias(h, ty);
    lemma_records_declared_kept(st, after);
    assert forall|k: usize| #[trigger] after.registry.contains_key(k) implies k < unit.cursors.len()
        && after.entry_ok(unit, k) by {
        assert(st.entry_ok(unit, k));
    }
    assert forall|x: int, j: int|
        0 <= x < after.comps.len() && 0 <= j < after.comps[x].members.len()
        implies after.bindings().holds_member(#[trigger] after.comps[x].members[j]) by {
        assert(st.bindings().holds_member(st.bindings().comps[x].members[j]));
    }
    assert forall|i: int| 0 <= i < after.globals.len() implies after.bindings().holds_global(
        #[trigger] after.globals[i],
    ) by {
        assert(st.bindings().holds_global(st.bindings().globals[i]));
    }
    assert forall|x: int| 0 <= x < after.aliases.len() implies after.bindings().holds_type(
        (#[trigger] after.aliases[x]).ty,
    ) by {
        if x != h {
            assert(st.bindings().holds_type(st.bindings().aliases[x].ty));
        }
    }
    assert forall|x: int| 0 <= x < after.vars.len() implies after.bindings().holds_type(
        (#[trigger] after.vars[x]).ty,
    ) by {
        assert(st.bindings().holds_type(st.bindings().vars[x].ty));
    }
}

/// Changing the type of a variable or function to one whose handles have
/// records keeps the state well formed, and extends it.
pub proof fn lemma_with_var(
    unit: &TranslationUnit,
    st: State,
    h: usize,
    ty: TypeView,
    is_const: bool,
)
    requires
        st.wf(unit),
        h < st.vars.len(),
        st.holds_type(ty),
    ensures
        st.with_var(h, ty, is_const).wf(unit),
        st.extended_by(st.with_var(h, ty, is_const)),
{
    let after = st.with_var(h, ty, is_const);
    lemma_records_declared_kept(st, after);
    assert forall|k: usize| #[trigger] after.registry.contains_key(k) implies k < unit.cursors.len()
        && after.entry_ok(unit, k) by {
        assert(st.entry_ok(unit, k));
    }
    assert forall|x: int, j: int|
        0 <= x < after.comps.len() && 0 <= j < after.comps[x].members.len()
        implies after.bindings().holds_member(#[trigger] after.comps[x].members[j]) by {
        assert(st.bindings().holds_member(st.bindings().comps[x].members[j]));
    }
    assert forall|i: int| 0 <= i < after.globals.len() implies after.bindings().holds_global(
        #[trigger] after.globals[i],
    ) by {
        assert(st.bindings().holds_global(st.bindings().globals[i]));
    }
    assert forall|x: int| 0 <= x < after.aliases.len() implies after.bindings().holds_type(
        (#[trigger] after.aliases[x]).ty,
    ) by {
        assert(st.bindings().holds_type(st.bindings().aliases[x].ty));
    }
    assert forall|x: int| 0 <= x < after.vars.len() implies after.bindings().holds_type(
        (#[trigger] after.vars[x]).ty,
    ) by {
        if x != h {
            assert(st.bindings().holds_type(st.bindings().vars[x].ty));
        }
    }
}

/// Adding a top-level declaration whose handle has a record keeps the state
/// well formed, and extends it.
pub proof fn lemma_push_global(unit: &TranslationUnit, st: State, g: Global)
    requires
        st.wf(unit),
        st.bindings().holds_global(g),
    ensures
        st.push_global(g).wf(unit),
        st.extended_by(st.push_global(g)),
{
    let after = st.push_global(g);
    lemma_records_declared_kept(st, after);
    assert forall|k: usize| #[trigger] after.registry.contains_key(k) implies k < unit.cursors.len()
        && after.entry_ok(unit, k) by {
        assert(st.entry_ok(unit, k));
    }
    assert forall|x: int, j: int|
        0 <= x < after.comps.len() && 0 <= j < after.comps[x].members.len()
        implies after.bindings().holds_member(#[trigger] after.comps[x].members[j]) by {
        assert(st.bindings().holds_member(st.bindings().comps[x].members[j]));
    }
    assert forall|i: int| 0 <= i < after.globals.len() implies after.bindings().holds_global(
        #[trigger] after.globals[i],
    ) by {
        if i < st.globals.len() {
            assert(st.bindings().holds_global(st.bindings().globals[i]));
        }
    }
    assert forall|x: int| 0 <= x < after.aliases.len() implies after.bindings().holds_type(
        (#[trigger] after.aliases[x]).ty,
    ) by {
        assert(st.bindings().holds_type(st.bindings().aliases[x].ty));
    }
    assert forall|x: int| 0 <= x < after.vars.len() implies after.bindings().holds_type(
        (#[trigger] after.vars[x]).ty,
    ) by {
        assert(st.bindings().holds_type(st.bindings().vars[x].ty));
    }
}

// ---------------------------------------------------------------------------
// Reports

/// The state after one report: an error is counted, a warning is not.
pub open spec fn log_err_warn(st: State, d: Diagnostic, is_err: bool) -> State {
    let reports = st.reports.push(Report { is_error: is_err, diagnostic: d });
    if is_err {
        State { err_count: st.err_count + 1, reports, ..st }
    } else {
        State { reports, ..st }
    }
}

/// Whether a diagnostic of this severity is an error.
pub open spec fn is_error_severity(s: Severity) -> bool {
    s == Severity::Error || s == Severity::Fatal
}

/// The state after the unit's own diagnostics from number `i` on were
/// reported.
pub open spec fn log_diagnostics(unit: &TranslationUnit, st: State, i: int) -> State
    decreases unit.diagnostics.len() - i,
{
    if 0 <= i < unit.diagnostics.len() {
        log_diagnostics(
            unit,
            log_err_warn(
                st,
                Diagnostic::Unit { index: i as usize },
                is_error_severity(unit.diagnostics[i].severity),
            ),
            i + 1,
        )
    } else {
        st
    }
}

// ---------------------------------------------------------------------------
// Pattern filter

/// `pat` occurs in `text` as a run of consecutive characters.
pub open spec fn is_substring(pat: Seq<char>, text: Seq<char>) -> bool {
    exists|k: int|
        0 <= k && k + pat.len() <= text.len() && #[trigger] text.subrange(k, k + pat.len()) == pat
}

/// Whether one of `pats` occurs in `name`.
pub open spec fn matches_any(pats: Seq<String>, name: Seq<char>) -> bool {
    exists|i: int| 0 <= i < pats.len() && is_substring(#[trigger] pats[i]@, name)
}

/// Whether the declaration at cursor `c` is included.
pub open spec fn included(unit: &TranslationUnit, opts: &ClangParserOptions, c: usize) -> bool {
    match unit.cursor(c).file {
        None => opts.builtins,
        Some(f) => opts.match_pat.len() == 0 || matches_any(opts.match_pat@, f@),
    }
}

// ---------------------------------------------------------------------------
// Registry

/// Whether `s` is one of `names`.
pub open spec fn is_builtin_name(names: Seq<String>, s: Seq<char>) -> bool {
    exists|i: int| 0 <= i < names.len() && (#[trigger] names[i])@ == s
}

/// The integer kind of an enum: the override if there is one, else the kind
/// of the underlying type, `Int` where that is no integer type the enum
/// could have.
pub open spec fn enum_kind(override_ty: Option<IntegerKind>, underlying: TypeKind) -> IntegerKind {
    match override_ty {
        Some(k) => k,
        None => match underlying {
            TypeKind::SChar | TypeKind::CharS => IntegerKind::SChar,
            TypeKind::UChar | TypeKind::CharU => IntegerKind::UChar,
            TypeKind::UShort => IntegerKind::UShort,
            TypeKind::UInt => IntegerKind::UInt,
            TypeKind::ULong => IntegerKind::ULong,
            TypeKind::ULongLong => IntegerKind::ULongLong,
            TypeKind::Short => IntegerKind::Short,
            TypeKind::Int => IntegerKind::Int,
            TypeKind::Long => IntegerKind::Long,
            TypeKind::LongLong => IntegerKind::LongLong,
            _ => IntegerKind::Int,
        },
    }
}

/// The state after an empty record was made for canonical cursor `k` and
/// registered, and what stands for `k` from then on. If `k` is spelled like
/// a builtin, it is queued.
pub open spec fn register(
    unit: &TranslationUnit,
    opts: &ClangParserOptions,
    st: State,
    k: usize,
) -> (State, Global) {
    let d = unit.cursor(k);
    let name = d.spelling@;
    let layout = layout_of(unit, d.cur_type);
    let (st1, g) = match d.kind {
        CursorKind::StructDecl => (
            State {
                comps: st.comps.push(
                    CompInfoView { name, kind: CompKind::Struct, members: Seq::empty(), layout },
                ),
                ..st
            },
            Global::CompDeclaration(st.comps.len() as usize),
        ),
        CursorKind::UnionDecl => (
            State {
                comps: st.comps.push(
                    CompInfoView { name, kind: CompKind::Union, members: Seq::empty(), layout },
                ),
                ..st
            },
            Global::CompDeclaration(st.comps.len() as usize),
        ),
        CursorKind::EnumDecl => (
            State {
                enums: st.enums.push(
                    EnumInfoView {
                        name,
                        kind: enum_kind(opts.override_enum_ty, unit.ty(d.enum_type).kind),
                        items: Seq::empty(),
                        layout,
                    },
                ),
                ..st
            },
            Global::EnumDeclaration(st.enums.len() as usize),
        ),
        CursorKind::TypedefDecl => (
            State { aliases: st.aliases.push(TypeAliasInfoView { name, ty: TypeView::Void }), ..st },
            Global::TypeAlias(st.aliases.len() as usize),
        ),
        CursorKind::VarDecl => (
            State {
                vars: st.vars.push(VarInfoView { name, ty: TypeView::Void, is_const: false }),
                ..st
            },
            Global::Variable(st.vars.len() as usize),
        ),
        CursorKind::FunctionDecl => (
            State {
                vars: st.vars.push(VarInfoView { name, ty: TypeView::Void, is_const: false }),
                ..st
            },
            Global::Function(st.vars.len() as usize),
        ),
        _ => (st, Global::Opaque),
    };
    let st2 = State { registry: st1.registry.insert(k, g), ..st1 };
    let st3 = if is_builtin_name(opts.builtin_names@, name) {
        State { builtin_defs: st2.builtin_defs.push(k), ..st2 }
    } else {
        st2
    };
    (st3, g)
}

/// What stands for the declaration at cursor `c`, and the state after it
/// was looked up: unchanged if the declaration was registered before.
pub open spec fn decl_name(
    unit: &TranslationUnit,
    opts: &ClangParserOptions,
    st: State,
    c: usize,
) -> (State, Global) {
    let k = unit.cursor(c).canonical;
    if st.registry.contains_key(k) {
        (st, st.registry[k])
    } else {
        register(unit, opts, st, k)
    }
}

/// The state after the declaration at `c` was looked up and added to the
/// top-level declarations as it stands.
pub open spec fn opaque_decl(
    unit: &TranslationUnit,
    opts: &ClangParserOptions,
    st: State,
    c: usize,
) -> State {
    let (st1, g) = decl_name(unit, opts, st, c);
    st1.push_global(g)
}

/// What a cursor is with regard to the definition of its entity.
#[derive(Clone, Copy, Debug, PartialEq, Eq, Structural)]
pub enum FwdDecl {
    /// The cursor is the definition.
    Definition,
    /// The unit holds no definition.
    Undefined,
    /// The definition is another cursor of the unit.
    Elsewhere,
}

/// What cursor `c` is with regard to the definition of its entity.
pub open spec fn fwd_decl(unit: &TranslationUnit, c: usize) -> FwdDecl {
    let def = unit.cursor(c).definition;
    if def == c {
        FwdDecl::Definition
    } else if is_missing(unit.cursor(def).kind) {
        FwdDecl::Undefined
    } else {
        FwdDecl::Elsewhere
    }
}

// ---------------------------------------------------------------------------
// Types

/// The ABI tag of a calling convention that has one.
pub open spec fn get_abi(cc: CallingConv) -> Abi {
    match cc {
        CallingConv::Default | CallingConv::C => Abi::C,
        CallingConv::X86StdCall => Abi::Stdcall,
        CallingConv::X86FastCall => Abi::Fastcall,
        CallingConv::Aapcs => Abi::Aapcs,
        _ => Abi::Win64,
    }
}

/// The integer kind of a type of this kind, if it is an integer type.
pub open spec fn integer_kind(kind: TypeKind) -> Option<IntegerKind> {
    match kind {
        TypeKind::Bool => Some(IntegerKind::Bool),
        TypeKind::SChar | TypeKind::CharS => Some(IntegerKind::SChar),
        TypeKind::UChar | TypeKind::CharU => Some(IntegerKind::UChar),
        TypeKind::UShort => Some(IntegerKind::UShort),
        TypeKind::UInt => Some(IntegerKind::UInt),
        TypeKind::ULong => Some(IntegerKind::ULong),
        TypeKind::ULongLong => Some(IntegerKind::ULongLong),
        TypeKind::Short => Some(IntegerKind::Short),
        TypeKind::Int => Some(IntegerKind::Int),
        TypeKind::Long => Some(IntegerKind::Long),
        TypeKind::LongLong => Some(IntegerKind::LongLong),
        _ => None,
    }
}

/// The type that stands for the declaration at `c`, which is looked up:
/// a composite, an enum or an alias by handle, `Void` for any other cursor.
pub open spec fn conv_decl_ty(
    unit: &TranslationUnit,
    opts: &ClangParserOptions,
    st: State,
    c: usize,
) -> (State, TypeView) {
    match unit.cursor(c).kind {
        CursorKind::StructDecl | CursorKind::UnionDecl => {
            let (st1, g) = decl_name(unit, opts, st, c);
            (st1, TypeView::Composite(g.handle()))
        },
        CursorKind::EnumDecl => {
            let (st1, g) = decl_name(unit, opts, st, c);
            (st1, TypeView::Enum(g.handle()))
        },
        CursorKind::TypedefDecl => {
            let (st1, g) = decl_name(unit, opts, st, c);
            (st1, TypeView::Named(g.handle()))
        },
        _ => (st, TypeView::Void),
    }
}

/// The conversion of type `t`, met while converting for cursor `c`.
pub open spec fn conv_ty(
    unit: &TranslationUnit,
    opts: &ClangParserOptions,
    st: State,
    t: usize,
    c: usize,
) -> (State, TypeView)
    decreases 2 * (unit.cursors.len() - c) + 1, t, 0nat,
    when unit.wf() && t < unit.types.len() && c < unit.cursors.len()
    via conv_ty_terminates
{
    let d = unit.ty(t);
    let layout = layout_of(unit, t);
    match d.kind {
        TypeKind::Void | TypeKind::Invalid => (st, TypeView::Void),
        TypeKind::Float => (st, TypeView::Float(FloatKind::Float, layout)),
        TypeKind::Double | TypeKind::LongDouble => (st, TypeView::Float(FloatKind::Double, layout)),
        TypeKind::Pointer => conv_ptr_ty(unit, opts, st, d.pointee_type, c, layout),
        TypeKind::VariableArray | TypeKind::DependentSizedArray | TypeKind::IncompleteArray => {
            conv_ptr_ty(unit, opts, st, d.elem_type, c, layout)
        },
        TypeKind::Record | TypeKind::Typedef | TypeKind::Unexposed | TypeKind::Enum => {
            conv_decl_ty(unit, opts, st, d.declaration)
        },
        TypeKind::ConstantArray => {
            let (st1, e) = conv_ty(unit, opts, st, d.elem_type, c);
            (st1, TypeView::Array(Box::new(e), d.array_size, layout))
        },
        _ => match integer_kind(d.kind) {
            Some(k) => (st, TypeView::Integer(k, layout)),
            None => (
                log_err_warn(
                    st,
                    Diagnostic::UnsupportedType { kind: d.kind, cursor: c },
                    opts.fail_on_unknown_type,
                ),
                TypeView::Void,
            ),
        },
    }
}

#[via_fn]
proof fn conv_ty_terminates(
    unit: &TranslationUnit,
    opts: &ClangParserOptions,
    st: State,
    t: usize,
    c: usize,
) {
    assert(unit.type_ok(t as int));
}

/// The conversion of a pointer to type `t`, the pointer having layout
/// `layout`. A pointer to a function converts to the function type itself,
/// its parameters being those among the children of `c`.
pub open spec fn conv_ptr_ty(
    unit: &TranslationUnit,
    opts: &ClangParserOptions,
    st: State,
    t: usize,
    c: usize,
    layout: Layout,
) -> (State, TypeView)
    decreases 2 * (unit.cursors.len() - c) + 1, t, 1nat,
    when unit.wf() && t < unit.types.len() && c < unit.cursors.len()
    via conv_ptr_ty_terminates
{
    let d = unit.ty(t);
    if d.kind == TypeKind::Void {
        (st, TypeView::Pointer(Box::new(TypeView::Void), d.is_const, layout))
    } else if may_be_function(d.kind) {
        if unit.ty(d.ret_type).kind != TypeKind::Invalid {
            let (st1, params) = conv_params(unit, opts, st, c, 0, Seq::empty());
            let (st2, ret) = conv_ty(unit, opts, st1, d.ret_type, c);
            (st2, TypeView::Function(Box::new(ret), params, d.is_variadic, get_abi(d.call_conv)))
        } else if unit.cursor(d.declaration).kind != CursorKind::NoDeclFound {
            let (st1, p) = conv_decl_ty(unit, opts, st, d.declaration);
            (st1, TypeView::Pointer(Box::new(p), d.is_const, layout))
        } else {
            (st, TypeView::Pointer(Box::new(TypeView::Void), d.is_const, layout))
        }
    } else if d.kind == TypeKind::Typedef && is_function_kind(
        unit.ty(unit.cursor(d.declaration).typedef_type).kind,
    ) {
        let (st1, p) = conv_ptr_ty(
            unit,
            opts,
            st,
            unit.cursor(d.declaration).typedef_type,
            c,
            layout,
        );
        (st1, TypeView::Pointer(Box::new(p), d.is_const, layout))
    } else {
        let (st1, p) = conv_ty(unit, opts, st, t, c);
        (st1, TypeView::Pointer(Box::new(p), d.is_const, layout))
    }
}

#[via_fn]
proof fn conv_ptr_ty_terminates(
    unit: &TranslationUnit,
    opts: &ClangParserOptions,
    st: State,
    t: usize,
    c: usize,
    layout: Layout,
) {
    assert(unit.type_ok(t as int));
    assert(unit.cursor_ok(unit.ty(t).declaration as int));
    assert(unit.typedef_ok(t as int));
}

/// The parameters among the children of `c` from number `i` on, each with
/// its converted type, after those in `acc`.
pub open spec fn conv_params(
    unit: &TranslationUnit,
    opts: &ClangParserOptions,
    st: State,
    c: usize,
    i: int,
    acc: Seq<(Seq<char>, TypeView)>,
) -> (State, Seq<(Seq<char>, TypeView)>)
    decreases 2 * (unit.cursors.len() - c), unit.cursor(c).children.len() - i, 0nat,
    when unit.wf() && c < unit.cursors.len() && 0 <= i
    via conv_params_terminates
{
    let children = unit.cursor(c).children;
    if i >= children.len() {
        (st, acc)
    } else {
        let p = children[i];
        if unit.cursor(p).kind == CursorKind::ParmDecl {
            let (st1, ty) = conv_ty(unit, opts, st, unit.cursor(p).cur_type, p);
            conv_params(unit, opts, st1, c, i + 1, acc.push((unit.cursor(p).spelling@, ty)))
        } else {
            conv_params(unit, opts, st, c, i + 1, acc)
        }
    }
}

#[via_fn]
proof fn conv_params_terminates(
    unit: &TranslationUnit,
    opts: &ClangParserOptions,
    st: State,
    c: usize,
    i: int,
    acc: Seq<(Seq<char>, TypeView)>,
) {
    assert(unit.cursor_ok(c as int));
}

// ---------------------------------------------------------------------------
// Composites and enums

/// The composite that a field of foreign kind `foreign` and converted type
/// `ty` may be declared together with: the type itself, what it points to,
/// or what it is an array of.
pub open spec fn nested_handle(foreign: TypeKind, ty: TypeView) -> Option<usize> {
    match (foreign, ty) {
        (TypeKind::Unexposed, TypeView::Composite(h)) => Some(h),
        (TypeKind::Pointer, TypeView::Pointer(p, _, _)) => match *p {
            TypeView::Composite(h) => Some(h),
            _ => None,
        },
        (TypeKind::ConstantArray, TypeView::Array(e, _, _)) => match *e {
            TypeView::Composite(h) => Some(h),
            _ => None,
        },
        _ => None,
    }
}

/// Whether the field belongs to the anonymous composite that is the last of
/// `members`.
pub open spec fn folds(members: Seq<CompMemberView>, foreign: TypeKind, ty: TypeView) -> bool {
    match nested_handle(foreign, ty) {
        Some(h) => members.len() > 0 && members.last() == CompMemberView::NestedComposite(h),
        None => false,
    }
}

/// The members after a field was added: it takes the place of the anonymous
/// composite it belongs to, or else comes last.
pub open spec fn add_field(
    members: Seq<CompMemberView>,
    foreign: TypeKind,
    field: FieldInfoView,
) -> Seq<CompMemberView> {
    if folds(members, foreign, field.ty) {
        members.drop_last().push(
            CompMemberView::NestedCompositeField(nested_handle(foreign, field.ty).unwrap(), field),
        )
    } else {
        members.push(CompMemberView::Field(field))
    }
}

/// The state after cursor `c`, a child of the composite at cursor `parent`
/// with record `h`, was visited.
pub open spec fn visit_composite(
    unit: &TranslationUnit,
    opts: &ClangParserOptions,
    st: State,
    c: usize,
    parent: usize,
    h: usize,
) -> State
    decreases unit.cursors.len() - c, 1nat, 0nat,
    when unit.wf() && c < unit.cursors.len()
    via visit_composite_terminates
{
    let d = unit.cursor(c);
    match d.kind {
        CursorKind::FieldDecl => {
            let (st1, ty) = conv_ty(unit, opts, st, d.cur_type, c);
            let st2 = if d.bit_width is Some {
                log_err_warn(
                    st1,
                    Diagnostic::Bitfield { field: c, parent },
                    opts.fail_on_bitfield,
                )
            } else {
                st1
            };
            let field = FieldInfoView { name: d.spelling@, ty, bitfield: d.bit_width };
            st2.with_members(
                h,
                add_field(st2.comps[h as int].members, unit.ty(d.cur_type).kind, field),
            )
        },
        CursorKind::StructDecl | CursorKind::UnionDecl => match fwd_decl(unit, c) {
            FwdDecl::Definition => {
                let (st1, g) = decl_name(unit, opts, st, c);
                let st2 = composite_children(unit, opts, st1, c, g.handle(), 0);
                st2.with_members(
                    h,
                    st2.comps[h as int].members.push(CompMemberView::NestedComposite(g.handle())),
                )
            },
            FwdDecl::Undefined => opaque_decl(unit, opts, st, c),
            FwdDecl::Elsewhere => st,
        },
        _ => st,
    }
}

#[via_fn]
proof fn visit_composite_terminates(
    unit: &TranslationUnit,
    opts: &ClangParserOptions,
    st: State,
    c: usize,
    parent: usize,
    h: usize,
) {
}

/// The state after the children of the composite at `c` from number `i` on
/// were visited, the composite having record `h`.
pub open spec fn composite_children(
    unit: &TranslationUnit,
    opts: &ClangParserOptions,
    st: State,
    c: usize,
    h: usize,
    i: int,
) -> State
    decreases unit.cursors.len() - c, 0nat, unit.cursor(c).children.len() - i,
    when unit.wf() && c < unit.cursors.len() && 0 <= i
    via composite_children_terminates
{
    let children = unit.cursor(c).children;
    if i >= children.len() {
        st
    } else {
        composite_children(
            unit,
            opts,
            visit_composite(unit, opts, st, children[i], c, h),
            c,
            h,
            i + 1,
        )
    }
}

#[via_fn]
proof fn composite_children_terminates(
    unit: &TranslationUnit,
    opts: &ClangParserOptions,
    st: State,
    c: usize,
    h: usize,
    i: int,
) {
    assert(unit.cursor_ok(c as int));
}

/// The state after cursor `c`, a child of the enum with record `h`, was
/// visited: a constant is added to the items, anything else is passed over.
pub open spec fn visit_enum(unit: &TranslationUnit, st: State, c: usize, h: usize) -> State {
    let d = unit.cursor(c);
    if d.kind == CursorKind::EnumConstantDecl {
        st.with_items(
            h,
            st.enums[h as int].items.push(EnumItemView { name: d.spelling@, val: d.enum_val }),
        )
    } else {
        st
    }
}

/// The state after the children of the enum at `c` from number `i` on were
/// visited.
pub open spec fn enum_children(
    unit: &TranslationUnit,
    st: State,
    c: usize,
    h: usize,
    i: int,
) -> State
    decreases unit.cursor(c).children.len() - i,
{
    let children = unit.cursor(c).children;
    if 0 <= i < children.len() {
        enum_children(unit, visit_enum(unit, st, children[i], h), c, h, i + 1)
    } else {
        st
    }
}

// ---------------------------------------------------------------------------
// Top level

/// The parameters of the function at `c` from number `i` on, each with its
/// converted type, after those in `acc`.
pub open spec fn conv_args(
    unit: &TranslationUnit,
    opts: &ClangParserOptions,
    st: State,
    c: usize,
    i: int,
    acc: Seq<(Seq<char>, TypeView)>,
) -> (State, Seq<(Seq<char>, TypeView)>)
    decreases unit.cursor(c).args.len() - i,
{
    let args = unit.cursor(c).args;
    if 0 <= i < args.len() {
        let a = unit.cursor(args[i]);
        let (st1, ty) = conv_ty(unit, opts, st, a.cur_type, c);
        conv_args(unit, opts, st1, c, i + 1, acc.push((a.spelling@, ty)))
    } else {
        (st, acc)
    }
}

/// The state after type `t`, which a typedef stands for, was looked at: if
/// it is a struct, union or enum that the unit does not define, its
/// declaration is added to the top-level declarations.
pub open spec fn opaque_ty(
    unit: &TranslationUnit,
    opts: &ClangParserOptions,
    st: State,
    t: usize,
) -> State {
    let d = unit.ty(t);
    if (d.kind == TypeKind::Record || d.kind == TypeKind::Enum) && is_missing(
        unit.cursor(unit.cursor(d.declaration).definition).kind,
    ) {
        opaque_decl(unit, opts, st, d.declaration)
    } else {
        st
    }
}

/// The type that the typedef at `c` is converted from: the aliased type, or
/// its canonical type if the aliased type is unexposed.
pub open spec fn typedef_target(unit: &TranslationUnit, c: usize) -> usize {
    let under = unit.cursor(c).typedef_type;
    if unit.ty(under).kind == TypeKind::Unexposed {
        unit.ty(under).canonical_type
    } else {
        under
    }
}

/// The state after the top-level cursor `c` was visited.
pub open spec fn visit_top(
    unit: &TranslationUnit,
    opts: &ClangParserOptions,
    st: State,
    c: usize,
) -> State {
    let d = unit.cursor(c);
    if !included(unit, opts, c) {
        st
    } else {
        match d.kind {
            CursorKind::StructDecl | CursorKind::UnionDecl => match fwd_decl(unit, c) {
                FwdDecl::Definition => {
                    let (st1, g) = decl_name(unit, opts, st, c);
                    let st2 = composite_children(unit, opts, st1, c, g.handle(), 0);
                    st2.push_global(Global::Composite(g.handle()))
                },
                FwdDecl::Undefined => opaque_decl(unit, opts, st, c),
                FwdDecl::Elsewhere => st,
            },
            CursorKind::EnumDecl => match fwd_decl(unit, c) {
                FwdDecl::Definition => {
                    let (st1, g) = decl_name(unit, opts, st, c);
                    let st2 = enum_children(unit, st1, c, g.handle(), 0);
                    st2.push_global(Global::Enum(g.handle()))
                },
                FwdDecl::Undefined => opaque_decl(unit, opts, st, c),
                FwdDecl::Elsewhere => st,
            },
            CursorKind::FunctionDecl => if is_external(d.linkage) {
                let (st1, args) = conv_args(unit, opts, st, c, 0, Seq::empty());
                let (st2, ret) = conv_ty(unit, opts, st1, d.ret_type, c);
                let f = unit.ty(d.cur_type);
                let (st3, g) = decl_name(unit, opts, st2, c);
                st3.with_var(
                    g.handle(),
                    TypeView::Function(Box::new(ret), args, f.is_variadic, get_abi(f.call_conv)),
                    st3.vars[g.handle() as int].is_const,
                ).push_global(g)
            } else {
                st
            },
            CursorKind::VarDecl => if is_external(d.linkage) {
                let (st1, ty) = conv_ty(unit, opts, st, d.cur_type, c);
                let (st2, g) = decl_name(unit, opts, st1, c);
                st2.with_var(g.handle(), ty, unit.ty(d.cur_type).is_const).push_global(g)
            } else {
                st
            },
            CursorKind::TypedefDecl => {
                let under = typedef_target(unit, c);
                let (st1, ty) = conv_ty(unit, opts, st, under, c);
                let (st2, g) = decl_name(unit, opts, st1, c);
                opaque_ty(unit, opts, st2.with_alias(g.handle(), ty).push_global(g), under)
            },
            _ => st,
        }
    }
}

/// The state after the top-level cursors from number `i` on were visited.
pub open spec fn top_children(
    unit: &TranslationUnit,
    opts: &ClangParserOptions,
    st: State,
    i: int,
) -> State
    decreases unit.cursor(unit.root).children.len() - i,
{
    let children = unit.cursor(unit.root).children;
    if 0 <= i < children.len() {
        top_children(unit, opts, visit_top(unit, opts, st, children[i]), i + 1)
    } else {
        st
    }
}

/// A finite set of numbers below `n` has at most `n` elements.
pub proof fn lemma_bounded_set(s: Set<usize>, n: nat)
    requires
        s.finite(),
        forall|k: usize| s.contains(k) ==> k < n,
    ensures
        s.len() <= n,
    decreases n,
{
    if n == 0 {
        assert(s =~= Set::empty());
    } else {
        let top = (n - 1) as usize;
        let rest = s.remove(top);
        lemma_bounded_set(rest, (n - 1) as nat);
        if s.contains(top) {
            assert(s =~= rest.insert(top));
        } else {
            assert(s =~= rest);
        }
    }
}

} // verus!
