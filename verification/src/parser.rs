//! The parser: one visit of every declaration of a translation unit.

use vstd::prelude::*;
use crate::ast::{
    abi_known, is_external, CallingConv, ChildVisit, CursorKind, Linkage, Severity, TranslationUnit,
    TypeKind,
};
use crate::context::ClangParserCtx;
use crate::invariants::{
    conv_ok, lemma_composite_children, lemma_conv_args, lemma_conv_decl_ty, lemma_conv_params,
    lemma_conv_ptr_ty, lemma_conv_ty, lemma_decl_name, lemma_enum_children, lemma_log_err_warn,
    lemma_opaque_decl, lemma_visit_composite, lemma_visit_enum, lemma_visit_function,
    lemma_visit_top, lemma_visit_variable, params_ok, step_ok,
};
use crate::ir::{
    items_view, lemma_type_held_later, members_view, params_view, push_param, type_view, Abi,
    Bindings, BindingsView, CompInfo, CompKind, CompMember, EnumInfo, EnumItem, FieldInfo,
    FloatKind, Global, IntegerKind, Layout, Type, TypeAliasInfo, VarInfo,
};
use crate::log::{Diagnostic, Logger};
pub use crate::options::ClangParserOptions;
use crate::run::{
    budget, drain, lemma_drain_one, lemma_run, lemma_take_first, parse_ends, run,
};
use crate::semantics;
use crate::semantics::FwdDecl;
use crate::text::str_contains;

verus! {

/// Whether the declaration at `cursor` is included: one that is located in
/// no file if builtins are included, and one that is located in a file if no
/// pattern is set or the file's path contains one of the patterns.
pub fn match_pattern(unit: &TranslationUnit, opts: &ClangParserOptions, cursor: usize) -> (r: bool)
    requires
        cursor < unit.cursors.len(),
    ensures
        r == semantics::included(unit, opts, cursor),
{
    match &unit.cursors[cursor].file {
        None => opts.builtins,
        Some(name) => {
            if opts.match_pat.len() == 0 {
                return true;
            }
            let mut found = false;
            let mut i: usize = 0;
            while i < opts.match_pat.len()
                invariant
                    i <= opts.match_pat.len(),
                    found == exists|j: int|
                        0 <= j < i && semantics::is_substring(
                            #[trigger] opts.match_pat@[j]@,
                            name@,
                        ),
                decreases opts.match_pat.len() - i,
            {
                if str_contains(name.as_str(), opts.match_pat[i].as_str()) {
                    found = true;
                }
                i = i + 1;
            }
            found
        },
    }
}

/// Whether `s` is one of `names`.
pub fn contains_name(names: &Vec<String>, s: &String) -> (r: bool)
    ensures
        r == semantics::is_builtin_name(names@, s@),
{
    let mut i: usize = 0;
    while i < names.len()
        invariant
            i <= names.len(),
            forall|j: int| 0 <= j < i ==> (#[trigger] names@[j])@ != s@,
        decreases names.len() - i,
    {
        if names[i] == *s {
            return true;
        }
        i = i + 1;
    }
    false
}

/// The integer kind of an enum whose underlying type has kind `underlying`:
/// the override wins if there is one.
pub fn enum_kind(override_ty: Option<IntegerKind>, underlying: TypeKind) -> (k: IntegerKind)
    ensures
        k == semantics::enum_kind(override_ty, underlying),
        override_ty is Some ==> k == override_ty->0,
{
    match override_ty {
        Some(t) => t,
        None => match underlying {
            TypeKind::SChar | TypeKind::CharS => IntegerKind::SChar,
            TypeKind::UChar | TypeKind::CharU => IntegerKind::UChar,
            TypeKind::UShort => IntegerKind::UShort,
            TypeKind::UInt => IntegerKind::UInt,
            TypeKind::ULong => IntegerKind::ULong,
            TypeKind::ULongLong => IntegerKind::ULongLong,
            TypeKind::Short => IntegerKind::Short,
            TypeKind::Int => IntegerKind::Int,
            TypeKind::Long => IntegerKind::Long,
            TypeKind::LongLong => IntegerKind::LongLong,
            _ => IntegerKind::Int,
        },
    }
}

/// What stands for the declaration at `cursor`. The first time a
/// declaration is asked for, an empty record is made for it and, if it is
/// spelled like a builtin, it is queued; from then on every cursor with the
/// same canonical cursor gets the same answer.
pub fn decl_name(
    ctx: &mut ClangParserCtx,
    unit: &TranslationUnit,
    opts: &ClangParserOptions,
    cursor: usize,
) -> (decl: Global)
    requires
        unit.wf(),
        old(ctx)@.wf(unit),
        cursor < unit.cursors.len(),
    ensures
        (final(ctx)@, decl) == semantics::decl_name(unit, opts, old(ctx)@, cursor),
        step_ok(unit, old(ctx)@, final(ctx)@),
        final(ctx)@.globals == old(ctx)@.globals,
        final(ctx)@.registry.contains_key(unit.cursor(cursor).canonical),
        final(ctx)@.registry[unit.cursor(cursor).canonical] == decl,
        final(ctx)@.entry_ok(unit, unit.cursor(cursor).canonical),
        final(ctx)@.bindings().holds_global(decl),
{
    broadcast use vstd::std_specs::hash::group_hash_axioms;

    proof {
        lemma_decl_name(unit, opts, ctx@, cursor);
    }
    assert(unit.cursor_ok(cursor as int));
    let k: usize = unit.cursors[cursor].canonical;
    assert(unit.cursor_ok(k as int));
    match ctx.name.get(&k) {
        Some(g) => {
            return *g;
        },
        None => {},
    }
    let d = &unit.cursors[k];
    let spelling = d.spelling.clone();
    let ty = &unit.types[d.cur_type];
    let layout = Layout::new(ty.size, ty.align);
    let glob_decl = match d.kind {
        CursorKind::StructDecl => {
            let h: usize = ctx.comps.len();
            ctx.comps.push(CompInfo::new(spelling, CompKind::Struct, Vec::new(), layout));
            Global::CompDeclaration(h)
        },
        CursorKind::UnionDecl => {
            let h: usize = ctx.comps.len();
            ctx.comps.push(CompInfo::new(spelling, CompKind::Union, Vec::new(), layout));
            Global::CompDeclaration(h)
        },
        CursorKind::EnumDecl => {
            let kind = enum_kind(opts.override_enum_ty, unit.types[d.enum_type].kind);
            let h: usize = ctx.enums.len();
            ctx.enums.push(EnumInfo::new(spelling, kind, Vec::new(), layout));
            Global::EnumDeclaration(h)
        },
        CursorKind::TypedefDecl => {
            let h: usize = ctx.aliases.len();
            ctx.aliases.push(TypeAliasInfo::new(spelling, Type::Void));
            Global::TypeAlias(h)
        },
        CursorKind::VarDecl => {
            let h: usize = ctx.vars.len();
            ctx.vars.push(VarInfo::new(spelling, Type::Void));
            Global::Variable(h)
        },
        CursorKind::FunctionDecl => {
            let h: usize = ctx.vars.len();
            ctx.vars.push(VarInfo::new(spelling, Type::Void));
            Global::Function(h)
        },
        _ => Global::Opaque,
    };
    ctx.name.insert(k, glob_decl);
    if contains_name(&opts.builtin_names, &d.spelling) {
        ctx.builtin_defs.push(k);
    }
    proof {
        let spec_out = semantics::decl_name(unit, opts, old(ctx)@, cursor);
        assert(members_view(Seq::<CompMember>::empty()) =~= Seq::empty());
        assert(items_view(Seq::<EnumItem>::empty()) =~= Seq::empty());
        assert(ctx@.comps =~= spec_out.0.comps);
        assert(ctx@.enums =~= spec_out.0.enums);
        assert(ctx@.aliases =~= spec_out.0.aliases);
        assert(ctx@.vars =~= spec_out.0.vars);
        assert(ctx@.registry =~= spec_out.0.registry);
    }
    glob_decl
}

/// Adds the declaration at `cursor` to the top-level declarations as it
/// stands in the registry.
pub fn opaque_decl(
    ctx: &mut ClangParserCtx,
    unit: &TranslationUnit,
    opts: &ClangParserOptions,
    cursor: usize,
)
    requires
        unit.wf(),
        old(ctx)@.wf(unit),
        cursor < unit.cursors.len(),
    ensures
        final(ctx)@ == semantics::opaque_decl(unit, opts, old(ctx)@, cursor),
        step_ok(unit, old(ctx)@, final(ctx)@),
{
    proof {
        lemma_opaque_decl(unit, opts, ctx@, cursor);
    }
    let name = decl_name(ctx, unit, opts, cursor);
    ctx.push_global(name);
}

/// What `cursor` is with regard to the definition of its entity: the
/// definition itself, a declaration of something the unit does not define,
/// or a declaration of something defined elsewhere in the unit.
pub fn fwd_decl(unit: &TranslationUnit, cursor: usize) -> (r: FwdDecl)
    requires
        unit.wf(),
        cursor < unit.cursors.len(),
    ensures
        r == semantics::fwd_decl(unit, cursor),
{
    assert(unit.cursor_ok(cursor as int));
    let def: usize = unit.cursors[cursor].definition;
    if def == cursor {
        FwdDecl::Definition
    } else {
        match unit.cursors[def].kind {
            CursorKind::NoDeclFound | CursorKind::InvalidFile => FwdDecl::Undefined,
            _ => FwdDecl::Elsewhere,
        }
    }
}

/// The ABI tag of a calling convention.
pub fn get_abi(cc: CallingConv) -> (abi: Abi)
    requires
        abi_known(cc),
    ensures
        abi == semantics::get_abi(cc),
{
    match cc {
        CallingConv::Default => Abi::C,
        CallingConv::C => Abi::C,
        CallingConv::X86StdCall => Abi::Stdcall,
        CallingConv::X86FastCall => Abi::Fastcall,
        CallingConv::Aapcs => Abi::Aapcs,
        _ => Abi::Win64,
    }
}

/// The type that stands for the declaration at `cursor`, which is looked
/// up in the registry: a composite, an enum or an alias by handle, and
/// `Void` for a cursor of any other kind.
pub fn conv_decl_ty(
    ctx: &mut ClangParserCtx,
    unit: &TranslationUnit,
    opts: &ClangParserOptions,
    cursor: usize,
) -> (r: Type)
    requires
        unit.wf(),
        old(ctx)@.wf(unit),
        cursor < unit.cursors.len(),
    ensures
        (final(ctx)@, r@) == semantics::conv_decl_ty(unit, opts, old(ctx)@, cursor),
        conv_ok(unit, old(ctx)@, final(ctx)@, r@),
{
    proof {
        lemma_conv_decl_ty(unit, opts, ctx@, cursor);
    }
    assert(unit.cursor_ok(cursor as int));
    match unit.cursors[cursor].kind {
        CursorKind::StructDecl | CursorKind::UnionDecl => {
            let decl = decl_name(ctx, unit, opts, cursor);
            Type::Composite(decl.compinfo())
        },
        CursorKind::EnumDecl => {
            let decl = decl_name(ctx, unit, opts, cursor);
            Type::Enum(decl.enuminfo())
        },
        CursorKind::TypedefDecl => {
            let decl = decl_name(ctx, unit, opts, cursor);
            Type::Named(decl.typeinfo())
        },
        _ => Type::Void,
    }
}

/// The conversion of type `ty`, met while converting for `cursor`. A type of
/// a kind that has no counterpart is reported and converts to `Void`.
pub fn conv_ty(
    ctx: &mut ClangParserCtx,
    unit: &TranslationUnit,
    opts: &ClangParserOptions,
    ty: usize,
    cursor: usize,
) -> (r: Type)
    requires
        unit.wf(),
        old(ctx)@.wf(unit),
        ty < unit.types.len(),
        cursor < unit.cursors.len(),
    ensures
        (final(ctx)@, r@) == semantics::conv_ty(unit, opts, old(ctx)@, ty, cursor),
        conv_ok(unit, old(ctx)@, final(ctx)@, r@),
    decreases 2 * (unit.cursors.len() - cursor) + 1, ty, 0nat,
{
    proof {
        lemma_conv_ty(unit, opts, ctx@, ty, cursor);
    }
    assert(unit.type_ok(ty as int));
    let d = &unit.types[ty];
    let layout = Layout::new(d.size, d.align);
    match d.kind {
        TypeKind::Void | TypeKind::Invalid => Type::Void,
        TypeKind::Bool => Type::Integer(IntegerKind::Bool, layout),
        TypeKind::SChar | TypeKind::CharS => Type::Integer(IntegerKind::SChar, layout),
        TypeKind::UChar | TypeKind::CharU => Type::Integer(IntegerKind::UChar, layout),
        TypeKind::UShort => Type::Integer(IntegerKind::UShort, layout),
        TypeKind::UInt => Type::Integer(IntegerKind::UInt, layout),
        TypeKind::ULong => Type::Integer(IntegerKind::ULong, layout),
        TypeKind::ULongLong => Type::Integer(IntegerKind::ULongLong, layout),
        TypeKind::Short => Type::Integer(IntegerKind::Short, layout),
        TypeKind::Int => Type::Integer(IntegerKind::Int, layout),
        TypeKind::Long => Type::Integer(IntegerKind::Long, layout),
        TypeKind::LongLong => Type::Integer(IntegerKind::LongLong, layout),
        TypeKind::Float => Type::Float(FloatKind::Float, layout),
        TypeKind::Double => Type::Float(FloatKind::Double, layout),
        TypeKind::LongDouble => Type::Float(FloatKind::Double, layout),
        TypeKind::Pointer => conv_ptr_ty(ctx, unit, opts, d.pointee_type, cursor, layout),
        TypeKind::VariableArray | TypeKind::DependentSizedArray | TypeKind::IncompleteArray => {
            conv_ptr_ty(ctx, unit, opts, d.elem_type, cursor, layout)
        },
        TypeKind::Record | TypeKind::Typedef | TypeKind::Unexposed | TypeKind::Enum => {
            conv_decl_ty(ctx, unit, opts, d.declaration)
        },
        TypeKind::ConstantArray => {
            let elem = conv_ty(ctx, unit, opts, d.elem_type, cursor);
            Type::Array(Box::new(elem), d.array_size, layout)
        },
        _ => {
            ctx.log_err_warn(
                Diagnostic::UnsupportedType { kind: d.kind, cursor },
                opts.fail_on_unknown_type,
            );
            Type::Void
        },
    }
}

/// The conversion of a pointer to type `ty`, the pointer having layout
/// `layout`. A pointer to a function converts to the function type itself,
/// its parameters being those among the children of `cursor`.
pub fn conv_ptr_ty(
    ctx: &mut ClangParserCtx,
    unit: &TranslationUnit,
    opts: &ClangParserOptions,
    ty: usize,
    cursor: usize,
    layout: Layout,
) -> (r: Type)
    requires
        unit.wf(),
        old(ctx)@.wf(unit),
        ty < unit.types.len(),
        cursor < unit.cursors.len(),
    ensures
        (final(ctx)@, r@) == semantics::conv_ptr_ty(unit, opts, old(ctx)@, ty, cursor, layout),
        conv_ok(unit, old(ctx)@, final(ctx)@, r@),
    decreases 2 * (unit.cursors.len() - cursor) + 1, ty, 1nat,
{
    proof {
        reveal_with_fuel(type_view, 2);
        lemma_conv_ptr_ty(unit, opts, ctx@, ty, cursor, layout);
    }
    assert(unit.type_ok(ty as int));
    assert(unit.typedef_ok(ty as int));
    let d = &unit.types[ty];
    assert(unit.cursor_ok(d.declaration as int));
    let is_const = d.is_const;
    match d.kind {
        TypeKind::Void => Type::Pointer(Box::new(Type::Void), is_const, layout),
        TypeKind::Unexposed | TypeKind::FunctionProto | TypeKind::FunctionNoProto => {
            let ret_ty: usize = d.ret_type;
            let decl: usize = d.declaration;
            if unit.types[ret_ty].kind != TypeKind::Invalid {
                let args_lst = conv_params(ctx, unit, opts, cursor);
                let ret = conv_ty(ctx, unit, opts, ret_ty, cursor);
                let abi = get_abi(d.call_conv);
                Type::function(ret, args_lst, d.is_variadic, abi)
            } else if unit.cursors[decl].kind != CursorKind::NoDeclFound {
                let pointee = conv_decl_ty(ctx, unit, opts, decl);
                Type::Pointer(Box::new(pointee), is_const, layout)
            } else {
                Type::Pointer(Box::new(Type::Void), is_const, layout)
            }
        },
        TypeKind::Typedef => {
            let def_ty: usize = unit.cursors[d.declaration].typedef_type;
            let def_kind = unit.types[def_ty].kind;
            if def_kind == TypeKind::FunctionProto || def_kind == TypeKind::FunctionNoProto {
                let pointee = conv_ptr_ty(ctx, unit, opts, def_ty, cursor, layout);
                Type::Pointer(Box::new(pointee), is_const, layout)
            } else {
                let pointee = conv_ty(ctx, unit, opts, ty, cursor);
                Type::Pointer(Box::new(pointee), is_const, layout)
            }
        },
        _ => {
            let pointee = conv_ty(ctx, unit, opts, ty, cursor);
            Type::Pointer(Box::new(pointee), is_const, layout)
        },
    }
}

/// The parameters among the children of `cursor`, in order, each with its
/// name and its converted type.
pub fn conv_params(
    ctx: &mut ClangParserCtx,
    unit: &TranslationUnit,
    opts: &ClangParserOptions,
    cursor: usize,
) -> (r: Vec<(String, Type)>)
    requires
        unit.wf(),
        old(ctx)@.wf(unit),
        cursor < unit.cursors.len(),
    ensures
        (final(ctx)@, params_view(r@)) == semantics::conv_params(
            unit,
            opts,
            old(ctx)@,
            cursor,
            0,
            Seq::empty(),
        ),
        params_ok(unit, old(ctx)@, final(ctx)@, params_view(r@)),
    decreases 2 * (unit.cursors.len() - cursor), 0nat, 0nat,
{
    proof {
        lemma_conv_params(unit, opts, ctx@, cursor, 0, Seq::empty());
    }
    let children = &unit.cursors[cursor].children;
    let mut args_lst: Vec<(String, Type)> = Vec::new();
    assert(params_view(args_lst@) =~= Seq::empty());
    let mut i: usize = 0;
    while i < children.len()
        invariant
            unit.wf(),
            cursor < unit.cursors.len(),
            children == &unit.cursors[cursor as int].children,
            i <= children.len(),
            ctx@.wf(unit),
            semantics::conv_params(unit, opts, old(ctx)@, cursor, 0, Seq::empty())
                == semantics::conv_params(unit, opts, ctx@, cursor, i as int, params_view(args_lst@)),
        decreases children.len() - i,
    {
        assert(unit.cursor_ok(cursor as int));
        let c: usize = children[i];
        assert(unit.cursor_ok(c as int));
        if unit.cursors[c].kind == CursorKind::ParmDecl {
            let ty = conv_ty(ctx, unit, opts, unit.cursors[c].cur_type, c);
            push_param(&mut args_lst, unit.cursors[c].spelling.clone(), ty);
        }
        i = i + 1;
    }
    args_lst
}

/// Adds to the top-level declarations the declaration of type `ty`, which
/// a typedef stands for, if it is a struct, union or enum that the unit does
/// not define.
pub fn opaque_ty(
    ctx: &mut ClangParserCtx,
    unit: &TranslationUnit,
    opts: &ClangParserOptions,
    ty: usize,
)
    requires
        unit.wf(),
        old(ctx)@.wf(unit),
        ty < unit.types.len(),
    ensures
        final(ctx)@ == semantics::opaque_ty(unit, opts, old(ctx)@, ty),
        step_ok(unit, old(ctx)@, final(ctx)@),
{
    assert(unit.type_ok(ty as int));
    let d = &unit.types[ty];
    if d.kind == TypeKind::Record || d.kind == TypeKind::Enum {
        let decl: usize = d.declaration;
        assert(unit.cursor_ok(decl as int));
        let def: usize = unit.cursors[decl].definition;
        match unit.cursors[def].kind {
            CursorKind::NoDeclFound | CursorKind::InvalidFile => {
                opaque_decl(ctx, unit, opts, decl);
            },
            _ => {},
        }
    }
}

/// Visits `cursor`, a child of the composite at `parent` whose record is
/// `h`. A field is converted and added to the members, a bitfield being
/// reported. A nested struct or union that is defined here is visited in
/// turn and added as an anonymous member; one that the unit does not define
/// is added to the top-level declarations. Anything else is passed over.
pub fn visit_composite(
    ctx: &mut ClangParserCtx,
    unit: &TranslationUnit,
    opts: &ClangParserOptions,
    cursor: usize,
    parent: usize,
    h: usize,
) -> (r: ChildVisit)
    requires
        unit.wf(),
        old(ctx)@.wf(unit),
        cursor < unit.cursors.len(),
        h < old(ctx)@.comps.len(),
    ensures
        r == ChildVisit::Continue,
        final(ctx)@ == semantics::visit_composite(unit, opts, old(ctx)@, cursor, parent, h),
        step_ok(unit, old(ctx)@, final(ctx)@),
    decreases unit.cursors.len() - cursor, 1nat, 0nat,
{
    proof {
        lemma_visit_composite(unit, opts, ctx@, cursor, parent, h);
    }
    assert(unit.cursor_ok(cursor as int));
    let d = &unit.cursors[cursor];
    match d.kind {
        CursorKind::FieldDecl => {
            let ty = conv_ty(ctx, unit, opts, d.cur_type, cursor);
            let name = d.spelling.clone();
            let bit = d.bit_width;
            if bit.is_some() {
                ctx.log_err_warn(
                    Diagnostic::Bitfield { field: cursor, parent },
                    opts.fail_on_bitfield,
                );
            }
            let field = FieldInfo::new(name, ty, bit);
            ctx.add_field(h, unit.types[d.cur_type].kind, field);
        },
        CursorKind::StructDecl | CursorKind::UnionDecl => {
            match fwd_decl(unit, cursor) {
                FwdDecl::Definition => {
                    let decl = decl_name(ctx, unit, opts, cursor);
                    let ci: usize = decl.compinfo();
                    visit_composite_children(ctx, unit, opts, cursor, ci);
                    ctx.push_member(h, CompMember::NestedComposite(ci));
                },
                FwdDecl::Undefined => {
                    opaque_decl(ctx, unit, opts, cursor);
                },
                FwdDecl::Elsewhere => {},
            }
        },
        _ => {},
    }
    ChildVisit::Continue
}

/// Visits the children of the composite at `cursor`, whose record is `h`,
/// in order.
pub fn visit_composite_children(
    ctx: &mut ClangParserCtx,
    unit: &TranslationUnit,
    opts: &ClangParserOptions,
    cursor: usize,
    h: usize,
)
    requires
        unit.wf(),
        old(ctx)@.wf(unit),
        cursor < unit.cursors.len(),
        h < old(ctx)@.comps.len(),
    ensures
        final(ctx)@ == semantics::composite_children(unit, opts, old(ctx)@, cursor, h, 0),
        step_ok(unit, old(ctx)@, final(ctx)@),
    decreases unit.cursors.len() - cursor, 0nat, 0nat,
{
    proof {
        lemma_composite_children(unit, opts, ctx@, cursor, h, 0);
    }
    let children = &unit.cursors[cursor].children;
    let mut i: usize = 0;
    while i < children.len()
        invariant
            unit.wf(),
            cursor < unit.cursors.len(),
            children == &unit.cursors[cursor as int].children,
            i <= children.len(),
            ctx@.wf(unit),
            h < ctx@.comps.len(),
            semantics::composite_children(unit, opts, old(ctx)@, cursor, h, 0)
                == semantics::composite_children(unit, opts, ctx@, cursor, h, i as int),
        decreases children.len() - i,
    {
        assert(unit.cursor_ok(cursor as int));
        visit_composite(ctx, unit, opts, children[i], cursor, h);
        i = i + 1;
    }
}

/// Visits `cursor`, a child of the enum whose record is `h`: a constant is
/// added to the items with its name and value, anything else is passed over.
pub fn visit_enum(ctx: &mut ClangParserCtx, unit: &TranslationUnit, cursor: usize, h: usize) -> (r:
    ChildVisit)
    requires
        old(ctx)@.wf(unit),
        cursor < unit.cursors.len(),
        h < old(ctx)@.enums.len(),
    ensures
        r == ChildVisit::Continue,
        final(ctx)@ == semantics::visit_enum(unit, old(ctx)@, cursor, h),
        step_ok(unit, old(ctx)@, final(ctx)@),
        final(ctx)@.globals == old(ctx)@.globals,
        final(ctx)@.registry == old(ctx)@.registry,
{
    proof {
        lemma_visit_enum(unit, ctx@, cursor, h);
    }
    let d = &unit.cursors[cursor];
    if d.kind == CursorKind::EnumConstantDecl {
        let name = d.spelling.clone();
        let val = d.enum_val;
        let item = EnumItem::new(name, val);
        ctx.push_item(h, item);
    }
    ChildVisit::Continue
}

/// Visits the children of the enum at `cursor`, whose record is `h`, in
/// order.
pub fn visit_enum_children(
    ctx: &mut ClangParserCtx,
    unit: &TranslationUnit,
    cursor: usize,
    h: usize,
)
    requires
        unit.wf(),
        old(ctx)@.wf(unit),
        cursor < unit.cursors.len(),
        h < old(ctx)@.enums.len(),
    ensures
        final(ctx)@ == semantics::enum_children(unit, old(ctx)@, cursor, h, 0),
        step_ok(unit, old(ctx)@, final(ctx)@),
        final(ctx)@.globals == old(ctx)@.globals,
        final(ctx)@.registry == old(ctx)@.registry,
{
    proof {
        lemma_enum_children(unit, ctx@, cursor, h, 0);
    }
    let children = &unit.cursors[cursor].children;
    let mut i: usize = 0;
    while i < children.len()
        invariant
            unit.wf(),
            cursor < unit.cursors.len(),
            children == &unit.cursors[cursor as int].children,
            i <= children.len(),
            ctx@.wf(unit),
            h < ctx@.enums.len(),
            semantics::enum_children(unit, old(ctx)@, cursor, h, 0) == semantics::enum_children(
                unit,
                ctx@,
                cursor,
                h,
                i as int,
            ),
        decreases children.len() - i,
    {
        assert(unit.cursor_ok(cursor as int));
        visit_enum(ctx, unit, children[i], h);
        i = i + 1;
    }
}

/// The parameters of the function at `cursor`, in order, each with its name
/// and its converted type.
pub fn conv_args(
    ctx: &mut ClangParserCtx,
    unit: &TranslationUnit,
    opts: &ClangParserOptions,
    cursor: usize,
) -> (r: Vec<(String, Type)>)
    requires
        unit.wf(),
        old(ctx)@.wf(unit),
        cursor < unit.cursors.len(),
    ensures
        (final(ctx)@, params_view(r@)) == semantics::conv_args(
            unit,
            opts,
            old(ctx)@,
            cursor,
            0,
            Seq::empty(),
        ),
        params_ok(unit, old(ctx)@, final(ctx)@, params_view(r@)),
{
    proof {
        lemma_conv_args(unit, opts, ctx@, cursor, 0, Seq::empty());
    }
    let args = &unit.cursors[cursor].args;
    let mut args_lst: Vec<(String, Type)> = Vec::new();
    assert(params_view(args_lst@) =~= Seq::empty());
    let mut i: usize = 0;
    while i < args.len()
        invariant
            unit.wf(),
            cursor < unit.cursors.len(),
            args == &unit.cursors[cursor as int].args,
            i <= args.len(),
            ctx@.wf(unit),
            semantics::conv_args(unit, opts, old(ctx)@, cursor, 0, Seq::empty())
                == semantics::conv_args(unit, opts, ctx@, cursor, i as int, params_view(args_lst@)),
        decreases args.len() - i,
    {
        assert(unit.cursor_ok(cursor as int));
        let arg: usize = args[i];
        assert(unit.cursor_ok(arg as int));
        let arg_name = unit.cursors[arg].spelling.clone();
        let ty = conv_ty(ctx, unit, opts, unit.cursors[arg].cur_type, cursor);
        push_param(&mut args_lst, arg_name, ty);
        i = i + 1;
    }
    args_lst
}

/// Visits the top-level cursor `cursor`, if it is included.
///
/// A struct, union or enum that is defined here is visited with its
/// children and added to the top-level declarations as defined; one that the
/// unit does not define is added as declared. A function or a variable is
/// converted and added only if it is visible outside the unit. A typedef is
/// converted and added, and after it the struct, union or enum it stands
/// for if the unit does not define that. Anything else is passed over.
pub fn visit_top(
    ctx: &mut ClangParserCtx,
    unit: &TranslationUnit,
    opts: &ClangParserOptions,
    cursor: usize,
) -> (r: ChildVisit)
    requires
        unit.wf(),
        old(ctx)@.wf(unit),
        cursor < unit.cursors.len(),
    ensures
        r == ChildVisit::Continue,
        final(ctx)@ == semantics::visit_top(unit, opts, old(ctx)@, cursor),
        step_ok(unit, old(ctx)@, final(ctx)@),
        !semantics::included(unit, opts, cursor) ==> final(ctx)@ == old(ctx)@,
        (unit.cursor(cursor).kind == CursorKind::FunctionDecl || unit.cursor(cursor).kind
            == CursorKind::VarDecl) && !is_external(unit.cursor(cursor).linkage) ==> final(ctx)@
            == old(ctx)@,
        semantics::included(unit, opts, cursor) && is_external(unit.cursor(cursor).linkage)
            && unit.cursor(cursor).kind == CursorKind::FunctionDecl ==> {
            &&& final(ctx)@.registry[unit.cursor(cursor).canonical] is Function
            &&& final(ctx)@.globals == old(ctx)@.globals.push(
                final(ctx)@.registry[unit.cursor(cursor).canonical],
            )
        },
        semantics::included(unit, opts, cursor) && is_external(unit.cursor(cursor).linkage)
            && unit.cursor(cursor).kind == CursorKind::VarDecl ==> {
            &&& final(ctx)@.registry[unit.cursor(cursor).canonical] is Variable
            &&& final(ctx)@.globals == old(ctx)@.globals.push(
                final(ctx)@.registry[unit.cursor(cursor).canonical],
            )
        },
{
    proof {
        lemma_visit_top(unit, opts, ctx@, cursor);
    }
    if !match_pattern(unit, opts, cursor) {
        return ChildVisit::Continue;
    }
    assert(unit.cursor_ok(cursor as int));
    let d = &unit.cursors[cursor];
    match d.kind {
        CursorKind::StructDecl | CursorKind::UnionDecl => {
            match fwd_decl(unit, cursor) {
                FwdDecl::Definition => {
                    let decl = decl_name(ctx, unit, opts, cursor);
                    let ci: usize = decl.compinfo();
                    visit_composite_children(ctx, unit, opts, cursor, ci);
                    ctx.push_global(Global::Composite(ci));
                },
                FwdDecl::Undefined => {
                    opaque_decl(ctx, unit, opts, cursor);
                },
                FwdDecl::Elsewhere => {},
            }
        },
        CursorKind::EnumDecl => {
            match fwd_decl(unit, cursor) {
                FwdDecl::Definition => {
                    let decl = decl_name(ctx, unit, opts, cursor);
                    let ei: usize = decl.enuminfo();
                    visit_enum_children(ctx, unit, cursor, ei);
                    ctx.push_global(Global::Enum(ei));
                },
                FwdDecl::Undefined => {
                    opaque_decl(ctx, unit, opts, cursor);
                },
                FwdDecl::Elsewhere => {},
            }
        },
        CursorKind::FunctionDecl => {
            let linkage = d.linkage;
            if linkage != Linkage::External && linkage != Linkage::UniqueExternal {
                return ChildVisit::Continue;
            }
            proof {
                lemma_visit_function(unit, opts, ctx@, cursor);
            }
            let args_lst = conv_args(ctx, unit, opts, cursor);
            let ty = &unit.types[d.cur_type];
            let ret_ty = conv_ty(ctx, unit, opts, d.ret_type, cursor);
            let abi = get_abi(ty.call_conv);
            let func = decl_name(ctx, unit, opts, cursor);
            let vi: usize = func.varinfo();
            ctx.set_var_type(vi, Type::function(ret_ty, args_lst, ty.is_variadic, abi));
            ctx.push_global(func);
        },
        CursorKind::VarDecl => {
            let linkage = d.linkage;
            if linkage != Linkage::External && linkage != Linkage::UniqueExternal {
                return ChildVisit::Continue;
            }
            proof {
                lemma_visit_variable(unit, opts, ctx@, cursor);
            }
            let ty = conv_ty(ctx, unit, opts, d.cur_type, cursor);
            let var = decl_name(ctx, unit, opts, cursor);
            let vi: usize = var.varinfo();
            ctx.set_var(vi, ty, unit.types[d.cur_type].is_const);
            ctx.push_global(var);
        },
        CursorKind::TypedefDecl => {
            let mut under_ty: usize = d.typedef_type;
            assert(unit.type_ok(under_ty as int));
            if unit.types[under_ty].kind == TypeKind::Unexposed {
                under_ty = unit.types[under_ty].canonical_type;
            }
            let ty = conv_ty(ctx, unit, opts, under_ty, cursor);
            let ghost converted = ctx@;
            let typedef = decl_name(ctx, unit, opts, cursor);
            let ti: usize = typedef.typeinfo();
            proof {
                lemma_type_held_later(converted.bindings(), ctx@.bindings(), ty@);
                semantics::lemma_with_alias(unit, ctx@, ti, ty@);
                semantics::lemma_push_global(unit, ctx@.with_alias(ti, ty@), typedef);
            }
            ctx.set_alias(ti, ty);
            ctx.push_global(typedef);
            opaque_ty(ctx, unit, opts, under_ty);
        },
        _ => {},
    }
    ChildVisit::Continue
}

/// The value of what `parse` hands back.
pub open spec fn result_view(r: Result<Bindings, ()>) -> Result<BindingsView, ()> {
    match r {
        Ok(b) => Ok(b@),
        Err(_) => Err(()),
    }
}

/// Runs the parser on `unit`.
///
/// The unit's own diagnostics are reported first, and if one of them is an
/// error the run fails without a visit. Else the top-level cursors are
/// visited in order, and then the declarations that were queued as builtins,
/// each at its definition, until the queue is empty. The run fails if an
/// error was counted; else it hands back the top-level declarations in the
/// order in which they were found, with the records they refer to. Either
/// way `logger` holds the reports of the run after those it held before.
pub fn parse(options: ClangParserOptions, unit: &TranslationUnit, logger: &mut Logger) -> (r:
    Result<Bindings, ()>)
    requires
        unit.wf(),
    ensures
        parse_ends(
            unit,
            &options,
            old(logger).reports@,
            result_view(r),
            final(logger).reports@,
        ),
        match r {
            Ok(b) => b@.closed(),
            Err(_) => true,
        },
{
    proof {
        lemma_run(unit, &options, logger.reports@);
    }
    let mut earlier = Logger::new();
    std::mem::swap(logger, &mut earlier);
    let mut ctx = ClangParserCtx::new(earlier);
    let ghost start = ctx@;

    let mut i: usize = 0;
    while i < unit.diagnostics.len()
        invariant
            i <= unit.diagnostics.len(),
            ctx@.wf(unit),
            semantics::log_diagnostics(unit, start, 0) == semantics::log_diagnostics(
                unit,
                ctx@,
                i as int,
            ),
        decreases unit.diagnostics.len() - i,
    {
        let is_err = match unit.diagnostics[i].severity {
            Severity::Error | Severity::Fatal => true,
            _ => false,
        };
        proof {
            lemma_log_err_warn(unit, ctx@, Diagnostic::Unit { index: i }, is_err);
        }
        ctx.log_err_warn(Diagnostic::Unit { index: i }, is_err);
        i = i + 1;
    }

    if ctx.err_count == 0 {
        let ghost reported = ctx@;
        let top = &unit.cursors[unit.root].children;
        let mut j: usize = 0;
        while j < top.len()
            invariant
                unit.wf(),
                top == &unit.cursors[unit.root as int].children,
                j <= top.len(),
                ctx@.wf(unit),
                semantics::top_children(unit, &options, reported, 0) == semantics::top_children(
                    unit,
                    &options,
                    ctx@,
                    j as int,
                ),
            decreases top.len() - j,
        {
            assert(unit.cursor_ok(unit.root as int));
            visit_top(&mut ctx, unit, &options, top[j]);
            j = j + 1;
        }

        let ghost visited = ctx@;
        while ctx.builtin_defs.len() > 0
            invariant
                unit.wf(),
                ctx@.wf(unit),
                drain(unit, &options, visited) == drain(unit, &options, ctx@),
            decreases budget(unit, ctx@),
        {
            proof {
                lemma_drain_one(unit, &options, ctx@);
                lemma_take_first(unit, ctx@);
            }
            let ghost before = ctx@;
            let c: usize = ctx.builtin_defs.remove(0);
            assert(ctx@.builtin_defs =~= before.builtin_defs.drop_first());
            visit_top(&mut ctx, unit, &options, unit.cursors[c].definition);
        }
    }
    let ok = ctx.err_count == 0;
    let ghost end = ctx@;
    assert(end == run(unit, &options, old(logger).reports@));
    let ClangParserCtx { globals, comps, enums, aliases, vars, logger: reports, .. } = ctx;
    *logger = reports;
    if ok {
        Ok(Bindings { globals, comps, enums, aliases, vars })
    } else {
        Err(())
    }
}

} // verus!
