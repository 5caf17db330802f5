//! The state of a run as the parser holds it, and the single changes that
//! the parser makes to it.

use vstd::prelude::*;
use std::collections::HashMap;
use crate::ast::TypeKind;
use crate::ir::{
    aliases_view, comps_view, enums_view, items_view, members_view, type_view, vars_view, CompInfo,
    CompMember, CompMemberView, EnumInfo, EnumItem, FieldInfo, Global, Type, TypeAliasInfo, VarInfo,
};
use crate::log::{Diagnostic, Logger};
use crate::semantics::{add_field, folds, log_err_warn, nested_handle, State};

verus! {

/// The state of a run.
pub struct ClangParserCtx {
    /// From the canonical cursor of a declaration to what stands for it.
    pub name: HashMap<usize, Global>,
    pub globals: Vec<Global>,
    /// Canonical cursors to visit again, first in first out.
    pub builtin_defs: Vec<usize>,
    pub err_count: usize,
    pub comps: Vec<CompInfo>,
    pub enums: Vec<EnumInfo>,
    pub aliases: Vec<TypeAliasInfo>,
    pub vars: Vec<VarInfo>,
    pub logger: Logger,
}

impl View for ClangParserCtx {
    type V = State;

    open spec fn view(&self) -> State {
        State {
            registry: self.name@,
            globals: self.globals@,
            builtin_defs: self.builtin_defs@,
            err_count: self.err_count as nat,
            comps: comps_view(self.comps@),
            enums: enums_view(self.enums@),
            aliases: aliases_view(self.aliases@),
            vars: vars_view(self.vars@),
            reports: self.logger.reports@,
        }
    }
}

/// The composite that a field of foreign kind `foreign` and type `ty` may be
/// declared together with.
pub fn nested_of(foreign: TypeKind, ty: &Type) -> (r: Option<usize>)
    ensures
        r == nested_handle(foreign, ty@),
{
    proof {
        reveal_with_fuel(type_view, 2);
    }
    match foreign {
        TypeKind::Unexposed => match ty {
            Type::Composite(h) => Some(*h),
            _ => None,
        },
        TypeKind::Pointer => match ty {
            Type::Pointer(p, _, _) => match &**p {
                Type::Composite(h) => Some(*h),
                _ => None,
            },
            _ => None,
        },
        TypeKind::ConstantArray => match ty {
            Type::Array(e, _, _) => match &**e {
                Type::Composite(h) => Some(*h),
                _ => None,
            },
            _ => None,
        },
        _ => None,
    }
}

impl ClangParserCtx {
    /// The state before anything was visited.
    pub fn new(logger: Logger) -> (ctx: ClangParserCtx)
        ensures
            ctx@ == State::initial(logger.reports@),
    {
        let ctx = ClangParserCtx {
            name: HashMap::new(),
            globals: Vec::new(),
            builtin_defs: Vec::new(),
            err_count: 0,
            comps: Vec::new(),
            enums: Vec::new(),
            aliases: Vec::new(),
            vars: Vec::new(),
            logger,
        };
        assert(ctx@.comps =~= Seq::empty());
        assert(ctx@.enums =~= Seq::empty());
        assert(ctx@.aliases =~= Seq::empty());
        assert(ctx@.vars =~= Seq::empty());
        ctx
    }

    /// Adds a top-level declaration.
    pub fn push_global(&mut self, g: Global)
        ensures
            final(self)@ == old(self)@.push_global(g),
    {
        self.globals.push(g);
    }

    /// Adds a member to the composite with record `h`.
    pub fn push_member(&mut self, h: usize, m: CompMember)
        requires
            h < old(self)@.comps.len(),
        ensures
            final(self)@ == old(self)@.with_members(
                h,
                old(self)@.comps[h as int].members.push(m@),
            ),
    {
        self.comps[h].members.push(m);
        assert(final(self)@.comps =~= old(self)@.with_members(
            h,
            old(self)@.comps[h as int].members.push(m@),
        ).comps) by {
            assert(members_view(self.comps[h as int].members@) =~= members_view(
                old(self).comps[h as int].members@,
            ).push(m@));
        }
    }

    /// Adds a field to the composite with record `h`: in the place of the
    /// anonymous composite it was declared with, if that is the last
    /// member, and else as the last member.
    pub fn add_field(&mut self, h: usize, foreign: TypeKind, field: FieldInfo)
        requires
            h < old(self)@.comps.len(),
        ensures
            final(self)@ == old(self)@.with_members(
                h,
                add_field(old(self)@.comps[h as int].members, foreign, field@),
            ),
    {
        let nested = nested_of(foreign, &field.ty);
        let n: usize = self.comps[h].members.len();
        let is_composite = match nested {
            Some(x) => n > 0 && match &self.comps[h].members[n - 1] {
                CompMember::NestedComposite(y) => *y == x,
                _ => false,
            },
            None => false,
        };
        assert(is_composite == folds(old(self)@.comps[h as int].members, foreign, field@.ty));
        if is_composite {
            let x: usize = nested.unwrap();
            self.comps[h].members.pop();
            self.comps[h].members.push(CompMember::NestedCompositeField(x, field));
            assert(final(self)@.comps =~= old(self)@.with_members(
                h,
                add_field(old(self)@.comps[h as int].members, foreign, field@),
            ).comps) by {
                assert(members_view(self.comps[h as int].members@) =~= members_view(
                    old(self).comps[h as int].members@,
                ).drop_last().push(CompMemberView::NestedCompositeField(x, field@)));
            }
        } else {
            self.push_member(h, CompMember::Field(field));
        }
    }

    /// Adds a constant to the enum with record `h`.
    pub fn push_item(&mut self, h: usize, item: EnumItem)
        requires
            h < old(self)@.enums.len(),
        ensures
            final(self)@ == old(self)@.with_items(
                h,
                old(self)@.enums[h as int].items.push(item@),
            ),
    {
        self.enums[h].items.push(item);
        assert(final(self)@.enums =~= old(self)@.with_items(
            h,
            old(self)@.enums[h as int].items.push(item@),
        ).enums) by {
            assert(items_view(self.enums[h as int].items@) =~= items_view(
                old(self).enums[h as int].items@,
            ).push(item@));
        }
    }

    /// Sets the type that the alias with record `h` stands for.
    pub fn set_alias(&mut self, h: usize, ty: Type)
        requires
            h < old(self)@.aliases.len(),
        ensures
            final(self)@ == old(self)@.with_alias(h, ty@),
    {
        self.aliases[h].ty = ty;
        assert(final(self)@.aliases =~= old(self)@.with_alias(h, ty@).aliases);
    }

    /// Sets the type of the variable or function with record `h`.
    pub fn set_var_type(&mut self, h: usize, ty: Type)
        requires
            h < old(self)@.vars.len(),
        ensures
            final(self)@ == old(self)@.with_var(h, ty@, old(self)@.vars[h as int].is_const),
    {
        self.vars[h].ty = ty;
        assert(final(self)@.vars =~= old(self)@.with_var(
            h,
            ty@,
            old(self)@.vars[h as int].is_const,
        ).vars);
    }

    /// Sets the type of the variable with record `h` and whether it is const.
    pub fn set_var(&mut self, h: usize, ty: Type, is_const: bool)
        requires
            h < old(self)@.vars.len(),
        ensures
            final(self)@ == old(self)@.with_var(h, ty@, is_const),
    {
        self.vars[h].ty = ty;
        self.vars[h].is_const = is_const;
        assert(final(self)@.vars =~= old(self)@.with_var(h, ty@, is_const).vars);
    }

    /// Makes one report: an error is counted, a warning is not.
    pub fn log_err_warn(&mut self, d: Diagnostic, is_err: bool)
        requires
            old(self)@.err_count <= old(self)@.reports.len(),
        ensures
            final(self)@ == log_err_warn(old(self)@, d, is_err),
    {
        if is_err {
            self.logger.error(d);
            let reported: usize = self.logger.reports.len();
            assert(self.err_count < reported);
            self.err_count = self.err_count + 1;
        } else {
            self.logger.warn(d);
        }
    }
}

} // verus!
