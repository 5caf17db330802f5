//! The description that the parser produces: types, the records of
//! composites, enums, aliases and variables, and the top-level declarations
//! that refer to them by handle.

use vstd::prelude::*;

verus! {

/// Size and alignment of a type, as the unit reports them.
#[derive(Clone, Copy, Debug, PartialEq, Eq, Structural)]
pub struct Layout {
    pub size: usize,
    pub align: usize,
}

impl Layout {
    /// The layout with this size and alignment.
    pub fn new(size: usize, align: usize) -> (l: Layout)
        ensures
            l == (Layout { size, align }),
    {
        Layout { size, align }
    }
}

/// The integer types.
#[derive(Clone, Copy, Debug, PartialEq, Eq, Structural)]
pub enum IntegerKind {
    Bool,
    SChar,
    UChar,
    Short,
    UShort,
    Int,
    UInt,
    Long,
    ULong,
    LongLong,
    ULongLong,
}

/// The floating-point types.
#[derive(Clone, Copy, Debug, PartialEq, Eq, Structural)]
pub enum FloatKind {
    Float,
    Double,
}

/// The calling convention of a function type.
#[derive(Clone, Copy, Debug, PartialEq, Eq, Structural)]
pub enum Abi {
    C,
    Stdcall,
    Fastcall,
    Aapcs,
    Win64,
}

/// What a composite is.
#[derive(Clone, Copy, Debug, PartialEq, Eq, Structural)]
pub enum CompKind {
    Struct,
    Union,
}

/// A type. Composites, enums and aliases are referred to by handle: the
/// index of their record in [`Bindings`].
#[derive(Debug, PartialEq, Eq)]
pub enum Type {
    Void,
    Integer(IntegerKind, Layout),
    Float(FloatKind, Layout),
    /// Pointee, whether the pointee is const, layout of the pointer.
    Pointer(Box<Type>, bool, Layout),
    /// Element, number of elements, layout of the array.
    Array(Box<Type>, usize, Layout),
    /// Result, parameters by name, whether variadic, calling convention.
    Function(Box<Type>, Vec<(String, Type)>, bool, Abi),
    Named(usize),
    Composite(usize),
    Enum(usize),
}

/// The mathematical value of a [`Type`].
pub ghost enum TypeView {
    Void,
    Integer(IntegerKind, Layout),
    Float(FloatKind, Layout),
    Pointer(Box<TypeView>, bool, Layout),
    Array(Box<TypeView>, usize, Layout),
    Function(Box<TypeView>, Seq<(Seq<char>, TypeView)>, bool, Abi),
    Named(usize),
    Composite(usize),
    Enum(usize),
}

/// The mathematical value of a type: its names as sequences of characters,
/// its parameters as a sequence.
pub open spec fn type_view(t: Type) -> TypeView
    decreases t,
{
    match t {
        Type::Void => TypeView::Void,
        Type::Integer(k, l) => TypeView::Integer(k, l),
        Type::Float(k, l) => TypeView::Float(k, l),
        Type::Pointer(p, c, l) => TypeView::Pointer(Box::new(type_view(*p)), c, l),
        Type::Array(e, n, l) => TypeView::Array(Box::new(type_view(*e)), n, l),
        Type::Function(r, ps, v, abi) => TypeView::Function(
            Box::new(type_view(*r)),
            Seq::new(
                ps@.len(),
                |i: int|
                    if 0 <= i < ps@.len() {
                        (ps[i].0@, type_view(ps[i].1))
                    } else {
                        (Seq::empty(), TypeView::Void)
                    },
            ),
            v,
            abi,
        ),
        Type::Named(h) => TypeView::Named(h),
        Type::Composite(h) => TypeView::Composite(h),
        Type::Enum(h) => TypeView::Enum(h),
    }
}

impl View for Type {
    type V = TypeView;

    open spec fn view(&self) -> TypeView {
        type_view(*self)
    }
}

/// Whether every handle in `t` is below the number of records of its
/// kind: `comps` composites, `enums` enums and `aliases` aliases.
pub open spec fn type_closed(t: TypeView, comps: nat, enums: nat, aliases: nat) -> bool
    decreases t,
{
    match t {
        TypeView::Void => true,
        TypeView::Integer(_, _) => true,
        TypeView::Float(_, _) => true,
        TypeView::Pointer(p, _, _) => type_closed(*p, comps, enums, aliases),
        TypeView::Array(e, _, _) => type_closed(*e, comps, enums, aliases),
        TypeView::Function(r, ps, _, _) => type_closed(*r, comps, enums, aliases) && forall|i: int|
            0 <= i < ps.len() ==> type_closed((#[trigger] ps[i]).1, comps, enums, aliases),
        TypeView::Named(h) => h < aliases,
        TypeView::Composite(h) => h < comps,
        TypeView::Enum(h) => h < enums,
    }
}

/// Whether every handle in the types of `ps` is below the number of records
/// of its kind.
pub open spec fn params_closed(
    ps: Seq<(Seq<char>, TypeView)>,
    comps: nat,
    enums: nat,
    aliases: nat,
) -> bool {
    forall|i: int| 0 <= i < ps.len() ==> type_closed((#[trigger] ps[i]).1, comps, enums, aliases)
}

/// A type whose handles have records keeps having them when records are
/// added.
pub proof fn lemma_type_closed_grows(
    t: TypeView,
    comps: nat,
    enums: nat,
    aliases: nat,
    comps2: nat,
    enums2: nat,
    aliases2: nat,
)
    requires
        type_closed(t, comps, enums, aliases),
        comps <= comps2,
        enums <= enums2,
        aliases <= aliases2,
    ensures
        type_closed(t, comps2, enums2, aliases2),
    decreases t,
{
    match t {
        TypeView::Pointer(p, _, _) => {
            lemma_type_closed_grows(*p, comps, enums, aliases, comps2, enums2, aliases2);
        },
        TypeView::Array(e, _, _) => {
            lemma_type_closed_grows(*e, comps, enums, aliases, comps2, enums2, aliases2);
        },
        TypeView::Function(r, ps, _, _) => {
            lemma_type_closed_grows(*r, comps, enums, aliases, comps2, enums2, aliases2);
            assert forall|i: int| 0 <= i < ps.len() implies type_closed(
                (#[trigger] ps[i]).1,
                comps2,
                enums2,
                aliases2,
            ) by {
                lemma_type_closed_grows(ps[i].1, comps, enums, aliases, comps2, enums2, aliases2);
            }
        },
        _ => {},
    }
}

/// Parameters whose handles have records keep having them when records are
/// added.
pub proof fn lemma_params_closed_grow(
    ps: Seq<(Seq<char>, TypeView)>,
    comps: nat,
    enums: nat,
    aliases: nat,
    comps2: nat,
    enums2: nat,
    aliases2: nat,
)
    requires
        params_closed(ps, comps, enums, aliases),
        comps <= comps2,
        enums <= enums2,
        aliases <= aliases2,
    ensures
        params_closed(ps, comps2, enums2, aliases2),
{
    assert forall|i: int| 0 <= i < ps.len() implies type_closed(
        (#[trigger] ps[i]).1,
        comps2,
        enums2,
        aliases2,
    ) by {
        lemma_type_closed_grows(ps[i].1, comps, enums, aliases, comps2, enums2, aliases2);
    }
}

/// The value of a parameter list.
pub open spec fn params_view(ps: Seq<(String, Type)>) -> Seq<(Seq<char>, TypeView)> {
    Seq::new(ps.len(), |i: int| (ps[i].0@, ps[i].1@))
}

impl Type {
    /// A function type.
    pub fn function(ret: Type, params: Vec<(String, Type)>, variadic: bool, abi: Abi) -> (t: Type)
        ensures
            t@ == TypeView::Function(Box::new(ret@), params_view(params@), variadic, abi),
    {
        let t = Type::Function(Box::new(ret), params, variadic, abi);
        assert(t@ == TypeView::Function(Box::new(ret@), params_view(params@), variadic, abi)) by {
            assert(t@->Function_1 =~= params_view(params@));
        }
        t
    }
}

/// Adds a parameter to a parameter list.
pub fn push_param(params: &mut Vec<(String, Type)>, name: String, ty: Type)
    ensures
        params_view(final(params)@) == params_view(old(params)@).push((name@, ty@)),
{
    params.push((name, ty));
    assert(params_view(params@) =~= params_view(old(params)@).push((name@, ty@)));
}

/// A field of a composite. A bit width marks a bitfield.
#[derive(Debug, PartialEq, Eq)]
pub struct FieldInfo {
    pub name: String,
    pub ty: Type,
    pub bitfield: Option<usize>,
}

/// The mathematical value of a [`FieldInfo`].
pub ghost struct FieldInfoView {
    pub name: Seq<char>,
    pub ty: TypeView,
    pub bitfield: Option<usize>,
}

impl View for FieldInfo {
    type V = FieldInfoView;

    open spec fn view(&self) -> FieldInfoView {
        FieldInfoView { name: self.name@, ty: self.ty@, bitfield: self.bitfield }
    }
}

impl FieldInfo {
    /// The field with this name, type and bit width.
    pub fn new(name: String, ty: Type, bitfield: Option<usize>) -> (f: FieldInfo)
        ensures
            f@ == (FieldInfoView { name: name@, ty: ty@, bitfield }),
    {
        FieldInfo { name, ty, bitfield }
    }
}

/// A member of a composite.
#[derive(Debug, PartialEq, Eq)]
pub enum CompMember {
    Field(FieldInfo),
    /// An anonymous struct or union that no field gives access to.
    NestedComposite(usize),
    /// An anonymous struct or union together with the field declared with it.
    NestedCompositeField(usize, FieldInfo),
}

/// The mathematical value of a [`CompMember`].
pub ghost enum CompMemberView {
    Field(FieldInfoView),
    NestedComposite(usize),
    NestedCompositeField(usize, FieldInfoView),
}

impl View for CompMember {
    type V = CompMemberView;

    open spec fn view(&self) -> CompMemberView {
        match self {
            CompMember::Field(f) => CompMemberView::Field(f@),
            CompMember::NestedComposite(h) => CompMemberView::NestedComposite(*h),
            CompMember::NestedCompositeField(h, f) => CompMemberView::NestedCompositeField(*h, f@),
        }
    }
}

/// The values of members, in order.
pub open spec fn members_view(ms: Seq<CompMember>) -> Seq<CompMemberView> {
    Seq::new(ms.len(), |i: int| ms[i]@)
}

/// The record of a struct or union.
#[derive(Debug, PartialEq, Eq)]
pub struct CompInfo {
    pub name: String,
    pub kind: CompKind,
    pub members: Vec<CompMember>,
    pub layout: Layout,
}

/// The mathematical value of a [`CompInfo`].
pub ghost struct CompInfoView {
    pub name: Seq<char>,
    pub kind: CompKind,
    pub members: Seq<CompMemberView>,
    pub layout: Layout,
}

impl View for CompInfo {
    type V = CompInfoView;

    open spec fn view(&self) -> CompInfoView {
        CompInfoView {
            name: self.name@,
            kind: self.kind,
            members: members_view(self.members@),
            layout: self.layout,
        }
    }
}

impl CompInfo {
    /// The record of a composite with this name, kind, members and layout.
    pub fn new(name: String, kind: CompKind, members: Vec<CompMember>, layout: Layout) -> (c:
        CompInfo)
        ensures
            c@ == (CompInfoView { name: name@, kind, members: members_view(members@), layout }),
    {
        CompInfo { name, kind, members, layout }
    }
}

/// One constant of an enum.
#[derive(Debug, PartialEq, Eq)]
pub struct EnumItem {
    pub name: String,
    pub val: i64,
}

/// The mathematical value of an [`EnumItem`].
pub ghost struct EnumItemView {
    pub name: Seq<char>,
    pub val: i64,
}

impl View for EnumItem {
    type V = EnumItemView;

    open spec fn view(&self) -> EnumItemView {
        EnumItemView { name: self.name@, val: self.val }
    }
}

impl EnumItem {
    /// The constant with this name and value.
    pub fn new(name: String, val: i64) -> (e: EnumItem)
        ensures
            e@ == (EnumItemView { name: name@, val }),
    {
        EnumItem { name, val }
    }
}

/// The values of enum constants, in order.
pub open spec fn items_view(items: Seq<EnumItem>) -> Seq<EnumItemView> {
    Seq::new(items.len(), |i: int| items[i]@)
}

/// The record of an enum.
#[derive(Debug, PartialEq, Eq)]
pub struct EnumInfo {
    pub name: String,
    pub kind: IntegerKind,
    pub items: Vec<EnumItem>,
    pub layout: Layout,
}

/// The mathematical value of an [`EnumInfo`].
pub ghost struct EnumInfoView {
    pub name: Seq<char>,
    pub kind: IntegerKind,
    pub items: Seq<EnumItemView>,
    pub layout: Layout,
}

impl View for EnumInfo {
    type V = EnumInfoView;

    open spec fn view(&self) -> EnumInfoView {
        EnumInfoView {
            name: self.name@,
            kind: self.kind,
            items: items_view(self.items@),
            layout: self.layout,
        }
    }
}

impl EnumInfo {
    /// The record of an enum with this name, kind, constants and layout.
    pub fn new(name: String, kind: IntegerKind, items: Vec<EnumItem>, layout: Layout) -> (e:
        EnumInfo)
        ensures
            e@ == (EnumInfoView { name: name@, kind, items: items_view(items@), layout }),
    {
        EnumInfo { name, kind, items, layout }
    }
}

/// The record of a typedef.
#[derive(Debug, PartialEq, Eq)]
pub struct TypeAliasInfo {
    pub name: String,
    pub ty: Type,
}

/// The mathematical value of a [`TypeAliasInfo`].
pub ghost struct TypeAliasInfoView {
    pub name: Seq<char>,
    pub ty: TypeView,
}

impl View for TypeAliasInfo {
    type V = TypeAliasInfoView;

    open spec fn view(&self) -> TypeAliasInfoView {
        TypeAliasInfoView { name: self.name@, ty: self.ty@ }
    }
}

impl TypeAliasInfo {
    /// The record of an alias with this name for this type.
    pub fn new(name: String, ty: Type) -> (t: TypeAliasInfo)
        ensures
            t@ == (TypeAliasInfoView { name: name@, ty: ty@ }),
    {
        TypeAliasInfo { name, ty }
    }
}

/// The record of a variable or of a function.
#[derive(Debug, PartialEq, Eq)]
pub struct VarInfo {
    pub name: String,
    pub ty: Type,
    pub is_const: bool,
}

/// The mathematical value of a [`VarInfo`].
pub ghost struct VarInfoView {
    pub name: Seq<char>,
    pub ty: TypeView,
    pub is_const: bool,
}

impl View for VarInfo {
    type V = VarInfoView;

    open spec fn view(&self) -> VarInfoView {
        VarInfoView { name: self.name@, ty: self.ty@, is_const: self.is_const }
    }
}

impl VarInfo {
    /// The record of a variable or function with this name and type, not
    /// const.
    pub fn new(name: String, ty: Type) -> (v: VarInfo)
        ensures
            v@ == (VarInfoView { name: name@, ty: ty@, is_const: false }),
    {
        VarInfo { name, ty, is_const: false }
    }
}

/// A top-level declaration. Each variant but `Opaque` carries the handle of
/// the record it stands for; two declarations may carry the same handle.
#[derive(Clone, Copy, Debug, PartialEq, Eq, Structural)]
pub enum Global {
    TypeAlias(usize),
    /// A struct or union, defined.
    Composite(usize),
    /// A struct or union, declared only.
    CompDeclaration(usize),
    /// An enum, defined.
    Enum(usize),
    /// An enum, declared only.
    EnumDeclaration(usize),
    Variable(usize),
    Function(usize),
    /// A declaration of a kind that has no record.
    Opaque,
}

impl Global {
    /// Whether the declaration is a struct or union.
    pub open spec fn is_comp(self) -> bool {
        self is Composite || self is CompDeclaration
    }

    /// Whether the declaration is an enum.
    pub open spec fn is_enum(self) -> bool {
        self is Enum || self is EnumDeclaration
    }

    /// Whether the declaration is a variable or a function.
    pub open spec fn is_var(self) -> bool {
        self is Variable || self is Function
    }

    /// The handle that the declaration carries; 0 for `Opaque`.
    pub open spec fn handle(self) -> usize {
        match self {
            Global::TypeAlias(h) => h,
            Global::Composite(h) => h,
            Global::CompDeclaration(h) => h,
            Global::Enum(h) => h,
            Global::EnumDeclaration(h) => h,
            Global::Variable(h) => h,
            Global::Function(h) => h,
            Global::Opaque => 0,
        }
    }

    /// The handle of a struct or union.
    pub fn compinfo(&self) -> (h: usize)
        requires
            self.is_comp(),
        ensures
            h == self.handle(),
    {
        match self {
            Global::Composite(h) => *h,
            Global::CompDeclaration(h) => *h,
            _ => 0,
        }
    }

    /// The handle of an enum.
    pub fn enuminfo(&self) -> (h: usize)
        requires
            self.is_enum(),
        ensures
            h == self.handle(),
    {
        match self {
            Global::Enum(h) => *h,
            Global::EnumDeclaration(h) => *h,
            _ => 0,
        }
    }

    /// The handle of a variable or function.
    pub fn varinfo(&self) -> (h: usize)
        requires
            self.is_var(),
        ensures
            h == self.handle(),
    {
        match self {
            Global::Variable(h) => *h,
            Global::Function(h) => *h,
            _ => 0,
        }
    }

    /// The handle of a typedef.
    pub fn typeinfo(&self) -> (h: usize)
        requires
            self is TypeAlias,
        ensures
            h == self.handle(),
    {
        match self {
            Global::TypeAlias(h) => *h,
            _ => 0,
        }
    }
}

/// The values of the records of composites, by handle.
pub open spec fn comps_view(s: Seq<CompInfo>) -> Seq<CompInfoView> {
    Seq::new(s.len(), |i: int| s[i]@)
}

/// The values of the records of enums, by handle.
pub open spec fn enums_view(s: Seq<EnumInfo>) -> Seq<EnumInfoView> {
    Seq::new(s.len(), |i: int| s[i]@)
}

/// The values of the records of aliases, by handle.
pub open spec fn aliases_view(s: Seq<TypeAliasInfo>) -> Seq<TypeAliasInfoView> {
    Seq::new(s.len(), |i: int| s[i]@)
}

/// The values of the records of variables and functions, by handle.
pub open spec fn vars_view(s: Seq<VarInfo>) -> Seq<VarInfoView> {
    Seq::new(s.len(), |i: int| s[i]@)
}

/// What the parser produces: the top-level declarations in the order in which
/// they were met, and the records that handles refer to.
#[derive(Debug, PartialEq, Eq)]
pub struct Bindings {
    pub globals: Vec<Global>,
    pub comps: Vec<CompInfo>,
    pub enums: Vec<EnumInfo>,
    pub aliases: Vec<TypeAliasInfo>,
    pub vars: Vec<VarInfo>,
}

/// The mathematical value of [`Bindings`].
pub ghost struct BindingsView {
    pub globals: Seq<Global>,
    pub comps: Seq<CompInfoView>,
    pub enums: Seq<EnumInfoView>,
    pub aliases: Seq<TypeAliasInfoView>,
    pub vars: Seq<VarInfoView>,
}

impl View for Bindings {
    type V = BindingsView;

    open spec fn view(&self) -> BindingsView {
        BindingsView {
            globals: self.globals@,
            comps: comps_view(self.comps@),
            enums: enums_view(self.enums@),
            aliases: aliases_view(self.aliases@),
            vars: vars_view(self.vars@),
        }
    }
}

impl BindingsView {
    /// Whether every handle in `t` has a record.
    pub open spec fn holds_type(self, t: TypeView) -> bool {
        type_closed(t, self.comps.len(), self.enums.len(), self.aliases.len())
    }

    /// Whether every handle in `m` has a record.
    pub open spec fn holds_member(self, m: CompMemberView) -> bool {
        match m {
            CompMemberView::Field(f) => self.holds_type(f.ty),
            CompMemberView::NestedComposite(h) => h < self.comps.len(),
            CompMemberView::NestedCompositeField(h, f) => h < self.comps.len() && self.holds_type(
                f.ty,
            ),
        }
    }

    /// Whether the handle of `g` has a record.
    pub open spec fn holds_global(self, g: Global) -> bool {
        match g {
            Global::TypeAlias(h) => h < self.aliases.len(),
            Global::Composite(h) => h < self.comps.len(),
            Global::CompDeclaration(h) => h < self.comps.len(),
            Global::Enum(h) => h < self.enums.len(),
            Global::EnumDeclaration(h) => h < self.enums.len(),
            Global::Variable(h) => h < self.vars.len(),
            Global::Function(h) => h < self.vars.len(),
            Global::Opaque => true,
        }
    }

    /// The bindings are closed: every handle in a top-level declaration, in
    /// a member of a composite, and in the type of an alias, a variable or a
    /// function has a record.
    pub open spec fn closed(self) -> bool {
        &&& forall|i: int|
            0 <= i < self.globals.len() ==> self.holds_global(#[trigger] self.globals[i])
        &&& forall|h: int, j: int|
            0 <= h < self.comps.len() && 0 <= j < self.comps[h].members.len()
                ==> self.holds_member(#[trigger] self.comps[h].members[j])
        &&& forall|h: int|
            0 <= h < self.aliases.len() ==> self.holds_type((#[trigger] self.aliases[h]).ty)
        &&& forall|h: int| 0 <= h < self.vars.len() ==> self.holds_type((#[trigger] self.vars[h]).ty)
    }

    /// Whether `later` has every record of `self`, unchanged, and maybe more.
    pub open spec fn records_kept_in(self, later: BindingsView) -> bool {
        &&& self.comps.len() <= later.comps.len()
        &&& self.enums.len() <= later.enums.len()
        &&& self.aliases.len() <= later.aliases.len()
        &&& self.vars.len() <= later.vars.len()
        &&& forall|h: int| 0 <= h < self.comps.len() ==> #[trigger] later.comps[h] == self.comps[h]
        &&& forall|h: int|
            0 <= h < self.aliases.len() ==> #[trigger] later.aliases[h] == self.aliases[h]
        &&& forall|h: int| 0 <= h < self.vars.len() ==> #[trigger] later.vars[h] == self.vars[h]
    }
}

/// Closed bindings stay closed when records are added whose members and
/// types hold only handles that have a record by then.
pub proof fn lemma_closed_with_more_records(b: BindingsView, later: BindingsView)
    requires
        b.closed(),
        b.records_kept_in(later),
        later.globals == b.globals,
        forall|h: int, j: int|
            b.comps.len() <= h < later.comps.len() && 0 <= j < later.comps[h].members.len()
                ==> later.holds_member(#[trigger] later.comps[h].members[j]),
        forall|h: int|
            b.aliases.len() <= h < later.aliases.len() ==> later.holds_type(
                (#[trigger] later.aliases[h]).ty,
            ),
        forall|h: int|
            b.vars.len() <= h < later.vars.len() ==> later.holds_type((#[trigger] later.vars[h]).ty),
    ensures
        later.closed(),
{
    assert forall|h: int, j: int|
        0 <= h < later.comps.len() && 0 <= j < later.comps[h].members.len()
        implies later.holds_member(#[trigger] later.comps[h].members[j]) by {
        if h < b.comps.len() {
            assert(later.comps[h] == b.comps[h]);
            let m = b.comps[h].members[j];
            assert(b.holds_member(m));
            lemma_member_held_later(b, later, m);
        }
    }
    assert forall|h: int| 0 <= h < later.aliases.len() implies later.holds_type(
        (#[trigger] later.aliases[h]).ty,
    ) by {
        if h < b.aliases.len() {
            assert(later.aliases[h] == b.aliases[h]);
            lemma_type_held_later(b, later, b.aliases[h].ty);
        }
    }
    assert forall|h: int| 0 <= h < later.vars.len() implies later.holds_type(
        (#[trigger] later.vars[h]).ty,
    ) by {
        if h < b.vars.len() {
            assert(later.vars[h] == b.vars[h]);
            lemma_type_held_later(b, later, b.vars[h].ty);
        }
    }
    assert forall|i: int| 0 <= i < later.globals.len() implies later.holds_global(
        #[trigger] later.globals[i],
    ) by {
        assert(b.holds_global(b.globals[i]));
    }
}

/// A type whose handles have records in `b` has them in bindings with no
/// fewer records.
pub proof fn lemma_type_held_later(b: BindingsView, later: BindingsView, t: TypeView)
    requires
        b.holds_type(t),
        b.comps.len() <= later.comps.len(),
        b.enums.len() <= later.enums.len(),
        b.aliases.len() <= later.aliases.len(),
    ensures
        later.holds_type(t),
{
    lemma_type_closed_grows(
        t,
        b.comps.len(),
        b.enums.len(),
        b.aliases.len(),
        later.comps.len(),
        later.enums.len(),
        later.aliases.len(),
    );
}

/// A member whose handles have records in `b` has them in bindings with no
/// fewer records.
pub proof fn lemma_member_held_later(b: BindingsView, later: BindingsView, m: CompMemberView)
    requires
        b.holds_member(m),
        b.comps.len() <= later.comps.len(),
        b.enums.len() <= later.enums.len(),
        b.aliases.len() <= later.aliases.len(),
    ensures
        later.holds_member(m),
{
    match m {
        CompMemberView::Field(f) => lemma_type_held_later(b, later, f.ty),
        CompMemberView::NestedComposite(_) => {},
        CompMemberView::NestedCompositeField(_, f) => lemma_type_held_later(b, later, f.ty),
    }
}

} // verus!
