//! The translation unit as the parser reads it: cursors and types stored in
//! two tables, every relation between them an index into one of the tables.

use vstd::prelude::*;

verus! {

/// What a cursor declares. Kinds that the parser treats alike are one
/// variant, `Other`.
#[derive(Clone, Copy, Debug, PartialEq, Eq, Structural)]
pub enum CursorKind {
    StructDecl,
    UnionDecl,
    EnumDecl,
    FieldDecl,
    EnumConstantDecl,
    FunctionDecl,
    VarDecl,
    ParmDecl,
    TypedefDecl,
    /// The cursor that stands for "no declaration".
    NoDeclFound,
    /// The cursor that stands for "not part of any file".
    InvalidFile,
    Other,
}

/// The kind of a type.
#[derive(Clone, Copy, Debug, PartialEq, Eq, Structural)]
pub enum TypeKind {
    Invalid,
    Unexposed,
    Void,
    Bool,
    CharU,
    UChar,
    UShort,
    UInt,
    ULong,
    ULongLong,
    CharS,
    SChar,
    Short,
    Int,
    Long,
    LongLong,
    Float,
    Double,
    LongDouble,
    Pointer,
    Record,
    Enum,
    Typedef,
    FunctionNoProto,
    FunctionProto,
    ConstantArray,
    IncompleteArray,
    VariableArray,
    DependentSizedArray,
    Other,
}

/// How a name is visible to other translation units.
#[derive(Clone, Copy, Debug, PartialEq, Eq, Structural)]
pub enum Linkage {
    Invalid,
    NoLinkage,
    Internal,
    UniqueExternal,
    External,
}

/// The calling convention of a function type.
#[derive(Clone, Copy, Debug, PartialEq, Eq, Structural)]
pub enum CallingConv {
    Default,
    C,
    X86StdCall,
    X86FastCall,
    Aapcs,
    Win64,
    /// Any convention that has no counterpart among the ABI tags.
    Other,
}

/// How serious a diagnostic of the unit is, least serious first.
#[derive(Clone, Copy, Debug, PartialEq, Eq, PartialOrd, Ord, Structural)]
pub enum Severity {
    Ignored,
    Note,
    Warning,
    Error,
    Fatal,
}

/// What a visitor tells whoever walks the cursors for it.
#[derive(Clone, Copy, Debug, PartialEq, Eq, Structural)]
pub enum ChildVisit {
    /// Stop walking.
    Break,
    /// Go on with the next sibling.
    Continue,
    /// Go on with the children of the cursor just visited.
    Recurse,
}

/// One diagnostic that came with the unit.
#[derive(Debug)]
pub struct UnitDiagnostic {
    pub message: String,
    pub severity: Severity,
}

/// One cursor. Every field that names a cursor or a type is an index into
/// the unit's tables; a query without an answer points at a cursor of kind
/// `NoDeclFound` or at a type of kind `Invalid`.
#[derive(Debug)]
pub struct CursorData {
    pub kind: CursorKind,
    pub spelling: String,
    /// The file the cursor is located in, if it is located in one.
    pub file: Option<String>,
    pub line: u32,
    pub column: u32,
    /// The cursor that represents every declaration of the same entity.
    pub canonical: usize,
    /// The cursor that defines the entity.
    pub definition: usize,
    pub cur_type: usize,
    /// The result type, for a function.
    pub ret_type: usize,
    /// The underlying integer type, for an enum.
    pub enum_type: usize,
    /// The value, for an enum constant.
    pub enum_val: i64,
    /// The width in bits, for a bitfield.
    pub bit_width: Option<usize>,
    pub linkage: Linkage,
    /// The parameters, for a function.
    pub args: Vec<usize>,
    /// The aliased type, for a typedef.
    pub typedef_type: usize,
    /// The direct children, in source order.
    pub children: Vec<usize>,
}

/// One type.
#[derive(Debug)]
pub struct TypeData {
    pub kind: TypeKind,
    pub size: usize,
    pub align: usize,
    pub is_const: bool,
    pub is_variadic: bool,
    pub pointee_type: usize,
    pub elem_type: usize,
    pub array_size: usize,
    pub ret_type: usize,
    pub call_conv: CallingConv,
    /// The cursor that declares the type.
    pub declaration: usize,
    pub canonical_type: usize,
}

/// A translation unit: its cursors, its types, the cursor whose children are
/// the top-level declarations, and the diagnostics that came with it.
#[derive(Debug)]
pub struct TranslationUnit {
    pub cursors: Vec<CursorData>,
    pub types: Vec<TypeData>,
    pub root: usize,
    pub diagnostics: Vec<UnitDiagnostic>,
}

/// The kinds of declaration that the registry tells apart.
#[derive(Clone, Copy, Debug, PartialEq, Eq, Structural)]
pub enum DeclClass {
    Composite,
    Enum,
    Alias,
    Variable,
    Function,
    Opaque,
}

/// The class of declaration that a cursor of this kind stands for.
pub open spec fn decl_class(kind: CursorKind) -> DeclClass {
    match kind {
        CursorKind::StructDecl | CursorKind::UnionDecl => DeclClass::Composite,
        CursorKind::EnumDecl => DeclClass::Enum,
        CursorKind::TypedefDecl => DeclClass::Alias,
        CursorKind::VarDecl => DeclClass::Variable,
        CursorKind::FunctionDecl => DeclClass::Function,
        _ => DeclClass::Opaque,
    }
}

/// Whether a cursor of this kind stands for a declaration that was not found.
pub open spec fn is_missing(kind: CursorKind) -> bool {
    kind == CursorKind::NoDeclFound || kind == CursorKind::InvalidFile
}

/// Whether a type of this kind is a function type.
pub open spec fn is_function_kind(kind: TypeKind) -> bool {
    kind == TypeKind::FunctionProto || kind == TypeKind::FunctionNoProto
}

/// The kinds behind which a pointer may turn out to point to a function.
pub open spec fn may_be_function(kind: TypeKind) -> bool {
    kind == TypeKind::Unexposed || is_function_kind(kind)
}

/// The arrays that are converted like a pointer to their element.
pub open spec fn is_unsized_array(kind: TypeKind) -> bool {
    kind == TypeKind::VariableArray || kind == TypeKind::DependentSizedArray || kind
        == TypeKind::IncompleteArray
}

/// Whether a name with this linkage is visible outside the unit.
pub open spec fn is_external(linkage: Linkage) -> bool {
    linkage == Linkage::External || linkage == Linkage::UniqueExternal
}

/// The calling conventions that have an ABI tag.
pub open spec fn abi_known(cc: CallingConv) -> bool {
    cc != CallingConv::Other
}

impl TranslationUnit {
    /// The cursor with index `c`.
    pub open spec fn cursor(&self, c: usize) -> CursorData {
        self.cursors[c as int]
    }

    /// The type with index `t`.
    pub open spec fn ty(&self, t: usize) -> TypeData {
        self.types[t as int]
    }

    /// The references of cursor `c` stay inside the tables, its children
    /// come after it, its canonical cursor declares the same class of
    /// entity, and if it is a function that is visible outside the unit its
    /// calling convention has an ABI tag.
    pub open spec fn cursor_ok(&self, c: int) -> bool {
        let d = self.cursors[c];
        &&& d.canonical < self.cursors.len()
        &&& d.definition < self.cursors.len()
        &&& d.cur_type < self.types.len()
        &&& d.ret_type < self.types.len()
        &&& d.enum_type < self.types.len()
        &&& d.typedef_type < self.types.len()
        &&& forall|i: int| 0 <= i < d.args.len() ==> #[trigger] d.args[i] < self.cursors.len()
        &&& forall|i: int|
            0 <= i < d.children.len() ==> c < #[trigger] d.children[i] < self.cursors.len()
        &&& decl_class(d.kind) != DeclClass::Opaque ==> decl_class(
            self.cursors[d.canonical as int].kind,
        ) == decl_class(d.kind)
        &&& d.kind == CursorKind::FunctionDecl && is_external(d.linkage) ==> abi_known(
            self.types[d.cur_type as int].call_conv,
        )
    }

    /// The references of type `t` stay inside the tables, the types it is
    /// built from come before it, and if a pointer to it is a function
    /// pointer its calling convention has an ABI tag.
    pub open spec fn type_ok(&self, t: int) -> bool {
        let d = self.types[t];
        &&& d.pointee_type < self.types.len()
        &&& d.elem_type < self.types.len()
        &&& d.ret_type < self.types.len()
        &&& d.canonical_type < self.types.len()
        &&& d.declaration < self.cursors.len()
        &&& d.kind == TypeKind::Pointer ==> d.pointee_type < t
        &&& d.kind == TypeKind::ConstantArray || is_unsized_array(d.kind) ==> d.elem_type < t
        &&& may_be_function(d.kind) && self.types[d.ret_type as int].kind != TypeKind::Invalid ==> {
            &&& d.ret_type < t
            &&& abi_known(d.call_conv)
        }
    }

    /// For a typedef type whose alias stands for a function type, that
    /// function type comes before the typedef type.
    pub open spec fn typedef_ok(&self, t: int) -> bool {
        let d = self.types[t];
        d.kind == TypeKind::Typedef && is_function_kind(
            self.types[self.cursors[d.declaration as int].typedef_type as int].kind,
        ) ==> self.cursors[d.declaration as int].typedef_type < t
    }

    /// The unit is well formed: what the parser needs in order to walk it
    /// without leaving the tables, without walking forever, and without
    /// meeting a calling convention it has no tag for.
    pub open spec fn wf(&self) -> bool {
        &&& self.root < self.cursors.len()
        &&& forall|c: int| 0 <= c < self.cursors.len() ==> #[trigger] self.cursor_ok(c)
        &&& forall|t: int| 0 <= t < self.types.len() ==> #[trigger] self.type_ok(t)
        &&& forall|t: int| 0 <= t < self.types.len() ==> #[trigger] self.typedef_ok(t)
    }
}

impl CursorKind {
    /// The class of declaration that a cursor of this kind stands for.
    pub fn class(self) -> (r: DeclClass)
        ensures
            r == decl_class(self),
    {
        match self {
            CursorKind::StructDecl | CursorKind::UnionDecl => DeclClass::Composite,
            CursorKind::EnumDecl => DeclClass::Enum,
            CursorKind::TypedefDecl => DeclClass::Alias,
            CursorKind::VarDecl => DeclClass::Variable,
            CursorKind::FunctionDecl => DeclClass::Function,
            _ => DeclClass::Opaque,
        }
    }
}

impl TypeKind {
    /// Whether a pointer to a type of this kind may be a function pointer.
    pub fn may_be_function(self) -> (r: bool)
        ensures
            r == may_be_function(self),
    {
        match self {
            TypeKind::Unexposed | TypeKind::FunctionProto | TypeKind::FunctionNoProto => true,
            _ => false,
        }
    }

    /// Whether a type of this kind is an array with an element type.
    pub fn is_array(self) -> (r: bool)
        ensures
            r == (self == TypeKind::ConstantArray || is_unsized_array(self)),
    {
        match self {
            TypeKind::ConstantArray
            | TypeKind::VariableArray
            | TypeKind::DependentSizedArray
            | TypeKind::IncompleteArray => true,
            _ => false,
        }
    }
}

impl TranslationUnit {
    /// Whether every index in `ids` is that of a cursor greater than `above`.
    fn all_cursors_above(&self, ids: &Vec<usize>, above: usize) -> (ok: bool)
        ensures
            ok == forall|i: int|
                0 <= i < ids.len() ==> above < #[trigger] ids[i] < self.cursors.len(),
    {
        let mut i: usize = 0;
        while i < ids.len()
            invariant
                i <= ids.len(),
                forall|j: int| 0 <= j < i ==> above < #[trigger] ids[j] < self.cursors.len(),
            decreases ids.len() - i,
        {
            if !(above < ids[i] && ids[i] < self.cursors.len()) {
                return false;
            }
            i = i + 1;
        }
        true
    }

    /// Whether every index in `ids` is that of a cursor.
    fn all_cursors(&self, ids: &Vec<usize>) -> (ok: bool)
        ensures
            ok == forall|i: int| 0 <= i < ids.len() ==> #[trigger] ids[i] < self.cursors.len(),
    {
        let mut i: usize = 0;
        while i < ids.len()
            invariant
                i <= ids.len(),
                forall|j: int| 0 <= j < i ==> #[trigger] ids[j] < self.cursors.len(),
            decreases ids.len() - i,
        {
            if ids[i] >= self.cursors.len() {
                return false;
            }
            i = i + 1;
        }
        true
    }

    /// Whether cursor `c` is as a well-formed unit has it.
    pub fn check_cursor(&self, c: usize) -> (ok: bool)
        requires
            c < self.cursors.len(),
        ensures
            ok == self.cursor_ok(c as int),
    {
        let d = &self.cursors[c];
        let cursors: usize = self.cursors.len();
        let types: usize = self.types.len();
        if !(d.canonical < cursors && d.definition < cursors && d.cur_type < types && d.ret_type
            < types && d.enum_type < types && d.typedef_type < types) {
            return false;
        }
        if !self.all_cursors(&d.args) {
            return false;
        }
        if !self.all_cursors_above(&d.children, c) {
            return false;
        }
        let class = d.kind.class();
        if class != DeclClass::Opaque && self.cursors[d.canonical].kind.class() != class {
            return false;
        }
        let external = d.linkage == Linkage::External || d.linkage == Linkage::UniqueExternal;
        if d.kind == CursorKind::FunctionDecl && external && self.types[d.cur_type].call_conv
            == CallingConv::Other {
            return false;
        }
        true
    }

    /// Whether type `t` is as a well-formed unit has it, the cursors having
    /// been checked before.
    pub fn check_type(&self, t: usize) -> (ok: bool)
        requires
            t < self.types.len(),
            forall|c: int| 0 <= c < self.cursors.len() ==> #[trigger] self.cursor_ok(c),
        ensures
            ok == (self.type_ok(t as int) && self.typedef_ok(t as int)),
    {
        let d = &self.types[t];
        let cursors: usize = self.cursors.len();
        let types: usize = self.types.len();
        if !(d.pointee_type < types && d.elem_type < types && d.ret_type < types
            && d.canonical_type < types && d.declaration < cursors) {
            return false;
        }
        if d.kind == TypeKind::Pointer && d.pointee_type >= t {
            return false;
        }
        if d.kind.is_array() && d.elem_type >= t {
            return false;
        }
        if d.kind.may_be_function() && self.types[d.ret_type].kind != TypeKind::Invalid {
            if d.ret_type >= t || d.call_conv == CallingConv::Other {
                return false;
            }
        }
        if d.kind == TypeKind::Typedef {
            assert(self.cursor_ok(d.declaration as int));
            let aliased: usize = self.cursors[d.declaration].typedef_type;
            let k = self.types[aliased].kind;
            if (k == TypeKind::FunctionProto || k == TypeKind::FunctionNoProto) && aliased >= t {
                return false;
            }
        }
        true
    }

    /// Whether the unit is well formed.
    pub fn well_formed(&self) -> (ok: bool)
        ensures
            ok == self.wf(),
    {
        if self.root >= self.cursors.len() {
            return false;
        }
        let mut c: usize = 0;
        while c < self.cursors.len()
            invariant
                c <= self.cursors.len(),
                forall|i: int| 0 <= i < c ==> #[trigger] self.cursor_ok(i),
            decreases self.cursors.len() - c,
        {
            if !self.check_cursor(c) {
                return false;
            }
            c = c + 1;
        }
        let mut t: usize = 0;
        while t < self.types.len()
            invariant
                t <= self.types.len(),
                forall|i: int| 0 <= i < self.cursors.len() ==> #[trigger] self.cursor_ok(i),
                forall|i: int| 0 <= i < t ==> #[trigger] self.type_ok(i),
                forall|i: int| 0 <= i < t ==> #[trigger] self.typedef_ok(i),
            decreases self.types.len() - t,
        {
            if !self.check_type(t) {
                return false;
            }
            t = t + 1;
        }
        true
    }
}

/// In a unit made by [`TranslationUnit::new`], the cursor whose children
/// are the top-level declarations.
pub const ROOT_CURSOR: usize = 0;

/// In a unit made by [`TranslationUnit::new`], the cursor that stands for
/// "no declaration".
pub const NULL_CURSOR: usize = 1;

/// In a unit made by [`TranslationUnit::new`], the type that stands for
/// "no type".
pub const INVALID_TYPE: usize = 0;

impl CursorData {
    /// A cursor of the given kind and spelling that is located in no file,
    /// has `canonical` as its canonical cursor, and has no definition, no
    /// type, no parameters and no children.
    pub fn new(kind: CursorKind, spelling: String, canonical: usize) -> (d: CursorData)
        ensures
            d.kind == kind,
            d.spelling == spelling,
            d.file is None,
            d.line == 0 && d.column == 0,
            d.canonical == canonical,
            d.definition == NULL_CURSOR,
            d.cur_type == INVALID_TYPE,
            d.ret_type == INVALID_TYPE,
            d.enum_type == INVALID_TYPE,
            d.typedef_type == INVALID_TYPE,
            d.enum_val == 0,
            d.bit_width is None,
            d.linkage == Linkage::Invalid,
            d.args@ == Seq::<usize>::empty(),
            d.children@ == Seq::<usize>::empty(),
    {
        CursorData {
            kind,
            spelling,
            file: None,
            line: 0,
            column: 0,
            canonical,
            definition: NULL_CURSOR,
            cur_type: INVALID_TYPE,
            ret_type: INVALID_TYPE,
            enum_type: INVALID_TYPE,
            enum_val: 0,
            bit_width: None,
            linkage: Linkage::Invalid,
            args: Vec::new(),
            typedef_type: INVALID_TYPE,
            children: Vec::new(),
        }
    }
}

impl TypeData {
    /// A type of the given kind and layout that is not const, not variadic,
    /// is built from no other type and has no declaration.
    pub fn new(kind: TypeKind, size: usize, align: usize) -> (d: TypeData)
        ensures
            d == (TypeData {
                kind,
                size,
                align,
                is_const: false,
                is_variadic: false,
                pointee_type: INVALID_TYPE,
                elem_type: INVALID_TYPE,
                array_size: 0,
                ret_type: INVALID_TYPE,
                call_conv: CallingConv::Default,
                declaration: NULL_CURSOR,
                canonical_type: INVALID_TYPE,
            }),
    {
        TypeData {
            kind,
            size,
            align,
            is_const: false,
            is_variadic: false,
            pointee_type: INVALID_TYPE,
            elem_type: INVALID_TYPE,
            array_size: 0,
            ret_type: INVALID_TYPE,
            call_conv: CallingConv::Default,
            declaration: NULL_CURSOR,
            canonical_type: INVALID_TYPE,
        }
    }
}

impl TranslationUnit {
    /// Whether the unit starts as one made by [`TranslationUnit::new`]
    /// does: with the root cursor, the cursor for "no declaration" and the
    /// type for "no type" in their places.
    pub open spec fn has_base(&self) -> bool {
        &&& self.cursors.len() > NULL_CURSOR
        &&& self.types.len() > INVALID_TYPE
        &&& self.cursors[NULL_CURSOR as int].typedef_type < self.types.len()
        &&& !is_function_kind(
            self.types[self.cursors[NULL_CURSOR as int].typedef_type as int].kind,
        )
        &&& self.types[INVALID_TYPE as int].kind == TypeKind::Invalid
    }

    /// A unit without declarations: the root cursor, the cursor for "no
    /// declaration" and the type for "no type".
    pub fn new() -> (unit: TranslationUnit)
        ensures
            unit.wf(),
            unit.has_base(),
            unit.root == ROOT_CURSOR,
            unit.cursors.len() == 2,
            unit.types.len() == 1,
            unit.diagnostics.len() == 0,
            unit.cursors[ROOT_CURSOR as int].kind == CursorKind::Other,
            unit.cursors[ROOT_CURSOR as int].children.len() == 0,
            unit.cursors[NULL_CURSOR as int].kind == CursorKind::NoDeclFound,
    {
        let mut cursors: Vec<CursorData> = Vec::new();
        cursors.push(CursorData::new(CursorKind::Other, String::new(), ROOT_CURSOR));
        cursors.push(CursorData::new(CursorKind::NoDeclFound, String::new(), NULL_CURSOR));
        let mut types: Vec<TypeData> = Vec::new();
        types.push(TypeData::new(TypeKind::Invalid, 0, 0));
        let unit = TranslationUnit { cursors, types, root: ROOT_CURSOR, diagnostics: Vec::new() };
        assert(unit.cursor_ok(0));
        assert(unit.cursor_ok(1));
        assert(unit.type_ok(0));
        assert(unit.typedef_ok(0));
        unit
    }

    /// Adds a type of the given kind and layout, built from no other type
    /// and without a declaration, and hands back its index.
    pub fn add_type(&mut self, kind: TypeKind, size: usize, align: usize) -> (t: usize)
        ensures
            t == old(self).types.len(),
            final(self).types@ == old(self).types@.push(
                TypeData {
                    kind,
                    size,
                    align,
                    is_const: false,
                    is_variadic: false,
                    pointee_type: INVALID_TYPE,
                    elem_type: INVALID_TYPE,
                    array_size: 0,
                    ret_type: INVALID_TYPE,
                    call_conv: CallingConv::Default,
                    declaration: NULL_CURSOR,
                    canonical_type: INVALID_TYPE,
                },
            ),
            final(self).cursors == old(self).cursors,
            final(self).root == old(self).root,
            final(self).diagnostics == old(self).diagnostics,
            old(self).wf() && old(self).has_base() ==> final(self).wf() && final(self).has_base(),
    {
        let t: usize = self.types.len();
        self.types.push(TypeData::new(kind, size, align));
        proof {
            if old(self).wf() && old(self).has_base() {
                assert forall|c: int| 0 <= c < self.cursors.len() implies #[trigger] self.cursor_ok(
                    c,
                ) by {
                    assert(old(self).cursor_ok(c));
                }
                assert forall|i: int| 0 <= i < self.types.len() implies #[trigger] self.type_ok(
                    i,
                ) by {
                    if i < t {
                        assert(old(self).type_ok(i));
                    }
                }
                assert forall|i: int| 0 <= i < self.types.len() implies #[trigger] self.typedef_ok(
                    i,
                ) by {
                    if i < t {
                        assert(old(self).typedef_ok(i));
                        assert(old(self).type_ok(i));
                        assert(old(self).cursor_ok(old(self).types[i].declaration as int));
                    }
                }
            }
        }
        t
    }

    /// Adds a cursor of the given kind and spelling as the last child of
    /// `parent`, and hands back its index. The cursor is its own canonical
    /// cursor and has no definition, no type, no file and no children.
    pub fn add_cursor(&mut self, parent: usize, kind: CursorKind, spelling: String) -> (c: usize)
        requires
            parent < old(self).cursors.len(),
        ensures
            c == old(self).cursors.len(),
            final(self).cursors.len() == c + 1,
            final(self).cursors[c as int].kind == kind,
            final(self).cursors[c as int].spelling == spelling,
            final(self).cursors[c as int].canonical == c,
            final(self).cursors[c as int].definition == NULL_CURSOR,
            final(self).cursors[c as int].children.len() == 0,
            final(self).cursors[parent as int].children@ == old(self).cursors[parent as int].children@.push(
                c,
            ),
            forall|i: int|
                0 <= i < c && i != parent ==> #[trigger] final(self).cursors[i] == old(
                    self,
                ).cursors[i],
            final(self).types == old(self).types,
            final(self).root == old(self).root,
            final(self).diagnostics == old(self).diagnostics,
            old(self).wf() && old(self).has_base() ==> final(self).wf() && final(self).has_base(),
    {
        let c: usize = self.cursors.len();
        self.cursors.push(CursorData::new(kind, spelling, c));
        self.cursors[parent].children.push(c);
        proof {
            if old(self).wf() && old(self).has_base() {
                assert forall|i: int| 0 <= i < self.cursors.len() implies #[trigger] self.cursor_ok(
                    i,
                ) by {
                    if i < c {
                        assert(old(self).cursor_ok(i));
                    }
                }
                assert forall|i: int| 0 <= i < self.types.len() implies #[trigger] self.type_ok(
                    i,
                ) by {
                    assert(old(self).type_ok(i));
                }
                assert forall|i: int| 0 <= i < self.types.len() implies #[trigger] self.typedef_ok(
                    i,
                ) by {
                    assert(old(self).typedef_ok(i));
                    assert(old(self).type_ok(i));
                }
            }
        }
        c
    }
}

} // verus!
