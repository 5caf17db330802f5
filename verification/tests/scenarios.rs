use bindgen_parser::ast::{
    CallingConv, CursorKind, Linkage, Severity, TranslationUnit, TypeKind, UnitDiagnostic,
    INVALID_TYPE, NULL_CURSOR, ROOT_CURSOR,
};
use bindgen_parser::ir::{
    Abi, Bindings, CompInfo, CompKind, CompMember, EnumItem, FieldInfo, FloatKind, Global,
    IntegerKind, Layout, Type,
};
use bindgen_parser::log::{Diagnostic, Logger, Report};
use bindgen_parser::context::ClangParserCtx;
use bindgen_parser::parser::{decl_name, parse, visit_top, ClangParserOptions};

fn errors(logger: &Logger) -> Vec<Diagnostic> {
    logger.reports.iter().filter(|r| r.is_error).map(|r| r.diagnostic).collect()
}

fn warnings(logger: &Logger) -> Vec<Diagnostic> {
    logger.reports.iter().filter(|r| !r.is_error).map(|r| r.diagnostic).collect()
}

fn options() -> ClangParserOptions {
    ClangParserOptions {
        builtin_names: Vec::new(),
        builtins: false,
        match_pat: Vec::new(),
        emit_ast: false,
        fail_on_bitfield: false,
        fail_on_unknown_type: false,
        override_enum_ty: None,
        clang_args: Vec::new(),
    }
}

/// Adds a cursor located in `test.h`.
fn decl(unit: &mut TranslationUnit, parent: usize, kind: CursorKind, name: &str) -> usize {
    let c = unit.add_cursor(parent, kind, name.to_string());
    unit.cursors[c].file = Some("test.h".to_string());
    c
}

/// Adds a struct, union or enum that is defined where it is declared,
/// together with its type.
fn defined(
    unit: &mut TranslationUnit,
    parent: usize,
    kind: CursorKind,
    name: &str,
    size: usize,
    align: usize,
) -> (usize, usize) {
    let c = decl(unit, parent, kind, name);
    let type_kind = if kind == CursorKind::EnumDecl { TypeKind::Enum } else { TypeKind::Record };
    let t = unit.add_type(type_kind, size, align);
    unit.types[t].declaration = c;
    unit.cursors[c].cur_type = t;
    unit.cursors[c].definition = c;
    (c, t)
}

fn field(unit: &mut TranslationUnit, parent: usize, name: &str, ty: usize) -> usize {
    let c = decl(unit, parent, CursorKind::FieldDecl, name);
    unit.cursors[c].cur_type = ty;
    c
}

fn pointer_to(unit: &mut TranslationUnit, pointee: usize) -> usize {
    let t = unit.add_type(TypeKind::Pointer, 8, 8);
    unit.types[t].pointee_type = pointee;
    t
}

fn run(unit: &TranslationUnit, opts: ClangParserOptions) -> (Result<Bindings, ()>, Logger) {
    assert!(unit.well_formed());
    let mut logger = Logger::new();
    let r = parse(opts, unit, &mut logger);
    (r, logger)
}

fn plain_field(name: &str, ty: Type) -> CompMember {
    CompMember::Field(FieldInfo::new(name.to_string(), ty, None))
}

fn int_ty() -> Type {
    Type::Integer(IntegerKind::Int, Layout::new(4, 4))
}

fn char_ty() -> Type {
    Type::Integer(IntegerKind::SChar, Layout::new(1, 1))
}

#[test]
fn empty_unit_gives_empty_bindings() {
    let unit = TranslationUnit::new();
    let (r, logger) = run(&unit, options());
    let b = r.unwrap();
    assert!(b.globals.is_empty());
    assert!(b.comps.is_empty() && b.enums.is_empty() && b.aliases.is_empty() && b.vars.is_empty());
    assert!(errors(&logger).is_empty() && warnings(&logger).is_empty());
}

#[test]
fn typedef_of_anonymous_struct_and_struct_using_it() {
    // typedef struct { int a; char b; } Foo; struct Bar { Foo f; };
    let mut unit = TranslationUnit::new();
    let int = unit.add_type(TypeKind::Int, 4, 4);
    let ch = unit.add_type(TypeKind::CharS, 1, 1);
    let (anon, record) = defined(&mut unit, ROOT_CURSOR, CursorKind::StructDecl, "", 8, 4);
    field(&mut unit, anon, "a", int);
    field(&mut unit, anon, "b", ch);
    let sugar = unit.add_type(TypeKind::Unexposed, 8, 4);
    unit.types[sugar].canonical_type = record;
    unit.types[sugar].declaration = anon;
    let foo = decl(&mut unit, ROOT_CURSOR, CursorKind::TypedefDecl, "Foo");
    unit.cursors[foo].typedef_type = sugar;
    let foo_ty = unit.add_type(TypeKind::Typedef, 8, 4);
    unit.types[foo_ty].declaration = foo;
    unit.cursors[foo].cur_type = foo_ty;
    let (bar, _) = defined(&mut unit, ROOT_CURSOR, CursorKind::StructDecl, "Bar", 8, 4);
    field(&mut unit, bar, "f", foo_ty);

    let (r, logger) = run(&unit, options());
    let b = r.unwrap();
    assert_eq!(b.globals, vec![Global::Composite(0), Global::TypeAlias(0), Global::Composite(1)]);
    assert_eq!(
        b.comps[0],
        CompInfo::new(
            "".to_string(),
            CompKind::Struct,
            vec![plain_field("a", int_ty()), plain_field("b", char_ty())],
            Layout::new(8, 4),
        )
    );
    assert_eq!(b.aliases.len(), 1);
    assert_eq!(b.aliases[0].name, "Foo");
    assert_eq!(b.aliases[0].ty, Type::Composite(0));
    assert_eq!(b.comps[1].name, "Bar");
    assert_eq!(b.comps[1].kind, CompKind::Struct);
    assert_eq!(b.comps[1].members, vec![plain_field("f", Type::Named(0))]);
    assert!(errors(&logger).is_empty() && warnings(&logger).is_empty());

    // In the registry the anonymous struct stands as declared, the alias as
    // an alias and `Bar` as declared, each with the record found above.
    let opts = options();
    let mut ctx = ClangParserCtx::new(Logger::new());
    for c in [anon, foo, bar] {
        visit_top(&mut ctx, &unit, &opts, c);
    }
    assert_eq!(ctx.globals, b.globals);
    assert_eq!(decl_name(&mut ctx, &unit, &opts, anon), Global::CompDeclaration(0));
    assert_eq!(decl_name(&mut ctx, &unit, &opts, foo), Global::TypeAlias(0));
    assert_eq!(decl_name(&mut ctx, &unit, &opts, bar), Global::CompDeclaration(1));
    assert_eq!(ctx.comps, b.comps);
}

#[test]
fn struct_that_points_to_itself() {
    // struct Node { struct Node *next; };
    let mut unit = TranslationUnit::new();
    let (node, record) = defined(&mut unit, ROOT_CURSOR, CursorKind::StructDecl, "Node", 8, 8);
    let ptr = pointer_to(&mut unit, record);
    field(&mut unit, node, "next", ptr);

    let (r, _) = run(&unit, options());
    let b = r.unwrap();
    assert_eq!(b.globals, vec![Global::Composite(0)]);
    assert_eq!(b.comps.len(), 1);
    assert_eq!(
        b.comps[0].members,
        vec![plain_field(
            "next",
            Type::Pointer(Box::new(Type::Composite(0)), false, Layout::new(8, 8))
        )]
    );
}

#[test]
fn structs_that_point_to_each_other() {
    // struct A { struct B *b; }; struct B { struct A *a; };
    let mut unit = TranslationUnit::new();
    let (a, a_ty) = defined(&mut unit, ROOT_CURSOR, CursorKind::StructDecl, "A", 8, 8);
    let b_ty = unit.add_type(TypeKind::Record, 8, 8);
    let ptr_b = pointer_to(&mut unit, b_ty);
    field(&mut unit, a, "b", ptr_b);
    let b = decl(&mut unit, ROOT_CURSOR, CursorKind::StructDecl, "B");
    unit.cursors[b].definition = b;
    unit.cursors[b].cur_type = b_ty;
    unit.types[b_ty].declaration = b;
    let ptr_a = pointer_to(&mut unit, a_ty);
    field(&mut unit, b, "a", ptr_a);

    let (r, _) = run(&unit, options());
    let out = r.unwrap();
    // A is registered first, B while A's field is converted.
    assert_eq!(out.globals, vec![Global::Composite(0), Global::Composite(1)]);
    assert_eq!(out.comps[0].name, "A");
    assert_eq!(out.comps[1].name, "B");
    assert_eq!(
        out.comps[0].members,
        vec![plain_field("b", Type::Pointer(Box::new(Type::Composite(1)), false, Layout::new(8, 8)))]
    );
    assert_eq!(
        out.comps[1].members,
        vec![plain_field("a", Type::Pointer(Box::new(Type::Composite(0)), false, Layout::new(8, 8)))]
    );
}

#[test]
fn declaration_before_definition_adds_only_the_definition() {
    // struct A; struct A { int x; };
    let mut unit = TranslationUnit::new();
    let int = unit.add_type(TypeKind::Int, 4, 4);
    let first = decl(&mut unit, ROOT_CURSOR, CursorKind::StructDecl, "A");
    let (second, record) = defined(&mut unit, ROOT_CURSOR, CursorKind::StructDecl, "A", 4, 4);
    unit.cursors[first].definition = second;
    unit.cursors[first].cur_type = record;
    unit.cursors[second].canonical = first;
    field(&mut unit, second, "x", int);

    let (r, _) = run(&unit, options());
    let b = r.unwrap();
    assert_eq!(b.globals, vec![Global::Composite(0)]);
    assert_eq!(b.comps.len(), 1);
    assert_eq!(b.comps[0].members, vec![plain_field("x", int_ty())]);
}

#[test]
fn two_declarations_without_definition_share_one_record() {
    // struct A; struct A;   and   struct B;
    let mut unit = TranslationUnit::new();
    let first = decl(&mut unit, ROOT_CURSOR, CursorKind::StructDecl, "A");
    let other = decl(&mut unit, ROOT_CURSOR, CursorKind::StructDecl, "B");
    let second = decl(&mut unit, ROOT_CURSOR, CursorKind::StructDecl, "A");
    unit.cursors[second].canonical = first;
    assert_eq!(unit.cursors[first].definition, NULL_CURSOR);
    assert_eq!(unit.cursors[other].definition, NULL_CURSOR);

    let (r, _) = run(&unit, options());
    let b = r.unwrap();
    assert_eq!(
        b.globals,
        vec![
            Global::CompDeclaration(0),
            Global::CompDeclaration(1),
            Global::CompDeclaration(0)
        ]
    );
    assert_eq!(b.comps.len(), 2);
    assert_eq!(b.comps[0].name, "A");
    assert_eq!(b.comps[1].name, "B");
    assert!(b.comps[0].members.is_empty());
}

#[test]
fn declaration_whose_definition_is_in_no_file_is_opaque() {
    let mut unit = TranslationUnit::new();
    let gone = unit.add_cursor(ROOT_CURSOR, CursorKind::InvalidFile, String::new());
    // Keep the stand-in out of the top level: only root's children are visited.
    unit.cursors[ROOT_CURSOR].children.clear();
    let u = decl(&mut unit, ROOT_CURSOR, CursorKind::UnionDecl, "U");
    unit.cursors[u].definition = gone;

    let (r, _) = run(&unit, options());
    let b = r.unwrap();
    assert_eq!(b.globals, vec![Global::CompDeclaration(0)]);
    assert_eq!(b.comps[0].kind, CompKind::Union);
}

/// struct foo { union { int a; char b; } <declarator>; } with the field's
/// type given by `field_type`, which gets the union's type.
fn folded(field_type: fn(&mut TranslationUnit, usize, usize) -> usize) -> Bindings {
    let mut unit = TranslationUnit::new();
    let int = unit.add_type(TypeKind::Int, 4, 4);
    let ch = unit.add_type(TypeKind::CharS, 1, 1);
    let (foo, _) = defined(&mut unit, ROOT_CURSOR, CursorKind::StructDecl, "foo", 4, 4);
    let (anon, record) = defined(&mut unit, foo, CursorKind::UnionDecl, "", 4, 4);
    field(&mut unit, anon, "a", int);
    field(&mut unit, anon, "b", ch);
    let ty = field_type(&mut unit, anon, record);
    field(&mut unit, foo, "bar", ty);
    run(&unit, options()).0.unwrap()
}

fn union_members() -> Vec<CompMember> {
    vec![plain_field("a", int_ty()), plain_field("b", char_ty())]
}

#[test]
fn field_of_anonymous_union_folds() {
    let b = folded(|unit, anon, _| {
        let t = unit.add_type(TypeKind::Unexposed, 4, 4);
        unit.types[t].declaration = anon;
        t
    });
    assert_eq!(b.globals, vec![Global::Composite(0)]);
    assert_eq!(b.comps[1].members, union_members());
    assert_eq!(
        b.comps[0].members,
        vec![CompMember::NestedCompositeField(
            1,
            FieldInfo::new("bar".to_string(), Type::Composite(1), None)
        )]
    );
}

#[test]
fn pointer_to_anonymous_union_folds() {
    let b = folded(|unit, _, record| pointer_to(unit, record));
    assert_eq!(
        b.comps[0].members,
        vec![CompMember::NestedCompositeField(
            1,
            FieldInfo::new(
                "bar".to_string(),
                Type::Pointer(Box::new(Type::Composite(1)), false, Layout::new(8, 8)),
                None
            )
        )]
    );
}

#[test]
fn array_of_anonymous_union_folds() {
    let b = folded(|unit, _, record| {
        let t = unit.add_type(TypeKind::ConstantArray, 12, 4);
        unit.types[t].elem_type = record;
        unit.types[t].array_size = 3;
        t
    });
    assert_eq!(
        b.comps[0].members,
        vec![CompMember::NestedCompositeField(
            1,
            FieldInfo::new(
                "bar".to_string(),
                Type::Array(Box::new(Type::Composite(1)), 3, Layout::new(12, 4)),
                None
            )
        )]
    );
}

#[test]
fn field_with_record_kind_does_not_fold() {
    // The field's own type has to be unexposed, a pointer or an array.
    let b = folded(|_, _, record| record);
    assert_eq!(
        b.comps[0].members,
        vec![CompMember::NestedComposite(1), plain_field("bar", Type::Composite(1))]
    );
}

#[test]
fn anonymous_union_without_field_stays_alone() {
    // struct foo { union { int a; }; int x; };
    let mut unit = TranslationUnit::new();
    let int = unit.add_type(TypeKind::Int, 4, 4);
    let (foo, _) = defined(&mut unit, ROOT_CURSOR, CursorKind::StructDecl, "foo", 8, 4);
    let (anon, _) = defined(&mut unit, foo, CursorKind::UnionDecl, "", 4, 4);
    field(&mut unit, anon, "a", int);
    field(&mut unit, foo, "x", int);

    let b = run(&unit, options()).0.unwrap();
    assert_eq!(
        b.comps[0].members,
        vec![CompMember::NestedComposite(1), plain_field("x", int_ty())]
    );
    assert_eq!(b.comps[1].members, vec![plain_field("a", int_ty())]);
}

#[test]
fn field_of_another_composite_does_not_fold() {
    // struct foo { union { int a; }; struct other *p; };
    let mut unit = TranslationUnit::new();
    let int = unit.add_type(TypeKind::Int, 4, 4);
    let other_ty = unit.add_type(TypeKind::Record, 4, 4);
    let (foo, _) = defined(&mut unit, ROOT_CURSOR, CursorKind::StructDecl, "foo", 16, 8);
    let (anon, _) = defined(&mut unit, foo, CursorKind::UnionDecl, "", 4, 4);
    field(&mut unit, anon, "a", int);
    let ptr = pointer_to(&mut unit, other_ty);
    field(&mut unit, foo, "p", ptr);
    let other = decl(&mut unit, ROOT_CURSOR, CursorKind::StructDecl, "other");
    unit.types[other_ty].declaration = other;

    let b = run(&unit, options()).0.unwrap();
    assert_eq!(
        b.comps[0].members,
        vec![
            CompMember::NestedComposite(1),
            plain_field("p", Type::Pointer(Box::new(Type::Composite(2)), false, Layout::new(8, 8)))
        ]
    );
    // `other` has no definition: it is declared at the top level.
    assert_eq!(b.globals, vec![Global::Composite(0), Global::CompDeclaration(2)]);
}

fn enum_unit(underlying: TypeKind) -> TranslationUnit {
    let mut unit = TranslationUnit::new();
    let under = unit.add_type(underlying, 2, 2);
    let (e, _) = defined(&mut unit, ROOT_CURSOR, CursorKind::EnumDecl, "E", 2, 2);
    unit.cursors[e].enum_type = under;
    let red = decl(&mut unit, e, CursorKind::EnumConstantDecl, "RED");
    unit.cursors[red].enum_val = 1;
    let other = decl(&mut unit, e, CursorKind::Other, "ignored");
    unit.cursors[other].enum_val = 9;
    let blue = decl(&mut unit, e, CursorKind::EnumConstantDecl, "BLUE");
    unit.cursors[blue].enum_val = -7;
    unit
}

#[test]
fn enum_takes_kind_of_underlying_type() {
    let b = run(&enum_unit(TypeKind::UShort), options()).0.unwrap();
    assert_eq!(b.globals, vec![Global::Enum(0)]);
    assert_eq!(b.enums[0].name, "E");
    assert_eq!(b.enums[0].kind, IntegerKind::UShort);
    assert_eq!(b.enums[0].layout, Layout::new(2, 2));
    assert_eq!(
        b.enums[0].items,
        vec![EnumItem::new("RED".to_string(), 1), EnumItem::new("BLUE".to_string(), -7)]
    );
}

#[test]
fn enum_kind_of_each_underlying_type() {
    let cases = [
        (TypeKind::SChar, IntegerKind::SChar),
        (TypeKind::CharS, IntegerKind::SChar),
        (TypeKind::UChar, IntegerKind::UChar),
        (TypeKind::CharU, IntegerKind::UChar),
        (TypeKind::UShort, IntegerKind::UShort),
        (TypeKind::UInt, IntegerKind::UInt),
        (TypeKind::ULong, IntegerKind::ULong),
        (TypeKind::ULongLong, IntegerKind::ULongLong),
        (TypeKind::Short, IntegerKind::Short),
        (TypeKind::Int, IntegerKind::Int),
        (TypeKind::Long, IntegerKind::Long),
        (TypeKind::LongLong, IntegerKind::LongLong),
        (TypeKind::Bool, IntegerKind::Int),
        (TypeKind::Invalid, IntegerKind::Int),
        (TypeKind::Double, IntegerKind::Int),
    ];
    for (underlying, expected) in cases {
        let b = run(&enum_unit(underlying), options()).0.unwrap();
        assert_eq!(b.enums[0].kind, expected);
    }
}

#[test]
fn enum_override_wins() {
    let mut opts = options();
    opts.override_enum_ty = Some(IntegerKind::ULongLong);
    let b = run(&enum_unit(TypeKind::UShort), opts).0.unwrap();
    assert_eq!(b.enums[0].kind, IntegerKind::ULongLong);
    let mut opts = options();
    opts.override_enum_ty = Some(IntegerKind::Bool);
    let b = run(&enum_unit(TypeKind::Invalid), opts).0.unwrap();
    assert_eq!(b.enums[0].kind, IntegerKind::Bool);
}

fn function_unit(linkage: Linkage) -> TranslationUnit {
    // int f(char c, ...);
    let mut unit = TranslationUnit::new();
    let int = unit.add_type(TypeKind::Int, 4, 4);
    let ch = unit.add_type(TypeKind::CharS, 1, 1);
    let fn_ty = unit.add_type(TypeKind::FunctionProto, 1, 4);
    unit.types[fn_ty].ret_type = int;
    unit.types[fn_ty].is_variadic = true;
    unit.types[fn_ty].call_conv = CallingConv::X86StdCall;
    let f = decl(&mut unit, ROOT_CURSOR, CursorKind::FunctionDecl, "f");
    unit.cursors[f].cur_type = fn_ty;
    unit.cursors[f].ret_type = int;
    unit.cursors[f].linkage = linkage;
    let c = decl(&mut unit, f, CursorKind::ParmDecl, "c");
    unit.cursors[c].cur_type = ch;
    unit.cursors[f].args.push(c);
    unit
}

#[test]
fn external_function_is_converted() {
    for linkage in [Linkage::External, Linkage::UniqueExternal] {
        let b = run(&function_unit(linkage), options()).0.unwrap();
        assert_eq!(b.globals, vec![Global::Function(0)]);
        assert_eq!(b.vars.len(), 1);
        assert_eq!(b.vars[0].name, "f");
        assert!(!b.vars[0].is_const);
        assert_eq!(
            b.vars[0].ty,
            Type::Function(
                Box::new(int_ty()),
                vec![("c".to_string(), char_ty())],
                true,
                Abi::Stdcall
            )
        );
    }
}

#[test]
fn internal_function_is_left_out() {
    for linkage in [Linkage::Internal, Linkage::NoLinkage, Linkage::Invalid] {
        let b = run(&function_unit(linkage), options()).0.unwrap();
        assert!(b.globals.is_empty());
        assert!(b.vars.is_empty());
    }
}

fn variable_unit(linkage: Linkage, is_const: bool) -> TranslationUnit {
    let mut unit = TranslationUnit::new();
    let dbl = unit.add_type(TypeKind::LongDouble, 16, 16);
    unit.types[dbl].is_const = is_const;
    let v = decl(&mut unit, ROOT_CURSOR, CursorKind::VarDecl, "v");
    unit.cursors[v].cur_type = dbl;
    unit.cursors[v].linkage = linkage;
    unit
}

#[test]
fn external_variable_is_converted() {
    for linkage in [Linkage::External, Linkage::UniqueExternal] {
        for is_const in [false, true] {
            let b = run(&variable_unit(linkage, is_const), options()).0.unwrap();
            assert_eq!(b.globals, vec![Global::Variable(0)]);
            assert_eq!(b.vars[0].name, "v");
            assert_eq!(b.vars[0].is_const, is_const);
            // long double is kept as a double.
            assert_eq!(b.vars[0].ty, Type::Float(FloatKind::Double, Layout::new(16, 16)));
        }
    }
}

#[test]
fn internal_variable_is_left_out() {
    for linkage in [Linkage::Internal, Linkage::NoLinkage, Linkage::Invalid] {
        let b = run(&variable_unit(linkage, false), options()).0.unwrap();
        assert!(b.globals.is_empty());
        assert!(b.vars.is_empty());
    }
}

fn bitfield_unit() -> (TranslationUnit, usize, usize) {
    // struct S { int flag : 3; };
    let mut unit = TranslationUnit::new();
    let int = unit.add_type(TypeKind::Int, 4, 4);
    let (s, _) = defined(&mut unit, ROOT_CURSOR, CursorKind::StructDecl, "S", 4, 4);
    let f = field(&mut unit, s, "flag", int);
    unit.cursors[f].bit_width = Some(3);
    (unit, s, f)
}

#[test]
fn bitfield_is_a_warning_by_default() {
    let (unit, s, f) = bitfield_unit();
    let (r, logger) = run(&unit, options());
    let b = r.unwrap();
    assert_eq!(warnings(&logger), vec![Diagnostic::Bitfield { field: f, parent: s }]);
    assert!(errors(&logger).is_empty());
    assert_eq!(
        b.comps[0].members,
        vec![CompMember::Field(FieldInfo::new("flag".to_string(), int_ty(), Some(3)))]
    );
}

#[test]
fn bitfield_is_an_error_on_request() {
    let (unit, s, f) = bitfield_unit();
    let mut opts = options();
    opts.fail_on_bitfield = true;
    let (r, logger) = run(&unit, opts);
    assert_eq!(r, Err(()));
    assert_eq!(errors(&logger), vec![Diagnostic::Bitfield { field: f, parent: s }]);
    assert!(warnings(&logger).is_empty());
}

fn unknown_type_unit() -> (TranslationUnit, usize) {
    let mut unit = TranslationUnit::new();
    let odd = unit.add_type(TypeKind::Other, 4, 4);
    let v = decl(&mut unit, ROOT_CURSOR, CursorKind::VarDecl, "v");
    unit.cursors[v].cur_type = odd;
    unit.cursors[v].linkage = Linkage::External;
    (unit, v)
}

#[test]
fn unknown_type_is_a_warning_and_void() {
    let (unit, v) = unknown_type_unit();
    let (r, logger) = run(&unit, options());
    let b = r.unwrap();
    assert_eq!(b.vars[0].ty, Type::Void);
    assert_eq!(
        warnings(&logger),
        vec![Diagnostic::UnsupportedType { kind: TypeKind::Other, cursor: v }]
    );
    assert!(errors(&logger).is_empty());
}

#[test]
fn unknown_type_is_an_error_on_request() {
    let (unit, v) = unknown_type_unit();
    let mut opts = options();
    opts.fail_on_unknown_type = true;
    let (r, logger) = run(&unit, opts);
    assert_eq!(r, Err(()));
    assert_eq!(
        errors(&logger),
        vec![Diagnostic::UnsupportedType { kind: TypeKind::Other, cursor: v }]
    );
}

#[test]
fn function_type_that_is_not_pointed_to_is_unknown() {
    let mut unit = TranslationUnit::new();
    let int = unit.add_type(TypeKind::Int, 4, 4);
    let fn_ty = unit.add_type(TypeKind::FunctionProto, 1, 4);
    unit.types[fn_ty].ret_type = int;
    let v = decl(&mut unit, ROOT_CURSOR, CursorKind::VarDecl, "v");
    unit.cursors[v].cur_type = fn_ty;
    unit.cursors[v].linkage = Linkage::External;
    let (r, logger) = run(&unit, options());
    assert_eq!(r.unwrap().vars[0].ty, Type::Void);
    assert_eq!(
        warnings(&logger),
        vec![Diagnostic::UnsupportedType { kind: TypeKind::FunctionProto, cursor: v }]
    );
}

#[test]
fn unit_diagnostics_are_reported_in_order() {
    let mut unit = TranslationUnit::new();
    let int = unit.add_type(TypeKind::Int, 4, 4);
    let v = decl(&mut unit, ROOT_CURSOR, CursorKind::VarDecl, "v");
    unit.cursors[v].cur_type = int;
    unit.cursors[v].linkage = Linkage::External;
    for severity in [Severity::Warning, Severity::Note, Severity::Ignored] {
        unit.diagnostics.push(UnitDiagnostic { message: "m".to_string(), severity });
    }
    let (r, logger) = run(&unit, options());
    assert_eq!(r.unwrap().globals, vec![Global::Variable(0)]);
    assert_eq!(
        warnings(&logger),
        vec![
            Diagnostic::Unit { index: 0 },
            Diagnostic::Unit { index: 1 },
            Diagnostic::Unit { index: 2 }
        ]
    );
    assert!(errors(&logger).is_empty());
}

#[test]
fn unit_error_fails_before_any_visit() {
    for severity in [Severity::Error, Severity::Fatal] {
        let (mut unit, _, _) = bitfield_unit();
        unit.diagnostics.push(UnitDiagnostic {
            message: "w".to_string(),
            severity: Severity::Warning,
        });
        unit.diagnostics.push(UnitDiagnostic { message: "e".to_string(), severity });
        let (r, logger) = run(&unit, options());
        assert_eq!(r, Err(()));
        assert_eq!(errors(&logger), vec![Diagnostic::Unit { index: 1 }]);
        // The bitfield was never met.
        assert_eq!(warnings(&logger), vec![Diagnostic::Unit { index: 0 }]);
    }
}

#[test]
fn earlier_reports_are_kept() {
    let (unit, s, f) = bitfield_unit();
    assert!(unit.well_formed());
    let mut logger = Logger::new();
    logger.error(Diagnostic::Unit { index: 40 });
    logger.warn(Diagnostic::Unit { index: 41 });
    // An error reported before the run does not count against it.
    let r = parse(options(), &unit, &mut logger);
    assert!(r.is_ok());
    assert_eq!(errors(&logger), vec![Diagnostic::Unit { index: 40 }]);
    assert_eq!(
        warnings(&logger),
        vec![Diagnostic::Unit { index: 41 }, Diagnostic::Bitfield { field: f, parent: s }]
    );
}

#[test]
fn typedef_of_undefined_struct_declares_it_after_the_alias() {
    // typedef struct S T;
    let mut unit = TranslationUnit::new();
    let record = unit.add_type(TypeKind::Record, 0, 0);
    let t = decl(&mut unit, ROOT_CURSOR, CursorKind::TypedefDecl, "T");
    unit.cursors[t].typedef_type = record;
    // The struct's cursor is no top-level cursor of its own here.
    let s = unit.add_cursor(t, CursorKind::StructDecl, "S".to_string());
    unit.types[record].declaration = s;
    unit.cursors[s].cur_type = record;

    let b = run(&unit, options()).0.unwrap();
    assert_eq!(b.globals, vec![Global::TypeAlias(0), Global::CompDeclaration(0)]);
    assert_eq!(b.aliases[0].ty, Type::Composite(0));
    assert_eq!(b.comps[0].name, "S");
    assert!(b.comps[0].members.is_empty());
}

#[test]
fn typedef_of_unexposed_type_uses_its_canonical_type() {
    // typedef unsigned long size; seen through an unexposed type.
    let mut unit = TranslationUnit::new();
    let ulong = unit.add_type(TypeKind::ULong, 8, 8);
    let sugar = unit.add_type(TypeKind::Unexposed, 8, 8);
    unit.types[sugar].canonical_type = ulong;
    let t = decl(&mut unit, ROOT_CURSOR, CursorKind::TypedefDecl, "size");
    unit.cursors[t].typedef_type = sugar;
    let b = run(&unit, options()).0.unwrap();
    assert_eq!(b.aliases[0].ty, Type::Integer(IntegerKind::ULong, Layout::new(8, 8)));
}

#[test]
fn top_level_field_and_other_kinds_are_passed_over() {
    let mut unit = TranslationUnit::new();
    let int = unit.add_type(TypeKind::Int, 4, 4);
    field(&mut unit, ROOT_CURSOR, "stray", int);
    decl(&mut unit, ROOT_CURSOR, CursorKind::Other, "macro");
    decl(&mut unit, ROOT_CURSOR, CursorKind::ParmDecl, "p");
    decl(&mut unit, ROOT_CURSOR, CursorKind::EnumConstantDecl, "K");
    let b = run(&unit, options()).0.unwrap();
    assert!(b.globals.is_empty());
    assert_eq!(INVALID_TYPE, 0);
}

#[test]
fn order_of_globals_is_order_of_visit() {
    let mut unit = TranslationUnit::new();
    let int = unit.add_type(TypeKind::Int, 4, 4);
    let v = decl(&mut unit, ROOT_CURSOR, CursorKind::VarDecl, "v");
    unit.cursors[v].cur_type = int;
    unit.cursors[v].linkage = Linkage::External;
    defined(&mut unit, ROOT_CURSOR, CursorKind::EnumDecl, "E", 4, 4);
    let t = decl(&mut unit, ROOT_CURSOR, CursorKind::TypedefDecl, "T");
    unit.cursors[t].typedef_type = int;
    defined(&mut unit, ROOT_CURSOR, CursorKind::UnionDecl, "U", 4, 4);
    let w = decl(&mut unit, ROOT_CURSOR, CursorKind::VarDecl, "w");
    unit.cursors[w].cur_type = int;
    unit.cursors[w].linkage = Linkage::External;
    let b = run(&unit, options()).0.unwrap();
    assert_eq!(
        b.globals,
        vec![
            Global::Variable(0),
            Global::Enum(0),
            Global::TypeAlias(0),
            Global::Composite(0),
            Global::Variable(1)
        ]
    );
    assert_eq!(b.comps[0].kind, CompKind::Union);
}

#[test]
fn reports_keep_their_order() {
    // struct S { int a : 1; <unknown> b; int c : 2; }; with unknown types as errors
    let mut unit = TranslationUnit::new();
    let int = unit.add_type(TypeKind::Int, 4, 4);
    let odd = unit.add_type(TypeKind::Other, 4, 4);
    unit.diagnostics.push(UnitDiagnostic { message: "w".to_string(), severity: Severity::Warning });
    let (s, _) = defined(&mut unit, ROOT_CURSOR, CursorKind::StructDecl, "S", 12, 4);
    let a = field(&mut unit, s, "a", int);
    unit.cursors[a].bit_width = Some(1);
    let b = field(&mut unit, s, "b", odd);
    let c = field(&mut unit, s, "c", int);
    unit.cursors[c].bit_width = Some(2);
    let mut opts = options();
    opts.fail_on_unknown_type = true;
    let (r, logger) = run(&unit, opts);
    assert_eq!(r, Err(()));
    assert_eq!(
        logger.reports,
        vec![
            Report { is_error: false, diagnostic: Diagnostic::Unit { index: 0 } },
            Report { is_error: false, diagnostic: Diagnostic::Bitfield { field: a, parent: s } },
            Report {
                is_error: true,
                diagnostic: Diagnostic::UnsupportedType { kind: TypeKind::Other, cursor: b }
            },
            Report { is_error: false, diagnostic: Diagnostic::Bitfield { field: c, parent: s } },
        ]
    );
}
