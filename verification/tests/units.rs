use bindgen_parser::ast::{
    CallingConv, CursorKind, DeclClass, Linkage, TranslationUnit, TypeKind, INVALID_TYPE,
    NULL_CURSOR, ROOT_CURSOR,
};

fn sample() -> (TranslationUnit, usize, usize) {
    let mut unit = TranslationUnit::new();
    let int = unit.add_type(TypeKind::Int, 4, 4);
    let s = unit.add_cursor(ROOT_CURSOR, CursorKind::StructDecl, "S".to_string());
    let f = unit.add_cursor(s, CursorKind::FieldDecl, "f".to_string());
    unit.cursors[f].cur_type = int;
    (unit, s, f)
}

#[test]
fn new_unit_is_well_formed() {
    let unit = TranslationUnit::new();
    assert!(unit.well_formed());
    assert_eq!(unit.root, ROOT_CURSOR);
    assert_eq!(unit.cursors.len(), 2);
    assert_eq!(unit.types.len(), 1);
    assert_eq!(unit.cursors[NULL_CURSOR].kind, CursorKind::NoDeclFound);
    assert_eq!(unit.types[INVALID_TYPE].kind, TypeKind::Invalid);
    assert!(unit.diagnostics.is_empty());
}

#[test]
fn added_cursors_and_types_keep_the_unit_well_formed() {
    let (unit, s, f) = sample();
    assert!(unit.well_formed());
    assert_eq!(unit.cursors[ROOT_CURSOR].children, vec![s]);
    assert_eq!(unit.cursors[s].children, vec![f]);
    assert_eq!(unit.cursors[s].canonical, s);
    assert_eq!(unit.cursors[s].definition, NULL_CURSOR);
    assert_eq!(unit.cursors[s].spelling, "S");
    assert_eq!(unit.cursors[s].file, None);
    assert_eq!(unit.cursors[f].kind, CursorKind::FieldDecl);
    assert_eq!(unit.types[1].kind, TypeKind::Int);
    assert_eq!(unit.types[1].size, 4);
    assert_eq!(unit.types[1].declaration, NULL_CURSOR);
    assert_eq!(unit.types[1].call_conv, CallingConv::Default);
}

#[test]
fn reference_outside_the_tables_is_refused() {
    let (unit, s, f) = sample();
    let cursors = unit.cursors.len();
    let types = unit.types.len();

    let (mut u, _, _) = sample();
    u.root = cursors;
    assert!(!u.well_formed());
    let (mut u, _, _) = sample();
    u.cursors[s].canonical = cursors;
    assert!(!u.well_formed());
    let (mut u, _, _) = sample();
    u.cursors[s].definition = cursors + 5;
    assert!(!u.well_formed());
    let (mut u, _, _) = sample();
    u.cursors[f].cur_type = types;
    assert!(!u.well_formed());
    let (mut u, _, _) = sample();
    u.cursors[f].ret_type = types;
    assert!(!u.well_formed());
    let (mut u, _, _) = sample();
    u.cursors[f].enum_type = types;
    assert!(!u.well_formed());
    let (mut u, _, _) = sample();
    u.cursors[f].typedef_type = types;
    assert!(!u.well_formed());
    let (mut u, _, _) = sample();
    u.cursors[s].args.push(cursors);
    assert!(!u.well_formed());
    let (mut u, _, _) = sample();
    u.cursors[s].children.push(cursors);
    assert!(!u.well_formed());
    let (mut u, _, _) = sample();
    u.types[1].pointee_type = types;
    assert!(!u.well_formed());
    let (mut u, _, _) = sample();
    u.types[1].elem_type = types;
    assert!(!u.well_formed());
    let (mut u, _, _) = sample();
    u.types[1].ret_type = types;
    assert!(!u.well_formed());
    let (mut u, _, _) = sample();
    u.types[1].canonical_type = types;
    assert!(!u.well_formed());
    let (mut u, _, _) = sample();
    u.types[1].declaration = cursors;
    assert!(!u.well_formed());
}

#[test]
fn child_before_its_parent_is_refused() {
    let (mut unit, s, f) = sample();
    unit.cursors[f].children.push(s);
    assert!(!unit.well_formed());
    let (mut unit, s, _) = sample();
    unit.cursors[s].children.push(s);
    assert!(!unit.well_formed());
    // A parameter need not come after its function.
    let (mut unit, s, f) = sample();
    unit.cursors[f].args.push(s);
    assert!(unit.well_formed());
}

#[test]
fn canonical_cursor_of_another_class_is_refused() {
    let (mut unit, s, f) = sample();
    unit.cursors[s].canonical = f;
    assert!(!unit.well_formed());
    let (mut unit, s, _) = sample();
    let u = unit.add_cursor(ROOT_CURSOR, CursorKind::UnionDecl, "U".to_string());
    unit.cursors[u].canonical = s;
    assert!(unit.well_formed());
    let e = unit.add_cursor(ROOT_CURSOR, CursorKind::EnumDecl, "E".to_string());
    unit.cursors[e].canonical = s;
    assert!(!unit.well_formed());
    // A cursor that declares nothing may have any canonical cursor.
    let (mut unit, s, f) = sample();
    unit.cursors[f].canonical = s;
    assert!(unit.well_formed());
}

#[test]
fn type_built_from_a_later_type_is_refused() {
    let mut unit = TranslationUnit::new();
    let p = unit.add_type(TypeKind::Pointer, 8, 8);
    assert!(unit.well_formed());
    unit.types[p].pointee_type = p;
    assert!(!unit.well_formed());
    let int = unit.add_type(TypeKind::Int, 4, 4);
    unit.types[p].pointee_type = int;
    assert!(!unit.well_formed());
    unit.types[p].pointee_type = INVALID_TYPE;
    assert!(unit.well_formed());
    for kind in [
        TypeKind::ConstantArray,
        TypeKind::IncompleteArray,
        TypeKind::VariableArray,
        TypeKind::DependentSizedArray,
    ] {
        let a = unit.add_type(kind, 8, 8);
        unit.types[a].elem_type = int;
        assert!(unit.well_formed());
        unit.types[a].elem_type = a;
        assert!(!unit.well_formed());
        unit.types[a].elem_type = int;
    }
    // What a type is not built from may come later.
    unit.types[int].pointee_type = p;
    unit.types[int].elem_type = p;
    unit.types[int].ret_type = p;
    assert!(unit.well_formed());
    for kind in [TypeKind::FunctionProto, TypeKind::FunctionNoProto, TypeKind::Unexposed] {
        let f = unit.add_type(kind, 1, 1);
        unit.types[f].ret_type = int;
        assert!(unit.well_formed());
        unit.types[f].ret_type = f;
        assert!(!unit.well_formed());
        unit.types[f].ret_type = int;
    }
}

#[test]
fn typedef_of_a_later_function_type_is_refused() {
    let mut unit = TranslationUnit::new();
    let t = unit.add_cursor(ROOT_CURSOR, CursorKind::TypedefDecl, "T".to_string());
    let alias = unit.add_type(TypeKind::Typedef, 1, 1);
    unit.types[alias].declaration = t;
    let int = unit.add_type(TypeKind::Int, 4, 4);
    let f = unit.add_type(TypeKind::FunctionProto, 1, 1);
    unit.types[f].ret_type = int;
    unit.cursors[t].typedef_type = int;
    assert!(unit.well_formed());
    unit.cursors[t].typedef_type = f;
    assert!(!unit.well_formed());
}

#[test]
fn calling_convention_without_tag_is_refused_where_it_is_read() {
    let mut unit = TranslationUnit::new();
    let int = unit.add_type(TypeKind::Int, 4, 4);
    let fn_ty = unit.add_type(TypeKind::FunctionProto, 1, 1);
    unit.types[fn_ty].ret_type = int;
    unit.types[fn_ty].call_conv = CallingConv::Other;
    assert!(!unit.well_formed());
    // Without a result type the convention is never read.
    unit.types[fn_ty].ret_type = INVALID_TYPE;
    assert!(unit.well_formed());
    let f = unit.add_cursor(ROOT_CURSOR, CursorKind::FunctionDecl, "f".to_string());
    unit.cursors[f].cur_type = fn_ty;
    assert!(unit.well_formed());
    unit.cursors[f].linkage = Linkage::External;
    assert!(!unit.well_formed());
    unit.cursors[f].linkage = Linkage::UniqueExternal;
    assert!(!unit.well_formed());
    unit.cursors[f].linkage = Linkage::Internal;
    assert!(unit.well_formed());
    unit.types[int].call_conv = CallingConv::Other;
    assert!(unit.well_formed());
}

#[test]
fn class_of_each_kind_of_cursor() {
    assert_eq!(CursorKind::StructDecl.class(), DeclClass::Composite);
    assert_eq!(CursorKind::UnionDecl.class(), DeclClass::Composite);
    assert_eq!(CursorKind::EnumDecl.class(), DeclClass::Enum);
    assert_eq!(CursorKind::TypedefDecl.class(), DeclClass::Alias);
    assert_eq!(CursorKind::VarDecl.class(), DeclClass::Variable);
    assert_eq!(CursorKind::FunctionDecl.class(), DeclClass::Function);
    for kind in [
        CursorKind::FieldDecl,
        CursorKind::EnumConstantDecl,
        CursorKind::ParmDecl,
        CursorKind::NoDeclFound,
        CursorKind::InvalidFile,
        CursorKind::Other,
    ] {
        assert_eq!(kind.class(), DeclClass::Opaque);
    }
    assert!(TypeKind::Unexposed.may_be_function());
    assert!(TypeKind::FunctionProto.may_be_function());
    assert!(!TypeKind::Pointer.may_be_function());
    assert!(TypeKind::ConstantArray.is_array());
    assert!(TypeKind::IncompleteArray.is_array());
    assert!(!TypeKind::Record.is_array());
}
