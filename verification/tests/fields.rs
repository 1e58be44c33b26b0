use decls_gen::fields::{
    Constant, DecType, ParentRelationType, ProgramPointType, VarKind, VariableDecl,
};
use decls_gen::vars::VarName;

#[test]
fn kinds_and_types_are_written_as_daikon_expects() {
    assert_eq!(ProgramPointType::Enter.to_string(), "enter");
    assert_eq!(ProgramPointType::Exit.to_string(), "exit");
    assert_eq!(ProgramPointType::ExitNN(7).to_string(), "subexit");
    assert_eq!(VarKind::Variable.to_string(), "variable");
    assert_eq!(VarKind::Field("x".to_string()).to_string(), "field x");
    assert_eq!(VarKind::Array.to_string(), "array");
    assert_eq!(VarKind::Return.to_string(), "return");
    assert_eq!(VarKind::Function("len".to_string()).to_string(), "function len");
    assert_eq!(ParentRelationType::Parent.to_string(), "parent");
    assert_eq!(ParentRelationType::EnterExit.to_string(), "enter-exit");
    assert_eq!(ParentRelationType::ExitExitNN.to_string(), "exit-exitnn");
}

#[test]
fn dec_type_names_read_back() {
    for name in [
        "u8", "u16", "u32", "u64", "u128", "usize", "i8", "i16", "i32", "i64", "i128", "isize",
        "f16", "f32", "f64", "f128", "bool", "char", "str",
    ] {
        let d = DecType::from_name(name);
        assert!(!matches!(d, DecType::Compound(_)), "{name}");
        assert_eq!(d.to_string(), name);
    }
    assert!(matches!(DecType::from_name("Point"), DecType::Compound(ref s) if s == "Point"));
    assert_eq!(DecType::from_name("&[i32]").to_string(), "&[i32]");
    // String is written with its path, which reads back as a compound type.
    assert_eq!(DecType::String.to_string(), "std::string::String");
    assert!(matches!(
        DecType::from_name("std::string::String"),
        DecType::Compound(_)
    ));
}

#[test]
fn rep_types_follow_dec_types() {
    assert_eq!(DecType::I32.to_rep_type(None), "int");
    assert_eq!(DecType::Usize.to_rep_type(Some(1)), "int[]");
    assert_eq!(DecType::U8.to_rep_type(Some(0)), "int");
    assert_eq!(DecType::F64.to_rep_type(None), "double");
    assert_eq!(DecType::Bool.to_rep_type(Some(2)), "boolean[]");
    assert_eq!(DecType::Char.to_rep_type(None), "java.lang.String");
    assert_eq!(DecType::Str.to_rep_type(None), "java.lang.String");
    assert_eq!(DecType::String.to_rep_type(None), "java.lang.String");
    assert_eq!(DecType::Compound("Point".to_string()).to_rep_type(None), "hashcode");
    assert_eq!(DecType::Compound("Point".to_string()).to_rep_type(Some(1)), "hashcode[]");
}

#[test]
fn constants_read_from_text() {
    assert!(matches!(Constant::from_text("UNINITIALIZED"), Constant::Uninit));
    assert!(matches!(Constant::from_text("true"), Constant::Boolean(ref s) if s == "true"));
    assert!(matches!(Constant::from_text("false"), Constant::Boolean(ref s) if s == "false"));
    assert!(matches!(Constant::from_text("\"hi\""), Constant::String(ref s) if s == "\"hi\""));
    assert!(matches!(Constant::from_text("'c'"), Constant::String(ref s) if s == "'c'"));
    assert!(matches!(Constant::from_text("42"), Constant::Numeric(ref s) if s == "42"));
    assert!(matches!(Constant::from_text(""), Constant::Numeric(ref s) if s.is_empty()));
    assert_eq!(Constant::Uninit.to_string(), "UNINITIALIZED");
    assert_eq!(Constant::Numeric("-3".to_string()).to_string(), "-3");
    assert_eq!(Constant::Absent.to_string(), "");
    assert!(!Constant::Absent.is_some());
    assert!(Constant::Uninit.is_some());
}

#[test]
fn variable_decl_is_written_field_by_field() {
    let d = VariableDecl::new(VarKind::Field("x".to_string()), DecType::I32)
        .with_enclosing_var(Some(VarName::new("p".to_string())))
        .with_array(Some(1))
        .with_constant(Constant::Numeric("5".to_string()))
        .with_comparability(Some(3));
    assert_eq!(
        d.to_string(),
        "  var-kind field x\n  dec-type i32\n  rep-type int[]\n  enclosing-var p\n  array 1\n  constant 5\n  comparability 3\n"
    );
    assert!(d.is_constant());
    assert!(!d.is_uninit());
    assert_eq!(*d.get_comparability(), Some(3));
    assert!(matches!(d.get_dec_type(), DecType::I32));
    assert!(matches!(d.constant(), Constant::Numeric(ref s) if s == "5"));
}

#[test]
fn bare_variable_decl_has_no_optional_lines() {
    let d = VariableDecl::new(VarKind::Variable, DecType::Bool);
    assert_eq!(
        d.to_string(),
        "  var-kind variable\n  dec-type bool\n  rep-type boolean\n  comparability -1\n"
    );
    assert!(!d.is_constant());
}

#[test]
fn setters_replace_constant_and_comparability() {
    let mut d = VariableDecl::new(VarKind::Return, DecType::U64);
    d.set_constant(Constant::Uninit);
    d.set_comparability(Some(0));
    assert!(d.is_uninit());
    assert_eq!(
        d.to_string(),
        "  var-kind return\n  dec-type u64\n  rep-type int\n  constant UNINITIALIZED\n  comparability 0\n"
    );
    d.set_comparability(None);
    assert_eq!(*d.get_comparability(), None);
}

#[test]
fn constants_read_back_from_their_text() {
    for c in [
        Constant::Uninit,
        Constant::Boolean("true".to_string()),
        Constant::Boolean("false".to_string()),
        Constant::String("\"a b\"".to_string()),
        Constant::String("'x'".to_string()),
        Constant::Numeric("-12".to_string()),
        Constant::Numeric("1.5".to_string()),
    ] {
        let back = Constant::from_text(&c.to_string());
        assert_eq!(back.to_string(), c.to_string());
        assert_eq!(std::mem::discriminant(&back), std::mem::discriminant(&c));
    }
}
