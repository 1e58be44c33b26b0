use decls_gen::fields::{Constant, DecType, ParentRelationType, ProgramPointType, VarKind};
use decls_gen::globals::Global;
use decls_gen::ppt::ProgramPoint;
use decls_gen::shape::{ConstValue, FieldShape, IntTy, TyShape, UintTy, VariantField};

fn i32_ty() -> TyShape {
    TyShape::Int(IntTy::I32)
}

fn point_ty() -> TyShape {
    TyShape::Struct {
        fields: vec![
            FieldShape { name: "x".to_string(), ty: i32_ty() },
            FieldShape { name: "y".to_string(), ty: i32_ty() },
        ],
        text: "Point".to_string(),
    }
}

fn names(p: &ProgramPoint) -> Vec<String> {
    let mut v = Vec::new();
    let mut i = 0;
    while i < p.variables.len() {
        v.push(p.variables.entry(i).0.clone());
        i += 1;
    }
    v
}

fn decl_text(p: &ProgramPoint, name: &str) -> String {
    p.get_var(name).expect(name).to_string()
}

#[test]
fn program_point_names_carry_their_kind() {
    let (n, p) = ProgramPoint::enter("src/main.rs::f", 4);
    assert_eq!(n, "src/main.rs::f:::ENTER");
    assert!(matches!(p.ppt_type, ProgramPointType::Enter));
    let (n, p) = ProgramPoint::exit("src/main.rs::f", 4);
    assert_eq!(n, "src/main.rs::f:::EXIT");
    assert!(matches!(p.ppt_type, ProgramPointType::Exit));
    let (n, p) = ProgramPoint::subexit("src/main.rs::f", 4, 12);
    assert_eq!(n, "src/main.rs::f:::EXIT12");
    assert!(matches!(p.ppt_type, ProgramPointType::ExitNN(12)));
    assert_eq!(p.variables.len(), 0);
    assert_eq!(p.parents.len(), 0);
}

#[test]
fn struct_formal_is_expanded_field_by_field() {
    let (_, p) = ProgramPoint::enter("f", 1);
    let p = p.with_fn_inputs(&["p".to_string()], &[point_ty()], &[false], None);
    assert_eq!(names(&p), vec!["p", "p.x", "p.y"]);
    assert_eq!(
        decl_text(&p, "p"),
        "  var-kind variable\n  dec-type Point\n  rep-type hashcode\n  comparability -1\n"
    );
    assert_eq!(
        decl_text(&p, "p.x"),
        "  var-kind field x\n  dec-type i32\n  rep-type int\n  enclosing-var p\n  comparability -1\n"
    );
}

#[test]
fn sequences_get_length_and_array_entries() {
    let vec_ty = TyShape::StdVec { elem: Box::new(TyShape::Uint(UintTy::U8)), text: "Vec<u8>".to_string() };
    let arr_ty = TyShape::Array { elem: Box::new(i32_ty()), len: Some(3), text: "[i32; 3]".to_string() };
    let slice_ty = TyShape::Ref {
        pointee: Box::new(TyShape::Slice { elem: Box::new(TyShape::Bool), text: "[bool]".to_string() }),
        text: "&[bool]".to_string(),
    };
    let (_, p) = ProgramPoint::enter("f", 1);
    let p = p.with_fn_inputs(
        &["v".to_string(), "a".to_string(), "s".to_string()],
        &[vec_ty, arr_ty, slice_ty],
        &[false, false, false],
        None,
    );
    assert_eq!(
        names(&p),
        vec!["a", "a.length", "a[..]", "s", "s.length", "s[..]", "v", "v.length", "v[..]"]
    );
    assert_eq!(
        decl_text(&p, "v.length"),
        "  var-kind field length\n  dec-type usize\n  rep-type int\n  enclosing-var v\n  comparability -1\n"
    );
    assert_eq!(
        decl_text(&p, "v[..]"),
        "  var-kind array\n  dec-type u8\n  rep-type int[]\n  enclosing-var v\n  array 1\n  comparability -1\n"
    );
    assert_eq!(
        decl_text(&p, "s"),
        "  var-kind variable\n  dec-type [bool]\n  rep-type hashcode\n  comparability -1\n"
    );
    assert_eq!(
        decl_text(&p, "a[..]"),
        "  var-kind array\n  dec-type i32\n  rep-type int[]\n  enclosing-var a\n  array 1\n  comparability -1\n"
    );
}

#[test]
fn sequences_inside_sequences_are_not_expanded() {
    let inner = TyShape::StdVec { elem: Box::new(i32_ty()), text: "Vec<i32>".to_string() };
    let outer = TyShape::StdVec { elem: Box::new(inner), text: "Vec<Vec<i32>>".to_string() };
    let (_, p) = ProgramPoint::enter("f", 1);
    let p = p.with_fn_inputs(&["m".to_string()], &[outer], &[false], None);
    assert_eq!(names(&p), vec!["m", "m.length", "m[..]"]);
}

#[test]
fn boxes_tuples_and_enums_are_followed() {
    let boxed = TyShape::StdBox { pointee: Box::new(i32_ty()), text: "Box<i32>".to_string() };
    let pair = TyShape::Tuple { elems: vec![i32_ty(), TyShape::Bool], text: "(i32, bool)".to_string() };
    let shape = TyShape::Enum {
        fields: vec![VariantField { variant: "A".to_string(), field: "v".to_string(), ty: TyShape::Char }],
        text: "E".to_string(),
    };
    let (_, p) = ProgramPoint::enter("f", 1);
    let p = p.with_fn_inputs(
        &["b".to_string(), "t".to_string(), "e".to_string()],
        &[boxed, pair, shape],
        &[false, false, false],
        None,
    );
    assert_eq!(names(&p), vec!["*b", "b", "e", "e::A.v", "t", "t.0", "t.1"]);
    assert_eq!(
        decl_text(&p, "*b"),
        "  var-kind variable\n  dec-type i32\n  rep-type int\n  enclosing-var b\n  comparability -1\n"
    );
    assert_eq!(
        decl_text(&p, "e::A.v"),
        "  var-kind field A.v\n  dec-type char\n  rep-type java.lang.String\n  enclosing-var e\n  comparability -1\n"
    );
    assert_eq!(
        decl_text(&p, "t.1"),
        "  var-kind field 1\n  dec-type bool\n  rep-type boolean\n  enclosing-var t\n  comparability -1\n"
    );
}

#[test]
fn references_are_peeled_and_unknown_types_are_leaves() {
    let r = TyShape::Ref { pointee: Box::new(i32_ty()), text: "&i32".to_string() };
    let other = TyShape::Other { text: "fn()".to_string() };
    let (_, p) = ProgramPoint::enter("f", 1);
    let p = p.with_fn_inputs(&["r".to_string(), "g".to_string()], &[r, other], &[false, false], None);
    assert_eq!(names(&p), vec!["g", "r"]);
    assert!(matches!(p.get_var("r").unwrap().get_dec_type(), DecType::I32));
    assert!(p.get_var("missing").is_none());
}

#[test]
fn depth_limits_expansion() {
    let (_, p) = ProgramPoint::enter("f", 1);
    let p = p.with_fn_inputs(&["p".to_string()], &[point_ty()], &[false], Some(1));
    assert_eq!(names(&p), vec!["p"]);
    let (_, q) = ProgramPoint::enter("f", 1);
    let q = q.with_fn_inputs(&["p".to_string()], &[point_ty()], &[false], Some(0));
    assert_eq!(q.variables.len(), 0);
    let (_, r) = ProgramPoint::enter("f", 1);
    let r = r.with_fn_inputs(&["p".to_string()], &[point_ty()], &[false], Some(2));
    assert_eq!(names(&r), vec!["p", "p.x", "p.y"]);
}

#[test]
fn uninit_formals_tag_every_expanded_declaration() {
    let vec_ty = TyShape::StdVec { elem: Box::new(point_ty()), text: "Vec<Point>".to_string() };
    let (_, p) = ProgramPoint::exit("f", 1);
    let p = p.with_fn_inputs(&["v".to_string()], &[vec_ty], &[true], None);
    assert_eq!(names(&p), vec!["v", "v.length", "v[..]", "v[..].x", "v[..].y"]);
    for n in names(&p) {
        assert!(p.get_var(&n).unwrap().is_uninit(), "{n}");
    }
    assert_eq!(
        decl_text(&p, "v[..].x"),
        "  var-kind field x\n  dec-type i32\n  rep-type int[]\n  enclosing-var v[..]\n  array 1\n  constant UNINITIALIZED\n  comparability -1\n"
    );
}

#[test]
fn return_value_is_declared_unless_unit() {
    let (_, p) = ProgramPoint::exit("f", 1);
    let unit = TyShape::Tuple { elems: vec![], text: "()".to_string() };
    let p = p.with_fn_return(&unit, None);
    assert_eq!(p.variables.len(), 0);
    let p = p.with_fn_return(&TyShape::Uint(UintTy::Usize), None);
    assert_eq!(names(&p), vec!["return"]);
    assert!(matches!(p.get_var("return").unwrap().get_dec_type(), DecType::Usize));
    assert_eq!(
        decl_text(&p, "return"),
        "  var-kind return\n  dec-type usize\n  rep-type int\n  comparability -1\n"
    );
}

#[test]
fn parents_take_consecutive_relation_ids() {
    let mut id: u64 = 5;
    let (_, p) = ProgramPoint::exit("f", 1);
    let p = p.with_parent("f:::ENTER".to_string(), ParentRelationType::EnterExit, &mut id);
    assert_eq!(id, 6);
    let (_, q) = ProgramPoint::subexit("f", 1, 3);
    let q = q.with_parent("f:::EXIT".to_string(), ParentRelationType::ExitExitNN, &mut id);
    assert_eq!(id, 7);
    let (name, rel) = p.parents.entry(0);
    assert_eq!(name, "f:::ENTER");
    assert!(matches!(rel, (ParentRelationType::EnterExit, 5)));
    assert!(matches!(q.parents.entry(0).1, (ParentRelationType::ExitExitNN, 6)));
}

#[test]
fn variables_can_be_changed_in_place() {
    let (_, mut p) = ProgramPoint::enter("f", 1);
    p = p.with_fn_inputs(&["x".to_string()], &[i32_ty()], &[false], None);
    p.get_var_mut("x").unwrap().set_comparability(Some(2));
    assert_eq!(*p.get_var("x").unwrap().get_comparability(), Some(2));
    assert!(p.get_var_mut("y").is_none());
}

fn scalar(bits: u128, text: &str) -> Option<ConstValue> {
    Some(ConstValue::Scalar { bits: Some(bits), text: text.to_string() })
}

#[test]
fn visible_globals_are_declared_with_their_values() {
    let globals = vec![
        Global::new("src/main.rs", "LIMIT", 10, TyShape::Uint(UintTy::U32), scalar(10, "10_u32"), vec![1]),
        Global::new("src/main.rs", "ON", 11, TyShape::Bool, scalar(1, "0x01"), vec![1]),
        Global::new("src/main.rs", "LETTER", 12, TyShape::Char, scalar(97, "0x61"), vec![1]),
        Global::new(
            "src/main.rs",
            "GREETING",
            13,
            TyShape::Ref { pointee: Box::new(TyShape::Str), text: "&str".to_string() },
            Some(ConstValue::Ref(Some(Box::new(ConstValue::Str(Some("say \"hi\"".to_string())))))),
            vec![1],
        ),
        Global::new(
            "src/main.rs",
            "PAIR",
            14,
            TyShape::Array { elem: Box::new(TyShape::Uint(UintTy::U8)), len: Some(2), text: "[u8; 2]".to_string() },
            Some(ConstValue::Aggregate(vec![scalar(1, "1_u8"), scalar(2, "2_u8")])),
            vec![1],
        ),
        Global::new("src/other.rs", "HIDDEN", 15, TyShape::Bool, scalar(0, "0x00"), vec![2]),
        Global::new("src/main.rs", "COUNTER", 16, TyShape::Uint(UintTy::U64), None, vec![1]),
    ];
    let (_, mut p) = ProgramPoint::enter("f", 1);
    p.add_globals(&globals, None);
    assert_eq!(
        names(&p),
        vec![
            "src/main.rs::COUNTER",
            "src/main.rs::GREETING",
            "src/main.rs::LETTER",
            "src/main.rs::LIMIT",
            "src/main.rs::ON",
            "src/main.rs::PAIR",
            "src/main.rs::PAIR.length",
            "src/main.rs::PAIR[0]",
            "src/main.rs::PAIR[1]",
        ]
    );
    let c = |n: &str| p.get_var(n).unwrap().constant().to_string();
    assert_eq!(c("src/main.rs::LIMIT"), "10_u32");
    assert_eq!(c("src/main.rs::ON"), "true");
    assert_eq!(c("src/main.rs::LETTER"), "'a'");
    assert_eq!(c("src/main.rs::GREETING"), "\"say \\\"hi\\\"\"");
    assert_eq!(c("src/main.rs::PAIR"), "TEMPORARY_PTR_PLACEHOLDER");
    assert_eq!(c("src/main.rs::PAIR[1]"), "2_u8");
    assert_eq!(c("src/main.rs::PAIR.length"), "2");
    assert!(!p.get_var("src/main.rs::COUNTER").unwrap().is_constant());
    assert!(matches!(p.get_var("src/main.rs::GREETING").unwrap().constant(), Constant::String(_)));
    assert!(matches!(p.get_var("src/main.rs::ON").unwrap().constant(), Constant::Boolean(_)));
    assert_eq!(
        decl_text(&p, "src/main.rs::PAIR[0]"),
        "  var-kind field [0]\n  dec-type u8\n  rep-type int\n  enclosing-var src/main.rs::PAIR\n  constant 1_u8\n  comparability -1\n"
    );
}

#[test]
fn constant_slices_are_expanded_element_by_element() {
    let slice_ref = TyShape::Ref {
        pointee: Box::new(TyShape::Slice { elem: Box::new(TyShape::Int(IntTy::I8)), text: "[i8]".to_string() }),
        text: "&[i8]".to_string(),
    };
    let value = ConstValue::Ref(Some(Box::new(ConstValue::Slice(vec![scalar(255, "-1_i8"), None]))));
    let globals = vec![Global::new("m.rs", "S", 3, slice_ref, Some(value), vec![9])];
    let (_, mut p) = ProgramPoint::exit("g", 9);
    p.add_globals(&globals, None);
    assert_eq!(names(&p), vec!["m.rs::S", "m.rs::S.length", "m.rs::S[0]", "m.rs::S[1]"]);
    assert_eq!(p.get_var("m.rs::S[0]").unwrap().constant().to_string(), "-1_i8");
    assert!(!p.get_var("m.rs::S[1]").unwrap().is_constant());
    assert_eq!(p.get_var("m.rs::S.length").unwrap().constant().to_string(), "2");
    assert!(matches!(p.get_var("m.rs::S[1]").unwrap().constant(), Constant::Absent));
}

#[test]
fn const_values_project_and_read() {
    let v = ConstValue::Aggregate(vec![scalar(0, "false"), None]);
    assert!(v.project_field(0).is_some());
    assert!(v.project_field(1).is_none());
    assert!(v.project_field(2).is_none());
    assert_eq!(v.slice_len(), None);
    let s = ConstValue::Slice(vec![scalar(7, "7")]);
    assert_eq!(s.slice_len(), Some(1));
    assert!(s.project_slice_elem(0).is_some());
    assert!(s.project_slice_elem(1).is_none());
    let r = ConstValue::Ref(Some(Box::new(ConstValue::Str(Some("a\\b".to_string())))));
    let t = r.deref_ptr().unwrap();
    assert_eq!(t.read_str(), Some("\"a\\\\b\"".to_string()));
    assert!(r.read_str().is_none());
    let b = ConstValue::Scalar { bits: Some(0), text: "0x00".to_string() };
    assert_eq!(b.read_leaf(&TyShape::Bool), Some("false".to_string()));
    assert_eq!(b.read_leaf(&TyShape::Uint(UintTy::U8)), Some("0x00".to_string()));
    let ptr = ConstValue::Scalar { bits: None, text: "alloc1".to_string() };
    assert_eq!(ptr.read_leaf(&TyShape::Char), Some("alloc1".to_string()));
    let bad_char = ConstValue::Scalar { bits: Some(0xd800), text: "0xd800".to_string() };
    assert_eq!(bad_char.read_leaf(&TyShape::Char), Some("0xd800".to_string()));
    assert!(ConstValue::Ref(None).deref_ptr().is_none());
}

#[test]
fn globals_report_their_definition() {
    let g = Global::new("a.rs", "X", 42, TyShape::Bool, None, vec![]);
    assert_eq!(g.name, "a.rs::X");
    assert_eq!(g.did(), 42);
    assert!(g.const_source().is_none());
}

#[test]
fn dec_type_of_shapes() {
    assert!(matches!(DecType::from_ty(&TyShape::StdString), DecType::String));
    assert!(matches!(DecType::from_ty(&TyShape::Str), DecType::Str));
    assert!(matches!(DecType::from_ty(&point_ty()), DecType::Compound(ref s) if s == "Point"));
    assert!(matches!(DecType::from_ty(&TyShape::Int(IntTy::I128)), DecType::I128));
    let _ = VarKind::Variable;
}

#[test]
fn stacked_references_declare_the_referred_type() {
    let rr = TyShape::Ref {
        pointee: Box::new(TyShape::Ref { pointee: Box::new(point_ty()), text: "&Point".to_string() }),
        text: "&mut &Point".to_string(),
    };
    let (_, p) = ProgramPoint::enter("f", 1);
    let p = p.with_fn_inputs(&["p".to_string()], &[rr], &[false], None);
    let (_, q) = ProgramPoint::enter("f", 1);
    let q = q.with_fn_inputs(&["p".to_string()], &[point_ty()], &[false], None);
    assert_eq!(names(&p), names(&q));
    for n in names(&p) {
        assert_eq!(decl_text(&p, &n), decl_text(&q, &n));
    }
    assert!(matches!(p.get_var("p").unwrap().get_dec_type(), DecType::Compound(ref s) if s == "Point"));
}
