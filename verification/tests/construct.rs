use decls_gen::callbacks::{ConstructDecls, FnInfo};
use decls_gen::fields::{ParentRelationType, ProgramPointType};
use decls_gen::globals::Global;
use decls_gen::shape::{ConstValue, FieldShape, IntTy, TyShape, UintTy};

fn point_ty() -> TyShape {
    TyShape::Struct {
        fields: vec![
            FieldShape { name: "x".to_string(), ty: TyShape::Int(IntTy::I32) },
            FieldShape { name: "y".to_string(), ty: TyShape::Int(IntTy::I32) },
        ],
        text: "Point".to_string(),
    }
}

fn info(def_path: &str, ldid: u32, return_lines: Vec<u64>) -> FnInfo {
    FnInfo {
        ldid,
        file: "src/main.rs".to_string(),
        def_path: def_path.to_string(),
        param_names: vec!["p".to_string(), "r".to_string(), "n".to_string()],
        input_tys: vec![
            point_ty(),
            TyShape::Ref { pointee: Box::new(point_ty()), text: "&Point".to_string() },
            TyShape::Uint(UintTy::U32),
        ],
        is_copy: vec![false, true, true],
        return_ty: TyShape::Int(IntTy::I32),
        return_lines,
    }
}

#[test]
fn a_function_gets_enter_exit_and_one_subexit_per_return_site() {
    let mut c = ConstructDecls::default();
    c.process_fn(&info("f", 1, vec![10, 12]));
    let d = c.into_decls_file();
    let names: Vec<String> = d.iter().into_iter().map(|(n, _)| n.clone()).collect();
    assert_eq!(
        names,
        vec![
            "src/main.rs::f:::ENTER",
            "src/main.rs::f:::EXIT",
            "src/main.rs::f:::EXIT10",
            "src/main.rs::f:::EXIT12",
        ]
    );
    let enter = d.get_program_point("src/main.rs::f:::ENTER").unwrap();
    assert_eq!(enter.parents.len(), 0);
    assert!(enter.get_var("return").is_none());
    assert!(!enter.get_var("p.x").unwrap().is_constant());
    let exit = d.get_program_point("src/main.rs::f:::EXIT").unwrap();
    assert!(matches!(exit.parents.entry(0), (n, (ParentRelationType::EnterExit, 0)) if n == "src/main.rs::f:::ENTER"));
    assert!(exit.get_var("return").is_some());
    // the owned, non-Copy formal is gone at exit; references and Copy values are not
    assert!(exit.get_var("p").unwrap().is_uninit());
    assert!(exit.get_var("p.y").unwrap().is_uninit());
    assert!(!exit.get_var("r").unwrap().is_constant());
    assert!(!exit.get_var("r.x").unwrap().is_constant());
    assert!(!exit.get_var("n").unwrap().is_constant());
    let s10 = d.get_program_point("src/main.rs::f:::EXIT10").unwrap();
    assert!(matches!(s10.ppt_type, ProgramPointType::ExitNN(10)));
    assert!(matches!(s10.parents.entry(0), (n, (ParentRelationType::ExitExitNN, 1)) if n == "src/main.rs::f:::EXIT"));
    let s12 = d.get_program_point("src/main.rs::f:::EXIT12").unwrap();
    assert!(matches!(s12.parents.entry(0).1, (ParentRelationType::ExitExitNN, 2)));
    assert!(s12.get_var("p").unwrap().is_uninit());
}

#[test]
fn return_sites_on_one_line_get_the_next_free_numbers() {
    let mut c = ConstructDecls::default();
    c.process_fn(&info("f", 1, vec![5, 5, 6, 5]));
    let d = c.into_decls_file();
    let names: Vec<String> = d.iter().into_iter().map(|(n, _)| n.clone()).collect();
    assert_eq!(
        names,
        vec![
            "src/main.rs::f:::ENTER",
            "src/main.rs::f:::EXIT",
            "src/main.rs::f:::EXIT5",
            "src/main.rs::f:::EXIT6",
            "src/main.rs::f:::EXIT7",
            "src/main.rs::f:::EXIT8",
        ]
    );
    // EXIT5 from the first site (id 1), EXIT6 from the second (id 2),
    // EXIT7 from the third, at line 6 (id 3), EXIT8 from the last (id 4)
    let id = |n: &str| d.get_program_point(n).unwrap().parents.entry(0).1 .1;
    assert_eq!(id("src/main.rs::f:::EXIT5"), 1);
    assert_eq!(id("src/main.rs::f:::EXIT6"), 2);
    assert_eq!(id("src/main.rs::f:::EXIT7"), 3);
    assert_eq!(id("src/main.rs::f:::EXIT8"), 4);
}

#[test]
fn relation_ids_run_on_across_functions() {
    let mut c = ConstructDecls::default();
    c.process_fn(&info("f", 1, vec![3]));
    c.process_fn(&info("g", 2, vec![]));
    let d = c.into_decls_file();
    let g_exit = d.get_program_point("src/main.rs::g:::EXIT").unwrap();
    assert!(matches!(g_exit.parents.entry(0).1, (ParentRelationType::EnterExit, 2)));
    assert_eq!(d.ppts_for("src/main.rs::g").len(), 2);
}

#[test]
fn depth_zero_declares_only_program_points() {
    let mut c = ConstructDecls::default().with_max_recursive_depth(Some(0));
    c.process_fn(&info("f", 1, vec![4]));
    c.add_globals(&[Global::new(
        "src/main.rs",
        "K",
        9,
        TyShape::Bool,
        Some(ConstValue::Scalar { bits: Some(1), text: "0x01".to_string() }),
        vec![1],
    )]);
    let d = c.into_decls_file();
    assert_eq!(d.len(), 3);
    for (_, p) in d.iter() {
        assert_eq!(p.variables.len(), 0);
    }
}

#[test]
fn depth_one_declares_the_formals_only() {
    let mut c = ConstructDecls::default().with_max_recursive_depth(Some(1));
    c.process_fn(&info("f", 1, vec![]));
    let d = c.into_decls_file();
    let enter = d.get_program_point("src/main.rs::f:::ENTER").unwrap();
    assert_eq!(enter.variables.len(), 3);
    assert!(enter.get_var("p.x").is_none());
}

#[test]
fn globals_reach_the_functions_that_see_them() {
    let mut c = ConstructDecls::default();
    c.process_fn(&info("f", 1, vec![]));
    c.process_fn(&info("g", 2, vec![]));
    c.add_globals(&[Global::new(
        "src/main.rs",
        "K",
        9,
        TyShape::Bool,
        Some(ConstValue::Scalar { bits: Some(1), text: "0x01".to_string() }),
        vec![2],
    )]);
    let d = c.into_decls_file();
    assert!(d.get_program_point("src/main.rs::f:::ENTER").unwrap().get_var("src/main.rs::K").is_none());
    let k = d.get_program_point("src/main.rs::g:::EXIT").unwrap().get_var("src/main.rs::K").unwrap();
    assert_eq!(k.constant().to_string(), "true");
}

#[test]
fn unit_returning_functions_have_no_return_variable() {
    let mut f = info("h", 3, vec![2]);
    f.return_ty = TyShape::Tuple { elems: vec![], text: "()".to_string() };
    let mut c = ConstructDecls::default();
    c.process_fn(&f);
    let d = c.into_decls_file();
    assert!(d.get_program_point("src/main.rs::h:::EXIT").unwrap().get_var("return").is_none());
    assert!(d.get_program_point("src/main.rs::h:::EXIT2").unwrap().get_var("return").is_none());
}
