use decls_gen::decls::{DeclsFile, DeclsParse, VarIdent};
use decls_gen::fields::{DecType, ParentRelationType, ProgramPointType};
use decls_gen::globals::Global;
use decls_gen::parse::DeclsFileParseError;
use decls_gen::ppt::ProgramPoint;
use decls_gen::shape::{ConstValue, IntTy, TyShape};

fn small_file() -> DeclsFile {
    let mut d = DeclsFile::new();
    let mut id: u64 = 0;
    let (en, enter) = ProgramPoint::enter("f", 1);
    let enter = enter.with_fn_inputs(&["x".to_string()], &[TyShape::Int(IntTy::I32)], &[false], None);
    d.add_program_point(en.clone(), enter);
    let (xn, exit) = ProgramPoint::exit("f", 1);
    let exit = exit
        .with_fn_inputs(&["x".to_string()], &[TyShape::Int(IntTy::I32)], &[false], None)
        .with_fn_return(&TyShape::Bool, None)
        .with_parent(en, ParentRelationType::EnterExit, &mut id);
    d.add_program_point(xn.clone(), exit);
    let (sn, sub) = ProgramPoint::subexit("f", 1, 12);
    let sub = sub.with_parent(xn, ParentRelationType::ExitExitNN, &mut id);
    d.add_program_point(sn, sub);
    d
}

const SMALL_TEXT: &str = "decl-version 2.0
input-language rust
var-comparability implicit

ppt f:::ENTER
ppt-type enter
variable x
  var-kind variable
  dec-type i32
  rep-type int
  comparability -1

ppt f:::EXIT
ppt-type exit
parent enter-exit f:::ENTER 0
variable return
  var-kind return
  dec-type bool
  rep-type boolean
  comparability -1
variable x
  var-kind variable
  dec-type i32
  rep-type int
  comparability -1

ppt f:::EXIT12
ppt-type subexit
parent exit-exitnn f:::EXIT 1

";

#[test]
fn decls_file_is_written_in_name_order() {
    let d = small_file();
    assert_eq!(d.len(), 3);
    assert_eq!(d.to_string(), SMALL_TEXT);
    assert_eq!(DeclsFile::new().to_string(), "decl-version 2.0\ninput-language rust\nvar-comparability implicit\n\n");
}

#[test]
fn written_file_reads_back() {
    let d = small_file();
    let text = d.to_string();
    let DeclsParse::Parsed(back) = DeclsFile::parse_decls(&text) else {
        panic!("written file did not read back");
    };
    assert_eq!(back.to_string(), text);
    assert_eq!(back.len(), 3);
    let sub = back.get_program_point("f:::EXIT12").unwrap();
    assert!(matches!(sub.ppt_type, ProgramPointType::ExitNN(12)));
    let exit = back.get_program_point("f:::EXIT").unwrap();
    assert!(matches!(exit.get_var("return").unwrap().get_dec_type(), DecType::Bool));
}

#[test]
fn reading_tolerates_blank_lines_and_trailing_spaces() {
    let text = "decl-version 2.0  \n\ninput-language rust\nsome other header\n\nppt g:::ENTER \nppt-type enter\n\nvariable y\n    var-kind field len\n  dec-type usize\n  rep-type int\n  enclosing-var v\n  array 1\n  constant 3\n  comparability -7\n";
    let DeclsParse::Parsed(d) = DeclsFile::parse_decls(text) else {
        panic!("did not parse");
    };
    let p = d.get_program_point("g:::ENTER").unwrap();
    let y = p.get_var("y").unwrap();
    assert_eq!(
        y.to_string(),
        "  var-kind field len\n  dec-type usize\n  rep-type int[]\n  enclosing-var v\n  array 1\n  constant 3\n  comparability -1\n"
    );
    assert_eq!(*y.get_comparability(), None);
}

#[test]
fn reading_keeps_a_nonnegative_comparability() {
    let text = "decl-version 2.0\ninput-language rust\nppt g:::EXIT\nppt-type exit\nparent parent h:::ENTER 4\nvariable y\n  var-kind variable\n  dec-type Point\n  comparability 7\n";
    let DeclsParse::Parsed(d) = DeclsFile::parse_decls(text) else {
        panic!("did not parse");
    };
    let p = d.get_program_point("g:::EXIT").unwrap();
    assert_eq!(*p.get_var("y").unwrap().get_comparability(), Some(7));
    assert!(matches!(p.get_var("y").unwrap().get_dec_type(), DecType::Compound(ref s) if s == "Point"));
    let (name, rel) = p.parents.entry(0);
    assert_eq!(name, "h:::ENTER");
    assert!(matches!(rel, (ParentRelationType::Parent, 4)));
}

fn refusal(text: &str) -> DeclsFileParseError {
    match DeclsFile::parse_decls(text) {
        DeclsParse::Refused(e) => e,
        _ => panic!("expected a refusal"),
    }
}

#[test]
fn reading_refuses_a_wrong_version() {
    assert!(matches!(
        refusal(""),
        DeclsFileParseError::BadHeader("Input file is not of decls version 2.0")
    ));
    assert!(matches!(
        refusal("decl-version 1.0\ninput-language rust\n"),
        DeclsFileParseError::BadHeader("Input file is not of decls version 2.0")
    ));
}

#[test]
fn reading_refuses_another_language() {
    assert!(matches!(
        refusal("decl-version 2.0\ninput-language java\n"),
        DeclsFileParseError::BadHeader("Non-rust decls file provided as input")
    ));
    assert!(matches!(
        refusal("decl-version 2.0\n"),
        DeclsFileParseError::BadHeader("Non-rust decls file provided as input")
    ));
}

#[test]
fn reading_refuses_a_missing_ppt_tag() {
    assert!(matches!(
        refusal("decl-version 2.0\ninput-language rust\nppt-type enter\n"),
        DeclsFileParseError::BadStructure("did not find ppt tag where expected")
    ));
}

#[test]
fn reading_refuses_malformed_program_points() {
    let head = "decl-version 2.0\ninput-language rust\n";
    for body in [
        "ppt f:::ENTER\n",
        "ppt f:::ENTER\nppt-type middle\n",
        "ppt f:::ENTER\nvariable x\n",
        "ppt f:::EXIT\nppt-type subexit\n",
        "ppt f:::EXITx\nppt-type subexit\n",
        "ppt f:::EXIT\nppt-type exit\nparent sibling f:::ENTER 0\n",
        "ppt f:::EXIT\nppt-type exit\nparent enter-exit f:::ENTER\n",
        "ppt f:::EXIT\nppt-type exit\nparent enter-exit f:::ENTER -1\n",
        "ppt f:::ENTER\nppt-type enter\nvariable x\n  var-kind pointer\n",
        "ppt f:::ENTER\nppt-type enter\nvariable x\n  array 300\n",
        "ppt f:::ENTER\nppt-type enter\nvariable x\n  comparability lots\n",
        "ppt f:::ENTER\nppt-type enter\nvariable x\n  flavor sweet\n",
    ] {
        let text = format!("{head}{body}");
        assert!(matches!(refusal(&text), DeclsFileParseError::MalformedPpt), "{body}");
    }
}

#[test]
fn reading_stops_on_incomplete_variables() {
    let head = "decl-version 2.0\ninput-language rust\nppt f:::ENTER\nppt-type enter\nvariable x\n";
    assert!(matches!(
        DeclsFile::parse_decls(&format!("{head}  dec-type i32\n")),
        DeclsParse::MissingVarKind
    ));
    assert!(matches!(
        DeclsFile::parse_decls(&format!("{head}  var-kind variable\nvariable y\n")),
        DeclsParse::MissingDecType
    ));
}

#[test]
fn ppts_for_finds_all_program_points_of_a_function() {
    let mut d = small_file();
    let (n, p) = ProgramPoint::enter("fg", 2);
    d.add_program_point(n, p);
    let (n, p) = ProgramPoint::enter("e", 3);
    d.add_program_point(n, p);
    let found = d.ppts_for("f");
    assert_eq!(found.len(), 3);
    assert!(matches!(found[0].ppt_type, ProgramPointType::Enter));
    assert!(matches!(found[1].ppt_type, ProgramPointType::Exit));
    assert!(matches!(found[2].ppt_type, ProgramPointType::ExitNN(12)));
    assert_eq!(d.ppts_for("fg").len(), 1);
    assert_eq!(d.ppts_for("h").len(), 0);
}

#[test]
fn program_points_are_found_by_name() {
    let mut d = small_file();
    assert!(d.get_program_point("f:::ENTER").is_some());
    assert!(d.get_program_point("f:::EXIT3").is_none());
    d.get_program_point_mut("f:::ENTER")
        .unwrap()
        .get_var_mut("x")
        .unwrap()
        .set_comparability(Some(1));
    assert_eq!(
        *d.get_program_point("f:::ENTER").unwrap().get_var("x").unwrap().get_comparability(),
        Some(1)
    );
    let names: Vec<&String> = d.iter().into_iter().map(|(n, _)| n).collect();
    assert_eq!(names, vec!["f:::ENTER", "f:::EXIT", "f:::EXIT12"]);
}

#[test]
fn names_of_functions_and_variables() {
    assert_eq!(DeclsFile::ppt_base_name("/src/main.rs", "foo::bar"), "/src/main.rs::foo::bar");
    assert_eq!(DeclsFile::var_name(VarIdent::Local("x".to_string())), "x");
    assert_eq!(DeclsFile::var_name(VarIdent::Return), "return");
    assert_eq!(
        DeclsFile::var_name(VarIdent::Global { file: "/src/lib.rs".to_string(), def_path: "MAX".to_string() }),
        "/src/lib.rs::MAX"
    );
}

#[test]
fn globals_are_added_to_every_program_point_that_sees_them() {
    let mut d = small_file();
    let (n, p) = ProgramPoint::enter("g", 2);
    d.add_program_point(n, p);
    let globals = vec![Global::new(
        "m.rs",
        "K",
        7,
        TyShape::Int(IntTy::I64),
        Some(ConstValue::Scalar { bits: Some(3), text: "3_i64".to_string() }),
        vec![1],
    )];
    d.add_globals_to_all(&globals, None);
    assert!(d.get_program_point("f:::ENTER").unwrap().get_var("m.rs::K").is_some());
    assert!(d.get_program_point("f:::EXIT12").unwrap().get_var("m.rs::K").is_some());
    assert!(d.get_program_point("g:::ENTER").unwrap().get_var("m.rs::K").is_none());
    assert_eq!(
        d.get_program_point("f:::EXIT").unwrap().get_var("m.rs::K").unwrap().constant().to_string(),
        "3_i64"
    );
}

#[test]
fn program_points_of_a_function_can_be_changed_by_position() {
    let mut d = small_file();
    let (n, p) = ProgramPoint::enter("fg", 2);
    d.add_program_point(n, p);
    let pos = d.ppt_positions_for("f");
    assert_eq!(pos, vec![0, 1, 2]);
    assert_eq!(d.ppt_positions_for("fg"), vec![3]);
    assert!(d.ppt_positions_for("zz").is_empty());
    for i in pos {
        let p = d.ppt_at_mut(i);
        if let Some(x) = p.get_var_mut("x") {
            x.set_comparability(Some(9));
        }
    }
    assert_eq!(
        *d.get_program_point("f:::EXIT").unwrap().get_var("x").unwrap().get_comparability(),
        Some(9)
    );
    assert!(d.ppt_at_mut(2).get_var("x").is_none());
}
