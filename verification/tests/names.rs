use decls_gen::vars::{escape_str, VarName};

#[test]
fn escape_str_replaces_blanks_and_doubles_backslashes() {
    assert_eq!(escape_str("a b\\c".to_string()), "a\\_b\\\\c");
    assert_eq!(escape_str(String::new()), "");
    assert_eq!(escape_str("plain".to_string()), "plain");
    assert!(!escape_str("x y z".to_string()).contains(' '));
}

#[test]
fn var_name_projections_build_paths() {
    let p = VarName::new("p".to_string());
    assert_eq!(p.project_field("x").as_str(), "p.x");
    assert_eq!(p.project_variant("Some").as_str(), "p::Some");
    assert_eq!(p.project_index(3).as_str(), "p[3]");
    assert_eq!(p.project_index(120).as_str(), "p[120]");
    assert_eq!(p.project_slice().as_str(), "p[..]");
    assert_eq!(p.project_deref().as_str(), "*p");
    assert_eq!(
        p.project_slice().project_field("f").project_deref().as_str(),
        "*p[..].f"
    );
    assert_eq!(p.to_string(), "p");
    assert_eq!(p.into_string(), "p");
}

#[test]
fn var_name_converts_from_and_to_string() {
    let v: VarName = VarName::from("q".to_string());
    assert_eq!(v.as_str(), "q");
    let s: String = String::from(v);
    assert_eq!(s, "q");
}
