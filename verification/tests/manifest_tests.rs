use keero_core::manifest::{
    deps_all_installed, normalize_dependency_name, parse_pyproject_dependencies,
    pyproject_dependency_names,
};

const MANIFEST: &str = r#"
[project]
name = "backend"
dependencies = [
    "a==1.0",
    # a comment inside the block
    "mlx-audio @ url",

    "b",
]

[tool.other]
list = ["not-a-dep"]
"#;

#[test]
fn parses_quoted_specifiers_in_order() {
    let deps = parse_pyproject_dependencies(MANIFEST);
    assert_eq!(deps, vec!["a==1.0".to_string(), "mlx-audio @ url".to_string(), "b".to_string()]);
}

#[test]
fn parsing_twice_yields_identical_results() {
    let first = parse_pyproject_dependencies(MANIFEST);
    let second = parse_pyproject_dependencies(MANIFEST);
    assert_eq!(first, second);
    let names_first = pyproject_dependency_names(MANIFEST);
    let names_second = pyproject_dependency_names(MANIFEST);
    assert_eq!(names_first, names_second);
}

#[test]
fn parsing_stops_at_closing_bracket() {
    let text = "dependencies = [\n    \"x\",\n]\n    \"y\",\n";
    assert_eq!(parse_pyproject_dependencies(text), vec!["x".to_string()]);
}

#[test]
fn parsing_ignores_blank_and_comment_lines() {
    let text = "dependencies = [\n\n  # only a comment\n  \"z\",\n]\n";
    assert_eq!(parse_pyproject_dependencies(text), vec!["z".to_string()]);
}

#[test]
fn parsing_without_block_yields_nothing() {
    assert_eq!(parse_pyproject_dependencies("name = \"x\"\n"), Vec::<String>::new());
    assert_eq!(parse_pyproject_dependencies(""), Vec::<String>::new());
}

#[test]
fn single_quote_character_yields_no_specifier() {
    let text = "dependencies = [\n  \"half,\n]\n";
    assert_eq!(parse_pyproject_dependencies(text), Vec::<String>::new());
}

#[test]
fn normalize_strips_version_operator() {
    assert_eq!(normalize_dependency_name("a==1.0"), Some("a".to_string()));
    assert_eq!(normalize_dependency_name("foo~=1.2"), Some("foo".to_string()));
    assert_eq!(normalize_dependency_name("bar>=2,<3"), Some("bar".to_string()));
    assert_eq!(normalize_dependency_name("baz!=0.9"), Some("baz".to_string()));
}

#[test]
fn normalize_strips_direct_reference() {
    assert_eq!(normalize_dependency_name("mlx-audio @ url"), Some("mlx-audio".to_string()));
}

#[test]
fn normalize_strips_environment_marker() {
    assert_eq!(
        normalize_dependency_name("pkg; python_version < '3.12'"),
        Some("pkg".to_string())
    );
}

#[test]
fn normalize_strips_extras() {
    assert_eq!(normalize_dependency_name("pkg[extra]>=2"), Some("pkg".to_string()));
}

#[test]
fn normalize_keeps_bare_name() {
    assert_eq!(normalize_dependency_name("plain"), Some("plain".to_string()));
    assert_eq!(normalize_dependency_name("  spaced  "), Some("spaced".to_string()));
}

#[test]
fn normalize_rejects_empty() {
    assert_eq!(normalize_dependency_name(""), None);
    assert_eq!(normalize_dependency_name("   "), None);
    assert_eq!(normalize_dependency_name("; marker only"), None);
    assert_eq!(normalize_dependency_name("@ url only"), None);
}

#[test]
fn dependency_names_are_normalized_and_unique() {
    let names = pyproject_dependency_names(MANIFEST);
    assert_eq!(names, vec!["a".to_string(), "b".to_string(), "mlx-audio".to_string()]);
}

#[test]
fn dependency_names_are_sorted() {
    let text = "dependencies = [\n  \"zeta\",\n  \"alpha==2\",\n  \"midway\",\n]\n";
    let names = pyproject_dependency_names(text);
    assert_eq!(names, vec!["alpha".to_string(), "midway".to_string(), "zeta".to_string()]);
}

#[test]
fn dependency_names_deduplicate() {
    let text = "dependencies = [\n  \"x==1\",\n  \"x>=0\",\n  \"y\",\n]\n";
    let names = pyproject_dependency_names(text);
    assert_eq!(names, vec!["x".to_string(), "y".to_string()]);
}

#[test]
fn all_installed_requires_nonempty_manifest() {
    assert!(!deps_all_installed(&vec![]));
    assert!(deps_all_installed(&vec![true]));
    assert!(deps_all_installed(&vec![true, true, true]));
    assert!(!deps_all_installed(&vec![true, false, true]));
}
