use multorum::fileset::compile::Compiler;
use multorum::fileset::error::{
    FileSetError, GlobPatternError, NameError, ParseError, ValidationError,
};
use multorum::fileset::expr::{glob_nesting, Definition, Expr, FileSetTable, GlobPattern};
use multorum::fileset::name::Name;
use multorum::fileset::parse::ExprParser;
use multorum::fileset::validate::Validator;
use multorum::label::LabelMap;
use multorum::path_set::PathSet;
use multorum::perspective::name::PerspectiveName;
use multorum::perspective::error::PerspectiveNameError;

fn n(s: &str) -> Name {
    Name::new(s).unwrap()
}

fn prim(pattern: &str) -> Definition {
    Definition::Primitive(GlobPattern::new(pattern).unwrap())
}

fn compound(expr: &str) -> Definition {
    Definition::Compound(ExprParser::new(expr).parse().unwrap())
}

fn paths(strs: &[&str]) -> Vec<String> {
    strs.iter().map(|s| s.to_string()).collect()
}

fn defs(entries: Vec<(Name, Definition)>) -> LabelMap<Name, Definition> {
    let mut m = LabelMap::new();
    for (k, d) in entries {
        m.insert(k, d);
    }
    m
}

fn sorted(set: &PathSet) -> Vec<String> {
    let mut v = set.paths().clone();
    v.sort();
    v
}

fn path_set(strs: &[&str]) -> Vec<String> {
    let mut v = paths(strs);
    v.sort();
    v
}

fn compile(files: &[String], defs: &LabelMap<Name, Definition>) -> LabelMap<Name, PathSet> {
    let order = Validator::new(defs).validate().unwrap();
    Compiler::new(files).compile(defs, &order).unwrap()
}

#[test]
fn primitive_glob_matching() {
    let files = paths(&["auth/login.rs", "auth/logout.rs", "api/handler.rs"]);
    let defs = defs(vec![(n("AuthFiles"), prim("auth/**"))]);
    let result = compile(&files, &defs);
    assert_eq!(
        sorted(result.get(&n("AuthFiles")).unwrap()),
        path_set(&["auth/login.rs", "auth/logout.rs"])
    );
}

#[test]
fn union_operation() {
    let files = paths(&["a/x.rs", "b/y.rs", "c/z.rs"]);
    let defs = defs(vec![
        (n("A"), prim("a/**")),
        (n("B"), prim("b/**")),
        (n("AB"), compound("A | B")),
    ]);
    let result = compile(&files, &defs);
    assert_eq!(sorted(result.get(&n("AB")).unwrap()), path_set(&["a/x.rs", "b/y.rs"]));
}

#[test]
fn intersection_operation() {
    let files = paths(&["auth/login.rs", "auth/test/login_test.rs", "api/test/api_test.rs"]);
    let defs = defs(vec![
        (n("AuthFiles"), prim("auth/**")),
        (n("TestFiles"), prim("**/test/**")),
        (n("AuthTests"), compound("AuthFiles & TestFiles")),
    ]);
    let result = compile(&files, &defs);
    assert_eq!(sorted(result.get(&n("AuthTests")).unwrap()), path_set(&["auth/test/login_test.rs"]));
}

#[test]
fn difference_operation() {
    let files = paths(&["auth/login.rs", "auth/test/login_test.rs"]);
    let defs = defs(vec![
        (n("AuthFiles"), prim("auth/**")),
        (n("TestFiles"), prim("**/test/**")),
        (n("AuthImpl"), compound("AuthFiles - TestFiles")),
    ]);
    let result = compile(&files, &defs);
    assert_eq!(sorted(result.get(&n("AuthImpl")).unwrap()), path_set(&["auth/login.rs"]));
}

#[test]
fn design_doc_example() {
    let files = paths(&[
        "auth/login.rs",
        "auth/logout.rs",
        "auth/auth.notes.md",
        "auth/test/login_test.rs",
        "api/handler.rs",
        "api/api.notes.md",
        "api/test/api_test.rs",
    ]);
    let defs = defs(vec![
        (n("SpecFiles"), prim("**/*.notes.md")),
        (n("TestFiles"), prim("**/test/**")),
        (n("AuthFiles"), prim("auth/**")),
        (n("AuthSpecs"), compound("AuthFiles & SpecFiles")),
        (n("AuthTests"), compound("AuthFiles & TestFiles")),
    ]);
    let result = compile(&files, &defs);
    assert_eq!(sorted(result.get(&n("AuthSpecs")).unwrap()), path_set(&["auth/auth.notes.md"]));
    assert_eq!(sorted(result.get(&n("AuthTests")).unwrap()), path_set(&["auth/test/login_test.rs"]));

    let auth_impl = result
        .get(&n("AuthFiles"))
        .unwrap()
        .difference(result.get(&n("AuthSpecs")).unwrap())
        .difference(result.get(&n("AuthTests")).unwrap());
    assert_eq!(sorted(&auth_impl), path_set(&["auth/login.rs", "auth/logout.rs"]));
}

#[test]
fn glob_pattern_valid() {
    assert!(GlobPattern::new("**/*.notes.md").is_ok());
    assert!(GlobPattern::new("auth/**").is_ok());
    assert!(GlobPattern::new("src/main.rs").is_ok());
}

#[test]
fn glob_pattern_invalid() {
    let err = GlobPattern::new("[unclosed").unwrap_err();
    assert!(matches!(err, GlobPatternError::Invalid { .. }));
}

#[test]
fn expr_construction() {
    let a = Expr::Ref(Name::new("A").unwrap());
    let b = Expr::Ref(Name::new("B").unwrap());
    let union = Expr::Union(Box::new(a.duplicate()), Box::new(b.duplicate()));
    let inter = Expr::Intersection(Box::new(a.duplicate()), Box::new(b.duplicate()));
    let diff = Expr::Difference(Box::new(a), Box::new(b));

    assert_ne!(union, inter);
    assert_ne!(inter, diff);
}

#[test]
fn definition_variants() {
    let prim = Definition::Primitive(GlobPattern::new("**/*.rs").unwrap());
    let compound = Definition::Compound(Expr::Ref(Name::new("X").unwrap()));
    assert_ne!(prim, compound);
}

#[test]
fn name_valid_names() {
    assert!(Name::new("A").is_ok());
    assert!(Name::new("AuthFiles").is_ok());
    assert!(Name::new("SpecFiles2").is_ok());
    assert!(Name::new("X99").is_ok());
}

#[test]
fn valid_names() {
    assert!(PerspectiveName::new("A").is_ok());
    assert!(PerspectiveName::new("AuthImplementor").is_ok());
    assert!(PerspectiveName::new("AuthTester2").is_ok());
}

#[test]
fn name_empty_is_rejected() {
    assert_eq!(Name::new(""), Err(NameError::Empty));
}

#[test]
fn empty_is_rejected() {
    assert_eq!(PerspectiveName::new(""), Err(PerspectiveNameError::Empty));
}

#[test]
fn name_lowercase_start_is_rejected() {
    let err = Name::new("authFiles").unwrap_err();
    assert!(matches!(err, NameError::InvalidStart { .. }));
}

#[test]
fn lowercase_start_is_rejected() {
    let err = PerspectiveName::new("authImpl").unwrap_err();
    assert!(matches!(err, PerspectiveNameError::InvalidStart { .. }));
}

#[test]
fn digit_start_is_rejected() {
    let err = Name::new("1Files").unwrap_err();
    assert!(matches!(err, NameError::InvalidStart { .. }));
}

#[test]
fn name_underscore_is_rejected() {
    let err = Name::new("Auth_Files").unwrap_err();
    assert!(matches!(err, NameError::InvalidChar { ch: '_', pos: 4, .. }));
}

#[test]
fn underscore_is_rejected() {
    let err = PerspectiveName::new("Auth_Impl").unwrap_err();
    assert!(matches!(err, PerspectiveNameError::InvalidChar { ch: '_', pos: 4, .. }));
}

#[test]
fn space_is_rejected() {
    let err = Name::new("Auth Files").unwrap_err();
    assert!(matches!(err, NameError::InvalidChar { ch: ' ', pos: 4, .. }));
}

#[test]
fn name_display_roundtrip() {
    let name = Name::new("AuthFiles").unwrap();
    assert_eq!(name.to_text(), "AuthFiles");
    assert_eq!(name.as_str(), "AuthFiles");
}

#[test]
fn display_roundtrip() {
    let name = PerspectiveName::new("AuthImplementor").unwrap();
    assert_eq!(name.to_text(), "AuthImplementor");
    assert_eq!(name.as_str(), "AuthImplementor");
}

#[test]
fn distinct_from_fileset_name() {
    let fs_name = Name::new("AuthFiles").unwrap();
    let ps_name = PerspectiveName::new("AuthFiles").unwrap();
    assert_eq!(fs_name.as_str(), ps_name.as_str());
}

#[test]
fn invalid_char_reports_character_and_offset() {
    assert_eq!(
        Name::new("Ab-c"),
        Err(NameError::InvalidChar { name: "Ab-c".to_string(), ch: '-', pos: 2 })
    );
}

#[test]
fn parser_reports_each_error_kind() {
    assert_eq!(ExprParser::new("A |").parse(), Err(ParseError::UnexpectedEof));
    assert_eq!(ExprParser::new("(A | B").parse(), Err(ParseError::UnclosedParen { pos: 6 }));
    assert_eq!(ExprParser::new("A B").parse(), Err(ParseError::TrailingContent { pos: 2 }));
    assert_eq!(ExprParser::new("A | $").parse(), Err(ParseError::UnexpectedChar { ch: '$', pos: 4 }));
    assert!(matches!(ExprParser::new("a | B").parse(), Err(ParseError::InvalidName(_))));
}

#[test]
fn parser_is_left_associative() {
    let e = ExprParser::new("A - B | C").parse().unwrap();
    let expected = Expr::Union(
        Box::new(Expr::Difference(
            Box::new(Expr::Ref(n("A"))),
            Box::new(Expr::Ref(n("B"))),
        )),
        Box::new(Expr::Ref(n("C"))),
    );
    assert_eq!(e, expected);
}

#[test]
fn undefined_reference_is_reported() {
    let mut table = FileSetTable::new();
    table.insert(n("A"), compound("B | C"));
    let err = table.compile(&[]).unwrap_err();
    assert_eq!(
        err,
        FileSetError::Validation(ValidationError::Undefined { name: n("B"), referenced_by: n("A") })
    );
}

#[test]
fn cycle_is_reported() {
    let mut table = FileSetTable::new();
    table.insert(n("A"), compound("B"));
    table.insert(n("B"), compound("A"));
    let err = table.compile(&[]).unwrap_err();
    assert!(matches!(err, FileSetError::Validation(ValidationError::Cycle { .. })));
}

#[test]
fn cycle_text_names_the_loop_from_where_it_starts() {
    let mut table = FileSetTable::new();
    table.insert(n("Root"), compound("A"));
    table.insert(n("A"), compound("B"));
    table.insert(n("B"), compound("A"));
    match table.compile(&[]).unwrap_err() {
        FileSetError::Validation(ValidationError::Cycle { cycle }) => assert_eq!(cycle, "A -> B -> A"),
        other => panic!("unexpected: {other:?}"),
    }
}

#[test]
fn compile_resolves_dependencies_and_lists_names_in_order() {
    let files = paths(&["a/x.rs", "b/y.rs"]);
    let mut table = FileSetTable::new();
    table.insert(n("All"), compound("A | B"));
    table.insert(n("A"), prim("a/**"));
    table.insert(n("B"), prim("b/**"));
    let result = table.compile(&files).unwrap();
    assert_eq!(result.len(), 3);
    assert_eq!(sorted(result.get(&n("All")).unwrap()), path_set(&["a/x.rs", "b/y.rs"]));
    assert_eq!(result.key_at(0).as_str(), "A");
    assert_eq!(result.key_at(1).as_str(), "All");
    assert_eq!(result.key_at(2).as_str(), "B");
}

#[test]
fn path_sets_keep_paths_in_component_order() {
    let set = multorum::path_set::PathSet::from_paths(&vec![
        "src/runtime.rs".to_string(),
        "src/runtime/storage.rs".to_string(),
        "src/a-b.rs".to_string(),
        "src/a/b.rs".to_string(),
        "README.md".to_string(),
        "src/runtime.rs".to_string(),
    ]);
    assert_eq!(
        set.paths(),
        &vec![
            "README.md".to_string(),
            "src/a/b.rs".to_string(),
            "src/a-b.rs".to_string(),
            "src/runtime/storage.rs".to_string(),
            "src/runtime.rs".to_string(),
        ]
    );
    assert!(multorum::path_set::path_less("a/b", "a.rs"));
    assert!(!multorum::path_set::path_less("a.rs", "a/b"));
    assert!(multorum::path_set::path_less("a", "a/b"));
}

fn nested_alternation(levels: usize) -> String {
    let mut p = String::from("x");
    for _ in 0..levels {
        p = format!("{{a,{p}}}");
    }
    p
}

#[test]
fn glob_nesting_reads_classes_and_escapes_as_plain_text() {
    assert_eq!(glob_nesting("src/{a,{b,c}}/*.rs"), (2, 0));
    assert_eq!(glob_nesting("<a/:1,20>"), (1, 2));
    assert_eq!(glob_nesting("[{<{]\\{\\<x"), (0, 0));
    assert_eq!(glob_nesting(&nested_alternation(33)), (33, 0));
}

#[test]
fn deeply_nested_globs_are_refused_before_wax_sees_them() {
    assert!(GlobPattern::new(&nested_alternation(32)).is_ok());
    match GlobPattern::new(&nested_alternation(200)) {
        Err(GlobPatternError::Invalid { pattern, reason }) => {
            assert_eq!(pattern, nested_alternation(200));
            assert_eq!(reason, "alternations and repetitions nest more than 32 levels deep");
        }
        other => panic!("unexpected: {other:?}"),
    }
    match GlobPattern::new("<a:1,5000000000>") {
        Err(GlobPatternError::Invalid { reason, .. }) => {
            assert_eq!(reason, "a repetition bound has more than 9 digits");
        }
        other => panic!("unexpected: {other:?}"),
    }
    assert!(GlobPattern::new("<a:1,3>/[{}]").is_ok());
}

#[test]
fn table_parts_refuse_bad_names_globs_and_expressions() {
    assert!(Name::new("lowercaseName").is_err());
    assert!(matches!(GlobPattern::new("[unclosed"), Err(GlobPatternError::Invalid { .. })));
    assert!(ExprParser::new("A |").parse().is_err());
    assert!(Name::new("Bad").is_ok());
    assert!(GlobPattern::new("**/*.rs").is_ok());
    assert!(ExprParser::new("A | B").parse().is_ok());
}
