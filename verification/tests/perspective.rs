use multorum::fileset::expr::{Definition, FileSetTable, GlobPattern};
use multorum::fileset::name::Name;
use multorum::fileset::parse::ExprParser;
use multorum::label::LabelMap;
use multorum::path_set::PathSet;
use multorum::perspective::compile::CompiledPerspective;
use multorum::perspective::decl::{PerspectiveDecl, PerspectiveTable};
use multorum::perspective::error::{ConflictViolation, PerspectiveError, SafetyViolation};
use multorum::perspective::name::PerspectiveName;
use multorum::perspective::validation::ConflictFreeValidator;

fn design_doc_filesets() -> LabelMap<Name, PathSet> {
    let files: Vec<String> = [
        "auth/login.rs",
        "auth/logout.rs",
        "auth/auth.notes.md",
        "auth/test/login_test.rs",
        "api/handler.rs",
        "api/api.notes.md",
        "api/test/api_test.rs",
    ]
    .iter()
    .map(|s| s.to_string())
    .collect();
    let mut table = FileSetTable::new();
    let prim = |p: &str| Definition::Primitive(GlobPattern::new(p).unwrap());
    let compound = |e: &str| Definition::Compound(ExprParser::new(e).parse().unwrap());
    table.insert(Name::new("SpecFiles").unwrap(), prim("**/*.notes.md"));
    table.insert(Name::new("TestFiles").unwrap(), prim("**/test/**"));
    table.insert(Name::new("AuthFiles").unwrap(), prim("auth/**"));
    table.insert(Name::new("AuthSpecs").unwrap(), compound("AuthFiles & SpecFiles"));
    table.insert(Name::new("AuthTests").unwrap(), compound("AuthFiles & TestFiles"));
    table.compile(&files).unwrap()
}

fn table(entries: &[(&str, &str, &str)]) -> PerspectiveTable {
    let mut t = PerspectiveTable::new();
    for (name, read, write) in entries {
        let name = PerspectiveName::new(name).unwrap();
        let decl = PerspectiveDecl::parse(&name, read, write).unwrap();
        t.insert(name, decl);
    }
    t
}

fn sorted(set: &PathSet) -> Vec<String> {
    let mut v = set.paths().clone();
    v.sort();
    v
}

fn path_set(strs: &[&str]) -> Vec<String> {
    let mut v: Vec<String> = strs.iter().map(|s| s.to_string()).collect();
    v.sort();
    v
}

fn set_of(strs: &[&str]) -> PathSet {
    PathSet::from_paths(&strs.iter().map(|s| s.to_string()).collect())
}

#[test]
fn two_disjoint_perspectives_compile() {
    let filesets = design_doc_filesets();
    let table = table(&[
        ("AuthImplementor", "AuthSpecs", "AuthFiles - AuthSpecs - AuthTests"),
        ("AuthTester", "AuthSpecs", "AuthTests"),
    ]);
    let compiled = table.compile(&filesets).unwrap();
    assert_eq!(compiled.len(), 2);

    let impl_p = compiled.get(&PerspectiveName::new("AuthImplementor").unwrap()).unwrap();
    assert_eq!(sorted(impl_p.write()), path_set(&["auth/login.rs", "auth/logout.rs"]));
    assert_eq!(sorted(impl_p.read()), path_set(&["auth/auth.notes.md"]));

    let test_p = compiled.get(&PerspectiveName::new("AuthTester").unwrap()).unwrap();
    assert_eq!(sorted(test_p.write()), path_set(&["auth/test/login_test.rs"]));
}

#[test]
fn write_write_overlap_detected() {
    let filesets = design_doc_filesets();
    let table = table(&[("P", "SpecFiles", "AuthFiles"), ("Q", "SpecFiles", "AuthFiles")]);
    let err = table.compile(&filesets).unwrap_err();
    assert!(
        matches!(err, PerspectiveError::Safety(SafetyViolation::WriteWriteOverlap { .. })),
        "expected WriteWriteOverlap, got: {err:?}"
    );
}

#[test]
fn write_read_overlap_detected() {
    let filesets = design_doc_filesets();
    let table = table(&[("P", "SpecFiles", "AuthTests"), ("Q", "AuthTests", "SpecFiles")]);
    let err = table.compile(&filesets).unwrap_err();
    assert!(
        matches!(err, PerspectiveError::Safety(SafetyViolation::WriteReadOverlap { .. })),
        "expected WriteReadOverlap, got: {err:?}"
    );
}

#[test]
fn compile_empty_table_is_valid() {
    let filesets = design_doc_filesets();
    let table = PerspectiveTable::new();
    let compiled = table.compile(&filesets).unwrap();
    assert!(compiled.is_empty());
}

#[test]
fn single_perspective_always_valid() {
    let filesets = design_doc_filesets();
    let table = table(&[("Solo", "SpecFiles", "AuthFiles")]);
    let compiled = table.compile(&filesets).unwrap();
    assert_eq!(compiled.len(), 1);
}

#[test]
fn shared_reads_are_allowed() {
    let filesets = design_doc_filesets();
    let table = table(&[
        ("P", "AuthSpecs", "AuthTests"),
        ("Q", "AuthSpecs", "AuthFiles - AuthSpecs - AuthTests"),
    ]);
    let compiled = table.compile(&filesets).unwrap();
    assert_eq!(compiled.len(), 2);
}

#[test]
fn undefined_fileset_in_perspective_is_reported() {
    let filesets = design_doc_filesets();
    let table = table(&[("P", "SpecFiles", "Missing")]);
    let err = table.compile(&filesets).unwrap_err();
    match err {
        PerspectiveError::UndefinedFileSet { perspective, name } => {
            assert_eq!(perspective.as_str(), "P");
            assert_eq!(name.as_str(), "Missing");
        }
        other => panic!("unexpected error: {other:?}"),
    }
}

#[test]
fn unparsable_expression_names_the_perspective() {
    let name = PerspectiveName::new("P").unwrap();
    let err = PerspectiveDecl::parse(&name, "A |", "B").unwrap_err();
    assert!(matches!(err, PerspectiveError::Parse { .. }));
}

#[test]
fn conflict_free_validator_reports_write_read_overlap() {
    let mut m = LabelMap::new();
    m.insert(
        PerspectiveName::new("Left").unwrap(),
        CompiledPerspective::from_materialized_sets(set_of(&["a"]), set_of(&["b"])),
    );
    m.insert(
        PerspectiveName::new("Right").unwrap(),
        CompiledPerspective::from_materialized_sets(set_of(&["b"]), set_of(&["c"])),
    );
    let err = ConflictFreeValidator::new(&m).validate().unwrap_err();
    match err {
        ConflictViolation::WriteReadOverlap { writer, reader, files } => {
            assert_eq!(writer.as_str(), "Left");
            assert_eq!(reader.as_str(), "Right");
            assert_eq!(sorted(&files), path_set(&["b"]));
        }
        other => panic!("unexpected violation: {other:?}"),
    }
}
