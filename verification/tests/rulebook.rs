use multorum::fileset::expr::{Definition, FileSetTable, GlobPattern};
use multorum::fileset::name::Name;
use multorum::fileset::parse::ExprParser;
use multorum::perspective::decl::{PerspectiveDecl, PerspectiveTable};
use multorum::perspective::name::PerspectiveName;
use multorum::rulebook::check::{blank, CheckDecl, CheckName, CheckPolicy, CheckTable};
use multorum::rulebook::decl::Rulebook;
use multorum::rulebook::error::{CheckNameError, CheckValidationError, RulebookError};

fn name(s: &str) -> CheckName {
    CheckName::new(s).unwrap()
}

fn checks(pipeline: &[&str], decls: &[(&str, &str, CheckPolicy)]) -> CheckTable {
    let mut t = CheckTable::new(pipeline.iter().map(|s| name(s)).collect());
    for (n, command, policy) in decls {
        t.insert(name(n), CheckDecl::new(command.to_string(), *policy));
    }
    t
}

fn design_filesets() -> FileSetTable {
    let mut table = FileSetTable::new();
    let prim = |p: &str| Definition::Primitive(GlobPattern::new(p).unwrap());
    let compound = |e: &str| Definition::Compound(ExprParser::new(e).parse().unwrap());
    table.insert(Name::new("SpecFiles").unwrap(), prim("**/*.notes.md"));
    table.insert(Name::new("TestFiles").unwrap(), prim("**/test/**"));
    table.insert(Name::new("AuthFiles").unwrap(), prim("auth/**"));
    table.insert(Name::new("AuthSpecs").unwrap(), compound("AuthFiles & SpecFiles"));
    table.insert(Name::new("AuthTests").unwrap(), compound("AuthFiles & TestFiles"));
    table
}

fn perspectives(entries: &[(&str, &str, &str)]) -> PerspectiveTable {
    let mut t = PerspectiveTable::new();
    for (n, read, write) in entries {
        let n = PerspectiveName::new(n).unwrap();
        let decl = PerspectiveDecl::parse(&n, read, write).unwrap();
        t.insert(n, decl);
    }
    t
}

fn design_rulebook() -> Rulebook {
    Rulebook::new(
        design_filesets(),
        perspectives(&[
            ("AuthImplementor", "AuthSpecs", "AuthFiles - AuthSpecs - AuthTests"),
            ("AuthTester", "AuthSpecs", "AuthTests"),
        ]),
        checks(
            &["lint", "test"],
            &[
                ("lint", "cargo clippy", CheckPolicy::Always),
                ("test", "cargo test", CheckPolicy::Skippable),
            ],
        ),
    )
}

fn design_files() -> Vec<String> {
    [
        "auth/login.rs",
        "auth/logout.rs",
        "auth/auth.notes.md",
        "auth/test/login_test.rs",
        "api/handler.rs",
    ]
    .iter()
    .map(|s| s.to_string())
    .collect()
}

#[test]
fn valid_check_name() {
    assert!(CheckName::new("lint").is_ok());
    assert!(CheckName::new("build2").is_ok());
}

#[test]
fn uppercase_start_is_rejected() {
    let err = CheckName::new("Lint").unwrap_err();
    assert!(matches!(err, CheckNameError::InvalidStart { .. }));
}

#[test]
fn policy_defaults_to_always() {
    let t = checks(&["lint"], &[("lint", "cargo clippy", CheckPolicy::default())]);
    let compiled = t.compile().unwrap();
    assert_eq!(compiled.get(&name("lint")).unwrap().policy(), CheckPolicy::Always);
}

#[test]
fn skippable_policy_parses() {
    let t = checks(&["test"], &[("test", "cargo test", CheckPolicy::Skippable)]);
    let compiled = t.compile().unwrap();
    assert_eq!(compiled.get(&name("test")).unwrap().policy(), CheckPolicy::Skippable);
}

#[test]
fn undefined_pipeline_entry_is_rejected() {
    let t = checks(&["lint"], &[]);
    let err = t.compile().unwrap_err();
    assert_eq!(err, CheckValidationError::UndefinedPipelineEntry { name: name("lint") });
}

#[test]
fn duplicate_pipeline_entry_is_rejected() {
    let t = checks(&["lint", "lint"], &[("lint", "cargo clippy", CheckPolicy::Always)]);
    let err = t.compile().unwrap_err();
    assert_eq!(err, CheckValidationError::DuplicatePipelineEntry { name: name("lint") });
}

#[test]
fn unused_declared_check_is_rejected() {
    let t = checks(&[], &[("lint", "cargo clippy", CheckPolicy::Always)]);
    let err = t.compile().unwrap_err();
    assert_eq!(err, CheckValidationError::UnusedDeclaredCheck { name: name("lint") });
}

#[test]
fn empty_command_is_rejected() {
    let t = checks(&["lint"], &[("lint", "   ", CheckPolicy::Always)]);
    let err = t.compile().unwrap_err();
    assert_eq!(err, CheckValidationError::EmptyCommand { name: name("lint") });
}

#[test]
fn check_empty_table_is_valid() {
    let t = CheckTable::default();
    let compiled = t.compile().unwrap();
    assert!(compiled.is_empty());
    assert!(compiled.pipeline().is_empty());
}

#[test]
fn check_name_invalid_char_position() {
    assert_eq!(
        CheckName::new("lint-all"),
        Err(CheckNameError::InvalidChar { name: "lint-all".to_string(), ch: '-', pos: 4 })
    );
    assert_eq!(CheckName::new(""), Err(CheckNameError::Empty));
}

#[test]
fn blank_commands_use_unicode_whitespace() {
    assert!(blank(""));
    assert!(blank(" \t\n\u{3000}"));
    assert!(!blank(" x "));
}

#[test]
fn compile_with_explicit_file_list() {
    let compiled = design_rulebook().compile(&design_files()).unwrap();
    assert_eq!(compiled.filesets().len(), 5);
    assert_eq!(compiled.perspectives().len(), 2);
    assert_eq!(compiled.check().len(), 2);
    assert_eq!(compiled.check().get(&name("test")).unwrap().policy(), CheckPolicy::Skippable);
}

#[test]
fn compile_surfaces_fileset_validation_failures() {
    let mut filesets = FileSetTable::new();
    filesets.insert(
        Name::new("Broken").unwrap(),
        Definition::Compound(ExprParser::new("MissingFiles").parse().unwrap()),
    );
    let rulebook = Rulebook::new(filesets, PerspectiveTable::new(), checks(&[], &[]));
    let err = rulebook.compile(&[]).unwrap_err();
    assert!(matches!(err, RulebookError::FileSet(_)));
}

#[test]
fn compile_reports_check_errors_first() {
    let mut filesets = FileSetTable::new();
    filesets.insert(
        Name::new("Broken").unwrap(),
        Definition::Compound(ExprParser::new("MissingFiles").parse().unwrap()),
    );
    let rulebook = Rulebook::new(filesets, PerspectiveTable::new(), checks(&["lint"], &[]));
    let err = rulebook.compile(&[]).unwrap_err();
    assert!(matches!(err, RulebookError::Check(CheckValidationError::UndefinedPipelineEntry { .. })));
}

#[test]
fn perspective_summaries_match_compiled_sets() {
    let compiled = design_rulebook().compile(&design_files()).unwrap();
    let summaries = compiled.perspective_summaries();
    assert_eq!(summaries.len(), 2);
    assert_eq!(summaries[0].name.as_str(), "AuthImplementor");
    assert_eq!(summaries[0].read_count, 1);
    assert_eq!(summaries[0].write_count, 2);
    assert_eq!(summaries[1].name.as_str(), "AuthTester");
    assert_eq!(summaries[1].read_count, 1);
    assert_eq!(summaries[1].write_count, 1);
}

#[test]
fn default_template_is_a_valid_empty_rulebook() {
    let table: toml::Table = toml::from_str(Rulebook::default_template()).unwrap();
    assert!(table["filesets"].as_table().unwrap().is_empty());
    assert!(table["perspectives"].as_table().unwrap().is_empty());
    assert!(table["checks"]["pipeline"].as_array().unwrap().is_empty());
}

#[test]
fn rulebook_path_joins_workspace_root() {
    assert_eq!(Rulebook::rulebook_path("/repo"), "/repo/.multorum/rulebook.toml");
    assert_eq!(Rulebook::rulebook_path("/repo/"), "/repo/.multorum/rulebook.toml");
}

#[test]
fn compile_allows_overlapping_perspectives() {
    let mut filesets = FileSetTable::new();
    filesets.insert(
        Name::new("SpecFiles").unwrap(),
        Definition::Primitive(GlobPattern::new("**/*.notes.md").unwrap()),
    );
    filesets.insert(Name::new("AuthFiles").unwrap(), Definition::Primitive(GlobPattern::new("auth/**").unwrap()));
    let rulebook = Rulebook::new(
        filesets,
        perspectives(&[("P", "SpecFiles", "AuthFiles"), ("Q", "SpecFiles", "AuthFiles")]),
        checks(&[], &[]),
    );

    let compiled = rulebook.compile(&design_files()).unwrap();
    assert_eq!(compiled.perspectives().len(), 2);
}

#[test]
fn summaries_come_in_name_order_whatever_the_declaration_order() {
    let rulebook = Rulebook::new(
        design_filesets(),
        perspectives(&[
            ("Zeta", "AuthSpecs", "AuthTests"),
            ("Alpha", "AuthSpecs", "AuthFiles - AuthSpecs - AuthTests"),
            ("Mid", "SpecFiles", "TestFiles"),
        ]),
        checks(&[], &[]),
    );
    let compiled = rulebook.compile(&design_files()).unwrap();
    let names: Vec<String> =
        compiled.perspective_summaries().iter().map(|s| s.name.as_str().to_string()).collect();
    assert_eq!(names, vec!["Alpha", "Mid", "Zeta"]);
    let filesets: Vec<String> =
        (0..compiled.filesets().len()).map(|i| compiled.filesets().key_at(i).as_str().to_string()).collect();
    assert_eq!(filesets, vec!["AuthFiles", "AuthSpecs", "AuthTests", "SpecFiles", "TestFiles"]);
}

#[test]
fn compiled_pipeline_has_one_entry_per_declared_check() {
    let table = checks(
        &["test", "lint", "fmt"],
        &[
            ("lint", "cargo clippy", CheckPolicy::Always),
            ("fmt", "cargo fmt --check", CheckPolicy::Skippable),
            ("test", "cargo test", CheckPolicy::Skippable),
        ],
    );
    let compiled = table.compile().unwrap();
    assert_eq!(compiled.len(), 3);
    assert_eq!(compiled.len(), compiled.pipeline().len());
    assert!(!compiled.is_empty());
    let declared: Vec<String> =
        (0..compiled.declarations().len()).map(|i| compiled.declarations().key_at(i).as_str().to_string()).collect();
    assert_eq!(declared, vec!["fmt", "lint", "test"]);
    let pipeline: Vec<String> = compiled.pipeline().iter().map(|n| n.as_str().to_string()).collect();
    assert_eq!(pipeline, vec!["test", "lint", "fmt"]);
}

#[test]
fn check_policies_are_read_from_their_names() {
    assert_eq!(CheckPolicy::from_text("always"), Some(CheckPolicy::Always));
    assert_eq!(CheckPolicy::from_text("skippable"), Some(CheckPolicy::Skippable));
    assert_eq!(CheckPolicy::from_text("Always"), None);
    assert_eq!(CheckPolicy::from_text(""), None);
    assert_eq!(CheckPolicy::default(), CheckPolicy::Always);
}
