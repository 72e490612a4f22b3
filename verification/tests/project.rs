use multorum::path_set::PathSet;
use multorum::perspective::compile::CompiledPerspective;
use multorum::perspective::name::PerspectiveName;
use multorum::runtime::commit::CanonicalCommitHash;
use multorum::runtime::error::RuntimeError;
use multorum::runtime::group::{BiddingGroupRecord, StateFile, WorkerEntry};
use multorum::runtime::project::{init_root, init_target, CurrentProject, RuntimeRole};
use multorum::runtime::state::WorkerState;
use multorum::runtime::survey::{summarize, validate_named};
use multorum::runtime::worker_id::WorkerId;

fn pname(s: &str) -> PerspectiveName {
    PerspectiveName::new(s).unwrap()
}

fn set_of(strs: &[&str]) -> PathSet {
    PathSet::from_paths(&strs.iter().map(|s| s.to_string()).collect())
}

fn compiled(read: &[&str], write: &[&str]) -> CompiledPerspective {
    CompiledPerspective::from_materialized_sets(set_of(read), set_of(write))
}

#[test]
fn detects_orchestrator_workspace() {
    let project = CurrentProject::detect("/repo".to_string(), None, false, true).unwrap();
    assert_eq!(project.role(), RuntimeRole::Orchestrator);
    assert_eq!(project.repo_root(), "/repo");
    assert_eq!(project.workspace_root(), "/repo");
    assert_eq!(project.orchestrator_workspace_root().unwrap(), "/repo");
    assert!(matches!(project.worker_repo_root(), Err(RuntimeError::RuntimeRoleMismatch { expected: "worker", actual: "orchestrator", .. })));
}

#[test]
fn detects_worker_worktree() {
    let project = CurrentProject::detect(
        "/repo/.multorum/tr/auth-1".to_string(),
        Some("/repo".to_string()),
        true,
        false,
    )
    .unwrap();
    assert_eq!(project.role(), RuntimeRole::Worker);
    assert_eq!(project.repo_root(), "/repo/.multorum/tr/auth-1");
    assert_eq!(project.workspace_root(), "/repo");
    assert_eq!(project.worker_repo_root().unwrap(), "/repo/.multorum/tr/auth-1");
    assert_eq!(RuntimeRole::Worker.as_str(), "worker");
}

#[test]
fn refuses_unmanaged_and_ambiguous_repositories() {
    let error = CurrentProject::detect("/plain".to_string(), None, false, false).unwrap_err();
    assert!(matches!(error, RuntimeError::UnmanagedProject(ref p) if p == "/plain"));
    let error = CurrentProject::detect("/both".to_string(), None, true, true).unwrap_err();
    assert!(matches!(error, RuntimeError::AmbiguousRuntimeRole { ref repo_root, .. } if repo_root == "/both"));
    let error =
        CurrentProject::detect("/ws/.multorum/tr/x".to_string(), Some("/ws".to_string()), false, false)
            .unwrap_err();
    assert!(matches!(error, RuntimeError::MissingWorkerRuntime(_)));
}

#[test]
fn init_target_prefers_the_workspace_and_warns() {
    let target = init_target("/plain", None, false, false, false);
    assert_eq!(target.workspace_root, "/plain");
    assert!(target.warnings.is_empty());
    let target = init_target("/ws/.multorum/tr/x", Some("/ws".to_string()), true, false, false);
    assert_eq!(target.workspace_root, "/ws");
    assert_eq!(target.warnings.len(), 1);
    let target = init_target("/both", None, true, true, true);
    assert_eq!(target.workspace_root, "/both");
    assert_eq!(target.warnings.len(), 2);
    assert!(target.warnings[0].contains("both"));
    assert_eq!(init_root("/repo", &None), "/repo");
    assert_eq!(init_root("/repo/x", &Some("/repo".to_string())), "/repo");
}

#[test]
fn validation_reports_conflicts_between_candidates() {
    let named = vec![
        (pname("Auth"), compiled(&["shared.rs"], &["auth.rs"])),
        (pname("Api"), compiled(&["auth.rs"], &["api.rs"])),
        (pname("Docs"), compiled(&[], &["docs.md"])),
    ];
    let summaries = summarize(&named);
    assert_eq!(summaries.len(), 3);
    assert_eq!(summaries[0].read_count, 1);
    let v = validate_named(&named, None);
    assert!(!v.ok);
    assert_eq!(v.conflicts.len(), 1);
    assert_eq!(v.conflicts[0].perspective.as_str(), "Auth");
    assert_eq!(v.conflicts[0].blocking_perspective.as_str(), "Api");
    assert_eq!(v.conflicts[0].files, vec!["auth.rs".to_string()]);
}

#[test]
fn validation_checks_candidates_against_live_groups() {
    let state = StateFile {
        groups: vec![BiddingGroupRecord {
            perspective: pname("Core"),
            base_commit: CanonicalCommitHash::new("base".to_string()),
            read_set: set_of(&[]),
            write_set: set_of(&["core.rs"]),
            workers: vec![WorkerEntry {
                worker_id: WorkerId::new("core-1").unwrap(),
                state: WorkerState::Active,
                worktree_path: "/repo/.multorum/tr/core-1".to_string(),
                submitted_head_commit: None,
            }],
        }],
    };
    let named = vec![(pname("Ui"), compiled(&["core.rs"], &["ui.rs"]))];
    let v = validate_named(&named, Some(&state));
    assert!(!v.ok);
    assert_eq!(v.conflicts.len(), 1);
    assert_eq!(v.conflicts[0].blocking_perspective.as_str(), "Core");
    let clean = validate_named(&vec![(pname("Ui"), compiled(&[], &["ui.rs"]))], Some(&state));
    assert!(clean.ok);
}
