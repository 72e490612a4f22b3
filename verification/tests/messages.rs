use multorum::bundle::BundleError;
use multorum::fileset::error::{NameError, ParseError, ValidationError};
use multorum::fileset::name::Name;
use multorum::mcp::error::{resource_error_class, McpErrorCode, McpToolError, ResourceErrorClass};
use multorum::path_set::PathSet;
use multorum::perspective::error::{PerspectiveError, SafetyViolation};
use multorum::perspective::name::PerspectiveName;
use multorum::rulebook::error::RulebookError;
use multorum::runtime::commit::CanonicalCommitHash;
use multorum::runtime::error::RuntimeError;
use multorum::runtime::state::WorkerState;
use multorum::runtime::worker_id::{WorkerId, WorkerIdError};

fn pname(s: &str) -> PerspectiveName {
    PerspectiveName::new(s).unwrap()
}

#[test]
fn runtime_role_mismatch_mentions_local_command_in_orchestrator_workspace() {
    let error = RuntimeError::RuntimeRoleMismatch {
        expected: "worker",
        actual: "orchestrator",
        repo_root: "/repo".to_string(),
    };

    assert_eq!(
        error.message(),
        "current repository `/repo` uses the orchestrator runtime, not the worker runtime; this looks like running `local` command in orchestrator workspace"
    );
}

#[test]
fn runtime_role_mismatch_mentions_worker_command_in_worker_workspace() {
    let error = RuntimeError::RuntimeRoleMismatch {
        expected: "orchestrator",
        actual: "worker",
        repo_root: "/repo".to_string(),
    };

    assert_eq!(
        error.message(),
        "current repository `/repo` uses the worker runtime, not the orchestrator runtime; this looks like running `worker` command in worker workspace"
    );
}

#[test]
fn runtime_messages_name_their_subjects() {
    let state = RuntimeError::InvalidState {
        operation: "merge worker",
        expected: "COMMITTED",
        actual: WorkerState::Active,
    };
    assert_eq!(state.message(), "merge worker requires worker state COMMITTED; found ACTIVE");
    let conflict = RuntimeError::RulebookConflict {
        commit: CanonicalCommitHash::new("abc".to_string()),
        blocking_perspectives: vec![pname("Auth"), pname("Api")],
    };
    assert_eq!(
        conflict.message(),
        "cannot activate rulebook commit `abc` while active perspectives are still live: Auth, Api"
    );
    let violation = RuntimeError::WriteSetViolation {
        worker_id: WorkerId::new("auth-1").unwrap(),
        perspective: pname("Auth"),
        base_commit: CanonicalCommitHash::new("b".to_string()),
        head_commit: CanonicalCommitHash::new("h".to_string()),
        violations: vec!["x.rs".to_string(), "y.rs".to_string()],
    };
    assert_eq!(
        violation.message(),
        "write-set violation for worker `auth-1` (`Auth`) between `b` and `h`: x.rs, y.rs"
    );
    assert_eq!(RuntimeError::MessageNotFound.message(), "message not found");
    assert_eq!(RuntimeError::CheckFailed("lint: bad".to_string()).message(), "check failed: lint: bad");
    let blocked = RuntimeError::PerspectiveForwardRequiresBlocked {
        perspective: pname("Auth"),
        workers: vec![(WorkerId::new("auth-1").unwrap(), WorkerState::Active)],
    };
    assert_eq!(
        blocked.message(),
        "cannot forward perspective `Auth` until every live worker is BLOCKED: auth-1 (ACTIVE)"
    );
    let bundle = RuntimeError::Bundle(BundleError::DuplicateArtifactName);
    assert_eq!(bundle.message(), "artifact names must be unique");
}

#[test]
fn nested_errors_carry_their_inner_message() {
    let parse = PerspectiveError::Parse {
        perspective: pname("Auth"),
        source: ParseError::UnexpectedChar { ch: '!', pos: 3 },
    };
    assert_eq!(parse.message(), "in perspective `Auth`: unexpected character `!` at byte 3");
    let name = ParseError::InvalidName(NameError::InvalidStart { name: "foo".to_string() });
    assert_eq!(name.message(), "invalid name: file set name `foo` must start with an uppercase ASCII letter");
    let undefined = ValidationError::Undefined {
        name: Name::new("Missing").unwrap(),
        referenced_by: Name::new("Uses").unwrap(),
    };
    assert_eq!(undefined.message(), "undefined file set `Missing`, referenced by `Uses`");
    let overlap = SafetyViolation::WriteWriteOverlap {
        left: pname("A"),
        right: pname("B"),
        files: PathSet::from_paths(&vec!["x".to_string(), "y".to_string()]),
    };
    assert_eq!(overlap.message(), "write-write overlap between `A` and `B`: 2 shared file(s)");
    let rulebook = RuntimeError::Rulebook(RulebookError::Perspective(PerspectiveError::Safety(overlap)));
    assert_eq!(rulebook.message(), "write-write overlap between `A` and `B`: 2 shared file(s)");
}

#[test]
fn worker_id_errors_explain_the_rule() {
    let error = WorkerId::new("bad_id").unwrap_err();
    assert_eq!(
        error.message(),
        "worker id `bad_id` contains invalid character `_` at byte 3; only lowercase letters, digits, and hyphens are allowed"
    );
    assert_eq!(WorkerIdError::Empty.message(), "worker id is empty");
}

#[test]
fn mcp_errors_keep_code_and_message() {
    let e = McpToolError::from_runtime(RuntimeError::UnknownWorker("w-1".to_string()));
    assert_eq!(e.code, McpErrorCode::UnknownWorker);
    assert_eq!(e.message, "unknown worker: w-1");
    assert_eq!(resource_error_class(e.code), ResourceErrorClass::NotFound);
    assert_eq!(resource_error_class(McpErrorCode::Internal), ResourceErrorClass::Internal);
    assert_eq!(resource_error_class(McpErrorCode::CheckFailed), ResourceErrorClass::InvalidParams);
}
