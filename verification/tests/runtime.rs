use multorum::path_set::PathSet;
use multorum::perspective::compile::CompiledPerspective;
use multorum::perspective::name::PerspectiveName;
use multorum::rulebook::check::{CheckDecl, CheckName, CheckPolicy, CheckTable};
use multorum::runtime::boundary::{boundary_conflict, boundary_conflict_info, BoundaryOverlap, BoundaryOverlapRelation};
use multorum::runtime::commit::CanonicalCommitHash;
use multorum::runtime::error::RuntimeError;
use multorum::runtime::group::{BiddingGroupRecord, StateFile, WorkerEntry};
use multorum::runtime::mailbox::{MessageKind, Sequence, SequenceFilter};
use multorum::runtime::orchestrator::{
    allocate_worker_id, allocation_available, camel_to_kebab, check_forward_boundary, check_submission, check_write_set,
    collect_exclusion_set, inbox_publish_check, inbox_publish_operation, list_workers, plan_checks,
    plan_merge, resolve_create_worker_id, validate_create_boundary, validate_skip_request, workspace_before_create,
    CreateWorker,
};
use multorum::runtime::paths::{MultorumPaths, WorkerPaths};
use multorum::runtime::state::WorkerState;
use multorum::runtime::timestamp::Timestamp;
use multorum::runtime::worker::{state_after_ack, submission_state};
use multorum::runtime::worker_id::{WorkerId, WorkerIdError};

fn set_of(strs: &[&str]) -> PathSet {
    PathSet::from_paths(&strs.iter().map(|s| s.to_string()).collect())
}

fn compiled_perspective(read: &[&str], write: &[&str]) -> CompiledPerspective {
    CompiledPerspective::from_materialized_sets(set_of(read), set_of(write))
}

fn pname(s: &str) -> PerspectiveName {
    PerspectiveName::new(s).unwrap()
}

fn wid(s: &str) -> WorkerId {
    WorkerId::new(s).unwrap()
}

fn hash(s: &str) -> CanonicalCommitHash {
    CanonicalCommitHash::new(s.to_string())
}

fn entry(id: &str, state: WorkerState) -> WorkerEntry {
    WorkerEntry {
        worker_id: wid(id),
        state,
        worktree_path: format!("/repo/.multorum/tr/{id}"),
        submitted_head_commit: None,
    }
}

fn group(p: &str, read: &[&str], write: &[&str], workers: Vec<WorkerEntry>) -> BiddingGroupRecord {
    BiddingGroupRecord {
        perspective: pname(p),
        base_commit: hash("base"),
        read_set: set_of(read),
        write_set: set_of(write),
        workers,
    }
}

#[test]
fn boundary_overlap_detects_runtime_relations_once() {
    let left = compiled_perspective(&["src/stable.rs"], &["src/shared.rs"]);
    let right = compiled_perspective(&["src/shared.rs"], &["src/other.rs"]);

    let overlap = BoundaryOverlap::detect(&left, &right).unwrap();
    assert_eq!(overlap.relation, BoundaryOverlapRelation::LeftWriteRightRead);
    assert_eq!(overlap.files, vec!["src/shared.rs".to_string()]);
}

#[test]
fn boundary_conflict_info_uses_shared_overlap_detector() {
    let left = compiled_perspective(&["src/stable.rs"], &["src/shared.rs"]);
    let right = compiled_perspective(&["src/shared.rs"], &["src/other.rs"]);

    let conflict = boundary_conflict_info(&pname("Left"), &left, &pname("Right"), &right).unwrap();
    assert_eq!(conflict.relation, "write overlaps read");
    assert_eq!(conflict.files, vec!["src/shared.rs".to_string()]);
}

#[test]
fn boundary_conflict_reports_runtime_relation() {
    let candidate = compiled_perspective(&["a"], &["b"]);
    let active = compiled_perspective(&["c"], &["a"]);
    match boundary_conflict(&pname("New"), &candidate, &pname("Old"), &active) {
        Some(RuntimeError::ConflictWithActiveBiddingGroup { perspective, blocking_perspective, relation, files }) => {
            assert_eq!(perspective.as_str(), "New");
            assert_eq!(blocking_perspective.as_str(), "Old");
            assert_eq!(relation, "candidate read overlaps active write");
            assert_eq!(files, vec!["a".to_string()]);
        }
        other => panic!("unexpected: {other:?}"),
    }
    let clear = compiled_perspective(&["x"], &["y"]);
    assert!(boundary_conflict(&pname("New"), &clear, &pname("Old"), &active).is_none());
}

#[test]
fn worker_id_rules() {
    assert!(WorkerId::new("auth-implementor-1").is_ok());
    assert_eq!(WorkerId::new(""), Err(WorkerIdError::Empty));
    assert_eq!(WorkerId::new("1abc"), Err(WorkerIdError::InvalidStart { id: "1abc".to_string() }));
    assert_eq!(
        WorkerId::new("ab_c"),
        Err(WorkerIdError::InvalidChar { id: "ab_c".to_string(), ch: '_', pos: 2 })
    );
    assert_eq!(WorkerId::new("abc-"), Err(WorkerIdError::TrailingHyphen { id: "abc-".to_string() }));
    assert_eq!(wid("second-worker").to_text(), "second-worker");
}

#[test]
fn worker_state_names_and_liveness() {
    assert_eq!(WorkerState::Active.as_str(), "ACTIVE");
    assert_eq!(WorkerState::Discarded.as_str(), "DISCARDED");
    assert!(WorkerState::Blocked.is_live());
    assert!(!WorkerState::Merged.is_live());
    assert!(WorkerState::Active.can_submit());
    assert!(!WorkerState::Committed.can_submit());
}

#[test]
fn camel_case_becomes_kebab_case() {
    assert_eq!(camel_to_kebab("AuthImplementor"), "auth-implementor");
    assert_eq!(camel_to_kebab("A"), "a");
    assert_eq!(camel_to_kebab("ApiV2Tester"), "api-v2-tester");
}

#[test]
fn allocated_worker_ids_count_up_per_perspective() {
    let mut state = StateFile::new();
    let id = allocate_worker_id(&pname("AuthImplementor"), &state).unwrap();
    assert_eq!(id.as_str(), "auth-implementor-1");

    state.groups.push(group(
        "AuthImplementor",
        &[],
        &["a"],
        vec![entry("auth-implementor-1", WorkerState::Active), entry("auth-implementor-7", WorkerState::Merged)],
    ));
    state.groups.push(group("Other", &[], &["b"], vec![entry("auth-implementor-40", WorkerState::Active)]));
    let id = allocate_worker_id(&pname("AuthImplementor"), &state).unwrap();
    assert_eq!(id.as_str(), "auth-implementor-8");
}

#[test]
fn explicit_worker_id_reuse_rules() {
    let mut state = StateFile::new();
    state.groups.push(group(
        "P",
        &[],
        &["a"],
        vec![entry("live", WorkerState::Active), entry("done", WorkerState::Discarded)],
    ));
    assert!(matches!(
        resolve_create_worker_id(&pname("P"), Some(wid("live")), &state),
        Err(RuntimeError::WorkerIdExists(w)) if w.as_str() == "live"
    ));
    let (w, prev) = resolve_create_worker_id(&pname("P"), Some(wid("done")), &state).unwrap();
    assert_eq!(w.as_str(), "done");
    assert_eq!(prev.unwrap().state, WorkerState::Discarded);
    let (w, prev) = resolve_create_worker_id(&pname("P"), Some(wid("fresh")), &state).unwrap();
    assert_eq!(w.as_str(), "fresh");
    assert!(prev.is_none());
}

#[test]
fn create_checks_candidate_against_other_live_groups() {
    let mut state = StateFile::new();
    state.groups.push(group("Active", &["r"], &["w"], vec![entry("a-1", WorkerState::Blocked)]));
    state.groups.push(group("Finished", &["x"], &["y"], vec![entry("f-1", WorkerState::Merged)]));

    let overlapping = compiled_perspective(&["w"], &["z"]);
    let err = validate_create_boundary(&pname("New"), &overlapping, &state).unwrap_err();
    match err {
        RuntimeError::ConflictWithActiveBiddingGroup { blocking_perspective, relation, .. } => {
            assert_eq!(blocking_perspective.as_str(), "Active");
            assert_eq!(relation, "candidate read overlaps active write");
        }
        other => panic!("unexpected: {other:?}"),
    }

    let touching_finished = compiled_perspective(&["x"], &["y"]);
    assert!(validate_create_boundary(&pname("New"), &touching_finished, &state).is_ok());
    let same_perspective = compiled_perspective(&["w"], &["w"]);
    assert!(validate_create_boundary(&pname("Active"), &same_perspective, &state).is_ok());
}

#[test]
fn create_worker_joins_existing_bidding_group() {
    let mut state = StateFile::new();
    let first = state.join_or_form(pname("P"), hash("base-1"), set_of(&["r"]), set_of(&["w"]), entry("p-1", WorkerState::Active));
    let second = state.join_or_form(pname("P"), hash("base-2"), set_of(&[]), set_of(&["other"]), entry("second-worker", WorkerState::Active));
    assert_eq!(first, second);
    assert_eq!(state.groups.len(), 1);
    assert_eq!(state.groups[0].workers.len(), 2);
    assert_eq!(state.groups[0].base_commit.as_str(), "base-1");
    assert_eq!(state.groups[0].write_set.paths(), &vec!["w".to_string()]);
}

#[test]
fn finalized_group_is_not_joined() {
    let mut state = StateFile::new();
    state.groups.push(group("P", &[], &[], vec![entry("p-1", WorkerState::Merged)]));
    let idx = state.join_or_form(pname("P"), hash("base-2"), set_of(&["r"]), set_of(&["w"]), entry("p-2", WorkerState::Active));
    assert_eq!(idx, 1);
    assert_eq!(state.groups.len(), 2);
}

#[test]
fn discard_clears_boundary_of_emptied_group() {
    let mut state = StateFile::new();
    state.groups.push(group("P", &["r"], &["w"], vec![entry("p-1", WorkerState::Active)]));
    let p = state.discard_worker(&wid("p-1")).unwrap();
    assert_eq!(p.as_str(), "P");
    assert_eq!(state.groups[0].workers[0].state, WorkerState::Discarded);
    assert!(state.groups[0].write_set.is_empty());
    assert!(state.groups[0].read_set.is_empty());

    let err = state.discard_worker(&wid("p-1")).unwrap_err();
    assert!(matches!(err, RuntimeError::InvalidState { operation: "discard worker", actual: WorkerState::Discarded, .. }));
    let err = state.discard_worker(&wid("ghost")).unwrap_err();
    assert!(matches!(err, RuntimeError::UnknownWorker(ref s) if s == "ghost"));
}

#[test]
fn discard_keeps_boundary_while_others_live() {
    let mut state = StateFile::new();
    state.groups.push(group("P", &["r"], &["w"], vec![entry("p-1", WorkerState::Active), entry("p-2", WorkerState::Blocked)]));
    state.discard_worker(&wid("p-1")).unwrap();
    assert!(!state.groups[0].write_set.is_empty());
}

#[test]
fn merge_finalizes_whole_group() {
    let mut state = StateFile::new();
    let mut committed = entry("p-1", WorkerState::Committed);
    committed.submitted_head_commit = Some(hash("head"));
    state.groups.push(group("P", &["r"], &["w"], vec![committed, entry("p-2", WorkerState::Active)]));
    let (g, k) = state.check_merge(&wid("p-1")).unwrap();
    assert_eq!((g, k), (0, 0));
    assert!(matches!(state.check_merge(&wid("p-2")), Err(RuntimeError::InvalidState { operation: "merge worker", .. })));
    state.mark_merged(g, &wid("p-1"));
    assert_eq!(state.groups[0].workers[0].state, WorkerState::Merged);
    assert_eq!(state.groups[0].workers[1].state, WorkerState::Discarded);
    assert!(state.groups[0].write_set.is_empty());
    assert!(!state.groups[0].has_live_workers());
}

#[test]
fn committed_worker_without_head_cannot_merge() {
    let mut state = StateFile::new();
    state.groups.push(group("P", &[], &["w"], vec![entry("p-1", WorkerState::Committed)]));
    assert!(matches!(
        state.check_merge(&wid("p-1")),
        Err(RuntimeError::MissingSubmittedHeadCommit { state: WorkerState::Committed, .. })
    ));
}

#[test]
fn delete_removes_finalized_entry_and_empty_group() {
    let mut state = StateFile::new();
    state.groups.push(group("P", &[], &[], vec![entry("p-1", WorkerState::Merged)]));
    state.groups.push(group("Q", &[], &["q"], vec![entry("q-1", WorkerState::Active)]));
    assert!(matches!(state.check_delete(&wid("q-1")), Err(RuntimeError::InvalidState { expected: "MERGED or DISCARDED", .. })));
    let (g, _) = state.check_delete(&wid("p-1")).unwrap();
    state.delete_worker_entry(g, &wid("p-1"));
    assert_eq!(state.groups.len(), 1);
    assert_eq!(state.groups[0].perspective.as_str(), "Q");
}

#[test]
fn remove_worker_reports_presence() {
    let mut state = StateFile::new();
    state.groups.push(group("P", &[], &[], vec![entry("p-1", WorkerState::Discarded)]));
    assert!(!state.remove_worker(&wid("nobody")));
    assert!(state.remove_worker(&wid("p-1")));
    assert!(state.groups.is_empty());
}

#[test]
fn exclusion_set_is_union_of_live_boundaries() {
    let mut state = StateFile::new();
    state.groups.push(group("P", &["r1"], &["w1"], vec![entry("p-1", WorkerState::Active)]));
    state.groups.push(group("Q", &["r2"], &["w2"], vec![entry("q-1", WorkerState::Merged)]));
    state.groups.push(group("S", &["r1"], &["w3"], vec![entry("s-1", WorkerState::Committed)]));
    let mut files = collect_exclusion_set(&state).paths().clone();
    files.sort();
    assert_eq!(files, vec!["r1", "w1", "w3"]);
}

#[test]
fn live_workers_are_listed_by_id() {
    let mut state = StateFile::new();
    state.groups.push(group("P", &[], &["a"], vec![entry("zed", WorkerState::Active), entry("old", WorkerState::Merged)]));
    state.groups.push(group("Q", &[], &["b"], vec![entry("alpha", WorkerState::Blocked)]));
    let ws = list_workers(&state);
    let ids: Vec<&str> = ws.iter().map(|w| w.worker_id.as_str()).collect();
    assert_eq!(ids, vec!["alpha", "zed"]);
    assert_eq!(ws[0].perspective.as_str(), "Q");
}

#[test]
fn forward_needs_blocked_workers() {
    let mut state = StateFile::new();
    state.groups.push(group("P", &[], &["a"], vec![entry("p-b", WorkerState::Active), entry("p-a", WorkerState::Committed), entry("p-c", WorkerState::Blocked)]));
    match state.forward_group(&pname("P")) {
        Err(RuntimeError::PerspectiveForwardRequiresBlocked { workers, .. }) => {
            let ids: Vec<(&str, WorkerState)> = workers.iter().map(|(w, s)| (w.as_str(), *s)).collect();
            assert_eq!(ids, vec![("p-a", WorkerState::Committed), ("p-b", WorkerState::Active)]);
        }
        other => panic!("unexpected: {other:?}"),
    }
    assert!(matches!(state.forward_group(&pname("Q")), Err(RuntimeError::PerspectiveForwardMissingGroup { .. })));

    let mut blocked = StateFile::new();
    blocked.groups.push(group("P", &[], &["a"], vec![entry("p-1", WorkerState::Blocked)]));
    assert_eq!(blocked.forward_group(&pname("P")).unwrap(), 0);
    let grown = compiled_perspective(&[], &["a", "b"]);
    assert!(check_forward_boundary(&pname("P"), &grown, &blocked, 0).is_ok());
    let shrunk = compiled_perspective(&[], &["b"]);
    assert!(matches!(
        check_forward_boundary(&pname("P"), &shrunk, &blocked, 0),
        Err(RuntimeError::BiddingGroupBoundaryMismatch { .. })
    ));
    blocked.apply_forward(0, hash("new-base"), &grown);
    assert_eq!(blocked.groups[0].base_commit.as_str(), "new-base");
    assert_eq!(blocked.groups[0].write_set.len(), 2);
}

#[test]
fn forward_refuses_a_boundary_that_overlaps_another_live_group() {
    let mut state = StateFile::new();
    state.groups.push(group("P", &[], &["a"], vec![entry("p-1", WorkerState::Blocked)]));
    state.groups.push(group("Q", &["shared"], &["q"], vec![entry("q-1", WorkerState::Active)]));
    let widened = compiled_perspective(&[], &["a", "shared"]);
    match check_forward_boundary(&pname("P"), &widened, &state, 0) {
        Err(RuntimeError::ConflictWithActiveBiddingGroup { perspective, blocking_perspective, files, .. }) => {
            assert_eq!(perspective.as_str(), "P");
            assert_eq!(blocking_perspective.as_str(), "Q");
            assert_eq!(files, vec!["shared".to_string()]);
        }
        other => panic!("unexpected: {other:?}"),
    }
    let apart = compiled_perspective(&["b"], &["a", "c"]);
    assert!(check_forward_boundary(&pname("P"), &apart, &state, 0).is_ok());
    let mut finalized = StateFile::new();
    finalized.groups.push(group("P", &[], &["a"], vec![entry("p-1", WorkerState::Blocked)]));
    finalized.groups.push(group("Q", &["shared"], &["q"], vec![entry("q-1", WorkerState::Merged)]));
    assert!(check_forward_boundary(&pname("P"), &widened, &finalized, 0).is_ok());
}

#[test]
fn inbox_follow_ups_need_matching_state() {
    assert!(inbox_publish_check(MessageKind::Resolve, WorkerState::Blocked).is_ok());
    assert!(inbox_publish_check(MessageKind::Hint, WorkerState::Active).is_ok());
    match inbox_publish_check(MessageKind::Revise, WorkerState::Active) {
        Err(RuntimeError::InvalidState { operation, expected, actual }) => {
            assert_eq!(operation, "publish revise bundle");
            assert_eq!(expected, "COMMITTED");
            assert_eq!(actual, WorkerState::Active);
        }
        other => panic!("unexpected: {other:?}"),
    }
    assert_eq!(inbox_publish_operation(MessageKind::Task), "publish inbox bundle");
}

#[test]
fn worker_lifecycle_transitions() {
    assert_eq!(state_after_ack(MessageKind::Resolve, WorkerState::Blocked), WorkerState::Active);
    assert_eq!(state_after_ack(MessageKind::Hint, WorkerState::Blocked), WorkerState::Blocked);
    assert_eq!(submission_state(WorkerState::Active, WorkerState::Blocked).unwrap(), WorkerState::Blocked);
    assert!(matches!(
        submission_state(WorkerState::Committed, WorkerState::Blocked),
        Err(RuntimeError::InvalidState { operation: "publish worker submission", expected: "ACTIVE", .. })
    ));
}

fn compiled_checks() -> multorum::rulebook::check::CompiledChecks {
    let mut t = CheckTable::new(vec![CheckName::new("lint").unwrap(), CheckName::new("test").unwrap()]);
    t.insert(CheckName::new("lint").unwrap(), CheckDecl::new("cargo clippy".to_string(), CheckPolicy::Always));
    t.insert(CheckName::new("test").unwrap(), CheckDecl::new("cargo test".to_string(), CheckPolicy::Skippable));
    t.compile().unwrap()
}

#[test]
fn skip_requests_only_accept_skippable_checks() {
    let checks = compiled_checks();
    let ok = validate_skip_request(&checks, &vec!["test".to_string(), "test".to_string()]).unwrap();
    assert_eq!(ok.len(), 1);
    match validate_skip_request(&checks, &vec!["lint".to_string()]) {
        Err(RuntimeError::CheckFailed(m)) => assert_eq!(m, "check `lint` is not skippable"),
        other => panic!("unexpected: {other:?}"),
    }
    match validate_skip_request(&checks, &vec!["Nope".to_string()]) {
        Err(RuntimeError::CheckFailed(m)) => assert_eq!(m, "unknown check `Nope`"),
        other => panic!("unexpected: {other:?}"),
    }
    let (ran, skipped) = plan_checks(&checks, &ok);
    assert_eq!(ran, vec![("lint".to_string(), "cargo clippy".to_string())]);
    assert_eq!(skipped, vec!["test".to_string()]);
    let (ran_all, skipped_none) = plan_checks(&checks, &Vec::new());
    assert_eq!(
        ran_all,
        vec![
            ("lint".to_string(), "cargo clippy".to_string()),
            ("test".to_string(), "cargo test".to_string()),
        ]
    );
    assert!(skipped_none.is_empty());
}

#[test]
fn write_set_violations_are_reported() {
    let write = set_of(&["src/a.rs"]);
    let changed = vec!["src/a.rs".to_string(), "src/b.rs".to_string()];
    match check_write_set(&wid("w"), &pname("P"), &hash("base"), &hash("head"), &changed, &write) {
        Err(RuntimeError::WriteSetViolation { violations, .. }) => assert_eq!(violations, vec!["src/b.rs".to_string()]),
        other => panic!("unexpected: {other:?}"),
    }
    assert!(check_write_set(&wid("w"), &pname("P"), &hash("base"), &hash("head"), &vec!["src/a.rs".to_string()], &write).is_ok());
}

#[test]
fn submissions_must_be_new_and_current() {
    assert!(matches!(check_submission(&wid("w"), &hash("b"), &hash("b"), &hash("b")), Err(RuntimeError::NoNewCommit { .. })));
    assert!(matches!(check_submission(&wid("w"), &hash("h"), &hash("b"), &hash("x")), Err(RuntimeError::WorkerHeadMismatch { .. })));
    assert!(check_submission(&wid("w"), &hash("h"), &hash("b"), &hash("h")).is_ok());
}

#[test]
fn sequence_filters() {
    let range = SequenceFilter::Range { from: Some(Sequence(2)), to: Some(Sequence(4)) };
    assert!(!range.matches(Sequence(1)));
    assert!(range.matches(Sequence(2)));
    assert!(range.matches(Sequence(4)));
    assert!(!range.matches(Sequence(5)));
    assert!(SequenceFilter::default().matches(Sequence(99)));
    assert!(SequenceFilter::Exact(Sequence(3)).matches(Sequence(3)));
    assert!(!SequenceFilter::Exact(Sequence(3)).matches(Sequence(4)));
    assert_eq!(MessageKind::Revise.slug(), "revise");
}

#[test]
fn runtime_paths_are_joined_components() {
    let paths = MultorumPaths::new("/repo".to_string());
    assert_eq!(paths.multorum_root(), "/repo/.multorum");
    assert_eq!(paths.orchestrator().exclusion_set(), "/repo/.multorum/orchestrator/exclusion-set.txt");
    assert_eq!(paths.audit_entry(&wid("w-1")), "/repo/.multorum/audit/w-1.toml");
    let worker = paths.worker(&wid("w-1"));
    assert_eq!(worker.worktree_root(), "/repo/.multorum/tr/w-1");
    assert_eq!(worker.inbox_new(), "/repo/.multorum/tr/w-1/.multorum/inbox/new");
    let w = WorkerPaths::new("/wt/".to_string());
    assert_eq!(w.write_set(), "/wt/.multorum/write-set.txt");
}

#[test]
fn managed_worktrees_name_their_workspace() {
    let paths = MultorumPaths::new("/home/dev/repo".to_string());
    let worker = paths.worker(&wid("auth-1"));
    assert_eq!(worker.workspace_root().unwrap(), "/home/dev/repo");
    assert_eq!(WorkerPaths::new("/.multorum/tr/w".to_string()).workspace_root().unwrap(), "/");
    for bad in ["/repo/tr/w", "/repo/.multorum/w", "/repo/.multorum/tr/", "w", "/repo/x.multorum/tr/w"] {
        match WorkerPaths::new(bad.to_string()).workspace_root() {
            Err(RuntimeError::MissingWorkerRuntime(p)) => assert_eq!(p, bad),
            other => panic!("unexpected for {bad}: {other:?}"),
        }
    }
}

#[test]
fn timestamps_are_normalized_to_utc() {
    let t = Timestamp::parse("2024-01-01T02:00:00+02:00").unwrap();
    assert_eq!(t.as_str(), "2024-01-01T00:00:00.000000000Z");
    assert!(Timestamp::parse("yesterday").is_none());
    assert!(Timestamp::now().as_str().ends_with('Z'));
}

#[test]
fn timestamps_read_back_as_the_same_instant() {
    let now = Timestamp::now();
    assert_eq!(Timestamp::parse(now.as_str()), Some(now.clone()));
    let earlier = Timestamp::parse("2024-01-01T00:00:00Z").unwrap();
    let later = Timestamp::parse("2024-01-01T00:00:00.5Z").unwrap();
    assert!(earlier < later);
}

#[test]
fn create_request_builders() {
    let req = CreateWorker::new(pname("P")).with_worker_id(wid("w")).with_overwriting_worktree();
    assert_eq!(req.worker_id.unwrap().as_str(), "w");
    assert!(req.overwriting_worktree);
    assert!(req.task.is_none());
}

#[test]
fn worker_acknowledgement_updates_recorded_state() {
    let mut blocked = entry("auth-1", WorkerState::Blocked);
    blocked.submitted_head_commit = Some(hash("h1"));
    let mut state = StateFile { groups: vec![group("Auth", &["a"], &["b"], vec![blocked])] };
    state.acknowledge_worker(&wid("auth-1"), "/repo/.multorum/tr/auth-1", MessageKind::Hint).unwrap();
    assert_eq!(state.groups[0].workers[0].state, WorkerState::Blocked);
    state.acknowledge_worker(&wid("auth-1"), "/repo/.multorum/tr/auth-1", MessageKind::Resolve).unwrap();
    assert_eq!(state.groups[0].workers[0].state, WorkerState::Active);
    assert_eq!(state.groups[0].workers[0].submitted_head_commit, Some(hash("h1")));
    match state.acknowledge_worker(&wid("auth-1"), "/elsewhere", MessageKind::Task) {
        Err(RuntimeError::MissingWorkerRuntime(p)) => assert_eq!(p, "/elsewhere"),
        other => panic!("unexpected: {other:?}"),
    }
    assert!(matches!(
        state.acknowledge_worker(&wid("auth-9"), "/repo/.multorum/tr/auth-9", MessageKind::Task),
        Err(RuntimeError::UnknownWorker(_))
    ));
}

#[test]
fn only_active_workers_submit() {
    let mut state = StateFile {
        groups: vec![group("Auth", &["a"], &["b"], vec![entry("auth-1", WorkerState::Active)])],
    };
    state.submit_worker(&wid("auth-1"), WorkerState::Committed, Some(hash("h2"))).unwrap();
    assert_eq!(state.groups[0].workers[0].state, WorkerState::Committed);
    assert_eq!(state.groups[0].workers[0].submitted_head_commit, Some(hash("h2")));
    match state.submit_worker(&wid("auth-1"), WorkerState::Blocked, None) {
        Err(RuntimeError::InvalidState { operation, expected, actual }) => {
            assert_eq!(operation, "publish worker submission");
            assert_eq!(expected, "ACTIVE");
            assert_eq!(actual, WorkerState::Committed);
        }
        other => panic!("unexpected: {other:?}"),
    }
    assert_eq!(state.groups[0].workers[0].state, WorkerState::Committed);
}

#[test]
fn reused_worker_ids_replace_workspaces_only_when_asked() {
    let previous = entry("auth-1", WorkerState::Merged);
    assert!(matches!(workspace_before_create(&previous, false, false), Ok(false)));
    assert!(matches!(workspace_before_create(&previous, true, true), Ok(true)));
    match workspace_before_create(&previous, true, false) {
        Err(RuntimeError::ExistingWorkerWorkspace { worker_id, state, worktree_path }) => {
            assert_eq!(worker_id, wid("auth-1"));
            assert_eq!(state, WorkerState::Merged);
            assert_eq!(worktree_path, "/repo/.multorum/tr/auth-1");
        }
        other => panic!("unexpected: {other:?}"),
    }
}

#[test]
fn allocation_stops_at_the_largest_number() {
    let mut state = StateFile::new();
    state.groups.push(group("Auth", &[], &["a"], vec![entry("auth-7", WorkerState::Active)]));
    assert!(allocation_available(&pname("Auth"), &state));
    state.groups.push(group("Auth", &[], &["a"], vec![entry("auth-18446744073709551615", WorkerState::Merged)]));
    assert!(!allocation_available(&pname("Auth"), &state));
    assert!(allocation_available(&pname("Billing"), &state));
}

#[test]
fn conflict_files_are_listed_once_each_in_path_order() {
    let left = compiled_perspective(&[], &["src/z.rs", "src/a.rs", "src/a/b.rs", "src/m.rs"]);
    let right = compiled_perspective(&["src/m.rs", "src/a/b.rs", "src/z.rs", "src/a.rs"], &[]);
    let conflict = boundary_conflict_info(&pname("Left"), &left, &pname("Right"), &right).unwrap();
    assert_eq!(conflict.relation, "write overlaps read");
    assert_eq!(
        conflict.files,
        vec!["src/a/b.rs".to_string(), "src/a.rs".to_string(), "src/m.rs".to_string(), "src/z.rs".to_string()]
    );
}

#[test]
fn checked_forward_moves_the_group_only_when_the_boundary_is_clear() {
    let mut state = StateFile::new();
    state.groups.push(group("P", &[], &["a"], vec![entry("p-1", WorkerState::Blocked)]));
    state.groups.push(group("Q", &["shared"], &["q"], vec![entry("q-1", WorkerState::Active)]));
    let widened = compiled_perspective(&[], &["a", "shared"]);
    match state.forward_checked(0, hash("next"), &widened) {
        Err(RuntimeError::ConflictWithActiveBiddingGroup { blocking_perspective, .. }) => {
            assert_eq!(blocking_perspective.as_str(), "Q");
        }
        other => panic!("unexpected: {other:?}"),
    }
    assert_eq!(state.groups[0].base_commit.as_str(), "base");
    assert_eq!(state.groups[0].write_set.to_vec(), vec!["a".to_string()]);

    let narrowed = compiled_perspective(&[], &[]);
    assert!(matches!(
        state.forward_checked(0, hash("next"), &narrowed),
        Err(RuntimeError::BiddingGroupBoundaryMismatch { .. })
    ));

    let apart = compiled_perspective(&["b"], &["a", "c"]);
    assert!(state.forward_checked(0, hash("next"), &apart).is_ok());
    assert_eq!(state.groups[0].base_commit.as_str(), "next");
    assert_eq!(state.groups[0].write_set.to_vec(), vec!["a".to_string(), "c".to_string()]);
    assert_eq!(state.groups[0].read_set.to_vec(), vec!["b".to_string()]);
    assert_eq!(state.groups[1].write_set.to_vec(), vec!["q".to_string()]);
}

#[test]
fn records_can_be_changed_in_place_through_lookups() {
    let mut state = StateFile::new();
    state.groups.push(group("P", &[], &["a"], vec![entry("p-1", WorkerState::Merged)]));
    state.groups.push(group("P", &[], &["a"], vec![entry("p-2", WorkerState::Active), entry("p-3", WorkerState::Blocked)]));
    state.groups.push(group("Q", &[], &["q"], vec![entry("q-1", WorkerState::Active)]));

    let live = state.find_live_group_mut(&pname("P")).unwrap();
    assert_eq!(live.workers[0].worker_id.as_str(), "p-2");
    live.base_commit = hash("moved");
    assert_eq!(state.groups[1].base_commit.as_str(), "moved");
    assert_eq!(state.groups[0].base_commit.as_str(), "base");
    assert!(state.find_live_group_mut(&pname("R")).is_none());

    let holder = state.find_worker_group_mut(&wid("p-3")).unwrap();
    let worker = holder.find_worker_mut(&wid("p-3")).unwrap();
    worker.state = WorkerState::Committed;
    assert_eq!(state.groups[1].workers[1].state, WorkerState::Committed);
    assert_eq!(state.groups[1].workers[0].state, WorkerState::Active);
    assert!(state.find_worker_group_mut(&wid("nobody")).is_none());
    assert!(state.groups[2].find_worker_mut(&wid("p-3")).is_none());
}

#[test]
fn merge_decisions_come_in_order_before_any_check_is_planned() {
    let mut t = CheckTable::new(vec![CheckName::new("lint").unwrap(), CheckName::new("test").unwrap()]);
    t.insert(CheckName::new("lint").unwrap(), CheckDecl::new("cargo clippy".to_string(), CheckPolicy::Always));
    t.insert(CheckName::new("test").unwrap(), CheckDecl::new("cargo test".to_string(), CheckPolicy::Skippable));
    let checks = t.compile().unwrap();
    let mut state = StateFile::new();
    let mut w = entry("p-1", WorkerState::Committed);
    w.submitted_head_commit = Some(hash("head"));
    state.groups.push(group("P", &[], &["src/a.rs"], vec![w]));
    let inside = vec!["src/a.rs".to_string()];
    let outside = vec!["src/a.rs".to_string(), "src/b.rs".to_string()];
    let skip_test = vec!["test".to_string()];
    let skip_lint = vec!["lint".to_string()];

    assert!(matches!(
        plan_merge(&state, 0, 0, &hash("base"), &hash("base"), &checks, &skip_lint, &outside),
        Err(RuntimeError::NoNewCommit { .. })
    ));
    assert!(matches!(
        plan_merge(&state, 0, 0, &hash("head"), &hash("moved"), &checks, &skip_lint, &outside),
        Err(RuntimeError::WorkerHeadMismatch { .. })
    ));
    assert!(matches!(
        plan_merge(&state, 0, 0, &hash("head"), &hash("head"), &checks, &skip_lint, &outside),
        Err(RuntimeError::CheckFailed(_))
    ));
    match plan_merge(&state, 0, 0, &hash("head"), &hash("head"), &checks, &skip_test, &outside) {
        Err(RuntimeError::WriteSetViolation { violations, .. }) => assert_eq!(violations, vec!["src/b.rs".to_string()]),
        other => panic!("unexpected: {other:?}"),
    }
    let (run, skipped) = plan_merge(&state, 0, 0, &hash("head"), &hash("head"), &checks, &skip_test, &inside).unwrap();
    assert_eq!(run, vec![("lint".to_string(), "cargo clippy".to_string())]);
    assert_eq!(skipped, vec!["test".to_string()]);
}
