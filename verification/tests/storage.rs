use multorum::bundle::{path_file_name, BundleError, BundlePayload};
use multorum::cli::{BundlePayloadArgs, ReplyReferenceArgs};
use multorum::path_set::PathSet;
use multorum::perspective::name::PerspectiveName;
use multorum::runtime::commit::CanonicalCommitHash;
use multorum::runtime::error::RuntimeError;
use multorum::runtime::forward::{check_reported_head, reported_head, ForwardWorker};
use multorum::runtime::orchestrator::audit_entry_exists;
use multorum::runtime::paths::MultorumPaths;
use multorum::sort::sort_by_text_key;
use multorum::runtime::group::{BiddingGroupRecord, StateFile, WorkerEntry};
use multorum::runtime::mailbox::{
    select_messages, MailboxDirection, MessageKind, ProtocolVersion, ProtocolVersionError,
    Sequence, SequenceFilter,
};
use multorum::runtime::orchestrator::status;
use multorum::runtime::records::{GroupStateRecord, WorkerStateRecord};
use multorum::runtime::state::{MailboxMessageView, WorkerState};
use multorum::runtime::storage::{
    ack_file_name, bundle_dir_name, bundle_summary, gitignore_warning, next_sequence, padded_sequence,
    protocol_version, rationale_paths, sequence_of_name, temp_bundle_dir_name, update_gitignore,
};
use multorum::runtime::timestamp::Timestamp;
use multorum::runtime::worker_id::WorkerId;

fn pname(s: &str) -> PerspectiveName {
    PerspectiveName::new(s).unwrap()
}

fn wid(s: &str) -> WorkerId {
    WorkerId::new(s).unwrap()
}

fn hash(s: &str) -> CanonicalCommitHash {
    CanonicalCommitHash::new(s.to_string())
}

fn set_of(strs: &[&str]) -> PathSet {
    PathSet::from_paths(&strs.iter().map(|s| s.to_string()).collect())
}

fn group_record(p: &str, read: &[&str], write: &[&str]) -> GroupStateRecord {
    GroupStateRecord {
        perspective: pname(p),
        base_commit: hash("base"),
        read_set: set_of(read),
        write_set: set_of(write),
    }
}

fn worker_record(id: &str, p: &str, state: WorkerState) -> WorkerStateRecord {
    WorkerStateRecord {
        worker_id: wid(id),
        perspective: pname(p),
        state,
        worktree_path: format!("/repo/.multorum/tr/{id}"),
        submitted_head_commit: None,
    }
}

fn entry(id: &str, state: WorkerState) -> WorkerEntry {
    WorkerEntry {
        worker_id: wid(id),
        state,
        worktree_path: format!("/repo/.multorum/tr/{id}"),
        submitted_head_commit: None,
    }
}

fn group(p: &str, read: &[&str], write: &[&str], workers: Vec<WorkerEntry>) -> BiddingGroupRecord {
    BiddingGroupRecord {
        perspective: pname(p),
        base_commit: hash("base"),
        read_set: set_of(read),
        write_set: set_of(write),
        workers,
    }
}

fn ids(group: &BiddingGroupRecord) -> Vec<String> {
    group.workers.iter().map(|w| w.worker_id.as_str().to_string()).collect()
}

#[test]
fn records_join_into_sorted_groups() {
    let groups = vec![group_record("Beta", &["b.rs"], &["b.rs"]), group_record("Alpha", &[], &["a.rs"])];
    let workers = vec![
        worker_record("beta-2", "Beta", WorkerState::Active),
        worker_record("alpha-1", "Alpha", WorkerState::Blocked),
        worker_record("beta-1", "Beta", WorkerState::Merged),
    ];
    let state = StateFile::from_records(groups, workers).unwrap();
    assert_eq!(state.groups.len(), 2);
    assert_eq!(state.groups[0].perspective.as_str(), "Alpha");
    assert_eq!(state.groups[1].perspective.as_str(), "Beta");
    assert_eq!(ids(&state.groups[0]), vec!["alpha-1"]);
    assert_eq!(ids(&state.groups[1]), vec!["beta-1", "beta-2"]);
    assert_eq!(state.groups[1].workers[0].state, WorkerState::Merged);
    assert!(state.groups[1].write_set.contains(&"b.rs".to_string()));
}

#[test]
fn duplicate_group_records_are_refused() {
    let groups = vec![group_record("Alpha", &[], &[]), group_record("Alpha", &[], &["x"])];
    let error = StateFile::from_records(groups, vec![]).unwrap_err();
    assert!(matches!(error, RuntimeError::CheckFailed(ref m)
        if m == "duplicate persisted group state for one perspective"));
}

#[test]
fn duplicate_worker_records_are_refused() {
    let groups = vec![group_record("Alpha", &[], &[])];
    let workers = vec![
        worker_record("alpha-1", "Alpha", WorkerState::Active),
        worker_record("alpha-1", "Alpha", WorkerState::Merged),
    ];
    let error = StateFile::from_records(groups, workers).unwrap_err();
    assert!(matches!(error, RuntimeError::CheckFailed(ref m)
        if m == "duplicate persisted worker state for `alpha-1`"));
}

#[test]
fn orphaned_worker_records_are_refused() {
    let groups = vec![group_record("Alpha", &[], &[])];
    let workers = vec![worker_record("beta-1", "Beta", WorkerState::Active)];
    let error = StateFile::from_records(groups, workers).unwrap_err();
    assert!(matches!(error, RuntimeError::CheckFailed(ref m)
        if m == "worker `beta-1` references missing group `Beta`"));
}

#[test]
fn records_round_trip_through_storage() {
    let state = StateFile {
        groups: vec![
            group("Zeta", &["z.rs"], &["z.rs"], vec![entry("zeta-2", WorkerState::Active), entry("zeta-1", WorkerState::Committed)]),
            group("Alpha", &["a.rs"], &["b.rs"], vec![entry("alpha-1", WorkerState::Blocked)]),
        ],
    };
    let (groups, workers) = state.into_records();
    let group_names: Vec<&str> = groups.iter().map(|g| g.perspective.as_str()).collect();
    assert_eq!(group_names, vec!["Alpha", "Zeta"]);
    let worker_names: Vec<&str> = workers.iter().map(|w| w.worker_id.as_str()).collect();
    assert_eq!(worker_names, vec!["alpha-1", "zeta-1", "zeta-2"]);
    assert_eq!(workers[1].perspective.as_str(), "Zeta");
    let back = StateFile::from_records(groups, workers).unwrap();
    assert_eq!(back.groups.len(), 2);
    assert_eq!(back.groups[0].perspective.as_str(), "Alpha");
    assert_eq!(ids(&back.groups[1]), vec!["zeta-1", "zeta-2"]);
    assert_eq!(back.groups[1].workers[0].state, WorkerState::Committed);
    assert!(back.groups[0].write_set.contains(&"b.rs".to_string()));
}

#[test]
fn bundle_names_pad_sequence_numbers() {
    assert_eq!(padded_sequence(7), "0007");
    assert_eq!(padded_sequence(12345), "12345");
    assert_eq!(bundle_dir_name(Sequence(3), MessageKind::Report), "0003-report");
    assert_eq!(ack_file_name(Sequence(42)), "0042.ack");
    assert_eq!(temp_bundle_dir_name(MessageKind::Task, Sequence(9)), ".tmp-task-9");
    assert_eq!(protocol_version(), ProtocolVersion(1));
}

#[test]
fn next_sequence_follows_the_largest_bundle() {
    assert_eq!(next_sequence(&vec![]), Sequence(1));
    let names = vec![
        "0002-task".to_string(),
        ".tmp-hint-7".to_string(),
        "0010-report".to_string(),
        "notes".to_string(),
    ];
    assert_eq!(next_sequence(&names), Sequence(11));
    assert_eq!(sequence_of_name("0010-report"), Some(10));
    assert_eq!(sequence_of_name("12"), Some(12));
    assert_eq!(sequence_of_name(".tmp-task-3"), None);
}

#[test]
fn bundle_summary_uses_first_non_blank_line() {
    assert_eq!(bundle_summary(Some("\n  \n  Fix the parser  \nmore"), MessageKind::Hint), "Fix the parser");
    assert_eq!(bundle_summary(Some("first\r\nsecond"), MessageKind::Hint), "first");
    assert_eq!(bundle_summary(Some("   \n\t"), MessageKind::Resolve), "resolve");
    assert_eq!(bundle_summary(None, MessageKind::Commit), "commit");
}

#[test]
fn gitignore_is_repaired_with_missing_entries() {
    let (content, added) = update_gitignore(None);
    assert_eq!(content, "orchestrator/\ntr/\n");
    assert!(added.is_empty());
    let (content, added) = update_gitignore(Some("target/\ntr/\n"));
    assert_eq!(content, "target/\ntr/\norchestrator/\n");
    assert_eq!(added, vec!["orchestrator/"]);
    let (content, added) = update_gitignore(Some("orchestrator/\ntr/\n"));
    assert_eq!(content, "orchestrator/\ntr/\n");
    assert!(added.is_empty());
}

#[test]
fn rationale_paths_point_into_the_audit_bundle() {
    let (body, artifacts) =
        rationale_paths("/repo/.multorum/audit/x", true, &vec!["/tmp/stage/artifacts/log.txt".to_string()]);
    assert_eq!(body, Some("/repo/.multorum/audit/x/body.md".to_string()));
    assert_eq!(artifacts, vec!["/repo/.multorum/audit/x/artifacts/log.txt".to_string()]);
    let (body, artifacts) = rationale_paths("/a", false, &vec![]);
    assert_eq!(body, None);
    assert!(artifacts.is_empty());
}

fn message(kind: MessageKind, sequence: u64, head: Option<&str>) -> MailboxMessageView {
    MailboxMessageView {
        worker_id: wid("auth-1"),
        perspective: pname("Auth"),
        direction: MailboxDirection::Outbox,
        kind,
        sequence: Sequence(sequence),
        created_at: Timestamp::parse("2024-01-01T00:00:00Z").unwrap(),
        acknowledged: false,
        head_commit: head.map(hash),
        summary: String::new(),
        bundle_path: String::new(),
    }
}

#[test]
fn forward_uses_the_latest_report_head() {
    let messages = vec![
        message(MessageKind::Report, 1, Some("old")),
        message(MessageKind::Report, 2, Some("new")),
        message(MessageKind::Commit, 3, Some("other")),
    ];
    let head = reported_head(&wid("auth-1"), &pname("Auth"), &messages).unwrap();
    assert_eq!(head.as_str(), "new");
    assert!(check_reported_head(&wid("auth-1"), &pname("Auth"), &head, &hash("new")).is_ok());
    let error = check_reported_head(&wid("auth-1"), &pname("Auth"), &head, &hash("moved")).unwrap_err();
    assert!(matches!(error, RuntimeError::PerspectiveForwardHeadMismatch { ref current_head_commit, .. }
        if current_head_commit.as_str() == "moved"));
}

#[test]
fn forward_perspective_requires_reported_head_commit() {
    let messages = vec![message(MessageKind::Report, 1, None)];
    let error = reported_head(&wid("auth-1"), &pname("Auth"), &messages).unwrap_err();
    assert!(matches!(
        error,
        RuntimeError::PerspectiveForwardMissingReportedHead { ref worker_id, .. }
            if worker_id.as_str() == "auth-1"
    ));
    let error = reported_head(&wid("auth-1"), &pname("Auth"), &vec![]).unwrap_err();
    assert!(matches!(error, RuntimeError::PerspectiveForwardMissingReport { .. }));
}

#[test]
fn forward_perspective_rejects_active_workers() {
    let state = StateFile { groups: vec![group("Auth", &["a.rs"], &["a.rs"], vec![entry("auth-1", WorkerState::Active)])] };
    let error = state.forward_group(&pname("Auth")).unwrap_err();
    assert!(matches!(
        error,
        RuntimeError::PerspectiveForwardRequiresBlocked { ref workers, .. }
            if workers == &vec![(wid("auth-1"), WorkerState::Active)]
    ));
}

#[test]
fn payload_validation_rules() {
    let ok = BundlePayload { body_text: Some("hi".into()), body_path: None, artifacts: vec!["a/log.txt".into()] };
    assert!(ok.validate(false, &vec![true]).is_ok());
    let both = BundlePayload { body_text: Some("hi".into()), body_path: Some("b.md".into()), artifacts: vec![] };
    assert!(matches!(both.validate(true, &vec![]), Err(BundleError::ConflictingBody)));
    let missing = BundlePayload { body_text: None, body_path: Some("b.md".into()), artifacts: vec![] };
    assert!(matches!(missing.validate(false, &vec![]), Err(BundleError::Io { ref reason })
        if reason == "bundle body path is not a file: b.md"));
    let nameless = BundlePayload { body_text: None, body_path: None, artifacts: vec!["x/..".into()] };
    assert!(matches!(nameless.validate(false, &vec![true]), Err(BundleError::InvalidArtifactPath)));
    let dup = BundlePayload { body_text: None, body_path: None, artifacts: vec!["a/log.txt".into(), "b/log.txt".into()] };
    assert!(matches!(dup.validate(false, &vec![true, true]), Err(BundleError::DuplicateArtifactName)));
    let absent = BundlePayload { body_text: None, body_path: None, artifacts: vec!["a/log.txt".into()] };
    assert!(matches!(absent.validate(false, &vec![false]), Err(BundleError::Io { ref reason })
        if reason == "bundle artifact path is not a file: a/log.txt"));
}

#[test]
fn file_names_follow_path_components() {
    assert_eq!(path_file_name("a/b.txt"), Some("b.txt".to_string()));
    assert_eq!(path_file_name("a/b/"), Some("b".to_string()));
    assert_eq!(path_file_name("a/b/."), Some("b".to_string()));
    assert_eq!(path_file_name("a/.."), None);
    assert_eq!(path_file_name("/"), None);
    assert_eq!(path_file_name(""), None);
    assert_eq!(path_file_name("."), None);
}

#[test]
fn protocol_versions_round_trip() {
    assert_eq!(ProtocolVersion(1).to_text(), "multorum/v1");
    assert_eq!(ProtocolVersion::parse("multorum/v12"), Ok(ProtocolVersion(12)));
    assert_eq!(ProtocolVersion::parse("v1"), Err(ProtocolVersionError::MissingPrefix));
    assert_eq!(
        ProtocolVersion::parse("multorum/vx"),
        Err(ProtocolVersionError::InvalidNumber { text: "x".to_string() })
    );
    assert_eq!(
        ProtocolVersion::parse("multorum/v4294967296"),
        Err(ProtocolVersionError::InvalidNumber { text: "4294967296".to_string() })
    );
}

#[test]
fn status_lists_live_groups_by_perspective() {
    let state = StateFile {
        groups: vec![
            group("Zeta", &["z.rs"], &["z.rs", "y.rs"], vec![entry("zeta-1", WorkerState::Active), entry("zeta-2", WorkerState::Merged)]),
            group("Alpha", &[], &["a.rs"], vec![entry("alpha-1", WorkerState::Discarded)]),
            group("Beta", &["b.rs"], &[], vec![entry("beta-1", WorkerState::Blocked)]),
        ],
    };
    let s = status(&state);
    assert_eq!(s.active_perspectives.len(), 2);
    assert_eq!(s.active_perspectives[0].perspective.as_str(), "Beta");
    assert_eq!(s.active_perspectives[1].perspective.as_str(), "Zeta");
    assert_eq!(s.active_perspectives[1].worker_ids, vec![wid("zeta-1")]);
    assert_eq!(s.active_perspectives[1].read_count, 1);
    assert_eq!(s.active_perspectives[1].write_count, 2);
    let workers: Vec<&str> = s.workers.iter().map(|w| w.worker_id.as_str()).collect();
    assert_eq!(workers, vec!["beta-1", "zeta-1"]);
}

#[test]
fn cli_options_become_runtime_values() {
    let args = BundlePayloadArgs { body_text: Some("x".into()), body_path: None, artifacts: vec!["f".into()] };
    let payload = args.into_runtime();
    assert_eq!(payload.body_text, Some("x".to_string()));
    assert_eq!(payload.artifacts, vec!["f".to_string()]);
    let reply = ReplyReferenceArgs { in_reply_to: Some(4) }.into_runtime();
    assert_eq!(reply.in_reply_to, Some(Sequence(4)));
    assert_eq!(ReplyReferenceArgs { in_reply_to: None }.into_runtime().in_reply_to, None);
}

#[test]
fn bundle_names_read_back_their_sequence() {
    for n in [0u64, 7, 42, 1234, 98765] {
        let name = bundle_dir_name(Sequence(n), MessageKind::Revise);
        assert_eq!(sequence_of_name(&name), Some(n));
    }
}

#[test]
fn sequence_numbers_advance_by_one_per_bundle() {
    let mut names: Vec<String> = vec!["0004-task".to_string(), ".tmp-report-9".to_string()];
    let first = next_sequence(&names);
    assert_eq!(first, Sequence(5));
    names.push(bundle_dir_name(first, MessageKind::Report));
    assert_eq!(next_sequence(&names), Sequence(6));
}

#[test]
fn after_filter_passes_only_later_sequences() {
    let all = SequenceFilter::after(None);
    assert!(all.matches(Sequence(0)));
    assert!(all.matches(Sequence(u64::MAX)));
    let after_two = SequenceFilter::after(Some(Sequence(2)));
    assert!(!after_two.matches(Sequence(1)));
    assert!(!after_two.matches(Sequence(2)));
    assert!(after_two.matches(Sequence(3)));
    let after_last = SequenceFilter::after(Some(Sequence(u64::MAX)));
    assert!(!after_last.matches(Sequence(u64::MAX)));
    assert!(!after_last.matches(Sequence(0)));
}

#[test]
fn selected_messages_are_filtered_and_ordered_by_sequence() {
    let listed = vec![
        message(MessageKind::Commit, 5, None),
        message(MessageKind::Report, 2, None),
        message(MessageKind::Report, 9, None),
        message(MessageKind::Commit, 3, None),
    ];
    let selected = select_messages(listed.clone(), SequenceFilter::after(Some(Sequence(2))));
    let sequences: Vec<u64> = selected.iter().map(|m| m.sequence.0).collect();
    assert_eq!(sequences, vec![3, 5, 9]);
    assert_eq!(selected[0].kind, MessageKind::Commit);

    let exact = select_messages(listed.clone(), SequenceFilter::Exact(Sequence(9)));
    assert_eq!(exact.len(), 1);
    assert_eq!(exact[0].sequence, Sequence(9));

    let range = SequenceFilter::Range { from: Some(Sequence(3)), to: Some(Sequence(5)) };
    let ranged: Vec<u64> = select_messages(listed, range).iter().map(|m| m.sequence.0).collect();
    assert_eq!(ranged, vec![3, 5]);
}

#[test]
fn audit_entries_are_named_by_worker_and_commit() {
    let id = MultorumPaths::audit_entry_id(&wid("auth-1"), &hash("abc123"));
    assert_eq!(id, "auth-1-abc123");
    let paths = MultorumPaths::new("/repo".to_string());
    assert_eq!(paths.audit_entry_root(&id), "/repo/.multorum/audit/auth-1-abc123");
    assert_eq!(paths.audit_entry_file(&id), "/repo/.multorum/audit/auth-1-abc123.toml");
    match audit_entry_exists(&id) {
        RuntimeError::CheckFailed(m) => assert_eq!(m, "audit entry id already exists: auth-1-abc123"),
        other => panic!("unexpected: {other:?}"),
    }
}

#[test]
fn forward_workers_are_ordered_by_worker_id() {
    let forward = |id: &str| ForwardWorker {
        worker: WorkerEntry {
            worker_id: wid(id),
            state: WorkerState::Blocked,
            worktree_path: format!("/repo/.multorum/tr/{id}"),
            submitted_head_commit: None,
        },
        reported_head_commit: hash("head"),
    };
    let sorted = sort_by_text_key(vec![forward("auth-2"), forward("auth-10"), forward("auth-1")]);
    let ids: Vec<&str> = sorted.iter().map(|f| f.worker.worker_id.as_str()).collect();
    assert_eq!(ids, vec!["auth-1", "auth-10", "auth-2"]);
}

#[test]
fn messages_with_one_sequence_keep_their_order() {
    let listed = vec![
        message(MessageKind::Commit, 4, Some("c1")),
        message(MessageKind::Report, 1, None),
        message(MessageKind::Report, 4, Some("c2")),
    ];
    let selected = select_messages(listed, SequenceFilter::after(None));
    let order: Vec<(u64, Option<String>)> = selected
        .iter()
        .map(|m| (m.sequence.0, m.head_commit.as_ref().map(|h| h.as_str().to_string())))
        .collect();
    assert_eq!(
        order,
        vec![(1, None), (4, Some("c1".to_string())), (4, Some("c2".to_string()))]
    );
}

#[test]
fn sorting_by_key_is_stable() {
    let forward = |id: &str, head: &str| ForwardWorker {
        worker: WorkerEntry {
            worker_id: wid(id),
            state: WorkerState::Blocked,
            worktree_path: String::new(),
            submitted_head_commit: None,
        },
        reported_head_commit: hash(head),
    };
    let sorted = sort_by_text_key(vec![forward("b", "1"), forward("a", "2"), forward("b", "3"), forward("a", "4")]);
    let order: Vec<(&str, &str)> =
        sorted.iter().map(|f| (f.worker.worker_id.as_str(), f.reported_head_commit.as_str())).collect();
    assert_eq!(order, vec![("a", "2"), ("a", "4"), ("b", "1"), ("b", "3")]);
}

#[test]
fn gitignore_repairs_are_reported() {
    assert_eq!(gitignore_warning(&vec![]), None);
    let (_, added) = update_gitignore(Some("orchestrator/\n"));
    let warning = gitignore_warning(&added).unwrap();
    assert!(warning.starts_with("added missing entries to `.multorum/.gitignore`: "));
    assert_eq!(
        gitignore_warning(&vec!["a/", "b/"]),
        Some("added missing entries to `.multorum/.gitignore`: a/, b/".to_string())
    );
}
