//! Listing, policy, history, and counters across capsules.

use change_capsule::admission::{
    admit_checkpoint, admit_close, admit_creation, admit_evidence, admit_integration,
    admit_reservation, CheckpointReads, CreationReads, PolicyReads,
};
use change_capsule::audit::{event_id_of, record_event};
use change_capsule::backup::StateFile;
use change_capsule::close::{CloseReads, PendingClose};
use change_capsule::git::{Repository, Snapshot, WorktreeRecord};
use change_capsule::metrics::inspect_record;
use change_capsule::policy::{
    enforce_capsule_policy, enforce_create_policy, enforce_result_policy,
    ignored_usage_for_policy, repository_allowed, Policy, PolicyEntry, PolicyObservation,
    RootReads,
};
use change_capsule::create::IdempotentStep;
use change_capsule::integrate::StartedIntegration;
use change_capsule::inventory::InventoryRun;
use change_capsule::query::StoredEntry;
use change_capsule::validate::project_key;
use change_capsule::worktree::WorktreeInspection;
use change_capsule::{
    AuditEventKind, Author, Capsule, CapsuleManager, CapsuleState, CheckpointOptions,
    CloseOptions, CreateOptions, Error, EvidenceInput, GitPath, IoFault, Links,
    NativePath, ResultKind, ResultRef, StateRecordInspection, HARD_PATCH_BYTES,
};

const BASE: &str = "1111111111111111111111111111111111111111";
const HEAD: &str = "2222222222222222222222222222222222222222";
const ID: &str = "cap-01hzy3v7q8r9s0t1u2v3w4x5y6";

fn path(text: &str) -> NativePath {
    NativePath::new(text)
}

fn manager() -> CapsuleManager {
    CapsuleManager::open(path("/state"))
}

fn repository() -> Repository {
    Repository {
        worktree: path("/repo"),
        common_dir: path("/repo/.git"),
        git_dir: path("/repo/.git"),
    }
}

fn io(fault: IoFault) -> Error {
    Error::Io { path: path("/somewhere"), fault, detail: "refused".to_owned() }
}

/// A capsule that is active in its own workspace.
fn active(id: &str) -> Capsule {
    let key = project_key(&path("/repo/.git")).expect("project key");
    let mut c = manager()
        .initial_capsule(
            id.to_owned(),
            Some("attempt".to_owned()),
            Links::single("task", "issue-42"),
            &repository(),
            key,
            BASE.to_owned(),
            10,
        )
        .expect("initial capsule");
    c.state = CapsuleState::Active;
    c.workspace_git_dir = Some(path("/repo/.git/worktrees/attempt"));
    c
}

/// What proves that a capsule owns its workspace at `head`.
fn owned(c: &Capsule, head: &str) -> WorktreeInspection {
    WorktreeInspection {
        repository: Ok(Repository {
            worktree: c.workspace_path.clone(),
            common_dir: path("/repo/.git"),
            git_dir: path("/repo/.git/worktrees/attempt"),
        }),
        canonical_workspace: Ok(c.workspace_path.clone()),
        branch: Ok(c.branch.clone()),
        registered: Ok(Some(WorktreeRecord {
            path: c.workspace_path.clone(),
            branch: Some(c.branch.clone()),
            head: Some(head.to_owned()),
            bare: false,
        })),
        head: Ok(head.to_owned()),
    }
}

/// What is found where someone else's directory took the workspace's place.
fn replaced(c: &Capsule) -> WorktreeInspection {
    let mut inspection = owned(c, HEAD);
    inspection.repository = Ok(Repository {
        worktree: c.workspace_path.clone(),
        common_dir: path("/elsewhere/.git"),
        git_dir: path("/elsewhere/.git"),
    });
    inspection
}

fn change(patch: &[u8], paths: &[&str]) -> Snapshot {
    Snapshot {
        patch: patch.to_vec(),
        changed_paths: paths.iter().map(|p| GitPath::Utf8((*p).to_owned())).collect(),
    }
}

const SECOND: &str = "cap-01hzy3v7q8r9s0t1u2v3w4x5y7";

fn entry(id: &str, manifest: Result<Capsule, Error>) -> StoredEntry {
    StoredEntry {
        directory: true,
        name: Some(id.to_owned()),
        has_manifest: Ok(true),
        manifest,
    }
}

fn observation(c: &Capsule) -> PolicyObservation {
    PolicyObservation {
        stored: Err(io(IoFault::NotFound)),
        patch: Err(io(IoFault::NotFound)),
        workspace_exists: true,
        inspection: owned(c, HEAD),
        snapshot: Ok(change(b"twelve bytes", &["shared.txt"])),
        ignored_paths: Ok(vec![GitPath::Utf8("ignored.log".to_owned())]),
        ignored_bytes: Ok(100),
    }
}

fn report(policy: Policy, c: Capsule, o: PolicyObservation) -> change_capsule::PolicyReport {
    manager()
        .policy_report(
            Ok(policy),
            Ok(vec![PolicyEntry { capsule: c, observed: o }]),
            Ok(10),
            Ok(20),
            1000,
        )
        .expect("report")
}

/// A policy with these roots, as requested.
fn requesting(roots: &[&str]) -> Policy {
    let mut policy = Policy::default();
    policy.allowed_repository_roots = roots.iter().map(|root| path(root)).collect();
    policy
}

/// A requested root that resolves to a directory.
fn found(requested: &str, canonical: &str) -> RootReads {
    RootReads { requested: path(requested), canonical: Ok(path(canonical)), directory: true }
}

/// A policy with sizes that could be read.
fn held(policy: Policy) -> PolicyReads {
    PolicyReads { policy: Ok(policy), state_bytes: Ok(100), workspace_bytes: Ok(1000) }
}

/// A close of a patch beside some ignored paths.
fn pending(patch: &[u8], ignored: usize) -> PendingClose {
    let inventory = || {
        let roots = (0..ignored).map(|i| GitPath::Utf8(format!("ignored-{i}"))).collect();
        InventoryRun::start(roots).finish()
    };
    let snapshot = || Ok(change(patch, &["shared.txt"]));
    manager()
        .close(
            ID,
            CloseOptions::default(),
            Ok(active(ID)),
            Ok(active(ID)),
            &owned(&active(ID), HEAD),
            CloseReads {
                initial_ignored: Ok(inventory()),
                initial_snapshot: snapshot(),
                initial_head: Ok(HEAD.to_owned()),
                initial_clean: Ok(false),
                snapshot: snapshot(),
                head: Ok(HEAD.to_owned()),
                clean: Ok(false),
                ignored: Ok(inventory()),
            },
            50,
        )
        .expect("close")
}

#[test]
fn skip_invalid_listing_reports_bad_records_without_hiding_good_ones() {
    let entries = || {
        vec![
            entry(ID, Ok(active(ID))),
            entry(
                "cap-corrupted01",
                Err(Error::Json { path: path("/m"), detail: "expected value".to_owned() }),
            ),
        ]
    };
    assert!(manager().list(entries()).is_err(), "strict listing must stay fail-closed");
    let listing = manager().list_reporting(entries());
    assert_eq!(listing.capsules.len(), 1);
    assert_eq!(listing.capsules[0].id, ID);
    assert_eq!(listing.unreadable.len(), 1);
    assert_eq!(listing.unreadable[0].id, "cap-corrupted01");
    assert!(!listing.unreadable[0].error.is_empty());
}

#[test]
fn listing_is_ordered_by_identifier() {
    let listed = manager()
        .list(vec![entry(SECOND, Ok(active(SECOND))), entry(ID, Ok(active(ID)))])
        .expect("list");
    assert_eq!(listed.iter().map(|s| s.id.as_str()).collect::<Vec<_>>(), vec![ID, SECOND]);
    let sweep = manager()
        .recover(vec![entry(SECOND, Ok(active(SECOND))), entry(ID, Ok(active(ID)))])
        .expect("sweep");
    assert_eq!(sweep.iter().map(|v| v.id.as_str()).collect::<Vec<_>>(), vec![ID, SECOND]);
    assert_eq!(sweep[0].project_key, active(ID).project_key);
    let inspected = manager()
        .inspect_state(
            vec![
                StateRecordInspection {
                    id: SECOND.to_owned(),
                    schema_version: Some(2),
                    state: Some("closed".to_owned()),
                    has_result: true,
                    error: None,
                },
                StateRecordInspection {
                    id: ID.to_owned(),
                    schema_version: None,
                    state: None,
                    has_result: false,
                    error: Some("not JSON".to_owned()),
                },
            ],
            Ok(7),
        )
        .expect("inspect");
    assert_eq!(inspected.records[0].id, ID);
    assert_eq!(inspected.records[1].schema_version, Some(2));
    assert_eq!(inspected.supported_schema_version, 5);
    assert_eq!(inspected.state_bytes, 7);
}

#[test]
fn lifecycle_audit_events_and_metrics_are_runtime_neutral() {
    let mut c = active(ID);
    c = record_event(c, AuditEventKind::Created, None, Links::new(), 10);
    c = record_event(c, AuditEventKind::EvidenceAdded, None, Links::new(), 20);
    c.state = CapsuleState::Closed;
    c.closed_at_unix = Some(30);
    c.result = Some(ResultRef {
        kind: ResultKind::Patch,
        head_commit: HEAD.to_owned(),
        patch_sha256: "a".repeat(64),
        result_sha256: "b".repeat(64),
        patch_bytes: 12,
        changed_paths: 1,
        sealed_at_unix: 30,
    });
    c = record_event(c, AuditEventKind::Closed, Some(CapsuleState::Active), Links::new(), 30);
    assert_eq!(
        c.audit_events.iter().map(|e| e.kind).collect::<Vec<_>>(),
        vec![AuditEventKind::Created, AuditEventKind::EvidenceAdded, AuditEventKind::Closed]
    );
    assert!(c.audit_events.windows(2).all(|pair| {
        pair[0].occurred_at_unix <= pair[1].occurred_at_unix
            && pair[0].event_id != pair[1].event_id
            && pair[0].event_id.starts_with("evt-")
    }));
    assert_eq!(c.audit_events[2].state, Some(CapsuleState::Closed));
    assert_eq!(c.audit_events[2].previous_state, Some(CapsuleState::Active));
    assert_eq!(c.audit_events[2].capsule_id.as_deref(), Some(ID));

    let metrics = manager().metrics(Ok(vec![c]), Ok(100), Ok(200), 40).expect("metrics");
    assert_eq!(metrics.capsules, 1);
    assert_eq!(metrics.live_capsules, 1);
    assert_eq!(metrics.sealed_results, 1);
    assert_eq!(metrics.result_patch_bytes, 12);
    assert_eq!(metrics.audit_events, 3);
    assert_eq!(metrics.audit_events_dropped, 0);
    assert_eq!(metrics.state_bytes, 100);
    assert_eq!(metrics.workspace_bytes, 200);
    assert_eq!(metrics.observed_at_unix, 40);
    assert_eq!(metrics.states.len(), 1);
    assert_eq!(metrics.states[0].state, CapsuleState::Closed);
    assert_eq!(metrics.states[0].count, 1);
}

#[test]
fn histories_are_bounded_and_count_what_rolled_off() {
    let mut c = active(ID);
    for n in 0..130 {
        c = record_event(c, AuditEventKind::EvidenceAdded, None, Links::new(), n);
    }
    assert_eq!(c.audit_events.len(), 128);
    assert_eq!(c.audit_events_dropped, 2);
    assert_eq!(c.audit_events[0].occurred_at_unix, 2);
    assert_eq!(c.audit_events[127].occurred_at_unix, 129);
    assert_eq!(manager().audit_events(ID, Ok(c)).expect("events").len(), 128);
}

#[test]
fn the_audit_log_merges_capsules_in_time_order() {
    let mut first = active(ID);
    first = record_event(first, AuditEventKind::Created, None, Links::new(), 10);
    first = record_event(first, AuditEventKind::Closed, None, Links::new(), 30);
    let mut second = active(SECOND);
    second = record_event(second, AuditEventKind::Created, None, Links::new(), 10);
    second = record_event(second, AuditEventKind::Checkpointed, None, Links::new(), 20);
    let log = manager().audit_log(Ok(vec![second, first])).expect("log");
    assert_eq!(
        log.iter().map(|e| (e.occurred_at_unix, e.capsule_id.as_deref())).collect::<Vec<_>>(),
        vec![(10, Some(ID)), (10, Some(SECOND)), (20, Some(SECOND)), (30, Some(ID))]
    );
    assert!(manager().audit_log(Err(io(IoFault::Other))).is_err());
}

#[test]
fn policy_enforces_repository_count_patch_and_ignored_limits() {
    let mut policy = Policy::default();
    policy.allowed_repository_roots = vec![path("/repo"), path("/link"), path("/repo/")];
    policy.max_capsules = Some(1);
    policy.max_patch_bytes = 8;
    policy.max_ignored_paths = Some(0);
    let policy = manager()
        .set_policy(
            policy,
            vec![
                found("/repo", "/repo"),
                found("/link", "/other"),
                found("/repo/", "/repo/"),
            ],
        )
        .expect("set policy");
    assert_eq!(policy.allowed_repository_roots.len(), 2, "in order, each once");
    assert_eq!(policy.allowed_repository_roots[0], path("/other"));
    assert!(repository_allowed(&policy, &path("/repo/nested")));
    assert!(!repository_allowed(&policy, &path("/repository")));

    assert!(
        enforce_create_policy(&policy, &Vec::new(), &repository(), 0, Ok(0), Ok(0)).is_ok()
    );
    assert!(matches!(
        enforce_create_policy(&policy, &vec![active(ID)], &repository(), 0, Ok(0), Ok(0)),
        Err(Error::PolicyViolation(message)) if message.contains("capsule records")
    ));
    assert!(matches!(
        enforce_create_policy(&policy, &Vec::new(), &repository(), 1, Ok(0), Ok(0)),
        Err(Error::PolicyViolation(message)) if message.contains("capsule records")
    ));
    assert!(matches!(
        enforce_result_policy(&policy, 24, 1, 0, 0),
        Err(Error::PolicyViolation(message)) if message == "patch bytes 24 exceeds limit 8"
    ));
    let (count, bytes) = ignored_usage_for_policy(
        &policy,
        Ok(vec![GitPath::Utf8("ignored.log".to_owned())]),
        Err(io(IoFault::Other)),
    )
    .expect("only paths are limited");
    assert_eq!((count, bytes), (1, 0));
    assert!(matches!(
        enforce_result_policy(&policy, 8, 1, count, bytes),
        Err(Error::PolicyViolation(message)) if message.contains("ignored paths")
    ));
    assert!(!report(policy, active(ID), observation(&active(ID))).compliant);

    // The transitions are held to it.
    let limited = || {
        let mut p = Policy::default();
        p.max_capsules = Some(1);
        p.max_patch_bytes = 8;
        p.max_ignored_paths = Some(0);
        p
    };
    let creation = |capsules: Vec<Capsule>| CreationReads {
        general: held(limited()),
        capsules: Ok(capsules),
        reservations: Ok(Vec::new()),
    };
    assert_eq!(admit_creation(active(ID), creation(Vec::new())), Ok(active(ID)));
    assert!(matches!(
        admit_creation(active(ID), creation(vec![active(ID)])),
        Err(Error::PolicyViolation(message)) if message.contains("capsule records")
    ));
    assert!(matches!(
        admit_close(pending(b"a patch of more", 0), held(limited()), 60),
        Err(Error::PolicyViolation(message)) if message.contains("patch bytes")
    ));
    assert!(matches!(
        admit_close(pending(b"small", 1), held(limited()), 60),
        Err(Error::PolicyViolation(message)) if message.contains("ignored paths")
    ));
    assert_eq!(admit_close(pending(b"small", 0), held(limited()), 60), Ok(pending(b"small", 0)));
}

#[test]
fn policy_report_evaluates_active_results_and_reports_uninspectable_workspaces() {
    let limited = || {
        let mut policy = Policy::default();
        policy.max_changed_paths = Some(0);
        policy
    };
    let found = report(limited(), active(ID), observation(&active(ID)));
    assert!(!found.compliant);
    assert_eq!(found.violations, vec![format!("capsule {ID} changed paths 1 exceeds limit 0")]);

    let mut gone = observation(&active(ID));
    gone.inspection = replaced(&active(ID));
    let found = report(limited(), active(ID), gone);
    assert!(!found.compliant);
    assert!(found
        .violations
        .iter()
        .any(|v| v.contains(ID) && v.contains("cannot be inspected")));

    assert!(report(Policy::default(), active(ID), observation(&active(ID))).compliant);
}

#[test]
fn policy_report_evaluates_sealed_results_and_ages() {
    let mut c = active(ID);
    c.state = CapsuleState::Closed;
    c.result = Some(ResultRef {
        kind: ResultKind::Patch,
        head_commit: HEAD.to_owned(),
        patch_sha256: "a".repeat(64),
        result_sha256: "b".repeat(64),
        patch_bytes: 12,
        changed_paths: 3,
        sealed_at_unix: 30,
    });
    let mut policy = Policy::default();
    policy.max_patch_bytes = 10;
    policy.max_capsule_age_seconds = Some(5);
    policy.max_state_bytes = Some(1);
    let o = observation(&c);
    let found = report(policy, c, o);
    assert_eq!(found.violations.len(), 4, "{:?}", found.violations);
    assert_eq!(found.violations[0], "state bytes 10 exceeds limit 1");
    assert_eq!(found.violations[1], format!("capsule {ID} age 990 seconds exceeds limit 5"));
    assert_eq!(found.violations[2], format!("capsule {ID} patch bytes 12 exceeds limit 10"));
    assert!(found.violations[3].contains("result cannot be inspected"));
}

#[test]
fn capsules_older_than_the_policy_allows_are_refused() {
    let aged = || {
        let mut policy = Policy::default();
        policy.max_capsule_age_seconds = Some(100);
        policy
    };
    assert!(enforce_capsule_policy(Ok(aged()), &active(ID), 110, Ok(0), Ok(0)).is_ok());
    assert!(matches!(
        enforce_capsule_policy(Ok(aged()), &active(ID), 111, Ok(0), Ok(0)),
        Err(Error::PolicyViolation(message)) if message == "capsule age 101 seconds exceeds limit 100"
    ));
    assert!(enforce_capsule_policy(Ok(aged()), &active(ID), 0, Ok(0), Ok(0)).is_ok());
}

#[test]
fn the_default_policy_is_permissive_and_valid() {
    let policy = manager().policy(Ok(None)).expect("default");
    assert_eq!(policy, Policy::default());
    assert!(policy.validate().is_ok());
    assert!(repository_allowed(&policy, &path("/anywhere")));
    assert!(enforce_result_policy(&policy, HARD_PATCH_BYTES, usize::MAX, usize::MAX, u64::MAX).is_ok());
    assert!(enforce_result_policy(&policy, HARD_PATCH_BYTES + 1, 0, 0, 0).is_err());
    let mut broken = Policy::default();
    broken.schema_version = 2;
    assert!(broken.validate().is_err());
    let mut unbounded = Policy::default();
    unbounded.max_patch_bytes = HARD_PATCH_BYTES + 1;
    assert!(matches!(
        unbounded.validate(),
        Err(Error::PolicyViolation(message)) if message.ends_with("67108864")
    ));
    let mut none = Policy::default();
    none.max_patch_bytes = 0;
    assert!(none.validate().is_err());
    assert!(matches!(
        manager().set_policy(
            requesting(&["/file"]),
            vec![RootReads {
                requested: path("/file"),
                canonical: Ok(path("/file")),
                directory: false,
            }]
        ),
        Err(Error::PolicyViolation(message)) if message.contains("not a directory: /file")
    ));
}

fn state_file(name: &str, bytes: u64) -> StateFile {
    StateFile { path: path(name), bytes }
}

#[test]
fn unsupported_schema_versions_fail_closed_but_remain_inspectable_and_backupable() {
    let mut old = active(ID);
    old.schema_version = 2;
    assert!(matches!(
        manager().show(ID, Ok(old)),
        Err(Error::SchemaVersion { found: 2, supported: 5 })
    ));
    let inspection = manager()
        .inspect_state(
            vec![inspect_record(
                ID.to_owned(),
                &Ok(b"{\"schema_version\":2,\"state\":\"closed\"}".to_vec()),
                true,
            )],
            Ok(30),
        )
        .expect("inspect old state");
    assert_eq!(inspection.records[0].schema_version, Some(2));
    assert!(inspection.records[0].error.is_none());
    assert_eq!(inspection.records[0].state.as_deref(), Some("closed"));
    assert!(inspection.records[0].has_result);
    let broken = inspect_record(ID.to_owned(), &Ok(b"not JSON".to_vec()), false);
    assert!(broken.error.is_some());
    assert_eq!(broken.schema_version, None);
    let unreadable = inspect_record(ID.to_owned(), &Err(io(IoFault::Other)), false);
    assert_eq!(unreadable.error, Some(io(IoFault::Other).message()));

    let manifest = format!("capsules/{ID}/capsule.json");
    let plan = manager()
        .backup_state(
            &path("backup"),
            Ok(Some(path("/elsewhere/backup"))),
            Ok(false),
            Ok(vec![
                state_file(&manifest, 10),
                state_file(&format!("capsules/{ID}/result.json"), 20),
                state_file(&format!("capsules/{ID}/index-a1b2"), 1000),
                state_file("locks/global.lock", 0),
                state_file("policy.json", 5),
                state_file(&format!("workspaces/key/{ID}/capsule.json"), 1000),
            ]),
        )
        .expect("backup old state");
    assert_eq!(plan.files.len(), 3);
    assert!(plan.files.contains(&state_file(&manifest, 10)));
    assert!(plan.files.contains(&state_file("policy.json", 5)));
    assert_eq!(plan.report.files, 3);
    assert_eq!(plan.report.bytes, 35);
    assert_eq!(plan.report.source, path("/state"));
    assert_eq!(plan.report.destination, path("/elsewhere/backup"));
}

#[test]
fn backups_refuse_existing_and_managed_destinations() {
    let refused = |normalized, present| {
        manager()
            .backup_state(&path("backup"), normalized, present, Ok(Vec::new()))
            .expect_err("refused")
    };
    assert!(matches!(
        refused(Ok(Some(path("/elsewhere/backup"))), Ok(true)),
        Error::InvalidInput(message) if message.contains("already exists")
    ));
    assert!(matches!(
        refused(Ok(Some(path("/state/backup"))), Ok(false)),
        Error::InvalidInput(message) if message.contains("outside managed state")
    ));
    assert!(matches!(
        refused(Ok(None), Ok(false)),
        Error::InvalidInput(message) if message.contains("must name a new directory")
    ));
    assert!(matches!(refused(Err(io(IoFault::NotFound)), Ok(false)), Error::Io { .. }));
}

#[test]
fn checkpoint_policy_applies_to_the_complete_capsule_result() {
    let mut policy = Policy::default();
    policy.max_changed_paths = Some(1);
    // The second checkpoint alone changes one path; the complete result would
    // change two.
    assert!(enforce_result_policy(&policy, 7, 1, 0, 0).is_ok());
    let attempt = enforce_result_policy(&policy, 14, 2, 0, 0);
    assert!(
        matches!(
            attempt,
            Err(Error::PolicyViolation(ref message)) if message.contains("changed paths")
        ),
        "unexpected checkpoint result: {attempt:?}"
    );
    let request = || {
        manager()
            .begin_checkpoint(
                ID,
                &CheckpointOptions::new("second checkpoint", Author::new("Fixture", "fixture@example.test")),
                Ok(active(ID)),
                Ok(active(ID)),
                &owned(&active(ID), HEAD),
                Ok(HEAD.to_owned()),
                Ok(change(b"second", &["second.txt"])),
            )
            .expect("begin")
    };
    let reads = || {
        let mut p = Policy::default();
        p.max_changed_paths = Some(1);
        CheckpointReads {
            general: held(p),
            ignored_paths: Err(io(IoFault::Other)),
            ignored_bytes: Err(io(IoFault::Other)),
        }
    };
    let complete = Ok(change(b"first, second", &["first.txt", "second.txt"]));
    assert!(matches!(
        admit_checkpoint(request(), &complete, reads(), 60),
        Err(Error::PolicyViolation(message)) if message.contains("changed paths")
    ));
    let alone = Ok(change(b"second", &["second.txt"]));
    assert_eq!(admit_checkpoint(request(), &alone, reads(), 60), Ok(request()));
    // What could not be read is reported where the checkpoint is journaled.
    let unread = Err(io(IoFault::Other));
    assert_eq!(admit_checkpoint(request(), &unread, reads(), 60), Ok(request()));
}

#[test]
fn installed_roots_ascend_without_repeats() {
    let asked = ["/srv/b", "/srv", "/link", "/srv/a/x", "/srv/"];
    let mut requested = requesting(&asked);
    requested.max_capsules = Some(3);
    let installed = manager()
        .set_policy(
            requested,
            vec![
                found("/srv/b", "/srv/b"),
                found("/srv", "/srv"),
                found("/link", "/srv/b"),
                found("/srv/a/x", "/srv/a/x"),
                found("/srv/", "/srv/"),
            ],
        )
        .expect("install");
    let roots: Vec<String> =
        installed.allowed_repository_roots.iter().map(|root| root.display()).collect();
    assert_eq!(roots, vec!["/srv", "/srv/a/x", "/srv/b"]);
    assert_eq!(installed.max_capsules, Some(3));
    assert!(installed.validate().is_ok());
    assert!(manager()
        .set_policy(
            requesting(&["/srv", "/gone"]),
            vec![
                found("/srv", "/srv"),
                RootReads {
                    requested: path("/gone"),
                    canonical: Err(io(IoFault::NotFound)),
                    directory: false,
                },
            ],
        )
        .is_err());
    // Every requested root is resolved, and no other.
    for roots in [Vec::new(), vec![found("/other", "/other")]] {
        assert_eq!(
            manager().set_policy(requesting(&["/srv"]), roots),
            Err(Error::PolicyViolation("allowed repository roots were not all resolved".to_owned()))
        );
    }
    let mut kept = Policy::default();
    kept.max_capsules = Some(7);
    assert_eq!(manager().policy(Ok(Some(kept))).expect("stored").max_capsules, Some(7));
}

#[test]
fn event_identities_are_ulids_in_small_letters() {
    assert_eq!(event_id_of("01HZY3V7Q8R9S0T1U2V3W4X5Y6"), "evt-01hzy3v7q8r9s0t1u2v3w4x5y6");
    let event = record_event(
        active(ID),
        AuditEventKind::Created,
        None,
        Links::new(),
        12,
    )
    .audit_events
    .remove(0);
    assert_eq!(event.event_id.len(), 30);
    assert!(event.event_id.starts_with("evt-"));
    assert!(event.event_id[4..].bytes().all(|b| b.is_ascii_digit() || b.is_ascii_lowercase()));
}

#[test]
fn every_transition_is_held_against_the_policy() {
    let aged = || {
        let mut p = Policy::default();
        p.max_capsule_age_seconds = Some(40);
        p
    };
    let attached = || {
        manager()
            .add_evidence(
                ID,
                EvidenceInput::claim("cargo test", 0),
                None,
                Ok(active(ID)),
                Ok(active(ID)),
                &owned(&active(ID), HEAD),
                Ok(change(b"patch", &["shared.txt"])),
                30,
            )
            .expect("attach")
    };
    assert_eq!(admit_evidence(attached(), held(aged()), 50), Ok(attached()));
    assert!(matches!(
        admit_evidence(attached(), held(aged()), 51),
        Err(Error::PolicyViolation(message)) if message == "capsule age 41 seconds exceeds limit 40"
    ));
    assert!(matches!(
        admit_close(pending(b"patch", 0), held(aged()), 51),
        Err(Error::PolicyViolation(message)) if message.contains("capsule age")
    ));
    let full = || {
        let mut p = Policy::default();
        p.max_state_bytes = Some(99);
        p
    };
    let started = || StartedIntegration {
        capsule: active(ID),
        target: repository(),
        result: pending(b"patch", 0).result,
        patch: b"patch".to_vec(),
    };
    assert!(matches!(
        admit_integration(started(), held(full()), 50),
        Err(Error::PolicyViolation(message)) if message == "state bytes 100 exceeds limit 99"
    ));
    assert_eq!(admit_integration(started(), held(Policy::default()), 50), Ok(started()));
    let mut unread = held(full());
    unread.state_bytes = Err(io(IoFault::Other));
    assert_eq!(admit_integration(started(), unread, 50), Err(io(IoFault::Other)));

    let reserve = || {
        match manager()
            .create_idempotent(
                CreateOptions::new(path("/repo")),
                "run:one",
                Ok(repository()),
                Ok(None),
                Ok(BASE.to_owned()),
                10,
            )
            .expect("reserve")
        {
            IdempotentStep::Reserve(record) => record,
            other => panic!("unexpected step {other:?}"),
        }
    };
    let elsewhere = || CreationReads {
        general: held(requesting(&["/elsewhere"])),
        capsules: Err(io(IoFault::Other)),
        reservations: Err(io(IoFault::Other)),
    };
    assert!(matches!(
        admit_reservation(reserve(), elsewhere()),
        Err(Error::PolicyViolation(message))
            if message == "repository is outside allowed roots: /repo"
    ));
    let mut allowed = elsewhere();
    allowed.general = held(requesting(&["/repo"]));
    assert!(admit_reservation(reserve(), allowed).is_ok(), "nothing is counted without a limit");
    let mut counted = elsewhere();
    let mut p = Policy::default();
    p.max_live_capsules = Some(5);
    counted.general = held(p);
    assert_eq!(admit_reservation(reserve(), counted), Err(io(IoFault::Other)));
}

#[test]
fn listings_strictly_ascend_and_share_no_identifier() {
    let broken = || Err(Error::Json { path: path("/m"), detail: "expected value".to_owned() });
    let listing = manager().list_reporting(vec![
        entry("cap-corrupted02", broken()),
        entry(SECOND, Ok(active(SECOND))),
        entry("cap-corrupted01", broken()),
        entry(ID, Ok(active(ID))),
    ]);
    let read: Vec<&str> = listing.capsules.iter().map(|c| c.id.as_str()).collect();
    let unread: Vec<&str> = listing.unreadable.iter().map(|r| r.id.as_str()).collect();
    assert!(read.windows(2).all(|pair| pair[0] < pair[1]));
    assert_eq!(unread, vec!["cap-corrupted01", "cap-corrupted02"]);
    assert_eq!(read.len(), 2);
    assert!(read.iter().all(|id| !unread.contains(id)));
}
