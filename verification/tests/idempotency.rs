//! Idempotency keys, reservations, and their canonical digests.

use change_capsule::create::{
    capsule_id_of, new_capsule_id, CreatingObservation, CreatingOutcome, ExistingRoot, IdempotentStep, LookupReads,
    MaterializeStep,
};
use change_capsule::files::EntryKind;
use change_capsule::git::{Repository, Snapshot, WorktreeRecord};
use change_capsule::idempotency::{
    canonical_request_sha256, key_sha256, reservation_digest, unmaterialized_reservations,
    validate_key, IdempotencyRecord, ReservationEntry,
};
use change_capsule::recover::{recovered, RecoveryPath};
use change_capsule::validate::project_key;
use change_capsule::worktree::{ListedWorktree, WorktreeInspection};
use sha2::{Digest, Sha256};
use change_capsule::{
    Capsule, CapsuleManager, CapsuleState, CreateOptions, Error, GitPath, IdempotencyStatus,
    IoFault, Links, NativePath,
};

const BASE: &str = "1111111111111111111111111111111111111111";
const HEAD: &str = "2222222222222222222222222222222222222222";
const ID: &str = "cap-01hzy3v7q8r9s0t1u2v3w4x5y6";

fn path(text: &str) -> NativePath {
    NativePath::new(text)
}

fn manager() -> CapsuleManager {
    CapsuleManager::open(path("/state"))
}

fn repository() -> Repository {
    Repository {
        worktree: path("/repo"),
        common_dir: path("/repo/.git"),
        git_dir: path("/repo/.git"),
    }
}

fn io(fault: IoFault) -> Error {
    Error::Io { path: path("/somewhere"), fault, detail: "refused".to_owned() }
}

/// A capsule that is active in its own workspace.
fn active(id: &str) -> Capsule {
    let key = project_key(&path("/repo/.git")).expect("project key");
    let mut c = manager()
        .initial_capsule(
            id.to_owned(),
            Some("attempt".to_owned()),
            Links::single("task", "issue-42"),
            &repository(),
            key,
            BASE.to_owned(),
            10,
        )
        .expect("initial capsule");
    c.state = CapsuleState::Active;
    c.workspace_git_dir = Some(path("/repo/.git/worktrees/attempt"));
    c
}

/// What proves that a capsule owns its workspace at `head`.
fn owned(c: &Capsule, head: &str) -> WorktreeInspection {
    WorktreeInspection {
        repository: Ok(Repository {
            worktree: c.workspace_path.clone(),
            common_dir: path("/repo/.git"),
            git_dir: path("/repo/.git/worktrees/attempt"),
        }),
        canonical_workspace: Ok(c.workspace_path.clone()),
        branch: Ok(c.branch.clone()),
        registered: Ok(Some(WorktreeRecord {
            path: c.workspace_path.clone(),
            branch: Some(c.branch.clone()),
            head: Some(head.to_owned()),
            bare: false,
        })),
        head: Ok(head.to_owned()),
    }
}

/// What is found where someone else's directory took the workspace's place.
fn replaced(c: &Capsule) -> WorktreeInspection {
    let mut inspection = owned(c, HEAD);
    inspection.repository = Ok(Repository {
        worktree: c.workspace_path.clone(),
        common_dir: path("/elsewhere/.git"),
        git_dir: path("/elsewhere/.git"),
    });
    inspection
}

fn change(patch: &[u8], paths: &[&str]) -> Snapshot {
    Snapshot {
        patch: patch.to_vec(),
        changed_paths: paths.iter().map(|p| GitPath::Utf8((*p).to_owned())).collect(),
    }
}

fn digest(
    worktree: &str,
    common_dir: &str,
    project_key: &str,
    selector: &str,
    commit: &str,
    label: Option<&str>,
    links: &Links,
) -> String {
    canonical_request_sha256(
        &path(worktree),
        &path(common_dir),
        project_key,
        selector,
        commit,
        &label.map(|l| l.to_owned()),
        links,
    )
}

fn options(label: &str) -> CreateOptions {
    CreateOptions::new(path("/repo"))
        .with_label(label)
        .with_links(Links::single("task", "task-1"))
}

/// The reservation that a first request is bound to.
fn reserve(options: CreateOptions, key: &str, commit: &str) -> IdempotencyRecord {
    let step = manager()
        .create_idempotent(options, key, Ok(repository()), Ok(None), Ok(commit.to_owned()), 77)
        .expect("reserve");
    match step {
        IdempotentStep::Reserve(record) => record,
        IdempotentStep::Replay(_) => panic!("nothing was reserved before"),
    }
}

fn duplicate(record: &IdempotencyRecord) -> IdempotencyRecord {
    IdempotencyRecord {
        schema_version: record.schema_version,
        idempotency_key_sha256: record.idempotency_key_sha256.clone(),
        request_sha256: record.request_sha256.clone(),
        record_sha256: record.record_sha256.clone(),
        capsule_id: record.capsule_id.clone(),
        source_worktree: record.source_worktree.clone(),
        repository_common_dir: record.repository_common_dir.clone(),
        project_key: record.project_key.clone(),
        base_selector: record.base_selector.clone(),
        base_commit: record.base_commit.clone(),
        label: record.label.clone(),
        links: record.links.clone(),
        reserved_at_unix: record.reserved_at_unix,
    }
}

fn replay(
    options: CreateOptions,
    key: &str,
    repository: Repository,
    record: IdempotencyRecord,
    resolved: &str,
) -> Result<IdempotentStep, Error> {
    manager().create_idempotent(
        options,
        key,
        Ok(repository),
        Ok(Some(record)),
        Ok(resolved.to_owned()),
        99,
    )
}

fn first_manifest(record: &IdempotencyRecord) -> Capsule {
    match manager()
        .materialize_idempotency_record(record, Ok(None), Ok(()), Ok(repository()))
        .expect("materialize")
    {
        MaterializeStep::New(capsule) => capsule,
        MaterializeStep::Existing(_) => panic!("no manifest existed"),
    }
}

fn existing_root() -> ExistingRoot {
    ExistingRoot {
        entry: Ok(EntryKind::Directory),
        canonical: Ok(path("/state")),
        capsules: Ok(EntryKind::Directory),
        idempotency: Ok(EntryKind::Directory),
    }
}

fn lookup_at(key: &str, reads: LookupReads) -> Result<change_capsule::IdempotencyLookup, Error> {
    CapsuleManager::lookup_idempotency_key_at(&path("/state"), key, existing_root(), reads)
}

fn reads(record: IdempotencyRecord, manifest: Option<Capsule>) -> LookupReads {
    LookupReads { reservation: Ok(Some(record)), manifest: Ok(manifest), unmaterialized: Ok(()) }
}

#[test]
fn adjacent_fields_cannot_be_confused_by_concatenation() {
    let links = Links::new();
    let left = digest("/w", "/c", "k", "ab", "c", None, &links);
    let right = digest("/w", "/c", "k", "a", "bc", None, &links);
    assert_ne!(left, right, "length framing must separate adjacent fields");

    let with_label = digest("/w", "/c", "k", "x", "y", Some("ab"), &links);
    let shifted = digest("/w", "/c", "k", "x", "yab", None, &links);
    assert_ne!(with_label, shifted);
}

#[test]
fn absent_label_differs_from_empty_label() {
    let links = Links::new();
    assert_ne!(
        digest("/w", "/c", "k", "s", "c", None, &links),
        digest("/w", "/c", "k", "s", "c", Some(""), &links)
    );
}

#[test]
fn link_order_does_not_change_the_digest() {
    let mut forward = Links::new();
    forward.insert("a", "1");
    forward.insert("b", "2");
    let mut reverse = Links::new();
    reverse.insert("b", "2");
    reverse.insert("a", "1");
    assert_eq!(
        digest("/w", "/c", "k", "s", "c", None, &forward),
        digest("/w", "/c", "k", "s", "c", None, &reverse)
    );
}

#[test]
fn path_boundaries_are_framed() {
    let links = Links::new();
    assert_ne!(
        digest("/wabc", "/c", "k", "s", "c", None, &links),
        digest("/w", "abc/c", "k", "s", "c", None, &links)
    );
}

#[test]
fn request_digest_has_a_known_value() {
    // The domain, each field behind its length, paths tagged, no label, no links.
    let mut bytes: Vec<u8> = b"change-capsule creation request v1\0".to_vec();
    for field in ["/w", "/c"] {
        bytes.extend_from_slice(b"unix-bytes\0");
        bytes.extend_from_slice(&(field.len() as u64).to_be_bytes());
        bytes.extend_from_slice(field.as_bytes());
    }
    for field in ["k", "s", "c"] {
        bytes.extend_from_slice(&(field.len() as u64).to_be_bytes());
        bytes.extend_from_slice(field.as_bytes());
    }
    bytes.push(0);
    bytes.extend_from_slice(&0u64.to_be_bytes());
    let expected = hex::encode(Sha256::digest(&bytes));
    assert_eq!(digest("/w", "/c", "k", "s", "c", None, &Links::new()), expected);
}

#[test]
fn keys_are_bounded_opaque_text() {
    assert!(validate_key("run:8f21/attempt:1").is_ok());
    for bad in ["", " lead", "trail ", "nul\0", "tab\t"] {
        assert!(matches!(validate_key(bad), Err(Error::InvalidInput(_))), "{bad:?}");
    }
    let long = "k".repeat(257);
    assert!(matches!(validate_key(&long), Err(Error::InvalidInput(_))));
    let digest = key_sha256("run:one").expect("digest");
    assert_eq!(digest.len(), 64);
    assert_ne!(digest, key_sha256("run:two").expect("digest"));
    assert_ne!(digest, "run:one");
}

#[test]
fn idempotent_create_replays_one_identity_and_conflicts_before_side_effects() {
    let record = reserve(options("same"), "run:one", BASE);
    let id = record.capsule_id.clone();
    match replay(options("same"), "run:one", repository(), duplicate(&record), BASE) {
        Ok(IdempotentStep::Replay(found)) => assert_eq!(found.capsule_id, id),
        other => panic!("unexpected step {other:?}"),
    }

    assert!(matches!(
        replay(options("different"), "run:one", repository(), duplicate(&record), BASE),
        Err(Error::IdempotencyConflict)
    ));
    let mut changed = options("same");
    changed.links.insert("other", "value");
    assert!(matches!(
        replay(changed, "run:one", repository(), duplicate(&record), BASE),
        Err(Error::IdempotencyConflict)
    ));
    assert!(matches!(
        replay(
            options("same").with_base("HEAD^"),
            "run:one",
            repository(),
            duplicate(&record),
            HEAD
        ),
        Err(Error::IdempotencyConflict)
    ));
    let other = Repository {
        worktree: path("/other-repository"),
        common_dir: path("/other-repository/.git"),
        git_dir: path("/other-repository/.git"),
    };
    assert!(matches!(
        replay(options("same"), "run:one", other, duplicate(&record), BASE),
        Err(Error::IdempotencyConflict)
    ));
}

#[test]
fn another_spelling_of_the_same_commit_is_the_same_request() {
    let record = reserve(options("same"), "run:one", BASE);
    assert!(matches!(
        replay(options("same").with_base("main"), "run:one", repository(), record, BASE),
        Ok(IdempotentStep::Replay(_))
    ));
}

#[test]
fn state_roots_are_independent_and_head_replay_does_not_retarget() {
    let record = reserve(options("head"), "shared:key", BASE);
    // The revision moved on; the reservation did not.
    match replay(options("head"), "shared:key", repository(), duplicate(&record), HEAD) {
        Ok(IdempotentStep::Replay(found)) => {
            assert_eq!(found.capsule_id, record.capsule_id);
            assert_eq!(found.base_commit, record.base_commit);
        }
        other => panic!("unexpected step {other:?}"),
    }
    let independent = reserve(options("head"), "shared:key", HEAD);
    assert_ne!(independent.capsule_id, record.capsule_id);
}

#[test]
fn malformed_reservations_fail_closed_promptly() {
    let record = reserve(options("guarded"), "guard:key", BASE);
    let id = record.capsule_id.clone();

    let expect_refusal = |reads: LookupReads, case: &str| {
        let error = lookup_at("guard:key", reads).expect_err(case);
        assert!(
            matches!(error, Error::UnsafeState(_) | Error::Json { .. } | Error::Io { .. }),
            "{case}: {error:?}"
        );
    };

    let unreadable = |e: Error| LookupReads {
        reservation: Err(e),
        manifest: Ok(None),
        unmaterialized: Ok(()),
    };
    expect_refusal(
        unreadable(Error::Json { path: path("/r"), detail: "bad".to_owned() }),
        "malformed JSON",
    );
    expect_refusal(unreadable(io(IoFault::Other)), "unreadable record");

    let mut relabelled = duplicate(&record);
    relabelled.idempotency_key_sha256 = format!("{:064x}", 1_u64);
    expect_refusal(reads(relabelled, None), "filename/digest mismatch");

    let other = reserve(options("other"), "other:key", BASE);
    expect_refusal(reads(other, None), "path substitution");

    let mut tampered = duplicate(&record);
    tampered.base_selector = "main".to_owned();
    expect_refusal(reads(tampered, None), "request mismatch");

    let mut retargeted = first_manifest(&record);
    retargeted.label = Some("retargeted".to_owned());
    expect_refusal(reads(duplicate(&record), Some(retargeted)), "capsule identity mismatch");

    let restored = lookup_at(
        "guard:key",
        reads(duplicate(&record), Some(first_manifest(&record))),
    )
    .expect("restored lookup");
    assert_eq!(restored.capsule_id, id);
}

#[test]
fn lookup_is_direct_and_ignores_unrelated_malformed_state() {
    let record = reserve(options("lookup"), "lookup:key", BASE);
    let id = record.capsule_id.clone();
    let found = manager()
        .lookup_idempotency_key(
            "lookup:key",
            reads(duplicate(&record), Some(first_manifest(&record))),
        )
        .expect("direct lookup");
    assert_eq!(found.capsule_id, id);
    assert_eq!(found.status, IdempotencyStatus::Materialized);
    assert_eq!(found.capsule.expect("capsule").id, id);
    assert_eq!(found.idempotency_key_sha256, key_sha256("lookup:key").expect("digest"));

    let direct = lookup_at("lookup:key", reads(record, None)).expect("state-root lookup");
    assert_eq!(direct.capsule_id, id);
    assert_eq!(direct.status, IdempotencyStatus::Reserved);
    assert!(direct.capsule.is_none());
    assert!(matches!(
        lookup_at(
            "absent:key",
            LookupReads { reservation: Ok(None), manifest: Ok(None), unmaterialized: Ok(()) }
        ),
        Err(Error::IdempotencyNotFound)
    ));
}

#[test]
fn a_state_root_that_does_not_exist_holds_no_reservation() {
    let nothing =
        || LookupReads { reservation: Ok(None), manifest: Ok(None), unmaterialized: Ok(()) };
    let mut absent = existing_root();
    absent.idempotency = Err(io(IoFault::NotFound));
    assert!(matches!(
        CapsuleManager::lookup_idempotency_key_at(&path("/state"), "k", absent, nothing()),
        Err(Error::IdempotencyNotFound)
    ));
    let mut linked = existing_root();
    linked.entry = Ok(EntryKind::Symlink);
    assert!(matches!(
        CapsuleManager::lookup_idempotency_key_at(&path("/state"), "k", linked, nothing()),
        Err(Error::UnsafeState(_))
    ));
}

#[test]
fn minimal_reservation_without_label_or_links_round_trips() {
    let bare = CreateOptions::new(path("/repo"));
    assert!(bare.label.is_none());
    assert_eq!(bare.links.len(), 0);

    let record = reserve(bare, "bare:key", BASE);
    assert!(record.label.is_none());
    assert_eq!(record.links.len(), 0);
    assert!(record.validate(&key_sha256("bare:key").expect("digest")).is_ok());

    match replay(
        CreateOptions::new(path("/repo")),
        "bare:key",
        repository(),
        duplicate(&record),
        BASE,
    ) {
        Ok(IdempotentStep::Replay(found)) => assert_eq!(found.capsule_id, record.capsule_id),
        other => panic!("unexpected step {other:?}"),
    }
    assert!(matches!(
        replay(
            CreateOptions::new(path("/repo")).with_label("now labelled"),
            "bare:key",
            repository(),
            record,
            BASE
        ),
        Err(Error::IdempotencyConflict)
    ));
}

#[test]
fn non_idempotent_create_retains_distinct_identity_behavior() {
    let first = manager()
        .create(options("plain"), Ok(repository()), Ok(BASE.to_owned()), 10)
        .expect("first");
    let second = manager()
        .create(options("plain"), Ok(repository()), Ok(BASE.to_owned()), 10)
        .expect("second");
    assert_ne!(first.id, second.id);

    for created in [first, second] {
        let git_dir = path("/repo/.git/worktrees/attempt");
        let mut inspected = owned(&created, BASE);
        inspected.registered = Ok(Some(WorktreeRecord {
            path: created.workspace_path.clone(),
            branch: Some(created.branch.clone()),
            head: Some(BASE.to_owned()),
            bare: false,
        }));
        let (usable, _) = manager()
            .adopt_added_worktree(created, git_dir, &inspected, 11)
            .expect("adopt");
        assert_eq!(usable.state, CapsuleState::Active);
    }
    assert!(manager()
        .lookup_idempotency_key(
            "plain",
            LookupReads { reservation: Ok(None), manifest: Ok(None), unmaterialized: Ok(()) }
        )
        .is_err());
}

fn nothing_yet(c: &Capsule) -> CreatingObservation {
    CreatingObservation {
        source: Ok(repository()),
        workspace_entry: Ok(false),
        found_git_dir: None,
        inspection: owned(c, BASE),
        head: Ok(BASE.to_owned()),
        branch_head: Ok(None),
        clean: Ok(true),
        unchecked_shape: Ok(false),
        listed: Ok(Vec::new()),
        canonical_workspace: None,
        current_dir: Some(path("/")),
    }
}

#[test]
fn idempotent_retry_resumes_reservation_only_and_manifest_only_windows() {
    let record = reserve(options("crash"), "crash:window", BASE);

    // Interrupted after the reservation: no manifest yet.
    let interrupted =
        lookup_at("crash:window", reads(duplicate(&record), None)).expect("interrupted lookup");
    assert_eq!(interrupted.status, IdempotencyStatus::Reserved);

    // Interrupted after the manifest: the same identity is being created.
    let manifest = first_manifest(&record);
    assert_eq!(manifest.id, record.capsule_id);
    assert_eq!(manifest.state, CapsuleState::Creating);
    assert_eq!(manifest.created_at_unix, record.reserved_at_unix);
    let resumed = match manager()
        .materialize_idempotency_record(&record, Ok(Some(manifest)), Ok(()), Ok(repository()))
        .expect("resume")
    {
        MaterializeStep::Existing(capsule) => capsule,
        MaterializeStep::New(_) => panic!("a second identity"),
    };
    assert_eq!(resumed.id, record.capsule_id);

    // The worktree was never added: add it, and adopt it.
    let observed = nothing_yet(&resumed);
    let to_add = match manager()
        .complete_creating(resumed, observed, true, 80)
        .expect("complete")
    {
        CreatingOutcome::AddWorktree(capsule) => capsule,
        CreatingOutcome::Done { .. } => panic!("nothing exists yet"),
    };
    let inspected = owned(&to_add, BASE);
    let (usable, action) = manager()
        .adopt_added_worktree(to_add, path("/repo/.git/worktrees/attempt"), &inspected, 81)
        .expect("adopt");
    assert_eq!(usable.state, CapsuleState::Active);
    assert_eq!(usable.id, record.capsule_id);
    assert_eq!(action, "completed an interrupted workspace creation");
}

#[test]
fn contradictory_git_state_orphans_reserved_identity_without_replacement() {
    let record = reserve(options("partial"), "partial:git", BASE);
    let capsule = first_manifest(&record);
    let mut observed = nothing_yet(&capsule);
    observed.branch_head = Ok(Some(BASE.to_owned()));
    let orphaned = match manager()
        .complete_creating(capsule, observed, true, 90)
        .expect("same identity becomes orphaned")
    {
        CreatingOutcome::Done { capsule, action, checkout } => {
            assert!(action.contains("contradictory"), "{action}");
            assert!(!checkout);
            capsule
        }
        CreatingOutcome::AddWorktree(_) => panic!("the branch already exists"),
    };
    assert_eq!(orphaned.id, record.capsule_id);
    assert_eq!(orphaned.state, CapsuleState::Orphaned);

    let recorded = change_capsule::audit::record_event(
        orphaned,
        change_capsule::AuditEventKind::Recovered,
        Some(CapsuleState::Creating),
        Links::single("reason", "partial Git creation state is contradictory"),
        90,
    );
    let event = recorded.audit_events.last().expect("orphaning records an audit event");
    assert_eq!(event.state, Some(CapsuleState::Orphaned));
    assert_eq!(event.previous_state, Some(CapsuleState::Creating));
    assert!(event.attributes.get("reason").expect("reason").contains("contradictory"));
    let kept = recorded.audit_events.len();

    // A replay hands the orphan back as it is.
    match manager()
        .materialize_idempotency_record(&record, Ok(Some(recorded)), Ok(()), Ok(repository()))
        .expect("orphan replay")
    {
        MaterializeStep::Existing(again) => {
            assert_eq!(again.id, record.capsule_id);
            assert_eq!(again.state, CapsuleState::Orphaned);
            assert_eq!(again.audit_events.len(), kept);
        }
        MaterializeStep::New(_) => panic!("a second identity"),
    }
}

#[test]
fn an_unreserved_creation_fails_where_a_reserved_one_is_orphaned() {
    let capsule = manager()
        .create(options("plain"), Ok(repository()), Ok(BASE.to_owned()), 10)
        .expect("create");
    let mut observed = nothing_yet(&capsule);
    observed.listed = Ok(vec![ListedWorktree {
        record: WorktreeRecord {
            path: capsule.workspace_path.clone(),
            branch: None,
            head: None,
            bare: false,
        },
        canonical: None,
    }]);
    let error = manager()
        .complete_creating(capsule, observed, false, 11)
        .expect_err("contradictory");
    assert!(
        matches!(&error, Error::UnsafeState(message) if message.contains("cannot create capsule")),
        "{error:?}"
    );
}

#[test]
fn replay_after_every_terminal_lifecycle_state_returns_the_same_identity() {
    for state in [
        CapsuleState::Active,
        CapsuleState::Closed,
        CapsuleState::Integrated,
        CapsuleState::Dropped,
        CapsuleState::Orphaned,
    ] {
        let record = reserve(options("life"), "life:key", BASE);
        let mut capsule = first_manifest(&record);
        capsule.state = state;
        capsule.workspace_git_dir = Some(path("/repo/.git/worktrees/attempt"));
        if state == CapsuleState::Closed || state == CapsuleState::Integrated {
            capsule.closed_at_unix = Some(20);
            capsule.result = Some(change_capsule::ResultRef {
                kind: change_capsule::ResultKind::Patch,
                head_commit: HEAD.to_owned(),
                patch_sha256: "a".repeat(64),
                result_sha256: "b".repeat(64),
                patch_bytes: 1,
                changed_paths: 1,
                sealed_at_unix: 20,
            });
        }
        if state == CapsuleState::Integrated {
            capsule.integration = Some(change_capsule::Integration {
                target_worktree: path("/repo"),
                target_git_dir: path("/repo/.git"),
                target_head_ref: "refs/heads/main".to_owned(),
                target_head_before: BASE.to_owned(),
                target_head_after: Some(HEAD.to_owned()),
                commit_message: "integrate".to_owned(),
                author_name: "Fixture".to_owned(),
                author_email: "fixture@example.test".to_owned(),
                started_at_unix: 21,
                integrated_at_unix: Some(22),
            });
        }
        if state == CapsuleState::Dropped {
            capsule.dropped_at_unix = Some(30);
        }
        match manager()
            .materialize_idempotency_record(&record, Ok(Some(capsule)), Ok(()), Ok(repository()))
            .expect("replay")
        {
            MaterializeStep::Existing(found) => {
                assert_eq!(found.id, record.capsule_id);
                assert_eq!(found.state, state);
            }
            MaterializeStep::New(_) => panic!("a second identity"),
        }
    }
}

#[test]
fn option_like_base_revision_is_rejected_before_git_invocation() {
    assert!(matches!(
        change_capsule::git::commit_argument("--help"),
        Err(Error::InvalidInput(message)) if message == "invalid base revision"
    ));
    assert_eq!(
        change_capsule::git::commit_argument("HEAD~1").expect("revision"),
        "HEAD~1^{commit}"
    );
}

#[test]
fn creation_input_is_bounded() {
    let long = "x".repeat(257);
    for refused in [
        CreateOptions::new(path("/repo")).with_label(""),
        CreateOptions::new(path("/repo")).with_label("a\u{7}b"),
        CreateOptions::new(path("/repo")).with_label(&long),
        CreateOptions::new(path("/repo")).with_links(Links::single("bad key", "v")),
        CreateOptions::new(path("/repo")).with_links(Links::single("key", "")),
    ] {
        assert!(matches!(
            manager().create(refused, Ok(repository()), Ok(BASE.to_owned()), 10),
            Err(Error::InvalidInput(_))
        ));
    }
    assert!(matches!(
        manager().create(options("x"), Err(Error::NotRepository(path("/repo"))), Ok(BASE.to_owned()), 10),
        Err(Error::NotRepository(_))
    ));
    let made = manager()
        .create(options("x"), Ok(repository()), Ok(BASE.to_owned()), 10)
        .expect("create");
    assert!(change_capsule::validate::valid_capsule_id(&made.id));
    assert_eq!(made.branch, format!("capsule/{}", &made.id[4..]));
    assert_eq!(made.base_commit, BASE);
    assert!(active(ID).workspace_path.display().ends_with(ID));
    assert_eq!(change(b"p", &["a"]).changed_paths.len(), 1);
    assert!(matches!(replaced(&active(ID)).repository, Ok(_)));
}

#[test]
fn recover_finishes_a_journaled_creation_after_process_restart() {
    let interrupted = || {
        let mut c = active(ID);
        c.state = CapsuleState::Creating;
        c.workspace_git_dir = None;
        c
    };
    let (capsule, path_taken) = manager()
        .recover_capsule(ID, Ok(interrupted()), Ok(interrupted()))
        .expect("recover");
    assert_eq!(path_taken, RecoveryPath::Creating);
    let mut observed = nothing_yet(&capsule);
    observed.workspace_entry = Ok(true);
    observed.found_git_dir = Some(path("/repo/.git/worktrees/attempt"));
    observed.branch_head = Ok(Some(BASE.to_owned()));
    let (usable, words) = match manager()
        .recover_creating(capsule, observed, 12)
        .expect("complete creation")
    {
        CreatingOutcome::Done { capsule, action, .. } => (capsule, action),
        other => panic!("unexpected {other:?}"),
    };
    let (kept, action) = recovered(usable, CapsuleState::Creating, words, 12);
    assert_eq!(action.capsule_id, ID);
    assert_eq!(action.previous_state, CapsuleState::Creating);
    assert_eq!(action.state, CapsuleState::Active);
    assert_eq!(kept.workspace_git_dir, active(ID).workspace_git_dir);
}

#[test]
fn capsule_identities_are_ulids_in_small_letters() {
    assert_eq!(capsule_id_of("01HZY3V7Q8R9S0T1U2V3W4X5Y6"), ID);
    assert_ne!(capsule_id_of("01HZY3V7Q8R9S0T1U2V3W4X5Y7"), ID);
    let drawn = new_capsule_id();
    assert_eq!(drawn.len(), 30);
    assert!(drawn.starts_with("cap-"));
    assert!(drawn[4..].bytes().all(|b| b.is_ascii_digit() || b.is_ascii_lowercase()));
    assert_ne!(new_capsule_id(), drawn);
}

#[test]
fn created_capsules_are_active_and_read_back() {
    let created = manager()
        .create(options("plain"), Ok(repository()), Ok(BASE.to_owned()), 10)
        .expect("create");
    let id = created.id.clone();
    let mut inspected = owned(&created, BASE);
    inspected.registered = Ok(Some(WorktreeRecord {
        path: created.workspace_path.clone(),
        branch: Some(created.branch.clone()),
        head: Some(BASE.to_owned()),
        bare: false,
    }));
    let (usable, _) = manager()
        .adopt_added_worktree(created, path("/repo/.git/worktrees/attempt"), &inspected, 11)
        .expect("adopt");
    let shown = manager().show(&id, Ok(usable)).expect("show");
    assert_eq!(shown.state, CapsuleState::Active);
    assert_eq!(shown.label.as_deref(), Some("plain"));
    assert_eq!(shown.base_commit, BASE);
    assert_eq!(shown.branch, format!("capsule/{}", &id[4..]));
    assert_eq!(shown.created_at_unix, 10);
    assert_eq!(shown.updated_at_unix, 11);
    assert!(shown.checkpoints.is_empty() && shown.evidence.is_empty() && shown.result.is_none());
}

#[test]
fn reservations_without_a_manifest_are_counted() {
    let digest = key_sha256("count:key").expect("digest");
    assert_eq!(reservation_digest(&format!("{digest}.json")), Some(digest.clone()));
    assert_eq!(reservation_digest(".json"), Some(String::new()));
    assert_eq!(reservation_digest("json"), None);
    assert_eq!(reservation_digest(&format!("{digest}.tmp")), None);

    let record = reserve(options("counted"), "count:key", BASE);
    let entry = |record: Result<Option<IdempotencyRecord>, Error>, has_manifest: Result<bool, Error>| {
        ReservationEntry { key_digest: digest.clone(), record, has_manifest }
    };
    assert_eq!(unmaterialized_reservations(&Vec::new()), Ok(0));
    assert_eq!(
        unmaterialized_reservations(&vec![
            entry(Ok(Some(duplicate(&record))), Ok(false)),
            entry(Ok(Some(duplicate(&record))), Ok(true)),
            entry(Ok(None), Ok(false)),
            entry(Ok(Some(duplicate(&record))), Ok(false)),
        ]),
        Ok(2)
    );
    assert_eq!(
        unmaterialized_reservations(&vec![
            entry(Ok(Some(duplicate(&record))), Ok(false)),
            entry(Err(io(IoFault::Other)), Ok(false)),
        ]),
        Err(io(IoFault::Other))
    );
    let mut forged = duplicate(&record);
    forged.base_commit = HEAD.to_owned();
    assert!(matches!(
        unmaterialized_reservations(&vec![entry(Ok(Some(forged)), Ok(false))]),
        Err(Error::UnsafeState(_))
    ));
}

#[test]
fn both_lookups_give_the_same_answer() {
    let record = reserve(options("both"), "both:key", BASE);
    let first = first_manifest(&record);
    let managed = manager()
        .lookup_idempotency_key("both:key", reads(duplicate(&record), Some(first)))
        .expect("managed");
    let opened =
        lookup_at("both:key", reads(duplicate(&record), Some(first_manifest(&record)))).expect("opened");
    assert_eq!(managed, opened);
    assert_eq!(opened.status, IdempotencyStatus::Materialized);
    assert_eq!(opened.capsule_id, record.capsule_id);

    let mut absent = existing_root();
    absent.entry = Err(io(IoFault::NotFound));
    assert!(matches!(
        CapsuleManager::lookup_idempotency_key_at(
            &path("/state"),
            "both:key",
            absent,
            reads(duplicate(&record), None)
        ),
        Err(Error::IdempotencyNotFound)
    ));
}
