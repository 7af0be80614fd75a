//! The lifecycle of one capsule: checkpoints, evidence, sealing, integration,
//! cleanup, and recovery.

use change_capsule::artifacts::StoredResult;
use change_capsule::checkpoint::{
    complete_checkpoint, touch, CheckpointPlan, FinishObservation, PreparedCheckpoint,
};
use change_capsule::create::CreatingOutcome;
use change_capsule::cleanup::{
    check_branch_absent, check_pruned, complete_cleanup, CleanupObservation, DropObservation,
    DropStep, Removal,
};
use change_capsule::close::{require_stable_close_snapshot, seal, CloseReads, PendingClose};
use change_capsule::execution::{poll_running, Execution, Poll};
use change_capsule::git::{Repository, Snapshot, WorktreeRecord};
use change_capsule::integrate::{
    abort_integration, complete_integration, confirm_target, integration_message,
    prepare_integration, record_prepared, PreparedIntegration, StartedIntegration,
    TargetObservation, TargetRecheck,
};
use change_capsule::inventory::{
    IgnoredContentInventory, IgnoredEntry, InventoryRun, OpenedFile,
};
use change_capsule::manager::{checkpoint_ref, integration_ref};
use change_capsule::query::{
    check_snapshot_gate, DiffObservation, SealObservation, StatusObservation,
};
use change_capsule::recording::AttachedEvidence;
use change_capsule::recover::{
    recovered, ActiveRecovery, IntegratingObservation, RecoveryPath, RecoveryTarget,
};
use change_capsule::runs::{SnapshotRun, SnapshotSource, SnapshotStep};
use change_capsule::steps::{
    advance_target, carry_out_cleanup, carry_out_creation, finish_checkpoint, journal_checkpoint,
    protect_target, PendingRef, Step,
};
use change_capsule::store::{lifecycle_journals_consistent, StateStore};
use change_capsule::validate::project_key;
use change_capsule::worktree::WorktreeInspection;
use change_capsule::{
    Author, Capsule, CapsuleHealth, CapsuleManager, CapsuleResult, CapsuleState, Checkpoint,
    CheckpointOptions, Cleanup, CloseOptions, Error, Evidence, EvidenceInput, GitPath, IntegrateOptions,
    IoFault, Links, NativePath, ResultKind,
};

const BASE: &str = "1111111111111111111111111111111111111111";
const HEAD: &str = "2222222222222222222222222222222222222222";
const ID: &str = "cap-01hzy3v7q8r9s0t1u2v3w4x5y6";

fn path(text: &str) -> NativePath {
    NativePath::new(text)
}

fn manager() -> CapsuleManager {
    CapsuleManager::open(path("/state"))
}

fn repository() -> Repository {
    Repository {
        worktree: path("/repo"),
        common_dir: path("/repo/.git"),
        git_dir: path("/repo/.git"),
    }
}

fn io(fault: IoFault) -> Error {
    Error::Io { path: path("/somewhere"), fault, detail: "refused".to_owned() }
}

/// A capsule that is active in its own workspace.
fn active(id: &str) -> Capsule {
    let key = project_key(&path("/repo/.git")).expect("project key");
    let mut c = manager()
        .initial_capsule(
            id.to_owned(),
            Some("attempt".to_owned()),
            Links::single("task", "issue-42"),
            &repository(),
            key,
            BASE.to_owned(),
            10,
        )
        .expect("initial capsule");
    c.state = CapsuleState::Active;
    c.workspace_git_dir = Some(path("/repo/.git/worktrees/attempt"));
    c
}

/// What proves that a capsule owns its workspace at `head`.
fn owned(c: &Capsule, head: &str) -> WorktreeInspection {
    WorktreeInspection {
        repository: Ok(Repository {
            worktree: c.workspace_path.clone(),
            common_dir: path("/repo/.git"),
            git_dir: path("/repo/.git/worktrees/attempt"),
        }),
        canonical_workspace: Ok(c.workspace_path.clone()),
        branch: Ok(c.branch.clone()),
        registered: Ok(Some(WorktreeRecord {
            path: c.workspace_path.clone(),
            branch: Some(c.branch.clone()),
            head: Some(head.to_owned()),
            bare: false,
        })),
        head: Ok(head.to_owned()),
    }
}

/// What is found where someone else's directory took the workspace's place.
fn replaced(c: &Capsule) -> WorktreeInspection {
    let mut inspection = owned(c, HEAD);
    inspection.repository = Ok(Repository {
        worktree: c.workspace_path.clone(),
        common_dir: path("/elsewhere/.git"),
        git_dir: path("/elsewhere/.git"),
    });
    inspection
}

fn change(patch: &[u8], paths: &[&str]) -> Snapshot {
    Snapshot {
        patch: patch.to_vec(),
        changed_paths: paths.iter().map(|p| GitPath::Utf8((*p).to_owned())).collect(),
    }
}

const ENCODED: &[u8] = b"{\"schema_version\":5}";

fn author() -> Author {
    Author::new("Fixture", "fixture@example.test")
}

fn no_ignored() -> IgnoredContentInventory {
    InventoryRun::start(Vec::new()).finish()
}

fn still(patch: &[u8], paths: &[&str], clean: bool) -> CloseReads {
    CloseReads {
        initial_ignored: Ok(no_ignored()),
        initial_snapshot: Ok(change(patch, paths)),
        initial_head: Ok(HEAD.to_owned()),
        initial_clean: Ok(clean),
        snapshot: Ok(change(patch, paths)),
        head: Ok(HEAD.to_owned()),
        clean: Ok(clean),
        ignored: Ok(no_ignored()),
    }
}

fn run_input() -> EvidenceInput {
    EvidenceInput::run(vec!["cargo".to_owned(), "test".to_owned()])
}

fn observed(code: i32) -> Execution {
    Execution::observe(b"out\n", b"err\n", Some(code), None).expect("observe")
}

fn attach(
    make: &dyn Fn() -> Capsule,
    input: EvidenceInput,
    execution: Option<Execution>,
    patch: &[u8],
) -> Result<AttachedEvidence, Error> {
    let c = make();
    let inspection = owned(&c, HEAD);
    manager().add_evidence(
        ID,
        input,
        execution,
        Ok(make()),
        Ok(c),
        &inspection,
        Ok(change(patch, &["shared.txt"])),
        30,
    )
}

/// An active capsule with these records: whether run, exit code, patch.
fn with_records(records: &[(bool, i32, &[u8])]) -> Capsule {
    let mut c = active(ID);
    for (executed, code, patch) in records {
        let now: Vec<Evidence> = std::mem::take(&mut c.evidence);
        let make = || {
            let mut again = active(ID);
            again.evidence = now
                .iter()
                .map(|e| Evidence {
                    command: e.command.clone(),
                    exit_code: e.exit_code,
                    executed: e.executed,
                    output_sha256: e.output_sha256.clone(),
                    output_bytes: e.output_bytes,
                    summary: e.summary.clone(),
                    patch_sha256: e.patch_sha256.clone(),
                    recorded_at_unix: e.recorded_at_unix,
                })
                .collect();
            again
        };
        let attached = if *executed {
            attach(&make, run_input(), Some(observed(*code)), patch)
        } else {
            attach(&make, EvidenceInput::claim("cargo test", *code), None, patch)
        };
        c = attached.expect("attach evidence").capsule;
    }
    c
}

fn close(
    make: &dyn Fn() -> Capsule,
    options: CloseOptions,
    patch: &[u8],
    clean: bool,
) -> Result<PendingClose, Error> {
    let c = make();
    let inspection = owned(&c, HEAD);
    let paths: &[&str] = if patch.is_empty() { &[] } else { &["shared.txt"] };
    manager().close(ID, options, Ok(make()), Ok(c), &inspection, still(patch, paths, clean), 50)
}

fn closed(patch: &[u8]) -> (Capsule, CapsuleResult) {
    let pending =
        close(&|| active(ID), CloseOptions::default(), patch, false).expect("close capsule");
    seal(pending, ENCODED)
}

fn stored(patch: &[u8]) -> StoredResult {
    StoredResult {
        result: closed(patch).1,
        content: ENCODED.to_vec(),
        encoded: ENCODED.to_vec(),
    }
}

fn seal_observation(c: &Capsule, sealed: &[u8], now: &[u8]) -> SealObservation {
    let paths: &[&str] = if now.is_empty() { &[] } else { &["shared.txt"] };
    SealObservation {
        inspection: owned(c, HEAD),
        snapshot: Ok(change(now, paths)),
        head: Ok(HEAD.to_owned()),
        stored: Ok(stored(sealed)),
        patch: Ok(sealed.to_vec()),
    }
}

fn target(head: &str) -> TargetObservation {
    TargetObservation {
        repository: Ok(repository()),
        sparse: Ok(false),
        hidden: Ok(false),
        clean: Ok(true),
        head: Ok(head.to_owned()),
        head_ref: Ok("refs/heads/main".to_owned()),
    }
}

fn start(observation: TargetObservation, now: &[u8]) -> Result<StartedIntegration, Error> {
    let (c, _) = closed(b"patch");
    let seal = seal_observation(&c, b"patch", now);
    manager().integrate(
        ID,
        &IntegrateOptions::new(path("/repo"), author()),
        Ok(closed(b"patch").0),
        Ok(c),
        seal,
        observation,
        Ok(stored(b"patch")),
        Ok(b"patch".to_vec()),
        60,
    )
}

const COMMIT: &str = "3333333333333333333333333333333333333333";

fn prepared(patch: &[u8], parent: &str) -> PreparedIntegration {
    PreparedIntegration {
        head: Ok(BASE.to_owned()),
        commit: Ok(COMMIT.to_owned()),
        parents: Ok(vec![parent.to_owned()]),
        prepared: Ok(change(patch, &["shared.txt"])),
    }
}

fn drop_observation(c: &Capsule, sealed: &[u8]) -> DropObservation {
    DropObservation {
        seal: seal_observation(c, sealed, sealed),
        execution_root: Ok(path("/repo")),
        branch_head: Ok(Some(HEAD.to_owned())),
        workspace_exists: true,
        workspace_repository: Ok(repository()),
        inspection: owned(c, HEAD),
        head: Ok(HEAD.to_owned()),
        registered: Ok(None),
    }
}

fn cleanup_observation(c: &Capsule) -> CleanupObservation {
    CleanupObservation {
        execution_root: Ok(path("/repo")),
        workspace_exists: true,
        inspection: owned(c, HEAD),
        head: Ok(HEAD.to_owned()),
        seal: seal_observation(c, b"patch", b"patch"),
        registered: Ok(None),
    }
}

#[test]
fn close_stability_requires_exact_patch_paths_and_head() {
    let original = change(b"patch", &["a"]);
    assert!(
        require_stable_close_snapshot(&original, "head", true, &original, "head", true).is_ok()
    );
    for final_snapshot in [change(b"other", &["a"]), change(b"patch", &["b"])] {
        assert!(matches!(
            require_stable_close_snapshot(
                &original,
                "head",
                true,
                &final_snapshot,
                "head",
                true,
            ),
            Err(Error::UnsafeState(message)) if message.contains("no artifacts were written")
        ));
    }
    assert!(matches!(
        require_stable_close_snapshot(&original, "head", true, &original, "other", true),
        Err(Error::UnsafeState(_))
    ));
    assert!(matches!(
        require_stable_close_snapshot(&original, "head", true, &original, "head", false),
        Err(Error::UnsafeState(_))
    ));
}

#[test]
fn close_rejects_ignored_content_mutated_between_inventories() {
    let c = active(ID);
    let inspection = owned(&c, HEAD);
    let mut reads = still(b"patch", &["shared.txt"], false);
    let mut later = no_ignored();
    later.content_sha256 = "f".repeat(64);
    reads.ignored = Ok(later);
    let error = manager()
        .close(ID, CloseOptions::default(), Ok(active(ID)), Ok(c), &inspection, reads, 50)
        .expect_err("ignored content moved");
    assert!(matches!(
        error,
        Error::UnsafeState(message)
            if message.contains("ignored paths or content changed")
                && message.contains("no artifacts were written")
    ));
}

#[test]
fn executed_evidence_records_the_observed_exit_code_and_output_digest() {
    let passing =
        attach(&|| active(ID), run_input(), Some(observed(0)), b"patch").expect("run").evidence;
    assert!(passing.executed, "this was run");
    assert_eq!(passing.exit_code, 0);
    assert_eq!(passing.output_sha256.as_ref().map(String::len), Some(64));
    assert_eq!(passing.output_bytes, Some(8));
    assert!(passing.summary.unwrap_or_default().contains("err"));

    let failing =
        attach(&|| active(ID), run_input(), Some(observed(3)), b"patch").expect("run").evidence;
    assert_eq!(failing.exit_code, 3);
    assert!(failing.executed);
}

#[test]
fn executed_evidence_binds_to_the_patch_that_exists_after_the_run() {
    let make = || with_records(&[(true, 0, b"patch")]);
    let pending = close(&make, CloseOptions::executed(), b"patch", false).expect("seal");
    assert_eq!(make().evidence[0].patch_sha256, pending.result.patch_sha256);
}

#[test]
fn a_claim_can_never_satisfy_an_executed_evidence_requirement() {
    let make = || with_records(&[(false, 0, b"patch")]);
    assert!(!make().evidence[0].executed);
    assert!(make().evidence[0].output_sha256.is_none());
    let error = close(&make, CloseOptions::executed(), b"patch", false).expect_err("claim");
    assert!(
        matches!(&error, Error::InvalidInput(message) if message.contains("executed evidence")),
        "{error:?}"
    );
    close(&make, CloseOptions::requiring(true, true, false), b"patch", false)
        .expect("the weaker level accepts an assertion");
}

#[test]
fn a_failing_executed_command_cannot_seal_a_passing_receipt() {
    let make = || with_records(&[(true, 1, b"patch")]);
    let error = close(&make, CloseOptions::executed(), b"patch", false).expect_err("failing");
    assert!(
        matches!(&error, Error::InvalidInput(message) if message.contains("evidence")),
        "{error:?}"
    );
}

#[test]
fn an_attempt_that_failed_and_was_fixed_still_seals_and_verifies() {
    let make = || with_records(&[(true, 1, b"broken"), (true, 0, b"fixed")]);
    let pending =
        close(&make, CloseOptions::executed(), b"fixed", false).expect("a fixed attempt seals");
    assert_eq!(pending.result.evidence.len(), 2, "history is kept, not rewritten");
    close(&make, CloseOptions::requiring(true, false, false), b"fixed", false)
        .expect_err("a spotless history means every record");
}

#[test]
fn stale_executed_evidence_cannot_seal_a_later_patch() {
    let make = || with_records(&[(true, 0, b"tested")]);
    let error = close(&make, CloseOptions::executed(), b"changed after", false).expect_err("stale");
    assert!(
        matches!(&error, Error::InvalidInput(message) if message.contains("executed evidence")),
        "{error:?}"
    );
    let again = || with_records(&[(true, 0, b"tested"), (true, 0, b"changed after")]);
    close(&again, CloseOptions::executed(), b"changed after", false).expect("current again");
}

#[test]
fn current_evidence_binds_to_the_complete_patch_and_stale_evidence_is_rejected() {
    let make = || with_records(&[(false, 0, b"old")]);
    let error = close(&make, CloseOptions::requiring(false, true, false), b"new", false)
        .expect_err("stale claim");
    assert!(matches!(
        error,
        Error::InvalidInput(message) if message.contains("bound to the exact final patch")
    ));
    let both = || with_records(&[(false, 0, b"old"), (false, 0, b"new")]);
    close(&both, CloseOptions::requiring(false, true, false), b"new", false).expect("current");
}

#[test]
fn recorded_command_keeps_argument_boundaries() {
    let argv = vec!["echo".to_owned(), "a b".to_owned(), "c".to_owned()];
    let evidence = attach(&|| active(ID), EvidenceInput::run(argv), Some(observed(0)), b"patch")
        .expect("run")
        .evidence;
    assert!(
        evidence.command.contains("'a b'"),
        "an argument containing a space must stay one argument: {}",
        evidence.command
    );
}

#[test]
fn a_timed_out_command_records_nothing() {
    match poll_running(true, true, 1, 50) {
        Poll::Kill(error) => assert!(
            matches!(&error, Error::InvalidInput(message) if message.contains("timeout")
                && message.ends_with("no evidence was recorded")),
            "{error:?}"
        ),
        other => panic!("unexpected {other:?}"),
    }
    // Before its deadline, and without one, the command is waited for.
    assert!(matches!(poll_running(false, true, 1, 50), Poll::Sleep { .. }));
    assert!(matches!(poll_running(true, false, 1, 50), Poll::Sleep { .. }));
}

#[test]
fn an_unrepresentable_timeout_does_not_panic() {
    // A deadline too far out to reach is simply no deadline.
    match poll_running(true, false, u64::MAX, 1) {
        Poll::Sleep { millis, next } => {
            assert_eq!(millis, 1);
            assert_eq!(next, 2);
        }
        other => panic!("unexpected {other:?}"),
    }
    let evidence =
        attach(&|| active(ID), run_input(), Some(observed(0)), b"patch").expect("run").evidence;
    assert!(evidence.executed);
    assert_eq!(evidence.exit_code, 0);
}

#[test]
fn evidence_payload_is_bounded_before_it_can_wedge_the_manifest() {
    let large = "s".repeat(65_536);
    let mut records = Vec::new();
    for _ in 0..3 {
        records.push(Evidence {
            command: "cargo test".to_owned(),
            exit_code: 0,
            executed: false,
            output_sha256: None,
            output_bytes: None,
            summary: Some(large.clone()),
            patch_sha256: "a".repeat(64),
            recorded_at_unix: 20,
        });
    }
    let make = || {
        let mut c = active(ID);
        c.evidence = records
            .iter()
            .map(|e| Evidence {
                command: e.command.clone(),
                exit_code: e.exit_code,
                executed: e.executed,
                output_sha256: None,
                output_bytes: None,
                summary: e.summary.clone(),
                patch_sha256: e.patch_sha256.clone(),
                recorded_at_unix: e.recorded_at_unix,
            })
            .collect();
        c
    };
    let refused = attach(
        &make,
        EvidenceInput::claim("cargo test", 0).with_summary(&large),
        None,
        b"patch",
    );
    assert!(matches!(
        refused,
        Err(Error::InvalidInput(message)) if message.contains("total evidence payload")
    ));
    attach(&make, EvidenceInput::claim("cargo test", 0), None, b"patch").expect("small record");

    let full = || {
        let mut c = active(ID);
        for _ in 0..64 {
            c.evidence.push(Evidence {
                command: "t".to_owned(),
                exit_code: 0,
                executed: false,
                output_sha256: None,
                output_bytes: None,
                summary: None,
                patch_sha256: "a".repeat(64),
                recorded_at_unix: 20,
            });
        }
        c
    };
    assert!(matches!(
        attach(&full, EvidenceInput::claim("cargo test", 0), None, b"patch"),
        Err(Error::InvalidInput(message)) if message == "a capsule retains at most 64 evidence records"
    ));
}

#[test]
fn sealing_records_the_whole_attempt() {
    let (c, result) = closed(b"patch");
    assert_eq!(c.state, CapsuleState::Closed);
    assert_eq!(c.closed_at_unix, Some(50));
    assert_eq!(result.kind, ResultKind::Patch);
    assert_eq!(result.label.as_deref(), Some("attempt"));
    assert_eq!(result.links.get("task"), Some("issue-42"));
    assert_eq!(result.patch_bytes, 5);
    assert_eq!(result.patch_sha256, change_capsule::digest::sha256_hex(b"patch"));
    assert_eq!(result.head_commit, HEAD);
    assert_eq!(result.base_commit, BASE);
    assert_eq!(result.created_at_unix, 10);
    let seal = c.result.as_ref().expect("seal");
    assert_eq!(seal.result_sha256, change_capsule::digest::sha256_hex(ENCODED));
    assert_eq!(seal.changed_paths, 1);
    assert!(lifecycle_journals_consistent(&c));

    let empty = close(&|| active(ID), CloseOptions::default(), b"", true).expect("close");
    assert_eq!(empty.result.kind, ResultKind::NoChange);
    let committed = close(&|| active(ID), CloseOptions::default(), b"p", true).expect("close");
    assert_eq!(committed.result.kind, ResultKind::Commit);
}

#[test]
fn only_active_capsules_can_be_closed() {
    let make = || closed(b"patch").0;
    let error = close(&make, CloseOptions::default(), b"patch", false).expect_err("closed");
    assert!(matches!(
        error,
        Error::InvalidState { id, state, expected }
            if id == ID && state == "closed" && expected == "active"
    ));
}

#[test]
fn sealed_result_detects_drift_and_force_cleanup_still_validates_ownership() {
    let (c, _) = closed(b"patch");
    let fine = seal_observation(&c, b"patch", b"patch");
    assert!(manager().ensure_sealed(&c, fine).is_ok());
    let drifted = seal_observation(&c, b"patch", b"patch and more");
    assert!(matches!(
        manager().ensure_sealed(&c, drifted),
        Err(Error::ResultDrift(id)) if id == ID
    ));

    let mut observation = drop_observation(&c, b"patch");
    observation.seal = seal_observation(&c, b"patch", b"patch and more");
    assert!(matches!(
        manager().drop_capsule(ID, false, Ok(closed(b"patch").0), Ok(closed(b"patch").0), observation, 70),
        Err(Error::ResultDrift(_))
    ));
    let mut forced = drop_observation(&c, b"patch");
    forced.seal = seal_observation(&c, b"patch", b"patch and more");
    assert!(matches!(
        manager().drop_capsule(ID, true, Ok(closed(b"patch").0), Ok(closed(b"patch").0), forced, 70),
        Ok(DropStep::Begin(_))
    ));
}

#[test]
fn cleanup_refuses_a_replaced_foreign_directory_even_with_force() {
    let c = active(ID);
    let mut observation = drop_observation(&c, b"patch");
    observation.inspection = replaced(&c);
    assert!(matches!(
        manager().drop_capsule(ID, true, Ok(active(ID)), Ok(active(ID)), observation, 70),
        Err(Error::ForeignWorktree(_))
    ));
    let observation = drop_observation(&c, b"patch");
    assert!(matches!(
        manager().drop_capsule(ID, false, Ok(active(ID)), Ok(active(ID)), observation, 70),
        Err(Error::UnsealedChanges(id)) if id == ID
    ));
}

#[test]
fn tampered_result_artifact_fails_seal_validation() {
    let (c, _) = closed(b"patch");
    assert!(matches!(
        manager().result(ID, Ok(closed(b"patch").0), Ok(stored(b"patch")), Ok(b"forged".to_vec())),
        Err(Error::ResultDrift(id)) if id == ID
    ));
    let mut forged = stored(b"patch");
    forged.encoded = b"{\"schema_version\":5,\"x\":1}".to_vec();
    assert!(matches!(
        manager().result(ID, Ok(c), Ok(forged), Ok(b"patch".to_vec())),
        Err(Error::ResultDrift(_))
    ));
}

#[test]
fn result_seal_covers_provenance_and_rejects_metadata_tampering() {
    let checkpoint = || Checkpoint {
        commit: COMMIT.to_owned(),
        message: "preserve provenance".to_owned(),
        author_name: "Fixture".to_owned(),
        author_email: "fixture@example.test".to_owned(),
        created_at_unix: 20,
    };
    let make = || {
        let mut c = active(ID);
        c.checkpoints = vec![checkpoint()];
        c
    };
    let sealed = || seal(close(&make, CloseOptions::default(), b"patch", false).expect("close"), ENCODED);
    let kept = StoredResult {
        result: sealed().1,
        content: ENCODED.to_vec(),
        encoded: ENCODED.to_vec(),
    };
    let good = manager()
        .result(ID, Ok(sealed().0), Ok(kept), Ok(b"patch".to_vec()))
        .expect("result");
    assert_eq!(good.label.as_deref(), Some("attempt"));
    assert_eq!(good.links.get("task"), Some("issue-42"));
    assert_eq!(good.checkpoints, vec![checkpoint()]);
    assert_eq!(good.created_at_unix, make().created_at_unix);
    let mut forged = stored(b"patch");
    forged.result.changed_paths = vec![GitPath::Utf8("forged.txt".to_owned())];
    forged.encoded = b"{\"changed_paths\":[\"forged.txt\"]}".to_vec();
    assert!(matches!(
        manager().result(ID, Ok(closed(b"patch").0), Ok(forged), Ok(b"patch".to_vec())),
        Err(Error::ResultDrift(id)) if id == ID
    ));
}

#[test]
fn status_tells_intact_missing_foreign_and_drifted_workspaces_apart() {
    let observe = |c: &Capsule, now: &[u8]| StatusObservation {
        workspace_exists: true,
        inspection: owned(c, HEAD),
        snapshot: Ok(change(now, &["shared.txt"])),
        ignored_paths: Ok(vec![GitPath::Utf8("ignored.log".to_owned())]),
        head: Ok(HEAD.to_owned()),
        clean: Ok(false),
        commits_ahead: Ok(2),
        stored: Ok(stored(b"patch")),
        patch: Ok(b"patch".to_vec()),
    };
    let c = active(ID);
    let live = manager().status(ID, Ok(active(ID)), observe(&c, b"patch")).expect("status");
    assert_eq!(live.health, CapsuleHealth::Healthy);
    assert_eq!(live.dirty, Some(true));
    assert_eq!(live.commits_ahead, Some(2));
    assert_eq!(live.ignored_paths.len(), 1);
    assert_eq!(live.sealed, None);

    let mut gone = observe(&c, b"patch");
    gone.workspace_exists = false;
    let gone = manager().status(ID, Ok(active(ID)), gone).expect("status");
    assert_eq!(gone.health, CapsuleHealth::MissingWorktree);
    assert!(gone.changed_paths.is_empty());

    let mut foreign = observe(&c, b"patch");
    foreign.inspection = replaced(&c);
    let foreign = manager().status(ID, Ok(active(ID)), foreign).expect("status");
    assert_eq!(foreign.health, CapsuleHealth::ForeignWorktree);

    let sealed = manager()
        .status(ID, Ok(closed(b"patch").0), observe(&closed(b"patch").0, b"patch"))
        .expect("status");
    assert_eq!(sealed.sealed, Some(true));
    let drifted = manager()
        .status(ID, Ok(closed(b"patch").0), observe(&closed(b"patch").0, b"moved"))
        .expect("status");
    assert_eq!(drifted.health, CapsuleHealth::DriftedAfterClose);
    assert_eq!(drifted.sealed, Some(false));
}

#[test]
fn diff_is_live_until_sealed() {
    let observe = |c: &Capsule| DiffObservation {
        inspection: owned(c, HEAD),
        snapshot: Ok(change(b"live", &["shared.txt"])),
        stored: Ok(stored(b"patch")),
        patch: Ok(b"patch".to_vec()),
    };
    assert_eq!(
        manager().diff(ID, Ok(active(ID)), observe(&active(ID))).expect("diff"),
        b"live".to_vec()
    );
    assert_eq!(
        manager()
            .diff(ID, Ok(closed(b"patch").0), observe(&closed(b"patch").0))
            .expect("diff"),
        b"patch".to_vec()
    );
}

#[test]
fn manifest_identity_fields_are_validated_before_use() {
    let mut forged = active(ID);
    forged.branch = "main".to_owned();
    assert!(matches!(manager().show(ID, Ok(forged)), Err(Error::UnsafeState(_))));
    let mut moved = active(ID);
    moved.workspace_path = path("/etc");
    assert!(matches!(manager().show(ID, Ok(moved)), Err(Error::UnsafeState(_))));
    let mut old = active(ID);
    old.schema_version = 2;
    assert!(matches!(
        manager().show(ID, Ok(old)),
        Err(Error::SchemaVersion { found: 2, supported: 5 })
    ));
    assert!(matches!(
        manager().show("cap-../../etc", Ok(active(ID))),
        Err(Error::InvalidId(_))
    ));
    assert!(matches!(
        manager().show(ID, Err(io(IoFault::NotFound))),
        Err(Error::NotFound(id)) if id == ID
    ));
    assert_eq!(
        manager().workspace_path(ID, Ok(active(ID))).expect("path"),
        active(ID).workspace_path
    );
}

#[test]
fn checkpoints_are_journaled_and_finished_exactly_once() {
    let c = active(ID);
    let inspection = owned(&c, HEAD);
    let options = || CheckpointOptions::new("first checkpoint", author());
    let nothing = manager().begin_checkpoint(
        ID,
        &options(),
        Ok(active(ID)),
        Ok(active(ID)),
        &inspection,
        Ok(HEAD.to_owned()),
        Ok(change(b"", &[])),
    );
    assert!(matches!(
        nothing,
        Err(Error::InvalidInput(message)) if message == "nothing to checkpoint"
    ));
    let request = || {
        manager()
            .begin_checkpoint(
                ID,
                &options(),
                Ok(active(ID)),
                Ok(active(ID)),
                &inspection,
                Ok(HEAD.to_owned()),
                Ok(change(b"work", &["a"])),
            )
            .expect("begin")
    };
    let commit = |parent: &str, patch: &[u8]| PreparedCheckpoint {
        commit: Ok(COMMIT.to_owned()),
        prepared: Ok(change(patch, &["a"])),
        parents: Ok(vec![parent.to_owned()]),
        complete: Ok(change(b"complete", &["a"])),
    };
    for wrong in [commit(BASE, b"work"), commit(HEAD, b"other")] {
        assert!(matches!(
            manager().checkpoint(request(), options(), wrong, 40),
            Err(Error::UnsafeState(message)) if message.contains("does not reproduce")
        ));
    }
    let plan =
        manager().checkpoint(request(), options(), commit(HEAD, b"work"), 40).expect("journal");
    assert_eq!(plan.reference, format!("refs/change-capsule/{ID}/checkpoint"));
    assert_eq!(plan.capsule.state, CapsuleState::Checkpointing);
    assert!(lifecycle_journals_consistent(&plan.capsule));

    // Interrupted before the branch moved: the journaled commit is completed.
    let finish = FinishObservation {
        inspection: owned(&plan.capsule, HEAD),
        parents: Ok(vec![HEAD.to_owned()]),
        committed: Ok(change(b"work", &["a"])),
        head: Ok(HEAD.to_owned()),
        pending_head: Ok(Some(COMMIT.to_owned())),
    };
    let done = manager()
        .recover_checkpointing(plan.capsule, finish)
        .expect("finish")
        .expect("certain");
    assert!(done.moves.advance_branch && done.moves.delete_pending);
    assert!(!done.moves.create_pending && !done.moves.reset_index);
    let (kept, checkpoint) = done.outcome.expect("finished");
    assert_eq!(checkpoint.commit, COMMIT);
    assert_eq!(kept.state, CapsuleState::Active);
    assert_eq!(kept.checkpoints.len(), 1);
    assert!(kept.checkpoint.is_none());
    assert_eq!(
        change_capsule::recover::finished_checkpoint_action(&checkpoint.commit),
        format!("completed interrupted checkpoint {COMMIT}")
    );
}

#[test]
fn recover_finalizes_a_checkpoint_commit_missing_its_manifest_update() {
    let make = || {
        let mut c = active(ID);
        c.state = CapsuleState::Checkpointing;
        c.checkpoint = Some(change_capsule::CheckpointJournal {
            head_before: BASE.to_owned(),
            head_after: HEAD.to_owned(),
            patch_sha256: change_capsule::digest::sha256_hex(b"work"),
            message: "work".to_owned(),
            author_name: "Fixture".to_owned(),
            author_email: "fixture@example.test".to_owned(),
            started_at_unix: 40,
        });
        c
    };
    let observe = |head: &str, pending: Option<&str>| FinishObservation {
        inspection: owned(&make(), HEAD),
        parents: Ok(vec![BASE.to_owned()]),
        committed: Ok(change(b"work", &["a"])),
        head: Ok(head.to_owned()),
        pending_head: Ok(pending.map(|p| p.to_owned())),
    };
    let done = manager()
        .finish_checkpoint(make(), observe(HEAD, Some(HEAD)))
        .expect("finish")
        .expect("certain");
    assert!(done.moves.reset_index && !done.moves.advance_branch);
    assert_eq!(done.outcome.expect("done").0.checkpoints.len(), 1);

    // Somewhere else entirely: nothing is certain, nothing is done.
    assert!(manager()
        .finish_checkpoint(make(), observe(COMMIT, Some(HEAD)))
        .expect("finish")
        .is_none());
    assert!(matches!(
        manager().finish_checkpoint(make(), observe(HEAD, Some(COMMIT))),
        Err(Error::UnsafeState(message)) if message.contains("unexpected commit")
    ));
}

#[test]
fn checkpoint_growth_is_refused_before_it_can_wedge_the_manifest() {
    let full = || {
        let mut c = active(ID);
        for n in 0..128 {
            c.checkpoints.push(change_capsule::Checkpoint {
                commit: format!("{n:040x}"),
                message: "m".to_owned(),
                author_name: "n".to_owned(),
                author_email: "e".to_owned(),
                created_at_unix: 1,
            });
        }
        c
    };
    let options = CheckpointOptions::new("one more", author());
    let request = manager()
        .begin_checkpoint(
            ID,
            &options,
            Ok(full()),
            Ok(full()),
            &owned(&full(), HEAD),
            Ok(HEAD.to_owned()),
            Ok(change(b"work", &["a"])),
        )
        .expect("begin");
    let refused = manager().checkpoint(
        request,
        options,
        PreparedCheckpoint {
            commit: Ok(COMMIT.to_owned()),
            prepared: Ok(change(b"work", &["a"])),
            parents: Ok(vec![HEAD.to_owned()]),
            complete: Ok(change(b"work", &["a"])),
        },
        40,
    );
    assert!(matches!(
        refused,
        Err(Error::InvalidInput(message)) if message.contains("at most 128 checkpoints")
    ));
    assert!(change_capsule::store::ensure_manifest_capacity(1024).is_ok());
    assert!(change_capsule::store::ensure_manifest_capacity(10_000_000).is_err());
}

#[test]
fn integration_needs_a_clean_target_at_the_pinned_base() {
    let started = start(target(BASE), b"patch").expect("start");
    assert_eq!(started.capsule.state, CapsuleState::Integrating);
    let journal = started.capsule.integration.as_ref().expect("journal");
    assert_eq!(journal.target_head_before, BASE);
    assert_eq!(journal.commit_message, "attempt");
    assert!(lifecycle_journals_consistent(&started.capsule));

    assert!(matches!(
        start(target(HEAD), b"patch"),
        Err(Error::InvalidInput(message)) if message.contains("does not equal pinned base")
    ));
    let mut dirty = target(BASE);
    dirty.clean = Ok(false);
    assert!(matches!(start(dirty, b"patch"), Err(Error::DirtyIntegrationTarget(_))));
    let mut sparse = target(BASE);
    sparse.sparse = Ok(true);
    assert!(matches!(start(sparse, b"patch"), Err(Error::InvalidInput(_))));
    let mut foreign = target(BASE);
    foreign.repository = Ok(Repository {
        worktree: path("/elsewhere"),
        common_dir: path("/elsewhere/.git"),
        git_dir: path("/elsewhere/.git"),
    });
    assert!(matches!(start(foreign, b"patch"), Err(Error::ForeignWorktree(_))));
    assert!(matches!(start(target(BASE), b"moved"), Err(Error::ResultDrift(_))));
}

#[test]
fn prepared_integrations_must_reproduce_the_sealed_result() {
    let started = start(target(BASE), b"patch").expect("start");
    assert_eq!(
        integration_message("subject", ID),
        format!("subject\n\nChange-Capsule: {ID}")
    );
    assert!(matches!(
        prepare_integration(&started.capsule, &started.result, &started.patch, prepared(b"patch", HEAD)),
        Err(Error::UnsafeState(message)) if message.contains("pinned base as parent")
    ));
    assert!(matches!(
        prepare_integration(&started.capsule, &started.result, &started.patch, prepared(b"other", BASE)),
        Err(Error::UnsafeState(message)) if message.contains("does not reproduce the sealed result")
    ));
    let commit =
        prepare_integration(&started.capsule, &started.result, &started.patch, prepared(b"patch", BASE))
            .expect("prepared");
    assert_eq!(commit, COMMIT);
    let journaled = record_prepared(started.capsule, commit, 61).expect("record");
    let recheck = |head: &str, clean: bool| TargetRecheck {
        repository: Ok(repository()),
        head_ref: Ok("refs/heads/main".to_owned()),
        clean: Ok(clean),
        head: Ok(head.to_owned()),
    };
    assert!(confirm_target(&journaled, &started.target, BASE, recheck(BASE, true)).is_ok());
    assert!(confirm_target(&journaled, &started.target, BASE, recheck(HEAD, true)).is_err());
    assert!(confirm_target(&journaled, &started.target, BASE, recheck(BASE, false)).is_err());
    let complete = complete_integration(journaled, 62).expect("complete");
    assert_eq!(complete.state, CapsuleState::Integrated);
    let record = complete.integration.expect("record");
    assert_eq!(record.integrated_at_unix, Some(62));
    assert_eq!(record.target_head_after.as_deref(), Some(COMMIT));

    let aborted = abort_integration(start(target(BASE), b"patch").expect("start").capsule, 63);
    assert_eq!(aborted.state, CapsuleState::Closed);
    assert!(aborted.integration.is_none());
}

fn integrating(after: Option<&str>) -> Capsule {
    let mut c = start(target(BASE), b"patch").expect("start").capsule;
    if let Some(journal) = c.integration.as_mut() {
        journal.target_head_after = after.map(|a| a.to_owned());
    }
    c
}

fn integrating_observation(head: &str, pending: Option<&str>, patch: &[u8]) -> IntegratingObservation {
    IntegratingObservation {
        target: RecoveryTarget {
            exists: true,
            repository: Ok(repository()),
            head_ref: Ok("refs/heads/main".to_owned()),
            sparse: Ok(false),
            hidden: Ok(false),
            clean: Ok(true),
        },
        head: Ok(head.to_owned()),
        pending_head: Ok(pending.map(|p| p.to_owned())),
        stored: Ok(stored(b"patch")),
        patch: Ok(b"patch".to_vec()),
        parents: Ok(vec![BASE.to_owned()]),
        change: Ok(change(patch, &["shared.txt"])),
    }
}

#[test]
fn integration_recovery_requires_the_exact_prepared_commit() {
    let done = manager()
        .recover_integrating(
            integrating(Some(COMMIT)),
            integrating_observation(COMMIT, Some(COMMIT), b"patch"),
            90,
        )
        .expect("recover")
        .expect("certain");
    assert_eq!(done.capsule.state, CapsuleState::Integrated);
    assert_eq!(done.capsule.integration.as_ref().and_then(|i| i.integrated_at_unix), Some(90));
    assert_eq!(done.delete_ref.as_deref(), Some(COMMIT));
    assert!(lifecycle_journals_consistent(&done.capsule));

    // The target is at another commit, or the commit is not the sealed change.
    assert!(manager()
        .recover_integrating(
            integrating(Some(COMMIT)),
            integrating_observation(HEAD, Some(COMMIT), b"patch"),
            90,
        )
        .expect("recover")
        .is_none());
    assert!(manager()
        .recover_integrating(
            integrating(Some(COMMIT)),
            integrating_observation(COMMIT, Some(COMMIT), b"forged"),
            90,
        )
        .expect("recover")
        .is_none());
    assert!(matches!(
        manager().recover_integrating(
            integrating(Some(COMMIT)),
            integrating_observation(COMMIT, Some(HEAD), b"patch"),
            90,
        ),
        Err(Error::UnsafeState(message)) if message.contains("unexpected commit")
    ));
}

#[test]
fn interrupted_integrations_without_side_effects_are_restored() {
    let restored = manager()
        .recover_integrating(
            integrating(Some(COMMIT)),
            integrating_observation(BASE, Some(COMMIT), b"patch"),
            90,
        )
        .expect("recover")
        .expect("certain");
    assert_eq!(restored.capsule.state, CapsuleState::Closed);
    assert!(restored.capsule.integration.is_none());
    assert_eq!(
        restored.action,
        "restored a pre-side-effect interrupted integration to closed"
    );
    let unprepared = manager()
        .recover_integrating(
            integrating(None),
            integrating_observation(BASE, Some(COMMIT), b"patch"),
            90,
        )
        .expect("recover")
        .expect("certain");
    assert_eq!(unprepared.delete_ref.as_deref(), Some(COMMIT));
    assert_eq!(unprepared.capsule.state, CapsuleState::Closed);

    let mut dirty = integrating_observation(BASE, Some(COMMIT), b"patch");
    dirty.target.clean = Ok(false);
    assert!(manager()
        .recover_integrating(integrating(None), dirty, 90)
        .expect("recover")
        .is_none());
}

#[test]
fn recovery_orphans_active_capsules_whose_workspace_is_not_theirs() {
    let c = active(ID);
    assert!(matches!(
        manager().recover_active(active(ID), true, &owned(&c, HEAD), Ok(None)),
        Ok(ActiveRecovery::Intact)
    ));
    assert!(matches!(
        manager().recover_active(active(ID), true, &owned(&c, HEAD), Ok(Some(COMMIT.to_owned()))),
        Ok(ActiveRecovery::DeleteRef(commit)) if commit == COMMIT
    ));
    for (exists, inspection) in [(false, owned(&c, HEAD)), (true, replaced(&c))] {
        match manager().recover_active(active(ID), exists, &inspection, Ok(None)) {
            Ok(ActiveRecovery::Orphaned(orphan)) => {
                assert_eq!(orphan.state, CapsuleState::Orphaned);
                let (kept, action) = recovered(
                    orphan,
                    CapsuleState::Active,
                    change_capsule::recover::orphaned_action(),
                    95,
                );
                assert_eq!(kept.updated_at_unix, 95);
                assert_eq!(action.previous_state, CapsuleState::Active);
                assert_eq!(action.state, CapsuleState::Orphaned);
                assert!(action.action.contains("missing or foreign"));
            }
            other => panic!("unexpected {other:?}"),
        }
    }
}

#[test]
fn targeted_recovery_ignores_unrelated_malformed_records_and_is_idempotent() {
    let (_, path) = manager().recover_capsule(ID, Ok(active(ID)), Ok(active(ID))).expect("known");
    assert_eq!(path, RecoveryPath::Active);
    let (_, settled) = manager()
        .recover_capsule(ID, Ok(closed(b"patch").0), Ok(closed(b"patch").0))
        .expect("known");
    assert_eq!(settled, RecoveryPath::Settled);
    assert!(matches!(
        manager().recover_capsule("not-an-id", Ok(active(ID)), Ok(active(ID))),
        Err(Error::InvalidId(_))
    ));
}

#[test]
fn recover_completes_cleanup_after_worktree_removal() {
    let begun = match manager()
        .drop_capsule(
            ID,
            false,
            Ok(closed(b"patch").0),
            Ok(closed(b"patch").0),
            drop_observation(&closed(b"patch").0, b"patch"),
            70,
        )
        .expect("begin")
    {
        DropStep::Begin(capsule) => capsule,
        other => panic!("unexpected {other:?}"),
    };
    assert_eq!(begun.state, CapsuleState::Dropping);
    let journal = begun.cleanup.as_ref().expect("journal");
    assert_eq!(journal.branch_head.as_deref(), Some(HEAD));
    assert!(journal.require_sealed);
    assert!(lifecycle_journals_consistent(&begun));
    assert_eq!(
        manager().finish_cleanup(&begun, cleanup_observation(&begun)).expect("decide"),
        Removal::RemoveWorktree
    );

    // The worktree was removed before the process stopped.
    let mut later = cleanup_observation(&begun);
    later.workspace_exists = false;
    assert_eq!(manager().finish_cleanup(&begun, later).expect("decide"), Removal::Nothing);
    let mut registered = cleanup_observation(&begun);
    registered.workspace_exists = false;
    registered.registered = Ok(Some(WorktreeRecord {
        path: begun.workspace_path.clone(),
        branch: Some(begun.branch.clone()),
        head: Some(HEAD.to_owned()),
        bare: false,
    }));
    assert_eq!(manager().finish_cleanup(&begun, registered).expect("decide"), Removal::Prune);
    assert!(check_pruned(&begun, Ok(None)).is_ok());
    assert!(check_branch_absent(&begun, Ok(None)).is_ok());
    assert!(matches!(
        check_branch_absent(&begun, Ok(Some(HEAD.to_owned()))),
        Err(Error::UnsafeState(message)) if message.contains("created after cleanup began")
    ));

    let (dropped, action) = complete_cleanup(begun, 71);
    assert_eq!(dropped.state, CapsuleState::Dropped);
    assert!(dropped.cleanup.is_none());
    assert_eq!(dropped.dropped_at_unix, Some(71));
    assert!(dropped.result.is_some(), "the durable record remains");
    assert!(lifecycle_journals_consistent(&dropped));
    assert_eq!(action, "completed journaled worktree and branch cleanup");

    assert!(matches!(
        manager().finish_cleanup(&active(ID), cleanup_observation(&active(ID))),
        Err(Error::UnsafeState(message)) if message.contains("no cleanup journal")
    ));
}

#[test]
fn cleanup_stops_where_the_workspace_moved_on() {
    let begun = match manager()
        .drop_capsule(
            ID,
            true,
            Ok(active(ID)),
            Ok(active(ID)),
            drop_observation(&active(ID), b"patch"),
            70,
        )
        .expect("begin")
    {
        DropStep::Begin(capsule) => capsule,
        other => panic!("unexpected {other:?}"),
    };
    let mut moved = cleanup_observation(&begun);
    moved.inspection = owned(&begun, COMMIT);
    moved.head = Ok(COMMIT.to_owned());
    assert!(matches!(
        manager().finish_cleanup(&begun, moved),
        Err(Error::ForeignWorktree(_))
    ));
    let resumed = manager()
        .drop_capsule(
            ID,
            false,
            Ok(match manager()
                .drop_capsule(
                    ID,
                    true,
                    Ok(active(ID)),
                    Ok(active(ID)),
                    drop_observation(&active(ID), b"patch"),
                    70,
                )
                .expect("begin")
            {
                DropStep::Begin(capsule) => capsule,
                other => panic!("unexpected {other:?}"),
            }),
            Ok(begun),
            drop_observation(&active(ID), b"patch"),
            75,
        )
        .expect("resume");
    assert!(matches!(resumed, DropStep::Resume(_)));
}

fn journaled() -> Capsule {
    let mut c = active(ID);
    c.state = CapsuleState::Checkpointing;
    c.checkpoint = Some(change_capsule::CheckpointJournal {
        head_before: BASE.to_owned(),
        head_after: HEAD.to_owned(),
        patch_sha256: change_capsule::digest::sha256_hex(b"work"),
        message: "work".to_owned(),
        author_name: "Fixture".to_owned(),
        author_email: "fixture@example.test".to_owned(),
        started_at_unix: 40,
    });
    c
}

/// Where the branch and the protecting ref of a checkpoint are.
fn follow(steps: &[Step], branch: &mut String, pending: &mut Option<String>) {
    for step in steps {
        match step {
            Step::Protect { which: PendingRef::Checkpoint, commit } => {
                assert!(pending.is_none());
                *pending = Some(commit.clone());
            }
            Step::Unprotect { which: PendingRef::Checkpoint, commit } => {
                assert!(pending.is_none() || pending.as_ref() == Some(commit));
                *pending = None;
            }
            Step::AdvanceBranch { commit, previous } => {
                assert_eq!(branch, previous);
                *branch = commit.clone();
            }
            Step::ResetIndex(_) | Step::Write(_) => {}
            other => panic!("unexpected step {other:?}"),
        }
    }
}

#[test]
fn interrupted_checkpoints_are_finished_from_every_point() {
    let finish_from = |branch: &str, pending: &Option<String>| {
        let done = manager()
            .finish_checkpoint(
                journaled(),
                FinishObservation {
                    inspection: owned(&journaled(), branch),
                    parents: Ok(vec![BASE.to_owned()]),
                    committed: Ok(change(b"work", &["a"])),
                    head: Ok(branch.to_owned()),
                    pending_head: Ok(pending.clone()),
                },
            )
            .expect("finish")
            .expect("certain");
        let journal = journaled().checkpoint.expect("journal");
        (finish_checkpoint(done.moves, &journal), done.outcome.expect("done").0)
    };
    let mut branch = BASE.to_owned();
    let mut pending = None;
    let first = journal_checkpoint(CheckpointPlan {
        capsule: journaled(),
        reference: "refs/change-capsule/x/checkpoint".to_owned(),
    });
    assert_eq!(first.len(), 2);
    assert!(matches!(
        &first[0],
        Step::Protect { which: PendingRef::Checkpoint, commit } if commit == HEAD
    ));
    assert!(matches!(&first[1], Step::Write(c) if c.state == CapsuleState::Checkpointing));
    follow(&first, &mut branch, &mut pending);
    let (steps, _) = finish_from(&branch, &pending);
    assert_eq!(steps.len(), 2);
    for stop in 0..=steps.len() {
        let mut at = branch.clone();
        let mut guard = pending.clone();
        follow(&steps[..stop], &mut at, &mut guard);
        let (rest, finished) = finish_from(&at, &guard);
        follow(&rest, &mut at, &mut guard);
        assert_eq!(at, HEAD);
        assert_eq!(guard, None);
        assert_eq!(finished.state, CapsuleState::Active);
        assert_eq!(finished.checkpoints.len(), 1);
    }
}

#[test]
fn integration_commits_are_protected_before_they_are_recorded() {
    let steps = protect_target(integrating(None), COMMIT.to_owned(), 80).expect("protect");
    assert_eq!(steps.len(), 2);
    assert!(matches!(
        &steps[0],
        Step::Protect { which: PendingRef::Integration, commit } if commit == COMMIT
    ));
    assert!(matches!(
        &steps[1],
        Step::Write(c) if c.integration.as_ref().and_then(|i| i.target_head_after.as_deref())
            == Some(COMMIT)
    ));
    let steps = advance_target(integrating(Some(COMMIT)), 90).expect("advance");
    assert_eq!(steps.len(), 3);
    assert!(matches!(&steps[0], Step::FastForward(commit) if commit == COMMIT));
    assert!(matches!(
        &steps[1],
        Step::Unprotect { which: PendingRef::Integration, commit } if commit == COMMIT
    ));
    assert!(matches!(&steps[2], Step::Write(c) if c.state == CapsuleState::Integrated));

    // A result without a change advances nothing.
    assert_eq!(protect_target(integrating(None), BASE.to_owned(), 80).expect("protect").len(), 1);
    assert_eq!(advance_target(integrating(Some(BASE)), 90).expect("advance").len(), 1);
    assert!(matches!(
        protect_target(active(ID), COMMIT.to_owned(), 80),
        Err(Error::UnsafeState(message)) if message == "integration record disappeared"
    ));
    assert!(advance_target(active(ID), 90).is_err());
}

#[test]
fn cleanups_remove_the_worktree_before_the_branch() {
    let mut c = active(ID);
    c.state = CapsuleState::Dropping;
    c.cleanup = Some(change_capsule::Cleanup {
        branch_head: Some(HEAD.to_owned()),
        require_sealed: false,
        started_at_unix: 50,
    });
    let steps = carry_out_cleanup(&c, Removal::RemoveWorktree);
    assert_eq!(
        steps,
        vec![
            Step::RemoveWorktree,
            Step::DeleteBranch(HEAD.to_owned()),
            Step::Prune,
            Step::Clear(PendingRef::Checkpoint),
            Step::Clear(PendingRef::Integration),
        ]
    );
    let steps = carry_out_cleanup(&c, Removal::Prune);
    assert_eq!(steps[0], Step::Prune);
    assert_eq!(steps[1], Step::RequireUnregistered);
    c.cleanup = Some(change_capsule::Cleanup {
        branch_head: None,
        require_sealed: false,
        started_at_unix: 50,
    });
    assert_eq!(carry_out_cleanup(&c, Removal::Nothing)[0], Step::RequireNoBranch);
}

#[test]
fn creations_add_and_check_out_the_worktree() {
    assert_eq!(
        carry_out_creation(&CreatingOutcome::AddWorktree(active(ID))),
        vec![Step::AddWorktree, Step::CheckOut]
    );
    let done = |checkout| CreatingOutcome::Done {
        capsule: active(ID),
        action: "done".to_owned(),
        checkout,
    };
    assert_eq!(carry_out_creation(&done(true)), vec![Step::CheckOut]);
    assert!(carry_out_creation(&done(false)).is_empty());
}

#[test]
fn capsules_do_not_share_places() {
    let other = "cap-01hzy3v7q8r9s0t1u2v3w4x5y7";
    let (left, right) = (active(ID), active(other));
    let store = StateStore::new(path("/state"));
    assert_eq!(
        store.capsule_dir(other).expect("directory"),
        path(&format!("/state/capsules/{other}"))
    );
    assert_ne!(
        store.capsule_dir(ID).expect("directory"),
        store.capsule_dir(other).expect("directory")
    );
    assert_ne!(left.workspace_path, right.workspace_path);
    assert_ne!(left.branch, right.branch);
    assert_eq!(checkpoint_ref(&right), format!("refs/change-capsule/{other}/checkpoint"));
    assert_ne!(checkpoint_ref(&left), checkpoint_ref(&right));
    assert_ne!(integration_ref(&left), integration_ref(&right));
}

#[test]
fn only_integration_moves_a_target() {
    let moves = |steps: &[Step]| steps.iter().any(|step| matches!(step, Step::FastForward(_)));
    let plan =
        CheckpointPlan { capsule: journaled(), reference: checkpoint_ref(&journaled()) };
    assert!(!moves(&journal_checkpoint(plan)));
    assert!(!moves(&carry_out_cleanup(&active(ID), Removal::RemoveWorktree)));
    assert!(!moves(&carry_out_creation(&CreatingOutcome::AddWorktree(active(ID)))));
    assert!(moves(&advance_target(integrating(Some(COMMIT)), 90).expect("advance")));
}

/// What a workspace shows besides its seal.
fn status_observation(c: &Capsule, snapshot: Snapshot, ignored: &[&str]) -> StatusObservation {
    StatusObservation {
        workspace_exists: true,
        inspection: owned(c, HEAD),
        snapshot: Ok(snapshot),
        ignored_paths: Ok(ignored.iter().map(|p| GitPath::Utf8((*p).to_owned())).collect()),
        head: Ok(HEAD.to_owned()),
        clean: Ok(false),
        commits_ahead: Ok(0),
        stored: Ok(stored(b"patch")),
        patch: Ok(b"patch".to_vec()),
    }
}

/// An inventory of one ignored file.
fn inventory_of(name: GitPath, content: &[u8]) -> IgnoredContentInventory {
    let mut run = InventoryRun::start(vec![name]);
    let relative = run.next_path().expect("next").expect("one path");
    let size = content.len() as u64;
    let opened = OpenedFile {
        regular: true,
        size,
        content: Ok(content.to_vec()),
        size_after: Ok(size),
    };
    let found = path("/workspace").join_path(&relative);
    run.accept(&relative, &found, IgnoredEntry::File { listed: size, opened: Ok(opened) })
        .expect("accept")
        .finish()
}

fn close_ignoring(inventory: &dyn Fn() -> IgnoredContentInventory) -> CapsuleResult {
    let mut reads = still(b"patch", &[".gitignore"], false);
    reads.initial_ignored = Ok(inventory());
    reads.ignored = Ok(inventory());
    manager()
        .close(
            ID,
            CloseOptions::default(),
            Ok(active(ID)),
            Ok(active(ID)),
            &owned(&active(ID), HEAD),
            reads,
            50,
        )
        .expect("close capsule")
        .result
}

#[test]
fn close_seals_ignored_content_inventory_as_provenance() {
    let inventory = || {
        inventory_of(GitPath::Utf8("ignored.log".to_owned()), b"sealed ignored content\n")
    };
    let result = close_ignoring(&inventory);
    assert_eq!(result.ignored_paths, vec![GitPath::Utf8("ignored.log".to_owned())]);
    assert!(result.ignored_bytes > 0);
    assert!(result.ignored_content_sha256.is_some());
}

#[test]
fn non_utf8_ignored_names_and_symlink_targets_hash_losslessly() {
    let raw_name = b"ignored-\xff".to_vec();
    let result = close_ignoring(&|| inventory_of(GitPath::from_raw(raw_name.clone()), b"ignored bytes"));
    assert!(result.ignored_paths.contains(&GitPath::UnixBytes {
        unix_bytes_hex: hex::encode(&raw_name),
    }));
    assert!(result.ignored_content_sha256.is_some());

    let linked = |target: &[u8]| {
        let mut run = InventoryRun::start(vec![GitPath::Utf8("ignored-link".to_owned())]);
        let relative = run.next_path().expect("next").expect("one path");
        let target = NativePath::from_bytes(target.to_vec());
        let size = target.bytes.len() as u64;
        run.accept(&relative, &path("/w/ignored-link"), IgnoredEntry::Link { target: Ok(target), size })
            .expect("accept")
            .finish()
            .content_sha256
    };
    assert_ne!(linked(b"target-\xfe"), linked(b"target-\xff"));
    assert_eq!(linked(b"target-\xfe"), linked(b"target-\xfe"));
}

#[test]
fn status_reports_ignored_untracked_content_excluded_from_results() {
    let observed =
        status_observation(&active(ID), change(b"patch", &[".gitignore"]), &["ignored.log"]);
    let status = manager().status(ID, Ok(active(ID)), observed).expect("status with ignored file");
    assert_eq!(status.changed_paths, vec![GitPath::Utf8(".gitignore".to_owned())]);
    assert_eq!(status.ignored_paths, vec![GitPath::Utf8("ignored.log".to_owned())]);
    let inventory = || inventory_of(GitPath::Utf8("ignored.log".to_owned()), b"excluded\n");
    assert_eq!(
        close_ignoring(&inventory).changed_paths,
        vec![GitPath::Utf8(".gitignore".to_owned())]
    );
}

#[test]
fn ignored_content_churn_after_close_does_not_block_integration_or_drop() {
    let sealed = || closed(b"patch").0;
    let observed =
        status_observation(&sealed(), change(b"patch", &["shared.txt"]), &["build/"]);
    let status = manager().status(ID, Ok(sealed()), observed).expect("status after churn");
    assert_eq!(status.health, CapsuleHealth::Healthy);
    assert_eq!(status.sealed, Some(true));
    assert_eq!(status.ignored_paths, vec![GitPath::Utf8("build/".to_owned())]);

    let started = start(target(BASE), b"patch").expect("ignored churn must not block integration");
    let recorded = record_prepared(started.capsule, COMMIT.to_owned(), 61).expect("record");
    let integrated = || complete_integration(record_again(&recorded), 62).expect("complete");
    assert_eq!(integrated().state, CapsuleState::Integrated);
    let begun = manager()
        .drop_capsule(
            ID,
            false,
            Ok(integrated()),
            Ok(integrated()),
            drop_observation(&integrated(), b"patch"),
            70,
        )
        .expect("ignored churn must not block cleanup");
    match begun {
        DropStep::Begin(capsule) => {
            assert_eq!(complete_cleanup(capsule, 71).0.state, CapsuleState::Dropped);
        }
        other => panic!("unexpected {other:?}"),
    }
}

/// The same integration in progress, once more.
fn record_again(c: &Capsule) -> Capsule {
    let started = start(target(BASE), b"patch").expect("start");
    let again = record_prepared(started.capsule, COMMIT.to_owned(), 61).expect("record");
    assert_eq!(&again, c);
    again
}

#[test]
fn malformed_or_missing_result_artifacts_report_drift_in_status() {
    let sealed = || closed(b"patch").0;
    let observe = || status_observation(&sealed(), change(b"patch", &["shared.txt"]), &[]);
    let mut malformed = observe();
    malformed.stored = Err(Error::Json {
        path: path("/state/capsules/x/result.json"),
        detail: "expected ident at line 1 column 2".to_owned(),
    });
    let mut missing = observe();
    missing.patch = Err(io(IoFault::NotFound));
    for observed in [malformed, missing] {
        let status = manager().status(ID, Ok(sealed()), observed).expect("artifact status");
        assert_eq!(status.health, CapsuleHealth::DriftedAfterClose);
        assert_eq!(status.sealed, Some(false));
    }
}

#[test]
fn integration_into_a_detached_target_preserves_detached_head_identity() {
    let mut detached = target(BASE);
    detached.repository = Ok(Repository {
        worktree: path("/detached-target"),
        common_dir: path("/repo/.git"),
        git_dir: path("/repo/.git/worktrees/detached-target"),
    });
    detached.head_ref = change_capsule::git::head_ref("HEAD\n");
    let started = start(detached, b"patch").expect("integrate into detached target");
    let recorded = record_prepared(started.capsule, COMMIT.to_owned(), 61).expect("record");
    let recheck = |head_ref: &str| TargetRecheck {
        repository: Ok(Repository {
            worktree: path("/detached-target"),
            common_dir: path("/repo/.git"),
            git_dir: path("/repo/.git/worktrees/detached-target"),
        }),
        head_ref: Ok(head_ref.to_owned()),
        clean: Ok(true),
        head: Ok(BASE.to_owned()),
    };
    assert!(confirm_target(&recorded, &started.target, BASE, recheck("HEAD")).is_ok());
    assert!(confirm_target(&recorded, &started.target, BASE, recheck("refs/heads/main")).is_err());
    let integrated = complete_integration(recorded, 62).expect("complete");
    assert_eq!(integrated.state, CapsuleState::Integrated);
    assert_eq!(integrated.integration.expect("integration journal").target_head_ref, "HEAD");
}

#[test]
fn dirty_submodule_content_is_rejected_instead_of_silently_omitted() {
    let refused = || check_snapshot_gate(Ok(false), Ok(true)).expect_err("dirty submodule");
    let mut observed = status_observation(&active(ID), change(b"patch", &["shared.txt"]), &[]);
    observed.snapshot = Err(refused());
    assert!(matches!(
        manager().status(ID, Ok(active(ID)), observed),
        Err(Error::InvalidInput(message)) if message.contains("dirty submodule")
    ));
    let mut reads = still(b"patch", &["shared.txt"], false);
    reads.initial_snapshot = Err(refused());
    assert!(matches!(
        manager().close(
            ID,
            CloseOptions::default(),
            Ok(active(ID)),
            Ok(active(ID)),
            &owned(&active(ID), HEAD),
            reads,
            50,
        ),
        Err(Error::InvalidInput(message)) if message.contains("dirty submodule")
    ));
    assert!(check_snapshot_gate(Ok(false), Ok(false)).is_ok());
    assert!(check_snapshot_gate(Ok(true), Ok(false)).is_err());
}

#[test]
fn unregistered_embedded_repository_is_rejected_instead_of_becoming_a_gitlink() {
    let next = |step: Result<SnapshotStep, Error>| match step.expect("step") {
        SnapshotStep::Next(run) => run,
        SnapshotStep::Finished(_) => panic!("finished early"),
    };
    let run = SnapshotRun::start(BASE, SnapshotSource::Worktree);
    let run = next(run.advance(Ok(Vec::new())));
    let run = next(run.advance(Ok(Vec::new())));
    let raw = format!(":000000 160000 {BASE} {HEAD} A\0vendor/embedded\0");
    let run = next(run.advance(Ok(raw.into_bytes())));
    let mut observed = status_observation(&active(ID), change(b"", &[]), &[]);
    observed.snapshot = match run.advance(Err(Error::Git {
        command: "git submodule status".to_owned(),
        status: 1,
        stderr: String::new(),
    })) {
        Err(error) => Err(error),
        Ok(_) => panic!("an embedded repository was taken"),
    };
    assert!(matches!(
        manager().status(ID, Ok(active(ID)), observed),
        Err(Error::InvalidInput(message)) if message.contains("unregistered embedded Git repository")
    ));
}

#[test]
fn dropped_capsules_keep_their_sealed_patch_and_inventory() {
    let begun = manager()
        .drop_capsule(
            ID,
            false,
            Ok(closed(b"patch").0),
            Ok(closed(b"patch").0),
            drop_observation(&closed(b"patch").0, b"patch"),
            70,
        )
        .expect("drop capsule");
    let dropped = match begun {
        DropStep::Begin(capsule) => complete_cleanup(capsule, 71).0,
        other => panic!("unexpected {other:?}"),
    };
    let observed = DiffObservation {
        inspection: replaced(&dropped),
        snapshot: Err(io(IoFault::NotFound)),
        stored: Ok(stored(b"patch")),
        patch: Ok(b"patch".to_vec()),
    };
    let sealed = dropped.result.as_ref().expect("seal").patch_sha256.clone();
    let patch = manager().diff(ID, Ok(dropped), observed).expect("sealed patch");
    assert_eq!(sealed, change_capsule::digest::sha256_hex(&patch));
    assert_eq!(sealed.len(), 64);
    let result = manager()
        .result(ID, Ok(closed(b"patch").0), Ok(stored(b"patch")), Ok(patch))
        .expect("result");
    assert_eq!(result.changed_paths, vec![GitPath::Utf8("shared.txt".to_owned())]);
}

#[test]
fn evidence_marks_when_the_record_changed() {
    let attached = attach(&|| active(ID), EvidenceInput::claim("cargo test", 0), None, b"patch")
        .expect("attach");
    assert_eq!(attached.evidence.recorded_at_unix, 30);
    assert_eq!(attached.capsule.updated_at_unix, 30);
    assert_eq!(attached.capsule.created_at_unix, 10);
}

#[test]
fn closed_capsules_read_back_as_sealed() {
    let (c, result) = closed(b"patch");
    let shown = manager().show(ID, Ok(c)).expect("show");
    assert_eq!(shown.state, CapsuleState::Closed);
    let read = manager()
        .result(ID, Ok(shown), Ok(stored(b"patch")), Ok(b"patch".to_vec()))
        .expect("result");
    assert_eq!(read, result);
    assert_eq!(read.kind, ResultKind::Patch);
    let sealed = closed(b"patch").0;
    let observed = DiffObservation {
        inspection: owned(&sealed, HEAD),
        snapshot: Err(io(IoFault::Other)),
        stored: Ok(stored(b"patch")),
        patch: Ok(b"patch".to_vec()),
    };
    assert_eq!(manager().diff(ID, Ok(sealed), observed), Ok(b"patch".to_vec()));
}

#[test]
fn checkpoints_add_one_record_and_change_nothing_else() {
    let c = active(ID);
    let inspection = owned(&c, HEAD);
    let options = || CheckpointOptions::new("second thoughts", author());
    let request = manager()
        .begin_checkpoint(
            ID,
            &options(),
            Ok(active(ID)),
            Ok(c),
            &inspection,
            Ok(HEAD.to_owned()),
            Ok(change(b"work", &["a"])),
        )
        .expect("begin");
    let prepared = PreparedCheckpoint {
        commit: Ok(COMMIT.to_owned()),
        prepared: Ok(change(b"work", &["a"])),
        parents: Ok(vec![HEAD.to_owned()]),
        complete: Ok(change(b"complete", &["a"])),
    };
    let plan = manager().checkpoint(request, options(), prepared, 40).expect("journal");
    let (done, checkpoint) = complete_checkpoint(plan.capsule).expect("complete");
    let next = touch(done, 41);
    assert_eq!(checkpoint.message, "second thoughts");
    assert_eq!(checkpoint.author_name, "Fixture");
    assert_eq!(checkpoint.author_email, "fixture@example.test");
    assert_eq!(checkpoint.created_at_unix, 40);
    assert_eq!(next.checkpoints, vec![checkpoint]);
    let mut expected = active(ID);
    expected.updated_at_unix = 41;
    let mut without = manager().show(ID, Ok(next)).expect("show");
    without.checkpoints = Vec::new();
    assert_eq!(without, expected);
}

#[test]
fn sealed_results_can_be_read_after_integration_and_after_a_drop() {
    let observe = |c: &Capsule| DiffObservation {
        inspection: replaced(c),
        snapshot: Err(io(IoFault::NotFound)),
        stored: Ok(stored(b"patch")),
        patch: Ok(b"patch".to_vec()),
    };
    let integrated = || complete_integration(integrating(Some(COMMIT)), 62).expect("complete");
    let dropped = || {
        let mut c = integrated();
        c.state = CapsuleState::Dropping;
        c.cleanup = Some(Cleanup {
            branch_head: Some(HEAD.to_owned()),
            require_sealed: true,
            started_at_unix: 70,
        });
        complete_cleanup(c, 71).0
    };
    for make in [&integrated as &dyn Fn() -> Capsule, &dropped] {
        let result = manager()
            .result(ID, Ok(make()), Ok(stored(b"patch")), Ok(b"patch".to_vec()))
            .expect("result");
        assert_eq!(result, closed(b"patch").1);
        assert_eq!(manager().diff(ID, Ok(make()), observe(&make())), Ok(b"patch".to_vec()));
        assert!(matches!(
            manager().result(ID, Ok(make()), Ok(stored(b"patch")), Ok(b"forged".to_vec())),
            Err(Error::ResultDrift(id)) if id == ID
        ));
    }
    assert_eq!(dropped().state, CapsuleState::Dropped);
}
