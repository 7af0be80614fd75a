//! What calls made one after the other give together.
//!
//! Each law here takes the arguments and the results of calls, and supposes of
//! a result only that the call gave it. What stands between two calls, such as
//! a record that was written and is read again, is supposed where it is needed.

use vstd::prelude::*;
use vstd::string::*;
use vstd::utf8::*;

use crate::artifacts::{ArtifactSnapshot, ExportPlan, StoredResult};
use crate::checkpoint::{
    CheckpointFinish, CheckpointPlan, CheckpointRequest, FinishObservation, PreparedCheckpoint,
};
use crate::close::{CloseReads, PendingClose};
use crate::create::{ExistingRoot, IdempotentStep, LookupReads, MaterializeStep};
use crate::error::{Error, ErrorView};
use crate::git::{Repository, Snapshot};
use crate::idempotency::{IdempotencyLookup, IdempotencyRecord, IdempotencyStatus};
use crate::manager::CapsuleManager;
use crate::model::{
    Capsule, CapsuleListing, CapsuleResult, Checkpoint, ResultKind, UnreadableRecord,
    VerificationReport, SCHEMA_VERSION,
};
use crate::options::{CheckpointOptions, CloseOptions, CreateOptions};
use crate::order::Ordered;
use crate::paths::NativePath;
use crate::policy::{Policy, RootReads};
use crate::query::{DiffObservation, StoredEntry};
use crate::verify::{Receipt, RepositoryReads, VerifyOptions};
use crate::worktree::WorktreeInspection;
use crate::{
    artifacts, bytes, checkpoint, cleanup, close, create, digest, git, idempotency, integrate,
    manager, order, paths, policy, query, receipts, record, signature, store, text, validate, verify,
};

verus! {

/// What was signed verifies: the file that signing a bundle gives passes with
/// the public key of the seed. A file of any other length does not.
pub proof fn law_signed_bundles_verify(
    bundle: Vec<u8>,
    seed: [u8; 32],
    signed: [u8; 64],
    key: [u8; 32],
    raw: Vec<u8>,
    verified: std::result::Result<(), Error>,
)
    requires
        call_ensures(signature::sign_bundle, (Ok(bundle), &seed), Ok(signed)),
        call_ensures(signature::derive_public_key, (&seed,), key),
        call_ensures(signature::verify_bundle_signature, (Ok(bundle), Ok(raw), &key), verified),
    ensures
        raw@ == signed@ ==> verified is Ok,
        raw@.len() != 64 ==> (verified matches Err(e) && e@ == ErrorView::Verification(
            "signature file must contain exactly 64 raw bytes"@,
        )),
{
}

/// Authenticated verification of a receipt succeeds exactly where the signature
/// of its bundle bytes and its plain verification both do, and then reports the
/// same but for the signature. Where the key does not accept the signature for
/// these bytes, as for one made over another bundle that it accepts for that one
/// alone, a valid receipt is refused all the same.
pub proof fn law_authentication_only_adds(
    directory: NativePath,
    receipt: Receipt,
    raw: Vec<u8>,
    signed: [u8; 64],
    key: [u8; 32],
    options: VerifyOptions,
    reads: RepositoryReads,
    accepted: std::result::Result<(), Error>,
    plain: std::result::Result<VerificationReport, Error>,
    authenticated: std::result::Result<VerificationReport, Error>,
    bytes: &[u8],
)
    requires
        receipt.bundle_bytes == Ok::<Vec<u8>, Error>(raw),
        bytes@ == raw@,
        call_ensures(
            signature::verify_bundle_signature_bytes,
            (bytes, &signed, &key),
            accepted,
        ),
        call_ensures(verify::verify_bundle, (&directory, receipt, &options, &reads), plain),
        call_ensures(
            verify::verify_authenticated_bundle,
            (&directory, receipt, &signed, &key, &options, &reads),
            authenticated,
        ),
    ensures
        authenticated is Ok <==> accepted is Ok && plain is Ok,
        (authenticated matches Ok(a) && plain matches Ok(p)) ==> {
            let a = authenticated->Ok_0;
            let p = plain->Ok_0;
            &&& a.signature_authenticated
            &&& !p.signature_authenticated
            &&& a.bundle_directory@ == p.bundle_directory@
            &&& a.capsule_id@ == p.capsule_id@
            &&& a.kind == p.kind
            &&& a.base_commit@ == p.base_commit@
            &&& a.head_commit@ == p.head_commit@
            &&& a.patch_bytes == p.patch_bytes
            &&& a.patch_sha256@ == p.patch_sha256@
            &&& a.changed_paths == p.changed_paths
            &&& a.evidence_total == p.evidence_total
            &&& a.evidence_failed == p.evidence_failed
            &&& a.repository_checked == p.repository_checked
        },
        !signature::accepts(key@, signature::commitment_of(raw@)@, signed@) ==> (
        authenticated matches Err(e) && e@ is Verification),
{
}

/// What was closed can be shown, and reads back as it was sealed: the result and
/// the diff are those of the close.
pub proof fn law_closed_capsules_read_back(
    m: CapsuleManager,
    id: &str,
    options: CloseOptions,
    shown: std::result::Result<Capsule, Error>,
    before: Capsule,
    inspection: WorktreeInspection,
    reads: CloseReads,
    sealed_at: u64,
    pending: PendingClose,
    encoded: &[u8],
    sealed: (Capsule, CapsuleResult),
    kept: StoredResult,
    o: DiffObservation,
    again: std::result::Result<Capsule, Error>,
    result: std::result::Result<CapsuleResult, Error>,
    diff: std::result::Result<Vec<u8>, Error>,
)
    requires
        receipts::reads_shaped(reads),
        call_ensures(
            CapsuleManager::close,
            (&m, id, options, shown, Ok(before), &inspection, reads, sealed_at),
            Ok(pending),
        ),
        call_ensures(close::seal, (pending, encoded), sealed),
        kept.result == sealed.1,
        kept.encoded@ == encoded@,
        o.stored == Ok::<StoredResult, Error>(kept),
        o.patch == Ok::<Vec<u8>, Error>(pending.patch),
        call_ensures(CapsuleManager::show, (&m, id, Ok(sealed.0)), again),
        call_ensures(
            CapsuleManager::result,
            (&m, id, Ok(sealed.0), o.stored, o.patch),
            result,
        ),
        call_ensures(CapsuleManager::diff, (&m, id, Ok(sealed.0), o), diff),
    ensures
        again == Ok::<Capsule, Error>(sealed.0),
        sealed.0.state is Closed,
        result == Ok::<CapsuleResult, Error>(sealed.1),
        diff matches Ok(patch) && {
            let r = sealed.1@;
            &&& patch@ == reads.snapshot->Ok_0@.patch
            &&& r.patch_sha256 == digest::sha256_hex_of(patch@)
            &&& r.patch_bytes == patch@.len()
            &&& r.label == text::opt_view(before.label)
            &&& r.links == before.links@
            &&& r.base_commit == before.base_commit@
            &&& r.checkpoints == record::views(before.checkpoints@)
            &&& r.evidence == record::views(before.evidence@)
            &&& r.created_at_unix == before.created_at_unix
            &&& r.kind == ResultKind::NoChange <==> patch@.len() == 0
            &&& r.kind == ResultKind::Commit <==> patch@.len() > 0 && reads.clean->Ok_0
            &&& r.kind == ResultKind::Patch <==> patch@.len() > 0 && !reads.clean->Ok_0
        },
{
    receipts::law_closed_capsules_read_back(
        m.store.root@,
        id@,
        options,
        shown,
        Ok(before),
        inspection,
        reads,
        sealed_at,
        pending,
        encoded@,
        sealed.0,
        kept,
        o,
    );
}

/// What was closed and exported verifies wherever the receipt is taken, with no
/// more than its three files and whatever became of the capsule in between. The
/// report is that of the sealed result.
///
/// The one thing asked of the host is a clock that did not run backwards
/// between creation and close.
pub proof fn law_closed_and_exported_receipts_verify(
    m: CapsuleManager,
    id: &str,
    options: CloseOptions,
    shown: std::result::Result<Capsule, Error>,
    before: Capsule,
    inspection: WorktreeInspection,
    reads: CloseReads,
    sealed_at: u64,
    pending: PendingClose,
    encoded: &[u8],
    sealed: (Capsule, CapsuleResult),
    manifest: std::result::Result<Capsule, Error>,
    kept: StoredResult,
    current_dir: std::result::Result<NativePath, Error>,
    snapshot: ArtifactSnapshot,
    requested: NativePath,
    normalized: std::result::Result<Option<NativePath>, Error>,
    plan: ExportPlan,
    directory: NativePath,
    receipt: Receipt,
    asked: VerifyOptions,
    repository: RepositoryReads,
    verified: std::result::Result<VerificationReport, Error>,
)
    requires
        receipts::reads_shaped(reads),
        before.created_at_unix <= sealed_at,
        call_ensures(
            CapsuleManager::close,
            (&m, id, options, shown, Ok(before), &inspection, reads, sealed_at),
            Ok(pending),
        ),
        call_ensures(close::seal, (pending, encoded), sealed),
        kept.result == sealed.1,
        call_ensures(
            CapsuleManager::artifact_snapshot,
            (&m, id, manifest, Ok(kept), Ok(pending.patch), &current_dir),
            Ok(snapshot),
        ),
        call_ensures(
            CapsuleManager::export_artifacts,
            (&m, Ok(snapshot), &requested, normalized),
            Ok(plan),
        ),
        receipt.bundle_bytes is Ok,
        receipt.bundle matches Ok(b) && b@ == plan.report.bundle@,
        receipt.result_bytes == Ok::<Vec<u8>, Error>(plan.content),
        receipt.result matches Ok(r) && r@ == sealed.1@,
        receipt.patch == Ok::<Vec<u8>, Error>(plan.patch),
        store::json_number_of(plan.content@, "schema_version"@) == Ok::<Option<u64>, Seq<char>>(
            Some(SCHEMA_VERSION as u64),
        ),
        call_ensures(VerifyOptions::integrity, (), asked),
        call_ensures(verify::verify_bundle, (&directory, receipt, &asked, &repository), verified),
    ensures
        verified matches Ok(report) && {
            let r = sealed.1@;
            &&& report.capsule_id@ == r.capsule_id
            &&& report.kind == r.kind
            &&& report.base_commit@ == r.base_commit
            &&& report.head_commit@ == r.head_commit
            &&& report.patch_bytes == r.patch_bytes
            &&& report.patch_sha256@ == r.patch_sha256
            &&& report.changed_paths == r.changed_paths.len()
            &&& report.evidence_total == r.evidence.len()
            &&& !report.repository_checked
        },
{
    let root = m.store.root@;
    receipts::law_closed_and_exported_capsules_verify(
        root,
        id@,
        options,
        shown,
        Ok(before),
        inspection,
        reads,
        sealed_at,
        pending,
        snapshot,
        artifacts::uri_of(artifacts::artifact_path(root, id@, "result.json"@), current_dir)->Ok_0,
        artifacts::uri_of(artifacts::artifact_path(root, id@, "result.patch"@), current_dir)->Ok_0,
        directory@,
        receipt,
        asked,
        repository,
    );
}

/// A created capsule is the one that was asked for: once its worktree is adopted
/// it is active at the commit that was pinned, with the label and the links of
/// the request, and can be shown. Two creations with different identities share
/// neither workspace nor branch.
pub proof fn law_created_capsules_are_usable_and_apart(
    m: CapsuleManager,
    options: CreateOptions,
    repository: Repository,
    commit: String,
    created_at: u64,
    created: Capsule,
    git_dir: NativePath,
    inspection: WorktreeInspection,
    at: u64,
    adopted: (Capsule, String),
    id: &str,
    shown: std::result::Result<Capsule, Error>,
    other_options: CreateOptions,
    other_repository: Repository,
    other_commit: String,
    other_at: u64,
    other: Capsule,
)
    requires
        validate::is_object_id(commit@),
        paths::is_absolute(repository.worktree@),
        paths::is_absolute(repository.common_dir@),
        paths::is_absolute(git_dir@),
        call_ensures(
            CapsuleManager::create,
            (&m, options, Ok(repository), Ok(commit), created_at),
            Ok(created),
        ),
        call_ensures(
            CapsuleManager::adopt_added_worktree,
            (&m, created, git_dir, &inspection, at),
            Ok(adopted),
        ),
        id@ == created.id@,
        call_ensures(CapsuleManager::show, (&m, id, Ok(adopted.0)), shown),
        call_ensures(
            CapsuleManager::create,
            (&m, other_options, Ok(other_repository), Ok(other_commit), other_at),
            Ok(other),
        ),
    ensures
        shown == Ok::<Capsule, Error>(adopted.0),
        adopted.0.state is Active,
        adopted.0.id == created.id,
        create::is_drawn("cap-"@, created.id@),
        adopted.0.branch@ == "capsule/"@ + created.id@.skip(4),
        adopted.0.base_commit@ == commit@,
        adopted.0.label == options.label,
        adopted.0.links == options.links,
        created.id@ != other.id@ ==> created.workspace_path@ != other.workspace_path@
            && created.branch@ != other.branch@,
{
    let key = validate::project_key_of(repository.common_dir@)->Ok_0;
    create::law_created_capsules_are_active_and_read_back(
        created,
        m.store.root@,
        created.id@,
        options,
        repository,
        key,
        commit@,
        created_at,
        git_dir,
        at,
    );
    if created.id@ != other.id@ {
        validate::lemma_project_key_shape(repository.common_dir@);
        validate::lemma_project_key_shape(other_repository.common_dir@);
        create::lemma_project_key_passes(created.project_key@);
        create::lemma_project_key_passes(other.project_key@);
        manager::law_capsules_do_not_share_places(
            m.store.root@,
            created.id@,
            other.id@,
            created.project_key@,
            other.project_key@,
        );
    }
}

/// A retry gives back the capsule that its key was bound to, in whatever state
/// that is by then, wherever its revision points by then: the second call
/// replays the reservation that the first one made, and materializing it finds
/// the stored record, unchanged. Looking the key up finds the same.
pub proof fn law_retries_return_the_bound_capsule(
    m: CapsuleManager,
    options: CreateOptions,
    key: &str,
    repository: Repository,
    commit: String,
    reserved_at: u64,
    record: IdempotencyRecord,
    now: Repository,
    first: Capsule,
    later: Capsule,
    resolved_later: std::result::Result<String, Error>,
    retried_at: u64,
    retried: std::result::Result<IdempotentStep, Error>,
    unmaterialized: std::result::Result<(), Error>,
    repository_later: std::result::Result<Repository, Error>,
    materialized: std::result::Result<MaterializeStep, Error>,
    reads: LookupReads,
    found: std::result::Result<IdempotencyLookup, Error>,
)
    requires
        call_ensures(
            CapsuleManager::create_idempotent,
            (&m, options, key, Ok(repository), Ok(None), Ok(commit), reserved_at),
            Ok(IdempotentStep::Reserve(record)),
        ),
        call_ensures(
            CapsuleManager::materialize_idempotency_record,
            (&m, &record, Ok(None), Ok(()), Ok(now)),
            Ok(MaterializeStep::New(first)),
        ),
        create::same_identity(first, later),
        store::read_check(m.store.root@, record.capsule_id@, Ok(later)) is Ok,
        call_ensures(
            CapsuleManager::create_idempotent,
            (&m, options, key, Ok(repository), Ok(Some(record)), resolved_later, retried_at),
            retried,
        ),
        call_ensures(
            CapsuleManager::materialize_idempotency_record,
            (&m, &record, Ok(Some(later)), unmaterialized, repository_later),
            materialized,
        ),
        reads.reservation == Ok::<Option<IdempotencyRecord>, Error>(Some(record)),
        reads.manifest == Ok::<Option<Capsule>, Error>(Some(later)),
        call_ensures(CapsuleManager::lookup_idempotency_key, (&m, key, reads), found),
    ensures
        retried == Ok::<IdempotentStep, Error>(IdempotentStep::Replay(record)),
        materialized == Ok::<MaterializeStep, Error>(MaterializeStep::Existing(later)),
        later.id@ == record.capsule_id@,
        later.base_commit@ == commit@,
        found matches Ok(l) && l.capsule_id == record.capsule_id && l.status
            == IdempotencyStatus::Materialized && l.capsule == Some(later),
{
    create::law_materialized_capsule_agrees(record, now, m.store.root@, first);
    create::law_retry_returns_the_reserved_capsule(
        options,
        key@,
        repository,
        commit@,
        reserved_at,
        record,
        resolved_later,
        first,
        later,
    );
}

/// A key that is bound never stands for another request: another repository,
/// another commit, another label or other links is a conflict, whatever else is
/// read. Requests for which SHA-256 gives one digest are left out.
pub proof fn law_other_requests_conflict(
    m: CapsuleManager,
    options: CreateOptions,
    key: &str,
    repository: Repository,
    commit: String,
    reserved_at: u64,
    record: IdempotencyRecord,
    other: CreateOptions,
    other_repository: Repository,
    resolved: std::result::Result<String, Error>,
    asked_at: u64,
    answered: std::result::Result<IdempotentStep, Error>,
)
    requires
        call_ensures(
            CapsuleManager::create_idempotent,
            (&m, options, key, Ok(repository), Ok(None), Ok(commit), reserved_at),
            Ok(IdempotentStep::Reserve(record)),
        ),
        validate::create_check(text::opt_view(other.label), other.links@) is Ok,
        validate::project_key_of(other_repository.common_dir@) is Ok,
        idempotency::request_digest(create::replayed_request(other, other_repository, record))
            == idempotency::request_digest(record.request()) ==> idempotency::request_preimage(
            create::replayed_request(other, other_repository, record),
        ) == idempotency::request_preimage(record.request()),
        ({
            ||| !paths::same(other_repository.worktree@, repository.worktree@)
            ||| !paths::same(other_repository.common_dir@, repository.common_dir@)
            ||| other.base@ != options.base@ && !(resolved matches Ok(c) && c@ == commit@)
            ||| text::opt_view(other.label) != text::opt_view(options.label)
            ||| other.links@ != options.links@
        }),
        call_ensures(
            CapsuleManager::create_idempotent,
            (&m, other, key, Ok(other_repository), Ok(Some(record)), resolved, asked_at),
            answered,
        ),
    ensures
        answered matches Err(e) && e@ == ErrorView::IdempotencyConflict,
{
    create::law_materially_different_replay_conflicts(
        other,
        key@,
        other_repository,
        record,
        resolved,
    );
}

/// Looking a key up in an existing state directory gives what a manager of that
/// directory gives, and finds no reservation where the directory is absent. A
/// key that was never bound is not found. What is found is materialized exactly
/// where it holds a capsule, which then has the reserved identity.
pub proof fn law_lookups_agree(
    m: CapsuleManager,
    key: &str,
    state_root: NativePath,
    root: ExistingRoot,
    reads: LookupReads,
    managed: std::result::Result<IdempotencyLookup, Error>,
    opened: std::result::Result<IdempotencyLookup, Error>,
)
    requires
        call_ensures(CapsuleManager::lookup_idempotency_key, (&m, key, reads), managed),
        call_ensures(
            CapsuleManager::lookup_idempotency_key_at,
            (&state_root, key, root, reads),
            opened,
        ),
    ensures
        create::existing_root_check(state_root@, root) is Ok && root.canonical->Ok_0@
            == m.store.root@ ==> match (opened, managed) {
            (Err(a), Err(b)) => a@ == b@,
            (Ok(a), Ok(b)) => a.schema_version == b.schema_version && a.idempotency_key_sha256@
                == b.idempotency_key_sha256@ && a.capsule_id == b.capsule_id && a.status == b.status
                && a.capsule == b.capsule,
            _ => false,
        },
        create::existing_root_check(state_root@, root) matches Err(e) ==> (
        opened matches Err(found) && found@ == e),
        idempotency::key_check(key@) is Ok && reads.reservation == Ok::<
            Option<IdempotencyRecord>,
            Error,
        >(None) ==> (managed matches Err(e) && e@ == ErrorView::IdempotencyNotFound),
        managed matches Ok(l) ==> (l.status == IdempotencyStatus::Materialized <==> l.capsule
            is Some) && (l.capsule matches Some(c) ==> c.id@ == l.capsule_id@),
        managed matches Ok(l) ==> (l.status == IdempotencyStatus::Reserved <==> l.capsule is None),
{
}

/// A checkpoint adds one record of the commit that was prepared, with the
/// message and the author that were given, and changes nothing else but the time
/// of the change. That commit has the workspace's `HEAD` as its only parent and
/// makes exactly the workspace's change; the branch is at it, or is advanced to
/// it. The record is active and can be shown.
pub proof fn law_checkpoints_add_the_prepared_commit(
    m: CapsuleManager,
    id: &str,
    options: CheckpointOptions,
    shown: std::result::Result<Capsule, Error>,
    before: Capsule,
    inspection: WorktreeInspection,
    head: String,
    snapshot: Snapshot,
    request: CheckpointRequest,
    prepared: PreparedCheckpoint,
    started_at: u64,
    plan: CheckpointPlan,
    observed: FinishObservation,
    finish: CheckpointFinish,
    done: (Capsule, Checkpoint),
    at: u64,
    next: Capsule,
    again: std::result::Result<Capsule, Error>,
)
    requires
        call_ensures(
            CapsuleManager::begin_checkpoint,
            (&m, id, &options, shown, Ok(before), &inspection, Ok(head), Ok(snapshot)),
            Ok(request),
        ),
        call_ensures(
            CapsuleManager::checkpoint,
            (&m, request, options, prepared, started_at),
            Ok(plan),
        ),
        validate::is_object_id(prepared.commit->Ok_0@),
        call_ensures(
            CapsuleManager::finish_checkpoint,
            (&m, plan.capsule, observed),
            Ok(Some(finish)),
        ),
        finish.outcome == Ok::<(Capsule, Checkpoint), Error>(done),
        call_ensures(checkpoint::touch, (done.0, at), next),
        call_ensures(CapsuleManager::show, (&m, id, Ok(next)), again),
    ensures
        next.checkpoints@ == before.checkpoints@.push(done.1),
        next == (Capsule { checkpoints: next.checkpoints, updated_at_unix: at, ..before }),
        next.state is Active,
        again == Ok::<Capsule, Error>(next),
        done.1.commit@ == prepared.commit->Ok_0@,
        done.1.message == options.message,
        done.1.author_name == options.author.name,
        done.1.author_email == options.author.email,
        git::texts(prepared.parents->Ok_0@) == seq![head@],
        prepared.prepared->Ok_0@ == snapshot@,
        snapshot@.patch.len() > 0,
        finish.moves.advance_branch || observed.head->Ok_0@ == done.1.commit@,
{
    assert forall|i: int| 0 <= i < next.checkpoints@.len() implies validate::is_object_id(
        (#[trigger] next.checkpoints@[i]).commit@,
    ) by {
        if i < before.checkpoints@.len() {
            assert(next.checkpoints@[i] == before.checkpoints@[i]);
        }
    }
}

/// A checkpoint is refused where nothing changed, and where the capsule has as
/// many checkpoints as it may retain, whatever was prepared.
pub proof fn law_checkpoints_are_refused(
    m: CapsuleManager,
    id: &str,
    options: CheckpointOptions,
    shown: std::result::Result<Capsule, Error>,
    stored: std::result::Result<Capsule, Error>,
    inspection: WorktreeInspection,
    head: std::result::Result<String, Error>,
    snapshot: Snapshot,
    begun: std::result::Result<CheckpointRequest, Error>,
    request: CheckpointRequest,
    prepared: PreparedCheckpoint,
    started_at: u64,
    planned: std::result::Result<CheckpointPlan, Error>,
)
    requires
        call_ensures(
            CapsuleManager::begin_checkpoint,
            (&m, id, &options, shown, stored, &inspection, head, Ok(snapshot)),
            begun,
        ),
        call_ensures(
            CapsuleManager::checkpoint,
            (&m, request, options, prepared, started_at),
            planned,
        ),
    ensures
        snapshot.patch@.len() == 0 ==> begun is Err,
        snapshot.patch@.len() == 0 && options.check() is Ok && checkpoint::active_check(
            m.store.root@,
            id@,
            shown,
            stored,
            inspection,
        ) is Ok && head is Ok ==> (begun matches Err(e) && e@ == ErrorView::InvalidInput(
            "nothing to checkpoint"@,
        )),
        request.capsule.checkpoints@.len() >= checkpoint::CHECKPOINT_COUNT_CAP ==> planned is Err,
{
}

/// What was sealed is read back after integration and after a drop: the result
/// is the one that could be read before, and the diff is the sealed patch,
/// whatever became of the workspace.
pub proof fn law_sealed_results_are_read_back_later(
    m: CapsuleManager,
    id: &str,
    c: Capsule,
    o: DiffObservation,
    sealed: CapsuleResult,
    branch_head: Option<String>,
    require_sealed: bool,
    started_at: u64,
    at: u64,
    integrated: Capsule,
    dropped: (Capsule, String),
    after_integration: std::result::Result<CapsuleResult, Error>,
    diff_after_integration: std::result::Result<Vec<u8>, Error>,
    after_drop: std::result::Result<CapsuleResult, Error>,
    diff_after_drop: std::result::Result<Vec<u8>, Error>,
)
    requires
        c.state is Integrating,
        call_ensures(CapsuleManager::result, (&m, id, Ok(c), o.stored, o.patch), Ok(sealed)),
        call_ensures(integrate::complete_integration, (c, at), Ok(integrated)),
        call_ensures(
            CapsuleManager::result,
            (&m, id, Ok(integrated), o.stored, o.patch),
            after_integration,
        ),
        call_ensures(CapsuleManager::diff, (&m, id, Ok(integrated), o), diff_after_integration),
        call_ensures(
            cleanup::complete_cleanup,
            (cleanup::dropping(integrated, branch_head, require_sealed, started_at), at),
            dropped,
        ),
        call_ensures(
            CapsuleManager::result,
            (&m, id, Ok(dropped.0), o.stored, o.patch),
            after_drop,
        ),
        call_ensures(CapsuleManager::diff, (&m, id, Ok(dropped.0), o), diff_after_drop),
    ensures
        after_integration == Ok::<CapsuleResult, Error>(sealed),
        diff_after_integration matches Ok(patch) && patch@ == o.patch->Ok_0@,
        after_drop == Ok::<CapsuleResult, Error>(sealed),
        diff_after_drop matches Ok(patch) && patch@ == o.patch->Ok_0@,
{
    let root = m.store.root@;
    receipts::law_sealed_results_outlive_the_workspace(
        root,
        id@,
        c,
        o,
        branch_head,
        require_sealed,
        started_at,
        at,
    );
    receipts::law_sealed_results_outlive_the_workspace(
        root,
        id@,
        integrated,
        o,
        branch_head,
        require_sealed,
        started_at,
        at,
    );
}

/// An installed policy has exactly the requested roots, in canonical form, in
/// strictly ascending order, and is otherwise as it was requested; once stored,
/// it is the effective one.
pub proof fn law_installed_policies_are_effective(
    m: CapsuleManager,
    requested: Policy,
    roots: Vec<RootReads>,
    installed: Policy,
    effective: std::result::Result<Policy, Error>,
)
    requires
        call_ensures(CapsuleManager::set_policy, (&m, requested, roots), Ok(installed)),
        call_ensures(CapsuleManager::policy, (&m, Ok(Some(installed))), effective),
    ensures
        effective == Ok::<Policy, Error>(installed),
        installed == (Policy {
            allowed_repository_roots: installed.allowed_repository_roots,
            ..requested
        }),
        forall|i: int, j: int|
            0 <= i < j < installed.allowed_repository_roots@.len() ==> (
            #[trigger] installed.allowed_repository_roots@[i]).precedes(
                #[trigger] installed.allowed_repository_roots@[j],
            ),
        roots@.len() == requested.allowed_repository_roots@.len(),
        forall|k: int|
            0 <= k < roots@.len() ==> (#[trigger] roots@[k]).requested@
                == requested.allowed_repository_roots@[k]@ && roots@[k].directory && (
            roots@[k].canonical matches Ok(p) && policy::holds(
                installed.allowed_repository_roots@,
                p@,
            )),
        forall|i: int|
            0 <= i < installed.allowed_repository_roots@.len() ==> exists|k: int|
                0 <= k < roots@.len() && (#[trigger] roots@[k]).canonical == Ok::<
                    NativePath,
                    Error,
                >(#[trigger] installed.allowed_repository_roots@[i]),
{
    let all = policy::resolved_roots(roots@)->Ok_0;
    policy::law_installed_roots_are_the_requested_ones(installed, requested, roots@, all);
    assert forall|k: int| 0 <= k < roots@.len() implies (#[trigger] roots@[k]).requested@
        == requested.allowed_repository_roots@[k]@ && roots@[k].directory && (
    roots@[k].canonical matches Ok(p) && policy::holds(
        installed.allowed_repository_roots@,
        p@,
    )) by {
        assert(roots@[k].canonical == Ok::<NativePath, Error>(all[k]));
    }
    assert forall|i: int| 0 <= i < installed.allowed_repository_roots@.len() implies exists|k: int|
        0 <= k < roots@.len() && (#[trigger] roots@[k]).canonical == Ok::<NativePath, Error>(
            #[trigger] installed.allowed_repository_roots@[i],
        ) by {
        let root = installed.allowed_repository_roots@[i];
        assert(all.contains(root));
        let k = all.index_of(root);
        assert(roots@[k].canonical == Ok::<NativePath, Error>(all[k]));
    }
}

/// A listing of a directory's entries strictly ascends by identifier, in the
/// capsules that were read and in the records that were not, and no identifier
/// is in both.
pub proof fn law_listings_strictly_ascend(
    m: CapsuleManager,
    entries: Vec<StoredEntry>,
    listing: CapsuleListing,
)
    requires
        query::names_differ(entries@),
        call_ensures(CapsuleManager::list_reporting, (&m, entries), listing),
    ensures
        forall|i: int, j: int|
            0 <= i < j < listing.capsules@.len() ==> bytes::bytes_before(
                encode_utf8((#[trigger] listing.capsules@[i]).id@),
                encode_utf8((#[trigger] listing.capsules@[j]).id@),
            ),
        forall|i: int, j: int|
            0 <= i < j < listing.unreadable@.len() ==> bytes::bytes_before(
                encode_utf8((#[trigger] listing.unreadable@[i]).id@),
                encode_utf8((#[trigger] listing.unreadable@[j]).id@),
            ),
        forall|i: int, j: int|
            0 <= i < listing.capsules@.len() && 0 <= j < listing.unreadable@.len() ==> (
            #[trigger] listing.capsules@[i]).id@ != (#[trigger] listing.unreadable@[j]).id@,
{
    let root = m.store.root@;
    let unsorted = choose|unsorted: Seq<UnreadableRecord>|
        record::views(unsorted) == query::unreadable_of(root, entries@) && listing.unreadable@
            == #[trigger] order::sorted(unsorted);
    query::law_listing_strictly_ascends(root, entries@, unsorted);
    let read = order::sorted(query::readable_of(root, entries@));
    assert forall|i: int| 0 <= i < read.len() implies (#[trigger] read[i]).id@
        == listing.capsules@[i].id@ by {
        assert(listing.capsules@[i].summarizes(read[i]));
    }
    assert forall|i: int, j: int| 0 <= i < j < listing.capsules@.len() implies bytes::bytes_before(
        encode_utf8((#[trigger] listing.capsules@[i]).id@),
        encode_utf8((#[trigger] listing.capsules@[j]).id@),
    ) by {
        assert(read[i].id@ == listing.capsules@[i].id@ && read[j].id@ == listing.capsules@[j].id@);
    }
    assert forall|i: int, j: int|
        0 <= i < listing.capsules@.len() && 0 <= j < listing.unreadable@.len() implies (
    #[trigger] listing.capsules@[i]).id@ != (#[trigger] listing.unreadable@[j]).id@ by {
        assert(read[i].id@ == listing.capsules@[i].id@);
    }
}

} // verus!
