//! How a request that cannot be met is answered.

use vstd::prelude::*;
use vstd::string::*;

use crate::artifacts::StoredResult;
use crate::checkpoint::{CheckpointPlan, CheckpointRequest, PreparedCheckpoint};
use crate::cleanup::{DropObservation, DropStep};
use crate::close::{CloseReads, PendingClose};
use crate::create::LookupReads;
use crate::error::Error;
use crate::execution::Execution;
use crate::git::Snapshot;
use crate::idempotency::IdempotencyLookup;
use crate::integrate::{IntegrationTarget, StartedIntegration, TargetObservation};
use crate::laws::guarding;
use crate::laws::inputs;
use crate::laws::integrating;
use crate::laws::places;
use crate::laws::records;
use crate::laws::sealing;
use crate::laws::verifying;
use crate::laws::workspaces;
use crate::manager::CapsuleManager;
use crate::model::{Capsule, CapsuleState};
use crate::options::{CheckpointOptions, CloseOptions, EvidenceInput, IntegrateOptions};
use crate::query::SealObservation;
use crate::recording::AttachedEvidence;
use crate::store::StateStore;
use crate::worktree::WorktreeInspection;
use crate::{close, create, integrate, laws, manager, model};

verus! {

/// Whether two errors say the same.
pub open spec fn same_error(a: Error, b: Error) -> bool {
    match (a, b) {
        (Error::NotRepository(p), Error::NotRepository(q)) => p.bytes@ == q.bytes@,
        (Error::NotFound(s), Error::NotFound(t)) => s@ == t@,
        (Error::InvalidId(s), Error::InvalidId(t)) => s@ == t@,
        (Error::InvalidInput(s), Error::InvalidInput(t)) => s@ == t@,
        (Error::IdempotencyConflict, Error::IdempotencyConflict) => true,
        (Error::IdempotencyNotFound, Error::IdempotencyNotFound) => true,
        (
            Error::InvalidState { id: i, state: s, expected: e },
            Error::InvalidState { id: j, state: t, expected: f },
        ) => i@ == j@ && s@ == t@ && e@ == f@,
        (Error::UnsafeState(s), Error::UnsafeState(t)) => s@ == t@,
        (Error::ForeignWorktree(p), Error::ForeignWorktree(q)) => p.bytes@ == q.bytes@,
        (Error::UnsealedChanges(s), Error::UnsealedChanges(t)) => s@ == t@,
        (Error::ResultDrift(s), Error::ResultDrift(t)) => s@ == t@,
        (Error::DirtyIntegrationTarget(p), Error::DirtyIntegrationTarget(q)) => p.bytes@
            == q.bytes@,
        (
            Error::Git { command: c, status: s, stderr: e },
            Error::Git { command: d, status: t, stderr: f },
        ) => c@ == d@ && s == t && e@ == f@,
        (
            Error::GitOutputTooLarge { command: c, cap: m },
            Error::GitOutputTooLarge { command: d, cap: n },
        ) => c@ == d@ && m == n,
        (Error::NonUtf8Path(p), Error::NonUtf8Path(q)) => p.bytes@ == q.bytes@,
        (
            Error::SchemaVersion { found: a, supported: b },
            Error::SchemaVersion { found: c, supported: d },
        ) => a == c && b == d,
        (Error::ArtifactNotFound(s), Error::ArtifactNotFound(t)) => s@ == t@,
        (Error::PolicyViolation(s), Error::PolicyViolation(t)) => s@ == t@,
        (Error::Verification(s), Error::Verification(t)) => s@ == t@,
        (
            Error::Io { path: p, fault: m, detail: s },
            Error::Io { path: q, fault: n, detail: t },
        ) => p.bytes@ == q.bytes@ && m == n && s@ == t@,
        (Error::Json { path: p, detail: s }, Error::Json { path: q, detail: t }) => p.bytes@
            == q.bytes@ && s@ == t@,
        (Error::CaptureWorker, Error::CaptureWorker) => true,
        _ => false,
    }
}

pub(crate) proof fn lemma_same_error(a: Error, b: Error)
    ensures
        same_error(a, b) <==> a@ == b@,
{
}

/// A copied error says the same.
pub proof fn law_copied_errors_say_the_same(e: Error, r: Error)
    requires
        call_ensures(Error::clone, (&e,), r),
    ensures
        same_error(e, r),
{
    lemma_same_error(e, r);
}

/// The name of a state.
pub open spec fn name_of(s: CapsuleState) -> Seq<char> {
    match s {
        CapsuleState::Creating => "creating"@,
        CapsuleState::Checkpointing => "checkpointing"@,
        CapsuleState::Active => "active"@,
        CapsuleState::Closed => "closed"@,
        CapsuleState::Integrating => "integrating"@,
        CapsuleState::Integrated => "integrated"@,
        CapsuleState::Dropping => "dropping"@,
        CapsuleState::Orphaned => "orphaned"@,
        CapsuleState::Dropped => "dropped"@,
    }
}

/// Whether an error says that a capsule's state does not allow something.
pub open spec fn names_state(e: Error, c: Capsule, expected: Seq<char>) -> bool {
    e matches Error::InvalidState { id, state, expected: wanted } && id@ == c.id@ && state@
        == name_of(c.state) && wanted@ == expected
}

/// A state is refused exactly where it is not the wanted one, by its name.
pub proof fn law_refused_states_are_named(
    c: Capsule,
    wanted: CapsuleState,
    expected: &str,
    r: std::result::Result<(), Error>,
    e: Error,
    name: &'static str,
)
    requires
        call_ensures(manager::require_state, (&c, wanted, expected), r),
        call_ensures(manager::invalid_state, (&c, expected), e),
        call_ensures(model::state_name, (c.state,), name),
    ensures
        r is Ok <==> c.state == wanted,
        r matches Err(e) ==> names_state(e, c, expected@),
        names_state(e, c, expected@),
        name@ == name_of(c.state),
{
}

/// A capsule that is not there is not found, under the name it was asked for; a
/// name that cannot be one is refused before anything is read; and any other
/// failure to read is told as it is.
pub proof fn law_missing_capsules_are_not_found(
    m: CapsuleManager,
    id: &str,
    stored: std::result::Result<Capsule, Error>,
    r: std::result::Result<Capsule, Error>,
)
    requires
        call_ensures(CapsuleManager::show, (&m, id, stored), r),
    ensures
        !laws::is_id(id@) ==> (r matches Err(Error::InvalidId(t)) && t@ == id@),
        laws::is_id(id@) && (stored matches Err(e) && guarding::is_missing(e)) ==> (
        r matches Err(Error::NotFound(t)) && t@ == id@),
        laws::is_id(id@) && (stored matches Err(e) && !guarding::is_missing(e)) ==> (
        r matches Err(e) && same_error(e, stored->Err_0)),
{
    laws::lemma_shapes(id@);
    if let (Err(a), Err(b)) = (stored, r) {
        lemma_same_error(b, a);
    }
}

/// Whether everything was read that tells whether a workspace is a capsule's
/// own.
pub open spec fn is_inspected(seen: WorktreeInspection) -> bool {
    seen.canonical_workspace is Ok && seen.branch is Ok && seen.registered is Ok && seen.head is Ok
}

/// A change to a capsule that is not active is refused for its state, and one in
/// a workspace that is not its own for that workspace.
pub proof fn law_changes_are_refused_for_what_stands_in_their_way(
    m: CapsuleManager,
    id: &str,
    shown: std::result::Result<Capsule, Error>,
    stored: std::result::Result<Capsule, Error>,
    seen: WorktreeInspection,
    r: std::result::Result<Capsule, Error>,
)
    requires
        call_ensures(CapsuleManager::reread_active, (&m, id, shown, stored, &seen), r),
        records::is_found(m.store.root.bytes@, id@, shown),
        records::is_found(m.store.root.bytes@, id@, stored),
    ensures
        !(stored->Ok_0.state is Active) ==> (r matches Err(e) && names_state(
            e,
            stored->Ok_0,
            "active"@,
        )),
        stored->Ok_0.state is Active && is_inspected(seen) && !workspaces::is_own(
            stored->Ok_0,
            seen,
        ) ==> (r matches Err(Error::ForeignWorktree(p)) && p.bytes@
            == stored->Ok_0.workspace_path.bytes@),
{
    records::lemma_found(m.store.root.bytes@, id@, shown);
    records::lemma_found(m.store.root.bytes@, id@, stored);
    workspaces::lemma_own(stored->Ok_0, seen);
}

/// A checkpoint of nothing, an attempt on what cannot be changed, and bad options
/// are each refused for what they are.
pub proof fn law_refused_checkpoints_are_answered(
    m: CapsuleManager,
    id: &str,
    options: CheckpointOptions,
    shown: std::result::Result<Capsule, Error>,
    stored: std::result::Result<Capsule, Error>,
    seen: WorktreeInspection,
    head: std::result::Result<String, Error>,
    snapshot: std::result::Result<Snapshot, Error>,
    r: std::result::Result<CheckpointRequest, Error>,
)
    requires
        call_ensures(
            CapsuleManager::begin_checkpoint,
            (&m, id, &options, shown, stored, &seen, head, snapshot),
            r,
        ),
    ensures
        !(laws::is_text(options.message@, 16384, true) && integrating::is_author(options.author))
            ==> (r matches Err(e) && e is InvalidInput),
        laws::is_text(options.message@, 16384, true) && integrating::is_author(options.author)
            && workspaces::is_open(m.store.root.bytes@, id@, shown, stored, seen) ==> {
            &&& head matches Err(e) ==> (r matches Err(f) && same_error(f, e))
            &&& head is Ok && (snapshot matches Err(_)) ==> (r matches Err(f) && same_error(
                f,
                snapshot->Err_0,
            ))
            &&& head is Ok && (snapshot matches Ok(s) && s.patch@.len() == 0) ==> (r matches Err(
                Error::InvalidInput(t),
            ) && t@ == "nothing to checkpoint"@)
        },
{
    laws::lemma_text(options.message@, 16384, "checkpoint message"@, true);
    integrating::lemma_author(options.author);
    workspaces::lemma_open(m.store.root.bytes@, id@, shown, stored, seen);
    if let (Err(a), Err(b)) = (head, r) {
        lemma_same_error(b, a);
    }
    if let (Err(a), Err(b)) = (snapshot, r) {
        lemma_same_error(b, a);
    }
}

/// A close whose records do not suffice is refused as input, and one whose
/// workspace moved is refused as unsafe, with nothing written.
pub proof fn law_refused_closes_are_answered(
    m: CapsuleManager,
    id: &str,
    options: CloseOptions,
    shown: std::result::Result<Capsule, Error>,
    stored: std::result::Result<Capsule, Error>,
    seen: WorktreeInspection,
    reads: CloseReads,
    at: u64,
    r: std::result::Result<PendingClose, Error>,
)
    requires
        call_ensures(CapsuleManager::close, (&m, id, options, shown, stored, &seen, reads, at), r),
        workspaces::is_open(m.store.root.bytes@, id@, shown, stored, seen),
    ensures
        options.require_successful_evidence && !verifying::meets(
            stored->Ok_0.evidence@,
            Seq::empty(),
            true,
            false,
            false,
        ) ==> (r matches Err(e) && e is InvalidInput),
        sealing::held_still(reads) && r is Err ==> (r matches Err(e) && e is InvalidInput),
        !options.require_successful_evidence && reads.initial_ignored is Ok
            && reads.initial_snapshot is Ok && reads.initial_head is Ok && reads.initial_clean is Ok
            && reads.ignored is Ok && reads.snapshot is Ok && reads.head is Ok && reads.clean is Ok
            && !sealing::held_still(reads) ==> (r matches Err(e) && e is UnsafeState),
{
    workspaces::lemma_open(m.store.root.bytes@, id@, shown, stored, seen);
    sealing::lemma_held_still(reads);
    verifying::lemma_meets(stored->Ok_0.evidence@, Seq::empty(), true, false, false);
}

/// A cleanup that would give up work is refused: for its state where a transition
/// is under way, and as unsealed where work is active.
pub proof fn law_refused_cleanups_are_answered(
    m: CapsuleManager,
    id: &str,
    shown: std::result::Result<Capsule, Error>,
    stored: std::result::Result<Capsule, Error>,
    o: DropObservation,
    at: u64,
    r: std::result::Result<DropStep, Error>,
)
    requires
        call_ensures(CapsuleManager::drop_capsule, (&m, id, false, shown, stored, o, at), r),
        records::is_found(m.store.root.bytes@, id@, shown),
        records::is_found(m.store.root.bytes@, id@, stored),
    ensures
        ({
            let c = stored->Ok_0;
            &&& c.state is Creating || c.state is Checkpointing || c.state is Integrating ==> (
            r matches Err(e) && names_state(e, c, "closed, integrated, orphaned, or --force"@))
            &&& c.state is Active ==> (r matches Err(Error::UnsealedChanges(t)) && t@ == id@)
        }),
{
    records::lemma_found(m.store.root.bytes@, id@, shown);
    records::lemma_found(m.store.root.bytes@, id@, stored);
}

/// A seal that no longer holds is told as drift, and a capsule that has none by
/// its state.
pub proof fn law_drift_is_told(
    m: CapsuleManager,
    c: Capsule,
    o: SealObservation,
    r: std::result::Result<(), Error>,
)
    requires
        call_ensures(CapsuleManager::ensure_sealed, (&m, &c, o), r),
    ensures
        c.result is None ==> (r matches Err(e) && names_state(e, c, "a sealed result"@)),
        c.result is Some && workspaces::is_own(c, o.inspection) && o.snapshot is Ok && o.head is Ok
            && sealing::is_sealed(c, o.stored, o.patch) && !sealing::still_sealed(c, o) ==> (
        r matches Err(Error::ResultDrift(t)) && t@ == c.id@),
{
    workspaces::lemma_own(c, o.inspection);
    sealing::lemma_still_sealed(c, o);
    sealing::lemma_intact(c, o.stored, o.patch);
    if o.snapshot is Ok && o.head is Ok {
        sealing::lemma_undrifted(c, o.snapshot->Ok_0, o.head->Ok_0@, o.stored, o.patch);
    }
}

/// A target that may not be integrated into is refused for the first thing that
/// is wrong with it.
pub proof fn law_refused_targets_are_answered(
    c: Capsule,
    o: TargetObservation,
    r: std::result::Result<IntegrationTarget, Error>,
)
    requires
        call_ensures(integrate::validate_integration_target, (&c, o), r),
        o.repository is Ok && o.sparse is Ok && o.hidden is Ok && o.clean is Ok && o.head is Ok
            && o.head_ref is Ok,
    ensures
        ({
            let t = o.repository->Ok_0;
            let same = places::same_place(t.common_dir.bytes@, c.repository_common_dir.bytes@);
            let own = places::same_place(t.worktree.bytes@, c.workspace_path.bytes@);
            let partial = o.sparse->Ok_0 || o.hidden->Ok_0;
            &&& !same ==> (r matches Err(Error::ForeignWorktree(p)) && p.bytes@
                == t.worktree.bytes@)
            &&& same && (own || partial) ==> (r matches Err(e) && e is InvalidInput)
            &&& same && !own && !partial && !o.clean->Ok_0 ==> (r matches Err(
                Error::DirtyIntegrationTarget(p),
            ) && p.bytes@ == t.worktree.bytes@)
            &&& same && !own && !partial && o.clean->Ok_0 && o.head->Ok_0@ != c.base_commit@ ==> (
            r matches Err(e) && e is InvalidInput)
        }),
{
    let t = o.repository->Ok_0;
    places::lemma_same_place(t.common_dir.bytes@, c.repository_common_dir.bytes@);
    places::lemma_same_place(t.worktree.bytes@, c.workspace_path.bytes@);
}

/// Only a closed capsule is integrated: any other is refused for its state.
pub proof fn law_refused_integrations_are_answered(
    m: CapsuleManager,
    id: &str,
    options: IntegrateOptions,
    shown: std::result::Result<Capsule, Error>,
    stored: std::result::Result<Capsule, Error>,
    seal: SealObservation,
    target: TargetObservation,
    result: std::result::Result<StoredResult, Error>,
    patch: std::result::Result<Vec<u8>, Error>,
    at: u64,
    r: std::result::Result<StartedIntegration, Error>,
)
    requires
        call_ensures(
            CapsuleManager::integrate,
            (&m, id, &options, shown, stored, seal, target, result, patch, at),
            r,
        ),
    ensures
        ({
            let fits = integrating::is_author(options.author) && (
            options.message matches Some(t) ==> laws::is_text(t@, 16384, true));
            &&& !fits ==> (r matches Err(e) && e is InvalidInput)
            &&& fits && records::is_found(m.store.root.bytes@, id@, shown) && records::is_found(
                m.store.root.bytes@,
                id@,
                stored,
            ) && !(stored->Ok_0.state is Closed) ==> (r matches Err(e) && names_state(
                e,
                stored->Ok_0,
                "closed"@,
            ))
        }),
{
    if let Some(t) = options.message {
        laws::lemma_text(t@, 16384, "integration message"@, true);
    }
    integrating::lemma_author(options.author);
    records::lemma_found(m.store.root.bytes@, id@, shown);
    records::lemma_found(m.store.root.bytes@, id@, stored);
}

/// A key that cannot be one is refused as input, and one that is bound to nothing
/// is not found.
pub proof fn law_unbound_keys_are_not_found(
    store: StateStore,
    key: &str,
    reads: LookupReads,
    r: std::result::Result<IdempotencyLookup, Error>,
)
    requires
        call_ensures(create::lookup_idempotency_key_in_store, (&store, key, reads), r),
    ensures
        !inputs::is_key(key@) ==> (r matches Err(e) && e is InvalidInput),
        inputs::is_key(key@) && (reads.reservation matches Ok(None)) ==> (r matches Err(e) && e
            is IdempotencyNotFound),
        inputs::is_key(key@) && (reads.reservation matches Err(_)) ==> (r matches Err(e)
            && same_error(e, reads.reservation->Err_0)),
{
    inputs::lemma_key(key@);
    if let (Err(a), Err(b)) = (reads.reservation, r) {
        lemma_same_error(b, a);
    }
}

/// The two reads of a close are taken for one state exactly where they say the
/// same, and the later one is what is worked with.
pub proof fn law_moved_workspaces_are_not_closed(
    reads: CloseReads,
    r: std::result::Result<close::CloseSnapshotTransaction, Error>,
)
    requires
        call_ensures(close::close_snapshot_transaction, (reads,), r),
    ensures
        r is Ok <==> sealing::held_still(reads),
        r matches Ok(t) ==> t.clean == reads.clean->Ok_0 && t.snapshot == reads.snapshot->Ok_0
            && t.head@ == reads.head->Ok_0@ && t.ignored == reads.ignored->Ok_0,
{
    sealing::lemma_held_still(reads);
}

} // verus!
