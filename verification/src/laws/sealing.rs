//! What a close seals, and what a seal holds to.

use vstd::prelude::*;
use vstd::string::*;

use crate::artifacts::StoredResult;
use crate::close::{CloseReads, PendingClose};
use crate::error::Error;
use crate::git::Snapshot;
use crate::git_path::GitPath;
use crate::inventory::IgnoredContentInventory;
use crate::laws::places;
use crate::laws::records;
use crate::laws::verifying;
use crate::laws::workspaces;
use crate::manager::CapsuleManager;
use crate::model::{
    Capsule, CapsuleHealth, CapsuleResult, CapsuleState, CapsuleStatus, ResultKind,
};
use crate::options::CloseOptions;
use crate::paths::NativePath;
use crate::query::{DiffObservation, SealObservation, StatusObservation};
use crate::worktree::WorktreeInspection;
use crate::{artifacts, close, laws, query, record};

verus! {

/// Whether two snapshots are of the same change.
pub open spec fn same_change(a: Snapshot, b: Snapshot) -> bool {
    a.patch@ == b.patch@ && laws::same_paths(a.changed_paths@, b.changed_paths@)
}

/// Whether two inventories are of the same ignored content.
pub open spec fn same_ignored(a: IgnoredContentInventory, b: IgnoredContentInventory) -> bool {
    &&& laws::same_paths(a.paths@, b.paths@)
    &&& a.bytes == b.bytes
    &&& a.content_sha256@ == b.content_sha256@
}

/// Whether a workspace held still between the two reads of a close.
pub open spec fn held_still(reads: CloseReads) -> bool {
    &&& reads.initial_ignored is Ok && reads.initial_snapshot is Ok && reads.initial_head is Ok
        && reads.initial_clean is Ok
    &&& reads.ignored is Ok && reads.snapshot is Ok && reads.head is Ok && reads.clean is Ok
    &&& same_change(reads.initial_snapshot->Ok_0, reads.snapshot->Ok_0)
    &&& reads.initial_head->Ok_0@ == reads.head->Ok_0@
    &&& reads.initial_clean->Ok_0 == reads.clean->Ok_0
    &&& same_ignored(reads.initial_ignored->Ok_0, reads.ignored->Ok_0)
}

pub(crate) proof fn lemma_same_change(a: Snapshot, b: Snapshot)
    ensures
        same_change(a, b) <==> a@ == b@,
{
    laws::lemma_same_paths(a.changed_paths@, b.changed_paths@);
}

pub(crate) proof fn lemma_held_still(reads: CloseReads)
    ensures
        held_still(reads) <==> close::reads_check(reads) is Ok,
{
    if reads.initial_snapshot is Ok && reads.snapshot is Ok {
        lemma_same_change(reads.initial_snapshot->Ok_0, reads.snapshot->Ok_0);
    }
    if reads.initial_ignored is Ok && reads.ignored is Ok {
        laws::lemma_same_paths(
            reads.initial_ignored->Ok_0.paths@,
            reads.ignored->Ok_0.paths@,
        );
    }
}

/// A capsule is closed exactly where it is open to change, its workspace held
/// still, its records meet what was required of them for the patch being
/// sealed, and the patch is within 64 MiB.
pub proof fn law_closing_needs_what_was_required(
    m: CapsuleManager,
    id: &str,
    options: CloseOptions,
    shown: std::result::Result<Capsule, Error>,
    stored: std::result::Result<Capsule, Error>,
    seen: WorktreeInspection,
    reads: CloseReads,
    at: u64,
    r: std::result::Result<PendingClose, Error>,
)
    requires
        call_ensures(CapsuleManager::close, (&m, id, options, shown, stored, &seen, reads, at), r),
    ensures
        r is Ok <==> {
            &&& workspaces::is_open(m.store.root.bytes@, id@, shown, stored, seen)
            &&& held_still(reads)
            &&& verifying::meets(
                stored->Ok_0.evidence@,
                verifying::digest_of(reads.snapshot->Ok_0.patch@),
                options.require_successful_evidence,
                options.require_current_successful_evidence,
                options.require_executed_evidence,
            )
            &&& reads.snapshot->Ok_0.patch@.len() <= 67108864
        },
{
    workspaces::lemma_open(m.store.root.bytes@, id@, shown, stored, seen);
    lemma_held_still(reads);
    if let Ok(c) = stored {
        if let Ok(s) = reads.snapshot {
            verifying::lemma_meets(
                c.evidence@,
                verifying::digest_of(s.patch@),
                options.require_successful_evidence,
                options.require_current_successful_evidence,
                options.require_executed_evidence,
            );
            verifying::lemma_meets(
                c.evidence@,
                verifying::digest_of(s.patch@),
                options.require_successful_evidence,
                false,
                false,
            );
        }
    }
}

/// What is sealed is the capsule as it was stored and its workspace as it was
/// read: nothing is left out and nothing comes from elsewhere.
pub proof fn law_results_say_what_was_read(
    m: CapsuleManager,
    id: &str,
    options: CloseOptions,
    shown: std::result::Result<Capsule, Error>,
    c: Capsule,
    seen: WorktreeInspection,
    reads: CloseReads,
    at: u64,
    pending: PendingClose,
)
    requires
        call_ensures(
            CapsuleManager::close,
            (&m, id, options, shown, Ok(c), &seen, reads, at),
            Ok(pending),
        ),
    ensures
        pending.capsule == c,
        pending.patch@ == reads.snapshot->Ok_0.patch@,
        ({
            let r = pending.result;
            &&& r.schema_version == 5
            &&& r.capsule_id@ == c.id@
            &&& laws::opt(r.label) == laws::opt(c.label)
            &&& r.links@ == c.links@
            &&& r.kind is NoChange <==> pending.patch@.len() == 0
            &&& r.kind is Commit <==> pending.patch@.len() > 0 && reads.clean->Ok_0
            &&& r.kind is Patch <==> pending.patch@.len() > 0 && !reads.clean->Ok_0
            &&& r.base_commit@ == c.base_commit@
            &&& r.head_commit@ == reads.head->Ok_0@
            &&& r.patch_sha256@ == verifying::digest_of(pending.patch@)
            &&& r.patch_bytes == pending.patch@.len()
            &&& laws::same_paths(r.changed_paths@, reads.snapshot->Ok_0.changed_paths@)
            &&& r.ignored_bytes == reads.ignored->Ok_0.bytes
            &&& laws::opt(r.ignored_content_sha256) == Some(reads.ignored->Ok_0.content_sha256@)
            &&& laws::same_paths(r.ignored_paths@, reads.ignored->Ok_0.paths@)
            &&& laws::same_checkpoints(r.checkpoints@, c.checkpoints@)
            &&& laws::same_records(r.evidence@, c.evidence@)
            &&& r.created_at_unix == c.created_at_unix
            &&& r.sealed_at_unix == at
        }),
{
    let r = pending.result;
    laws::lemma_same_paths(r.changed_paths@, reads.snapshot->Ok_0.changed_paths@);
    laws::lemma_same_paths(r.ignored_paths@, reads.ignored->Ok_0.paths@);
    laws::lemma_same_checkpoints(r.checkpoints@, c.checkpoints@);
    laws::lemma_same_records(r.evidence@, c.evidence@);
}

/// Sealing closes the capsule with a seal on exactly the result and the patch,
/// and changes nothing else.
pub proof fn law_sealing_binds_the_result_and_the_patch(
    pending: PendingClose,
    encoded: &[u8],
    r: (Capsule, CapsuleResult),
)
    requires
        call_ensures(close::seal, (pending, encoded), r),
    ensures
        r.1 == pending.result,
        r.0 == (Capsule {
            state: CapsuleState::Closed,
            result: r.0.result,
            closed_at_unix: Some(pending.result.sealed_at_unix),
            updated_at_unix: pending.result.sealed_at_unix,
            ..pending.capsule
        }),
        r.0.result matches Some(s) && s.kind == pending.result.kind && s.head_commit@
            == pending.result.head_commit@ && s.patch_sha256@ == pending.result.patch_sha256@
            && s.result_sha256@ == verifying::digest_of(encoded@) && s.patch_bytes
            == pending.patch@.len() && s.changed_paths == pending.result.changed_paths@.len()
            && s.sealed_at_unix == pending.result.sealed_at_unix,
{
}

/// Whether a stored result and patch are those that a capsule's seal was made
/// on, and still say what the capsule's record says.
pub open spec fn seal_fits(
    c: Capsule,
    r: CapsuleResult,
    encoded: Seq<u8>,
    patch: Seq<u8>,
) -> bool {
    let seal = c.result->0;
    &&& c.result is Some
    &&& seal.kind == r.kind
    &&& seal.head_commit@ == r.head_commit@
    &&& seal.patch_sha256@ == verifying::digest_of(patch)
    &&& r.patch_sha256@ == verifying::digest_of(patch)
    &&& seal.result_sha256@ == verifying::digest_of(encoded)
    &&& seal.patch_bytes == patch.len()
    &&& r.patch_bytes == patch.len()
    &&& seal.changed_paths == r.changed_paths@.len()
    &&& seal.sealed_at_unix == r.sealed_at_unix
    &&& r.schema_version == 5
    &&& r.capsule_id@ == c.id@
    &&& laws::opt(r.label) == laws::opt(c.label)
    &&& r.links@ == c.links@
    &&& r.base_commit@ == c.base_commit@
    &&& laws::same_checkpoints(r.checkpoints@, c.checkpoints@)
    &&& laws::same_records(r.evidence@, c.evidence@)
    &&& r.created_at_unix == c.created_at_unix
}

/// Whether the sealed artifacts of a capsule could be read and are the result
/// of that capsule.
pub open spec fn is_sealed(
    c: Capsule,
    stored: std::result::Result<StoredResult, Error>,
    patch: std::result::Result<Vec<u8>, Error>,
) -> bool {
    &&& c.result is Some
    &&& laws::is_id(c.id@)
    &&& stored matches Ok(s) && s.result.capsule_id@ == c.id@ && records::is_result(s.result)
    &&& patch is Ok
}

/// Whether the sealed artifacts of a capsule are the ones that were sealed.
pub open spec fn is_intact(
    c: Capsule,
    stored: std::result::Result<StoredResult, Error>,
    patch: std::result::Result<Vec<u8>, Error>,
) -> bool {
    &&& is_sealed(c, stored, patch)
    &&& seal_fits(c, stored->Ok_0.result, stored->Ok_0.encoded@, patch->Ok_0@)
}

/// Whether a workspace still is what was sealed.
pub open spec fn is_undrifted(
    c: Capsule,
    snapshot: Snapshot,
    head: Seq<char>,
    stored: std::result::Result<StoredResult, Error>,
    patch: std::result::Result<Vec<u8>, Error>,
) -> bool {
    &&& is_intact(c, stored, patch)
    &&& stored->Ok_0.result.head_commit@ == head
    &&& patch->Ok_0@ == snapshot.patch@
    &&& laws::same_paths(stored->Ok_0.result.changed_paths@, snapshot.changed_paths@)
}

pub(crate) proof fn lemma_seal_fits(
    c: Capsule,
    r: CapsuleResult,
    encoded: Seq<u8>,
    patch: Seq<u8>,
)
    requires
        c.result is Some,
    ensures
        seal_fits(c, r, encoded, patch) <==> artifacts::seal_agrees(
            c,
            c.result->0,
            r@,
            encoded,
            patch,
        ),
{
    laws::lemma_views(r.changed_paths@);
    laws::lemma_same_checkpoints(r.checkpoints@, c.checkpoints@);
    laws::lemma_same_records(r.evidence@, c.evidence@);
}

pub(crate) proof fn lemma_intact(
    c: Capsule,
    stored: std::result::Result<StoredResult, Error>,
    patch: std::result::Result<Vec<u8>, Error>,
)
    ensures
        is_sealed(c, stored, patch) <==> artifacts::sealed_check(c, stored, patch) is Ok,
        is_intact(c, stored, patch) <==> artifacts::intact_check(c, stored, patch) is Ok,
{
    laws::lemma_shapes(c.id@);
    if let Ok(s) = stored {
        records::lemma_result(s.result);
        if let Ok(p) = patch {
            if c.result is Some {
                lemma_seal_fits(c, s.result, s.encoded@, p@);
            }
        }
    }
}

pub(crate) proof fn lemma_undrifted(
    c: Capsule,
    snapshot: Snapshot,
    head: Seq<char>,
    stored: std::result::Result<StoredResult, Error>,
    patch: std::result::Result<Vec<u8>, Error>,
)
    ensures
        is_undrifted(c, snapshot, head, stored, patch) <==> query::seal_matches_of(
            c,
            snapshot@,
            head,
            stored,
            patch,
        ) == Ok::<bool, crate::error::ErrorView>(true),
{
    lemma_intact(c, stored, patch);
    if let Ok(s) = stored {
        laws::lemma_same_paths(s.result.changed_paths@, snapshot.changed_paths@);
        if let Ok(p) = patch {
            if c.result is Some {
                lemma_seal_fits(c, s.result, s.encoded@, p@);
            }
        }
    }
}

/// Whether a seal still holds: the workspace is the capsule's own, and it and
/// the stored artifacts are what was sealed.
pub open spec fn still_sealed(c: Capsule, o: SealObservation) -> bool {
    &&& workspaces::is_own(c, o.inspection)
    &&& o.snapshot is Ok
    &&& o.head is Ok
    &&& is_undrifted(c, o.snapshot->Ok_0, o.head->Ok_0@, o.stored, o.patch)
}

pub(crate) proof fn lemma_still_sealed(c: Capsule, o: SealObservation)
    ensures
        still_sealed(c, o) <==> query::sealed_state_check(c, o) is Ok,
{
    workspaces::lemma_own(c, o.inspection);
    if o.snapshot is Ok && o.head is Ok {
        lemma_undrifted(c, o.snapshot->Ok_0, o.head->Ok_0@, o.stored, o.patch);
    }
}

/// A seal is taken to hold exactly where every byte and every field it was made
/// on is still the same, in the stored artifacts and in the workspace.
pub proof fn law_seals_hold_exactly_where_nothing_drifted(
    m: CapsuleManager,
    c: Capsule,
    snapshot: Snapshot,
    head: &str,
    stored: std::result::Result<StoredResult, Error>,
    patch: std::result::Result<Vec<u8>, Error>,
    o: SealObservation,
    holds: std::result::Result<bool, Error>,
    ensured: std::result::Result<(), Error>,
)
    requires
        call_ensures(CapsuleManager::seal_matches, (&m, &c, &snapshot, head, stored, patch), holds),
        call_ensures(CapsuleManager::ensure_sealed, (&m, &c, o), ensured),
    ensures
        holds == Ok::<bool, Error>(true) <==> is_undrifted(c, snapshot, head@, stored, patch),
        is_sealed(c, stored, patch) ==> holds is Ok,
        ensured is Ok <==> still_sealed(c, o),
{
    lemma_undrifted(c, snapshot, head@, stored, patch);
    lemma_intact(c, stored, patch);
    lemma_still_sealed(c, o);
}

/// A sealed result is given out exactly where it is the one that was sealed,
/// and so is the place of its patch.
pub proof fn law_sealed_results_are_given_out_intact(
    m: CapsuleManager,
    id: &str,
    manifest: std::result::Result<Capsule, Error>,
    stored: std::result::Result<StoredResult, Error>,
    patch: std::result::Result<Vec<u8>, Error>,
    result: std::result::Result<CapsuleResult, Error>,
    path: std::result::Result<NativePath, Error>,
)
    requires
        call_ensures(CapsuleManager::result, (&m, id, manifest, stored, patch), result),
        call_ensures(CapsuleManager::result_patch_path, (&m, id, manifest, stored, patch), path),
    ensures
        result is Ok <==> records::is_found(m.store.root.bytes@, id@, manifest) && is_intact(
            manifest->Ok_0,
            stored,
            patch,
        ),
        result matches Ok(r) ==> r == stored->Ok_0.result,
        path is Ok <==> result is Ok,
        path matches Ok(p) ==> p.bytes@ == places::inside(
            places::home(m.store.root.bytes@, id@),
            "result.patch"@,
        ),
{
    let root = m.store.root.bytes@;
    records::lemma_found(root, id@, manifest);
    if let Ok(c) = manifest {
        lemma_intact(c, stored, patch);
    }
    places::lemma_homes(root, id@, id@);
    places::lemma_inside(places::home(root, id@), "result.patch"@);
}

/// The complete patch of a capsule is the sealed one once there is a seal to go
/// by, and until then the one in its workspace. A capsule dropped without a seal
/// left none; one that is being created, or is orphaned, has none to give.
pub proof fn law_diffs_are_sealed_or_live(
    m: CapsuleManager,
    id: &str,
    manifest: std::result::Result<Capsule, Error>,
    o: DiffObservation,
    r: std::result::Result<Vec<u8>, Error>,
)
    requires
        call_ensures(CapsuleManager::diff, (&m, id, manifest, o), r),
    ensures
        r is Ok <==> records::is_found(m.store.root.bytes@, id@, manifest) && match manifest->Ok_0.state {
            CapsuleState::Closed | CapsuleState::Integrating | CapsuleState::Integrated =>
                is_intact(manifest->Ok_0, o.stored, o.patch),
            CapsuleState::Active | CapsuleState::Checkpointing => workspaces::is_own(
                manifest->Ok_0,
                o.inspection,
            ) && o.snapshot is Ok,
            CapsuleState::Creating | CapsuleState::Orphaned => false,
            CapsuleState::Dropping | CapsuleState::Dropped => manifest->Ok_0.result is Some
                ==> is_intact(manifest->Ok_0, o.stored, o.patch),
        },
        r matches Ok(p) ==> p@ == (match manifest->Ok_0.state {
            CapsuleState::Active | CapsuleState::Checkpointing => o.snapshot->Ok_0.patch@,
            CapsuleState::Dropping | CapsuleState::Dropped => if manifest->Ok_0.result is Some {
                o.patch->Ok_0@
            } else {
                Seq::empty()
            },
            _ => o.patch->Ok_0@,
        }),
{
    records::lemma_found(m.store.root.bytes@, id@, manifest);
    if let Ok(c) = manifest {
        lemma_intact(c, o.stored, o.patch);
        workspaces::lemma_own(c, o.inspection);
    }
}

/// Whether a status says nothing of the workspace's content.
pub open spec fn says_nothing_more(s: CapsuleStatus) -> bool {
    &&& s.head_commit is None && s.dirty is None && s.commits_ahead is None && s.sealed is None
    &&& s.changed_paths@.len() == 0 && s.ignored_paths@.len() == 0
}

/// A status says what is wrong before it says anything of the content: that the
/// capsule was dropped, was never finished, lost its workspace, or lost it to
/// something else. Otherwise it says what was read, and whether the seal holds.
pub proof fn law_statuses_say_what_was_found(
    m: CapsuleManager,
    id: &str,
    manifest: std::result::Result<Capsule, Error>,
    o: StatusObservation,
    r: std::result::Result<CapsuleStatus, Error>,
)
    requires
        call_ensures(CapsuleManager::status, (&m, id, manifest, o), r),
    ensures
        r is Ok ==> records::is_found(m.store.root.bytes@, id@, manifest) && r->Ok_0.capsule
            == manifest->Ok_0,
        records::is_found(m.store.root.bytes@, id@, manifest) ==> {
            let c = manifest->Ok_0;
            let s = r->Ok_0;
            if c.state is Dropped || c.state is Creating || !o.workspace_exists
                || !workspaces::is_own(c, o.inspection) {
                &&& r is Ok
                &&& says_nothing_more(s)
                &&& s.health == (if c.state is Dropped {
                    CapsuleHealth::Dropped
                } else if c.state is Creating {
                    CapsuleHealth::IncompleteCreation
                } else if !o.workspace_exists {
                    CapsuleHealth::MissingWorktree
                } else {
                    CapsuleHealth::ForeignWorktree
                })
            } else {
                &&& r is Ok ==> {
                    &&& o.snapshot is Ok && o.ignored_paths is Ok && o.head is Ok && o.clean is Ok
                        && o.commits_ahead is Ok
                    &&& laws::opt(s.head_commit) == Some(o.head->Ok_0@)
                    &&& s.dirty == Some(!o.clean->Ok_0)
                    &&& s.changed_paths == o.snapshot->Ok_0.changed_paths
                    &&& s.ignored_paths == o.ignored_paths->Ok_0
                    &&& s.commits_ahead == Some(o.commits_ahead->Ok_0)
                    &&& s.sealed is Some <==> c.result is Some
                    &&& s.sealed == Some(true) <==> is_undrifted(
                        c,
                        o.snapshot->Ok_0,
                        o.head->Ok_0@,
                        o.stored,
                        o.patch,
                    )
                    &&& s.health is DriftedAfterClose <==> s.sealed == Some(false) && (c.state
                        is Closed || c.state is Integrating || c.state is Integrated || c.state
                        is Dropping)
                    &&& s.health is IncompleteCheckpoint <==> c.state is Checkpointing
                    &&& s.health is DriftedAfterClose || s.health is IncompleteCheckpoint
                        || s.health is Healthy
                }
                &&& o.snapshot is Ok && o.ignored_paths is Ok && o.head is Ok && o.clean is Ok
                    && o.commits_ahead is Ok && (c.result is Some ==> is_sealed(
                    c,
                    o.stored,
                    o.patch,
                )) ==> r is Ok
            }
        },
{
    records::lemma_found(m.store.root.bytes@, id@, manifest);
    if let Ok(c) = manifest {
        workspaces::lemma_own(c, o.inspection);
        lemma_intact(c, o.stored, o.patch);
        if o.snapshot is Ok && o.head is Ok {
            lemma_undrifted(c, o.snapshot->Ok_0, o.head->Ok_0@, o.stored, o.patch);
        }
    }
}

/// A commit is known to a capsule's record exactly where it is its base, one of
/// its checkpoints, its sealed head, or an end of the checkpoint it is making.
pub proof fn law_recorded_heads_are_known(c: Capsule, head: &str, r: bool)
    requires
        call_ensures(query::recorded_capsule_head, (&c, head), r),
    ensures
        r <==> head@ == c.base_commit@ || (exists|i: int|
            0 <= i < c.checkpoints@.len() && (#[trigger] c.checkpoints@[i]).commit@ == head@) || (
        c.result matches Some(s) && s.head_commit@ == head@) || (c.checkpoint matches Some(j) && (
        j.head_before@ == head@ || j.head_after@ == head@)),
{
}

/// A snapshot is only taken of a full checkout whose submodules are clean.
pub proof fn law_snapshots_are_of_full_checkouts(
    sparse: std::result::Result<bool, Error>,
    dirty: std::result::Result<bool, Error>,
    r: std::result::Result<(), Error>,
)
    requires
        call_ensures(query::check_snapshot_gate, (sparse, dirty), r),
    ensures
        r is Ok <==> sparse == Ok::<bool, Error>(false) && dirty == Ok::<bool, Error>(false),
{
}

} // verus!
