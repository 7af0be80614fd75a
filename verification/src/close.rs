//! Closing: sealing a capsule into an immutable result and patch.
//!
//! A close captures committed, staged, unstaged, deleted, and non-ignored
//! untracked content as one complete change against the pinned base, read
//! twice: nothing is sealed that did not hold still.

use vstd::prelude::*;
use vstd::string::*;

use crate::error::{Error, ErrorView};
use crate::git::{Snapshot, SnapshotView};
use crate::inventory::IgnoredContentInventory;
use crate::manager::CapsuleManager;
use crate::model::{
    Capsule, CapsuleResult, CapsuleState, ResultKind, ResultRef, ResultView, SCHEMA_VERSION,
};
use crate::options::CloseOptions;
use crate::record::Record;
use crate::worktree::WorktreeInspection;
use crate::{artifacts, checkpoint, digest, error, evidence, inventory, record, store, text};

verus! {

/// The two reads of a workspace that a close compares.
///
/// What could not be read carries the error that prevented it.
#[derive(Debug, PartialEq, Eq)]
pub struct CloseReads {
    /// The first inventory of ignored content.
    pub initial_ignored: Result<IgnoredContentInventory, Error>,
    /// The first snapshot of the complete change.
    pub initial_snapshot: Result<Snapshot, Error>,
    /// The first `HEAD` commit.
    pub initial_head: Result<String, Error>,
    /// Whether the workspace was first clean.
    pub initial_clean: Result<bool, Error>,
    /// The second snapshot of the complete change.
    pub snapshot: Result<Snapshot, Error>,
    /// The second `HEAD` commit.
    pub head: Result<String, Error>,
    /// Whether the workspace was then clean.
    pub clean: Result<bool, Error>,
    /// The second inventory of ignored content.
    pub ignored: Result<IgnoredContentInventory, Error>,
}

/// What comparing two reads of tracked content says.
pub open spec fn stable_check(
    initial: SnapshotView,
    initial_head: Seq<char>,
    initial_clean: bool,
    later: SnapshotView,
    later_head: Seq<char>,
    later_clean: bool,
) -> std::result::Result<(), ErrorView> {
    if initial == later && initial_head == later_head && initial_clean == later_clean {
        Ok(())
    } else {
        Err(
            ErrorView::UnsafeState(
                "capsule tracked content, HEAD, or clean state changed while close was finalizing; no artifacts were written"@,
            ),
        )
    }
}

/// Refuse tracked content that did not hold still.
pub fn require_stable_close_snapshot(
    initial: &Snapshot,
    initial_head: &str,
    initial_clean: bool,
    later: &Snapshot,
    later_head: &str,
    later_clean: bool,
) -> (r: std::result::Result<(), Error>)
    ensures
        error::outcome(r) == stable_check(
            initial@,
            initial_head@,
            initial_clean,
            later@,
            later_head@,
            later_clean,
        ),
{
    if initial.same(later) && text::same_text(initial_head, later_head) && initial_clean
        == later_clean {
        Ok(())
    } else {
        Err(
            Error::UnsafeState(
                "capsule tracked content, HEAD, or clean state changed while close was finalizing; no artifacts were written".to_owned(),
            ),
        )
    }
}

/// What the two reads of a close say: the first error in the order they are
/// made, then the comparisons.
pub open spec fn reads_check(reads: CloseReads) -> std::result::Result<(), ErrorView> {
    if reads.initial_ignored is Err {
        Err(reads.initial_ignored->Err_0@)
    } else if reads.initial_snapshot is Err {
        Err(reads.initial_snapshot->Err_0@)
    } else if reads.initial_head is Err {
        Err(reads.initial_head->Err_0@)
    } else if reads.initial_clean is Err {
        Err(reads.initial_clean->Err_0@)
    } else if reads.snapshot is Err {
        Err(reads.snapshot->Err_0@)
    } else if reads.head is Err {
        Err(reads.head->Err_0@)
    } else if reads.clean is Err {
        Err(reads.clean->Err_0@)
    } else if reads.ignored is Err {
        Err(reads.ignored->Err_0@)
    } else {
        let stable = stable_check(
            reads.initial_snapshot->Ok_0@,
            reads.initial_head->Ok_0@,
            reads.initial_clean->Ok_0,
            reads.snapshot->Ok_0@,
            reads.head->Ok_0@,
            reads.clean->Ok_0,
        );
        if stable is Err {
            stable
        } else {
            inventory::stable_ignored_check(
                reads.initial_ignored->Ok_0@,
                reads.ignored->Ok_0@,
            )
        }
    }
}

/// What a close works with: one state of the workspace that held still.
#[derive(Debug, PartialEq, Eq)]
pub struct CloseSnapshotTransaction {
    /// Whether the workspace is clean.
    pub clean: bool,
    /// The complete change.
    pub snapshot: Snapshot,
    /// The `HEAD` commit.
    pub head: String,
    /// The ignored content.
    pub ignored: IgnoredContentInventory,
}

/// Judge the two reads of a close; see [`reads_check`].
pub fn close_snapshot_transaction(reads: CloseReads) -> (r: std::result::Result<
    CloseSnapshotTransaction,
    Error,
>)
    ensures
        match reads_check(reads) {
            Err(e) => r matches Err(found) && found@ == e,
            Ok(_) => r == Ok::<CloseSnapshotTransaction, Error>(
                CloseSnapshotTransaction {
                    clean: reads.clean->Ok_0,
                    snapshot: reads.snapshot->Ok_0,
                    head: reads.head->Ok_0,
                    ignored: reads.ignored->Ok_0,
                },
            ),
        },
{
    let initial_ignored = match reads.initial_ignored {
        Err(e) => {
            return Err(e);
        },
        Ok(i) => i,
    };
    let initial_snapshot = match reads.initial_snapshot {
        Err(e) => {
            return Err(e);
        },
        Ok(s) => s,
    };
    let initial_head = match reads.initial_head {
        Err(e) => {
            return Err(e);
        },
        Ok(h) => h,
    };
    let initial_clean = match reads.initial_clean {
        Err(e) => {
            return Err(e);
        },
        Ok(b) => b,
    };
    let snapshot = match reads.snapshot {
        Err(e) => {
            return Err(e);
        },
        Ok(s) => s,
    };
    let head = match reads.head {
        Err(e) => {
            return Err(e);
        },
        Ok(h) => h,
    };
    let clean = match reads.clean {
        Err(e) => {
            return Err(e);
        },
        Ok(b) => b,
    };
    let ignored = match reads.ignored {
        Err(e) => {
            return Err(e);
        },
        Ok(i) => i,
    };
    match require_stable_close_snapshot(
        &initial_snapshot,
        initial_head.as_str(),
        initial_clean,
        &snapshot,
        head.as_str(),
        clean,
    ) {
        Err(e) => {
            return Err(e);
        },
        Ok(_) => {},
    }
    match inventory::require_stable_ignored_content(&initial_ignored, &ignored) {
        Err(e) => {
            return Err(e);
        },
        Ok(_) => {},
    }
    Ok(CloseSnapshotTransaction { clean, snapshot, head, ignored })
}

/// What the requirement that every record passed says.
pub open spec fn successful_check(options: CloseOptions, capsule: Capsule) -> std::result::Result<
    (),
    ErrorView,
> {
    if options.require_successful_evidence && !evidence::all_passed(
        record::views(capsule.evidence@),
    ) {
        Err(
            ErrorView::InvalidInput(
                "successful evidence is required, but evidence is absent or contains failures"@,
            ),
        )
    } else {
        Ok(())
    }
}

/// What the requirements on evidence for the exact patch say.
pub open spec fn bound_evidence_check(options: CloseOptions, capsule: Capsule, patch: Seq<u8>) -> std::result::Result<
    (),
    ErrorView,
> {
    let records = record::views(capsule.evidence@);
    let sealed = digest::sha256_hex_of(patch);
    if options.require_current_successful_evidence && !evidence::some_current(records, sealed) {
        Err(
            ErrorView::InvalidInput(
                "current successful evidence is required, but no successful record is bound to the exact final patch being sealed"@,
            ),
        )
    } else if options.require_executed_evidence && !evidence::some_executed(records, sealed) {
        Err(
            ErrorView::InvalidInput(
                "executed evidence is required, but Capsule did not itself run a passing command against the exact final patch being sealed"@,
            ),
        )
    } else {
        Ok(())
    }
}

/// What closing a capsule says.
pub open spec fn close_check(
    root: Seq<u8>,
    id: Seq<char>,
    options: CloseOptions,
    shown: std::result::Result<Capsule, Error>,
    stored: std::result::Result<Capsule, Error>,
    inspection: WorktreeInspection,
    reads: CloseReads,
) -> std::result::Result<(), ErrorView> {
    if checkpoint::active_check(root, id, shown, stored, inspection) is Err {
        checkpoint::active_check(root, id, shown, stored, inspection)
    } else if successful_check(options, stored->Ok_0) is Err {
        successful_check(options, stored->Ok_0)
    } else if reads_check(reads) is Err {
        reads_check(reads)
    } else {
        let patch = reads.snapshot->Ok_0@.patch;
        if bound_evidence_check(options, stored->Ok_0, patch) is Err {
            bound_evidence_check(options, stored->Ok_0, patch)
        } else {
            checkpoint::hard_bound_check(patch.len())
        }
    }
}

/// The shape of a result: whether it changes anything, and whether everything
/// it changes was committed.
pub open spec fn kind_of(patch: Seq<u8>, clean: bool) -> ResultKind {
    if patch.len() == 0 {
        ResultKind::NoChange
    } else if clean {
        ResultKind::Commit
    } else {
        ResultKind::Patch
    }
}

/// The result that a capsule and a state of its workspace are sealed into.
pub open spec fn result_of(
    c: Capsule,
    snapshot: SnapshotView,
    head: Seq<char>,
    clean: bool,
    ignored: inventory::InventoryView,
    sealed_at: u64,
) -> ResultView {
    ResultView {
        schema_version: SCHEMA_VERSION,
        capsule_id: c.id@,
        label: text::opt_view(c.label),
        links: c.links@,
        kind: kind_of(snapshot.patch, clean),
        base_commit: c.base_commit@,
        head_commit: head,
        patch_sha256: digest::sha256_hex_of(snapshot.patch),
        patch_bytes: snapshot.patch.len() as u64,
        changed_paths: snapshot.changed_paths,
        ignored_bytes: ignored.bytes,
        ignored_content_sha256: Some(ignored.content_sha256),
        ignored_paths: ignored.paths,
        checkpoints: record::views(c.checkpoints@),
        evidence: record::views(c.evidence@),
        created_at_unix: c.created_at_unix,
        sealed_at_unix: sealed_at,
    }
}

/// A close that may go ahead. The result is encoded, both artifacts are
/// written, and only then the capsule is sealed.
#[derive(Debug, PartialEq, Eq)]
pub struct PendingClose {
    /// The capsule as stored.
    pub capsule: Capsule,
    /// The result to seal.
    pub result: CapsuleResult,
    /// The patch to seal.
    pub patch: Vec<u8>,
}

/// Whether a capsule is a pending one, sealed with a result's encoding.
pub open spec fn is_sealed_from(c: Capsule, pending: PendingClose, encoded: Seq<u8>) -> bool {
    let at = pending.result.sealed_at_unix;
    &&& c == (Capsule {
        result: c.result,
        state: CapsuleState::Closed,
        closed_at_unix: Some(at),
        updated_at_unix: at,
        ..pending.capsule
    })
    &&& c.result matches Some(seal) && seal.kind == pending.result.kind && seal.head_commit
        == pending.result.head_commit && seal.patch_sha256 == pending.result.patch_sha256
        && seal.result_sha256@ == digest::sha256_hex_of(encoded) && seal.patch_bytes
        == pending.patch@.len() && seal.changed_paths == pending.result.changed_paths@.len()
        && seal.sealed_at_unix == at
}

/// Seal a capsule, once both artifacts are written. `encoded` is the compact
/// encoding of the result.
pub fn seal(pending: PendingClose, encoded: &[u8]) -> (r: (Capsule, CapsuleResult))
    ensures
        is_sealed_from(r.0, pending, encoded@),
        r.1 == pending.result,
{
    let mut capsule = pending.capsule;
    let at = pending.result.sealed_at_unix;
    capsule.result = Some(
        ResultRef {
            kind: pending.result.kind,
            head_commit: pending.result.head_commit.clone(),
            patch_sha256: pending.result.patch_sha256.clone(),
            result_sha256: digest::sha256_hex(encoded),
            patch_bytes: pending.patch.len() as u64,
            changed_paths: pending.result.changed_paths.len(),
            sealed_at_unix: at,
        },
    );
    capsule.state = CapsuleState::Closed;
    capsule.closed_at_unix = Some(at);
    capsule.updated_at_unix = at;
    (capsule, pending.result)
}

impl CapsuleManager {
    /// Decide on sealing a capsule into an immutable result and patch.
    pub fn close(
        &self,
        id: &str,
        options: CloseOptions,
        shown: std::result::Result<Capsule, Error>,
        stored: std::result::Result<Capsule, Error>,
        inspection: &WorktreeInspection,
        reads: CloseReads,
        sealed_at: u64,
    ) -> (r: std::result::Result<PendingClose, Error>)
        ensures
            match close_check(self.store.root@, id@, options, shown, stored, *inspection, reads) {
                Err(e) => r matches Err(found) && found@ == e,
                Ok(_) => r matches Ok(pending) && pending.capsule == stored->Ok_0 && pending.patch
                    == reads.snapshot->Ok_0.patch && pending.result@ == result_of(
                    stored->Ok_0,
                    reads.snapshot->Ok_0@,
                    reads.head->Ok_0@,
                    reads.clean->Ok_0,
                    reads.ignored->Ok_0@,
                    sealed_at,
                ),
            },
    {
        let capsule = match self.reread_active(id, shown, stored, inspection) {
            Err(e) => {
                return Err(e);
            },
            Ok(c) => c,
        };
        if options.require_successful_evidence && !evidence::every_passed(&capsule.evidence) {
            return Err(
                Error::InvalidInput(
                    "successful evidence is required, but evidence is absent or contains failures".to_owned(),
                ),
            );
        }
        let held = match close_snapshot_transaction(reads) {
            Err(e) => {
                return Err(e);
            },
            Ok(t) => t,
        };
        let patch_sha256 = digest::sha256_hex(held.snapshot.patch.as_slice());
        if options.require_current_successful_evidence && !evidence::any_current(
            &capsule.evidence,
            patch_sha256.as_str(),
        ) {
            return Err(
                Error::InvalidInput(
                    "current successful evidence is required, but no successful record is bound to the exact final patch being sealed".to_owned(),
                ),
            );
        }
        if options.require_executed_evidence && !evidence::any_executed(
            &capsule.evidence,
            patch_sha256.as_str(),
        ) {
            return Err(
                Error::InvalidInput(
                    "executed evidence is required, but Capsule did not itself run a passing command against the exact final patch being sealed".to_owned(),
                ),
            );
        }
        let patch_bytes = held.snapshot.patch.len() as u64;
        match checkpoint::require_patch_within_hard_bound(patch_bytes) {
            Err(e) => {
                return Err(e);
            },
            Ok(_) => {},
        }
        let kind = if patch_bytes == 0 {
            ResultKind::NoChange
        } else if held.clean {
            ResultKind::Commit
        } else {
            ResultKind::Patch
        };
        let result = CapsuleResult {
            schema_version: SCHEMA_VERSION,
            capsule_id: capsule.id.clone(),
            label: text::copy_opt_text(&capsule.label),
            links: capsule.links.clone(),
            kind,
            base_commit: capsule.base_commit.clone(),
            head_commit: held.head,
            patch_sha256,
            patch_bytes,
            changed_paths: held.snapshot.changed_paths,
            ignored_bytes: held.ignored.bytes,
            ignored_content_sha256: Some(held.ignored.content_sha256),
            ignored_paths: held.ignored.paths,
            checkpoints: record::copy_rows(&capsule.checkpoints),
            evidence: record::copy_rows(&capsule.evidence),
            created_at_unix: capsule.created_at_unix,
            sealed_at_unix: sealed_at,
        };
        Ok(PendingClose { capsule, result, patch: held.snapshot.patch })
    }
}

/// Closing keeps the record consistent, and the seal it makes agrees with the
/// artifacts it was made from.
pub proof fn law_closing_seals_what_was_read(
    root: Seq<u8>,
    id: Seq<char>,
    options: CloseOptions,
    shown: std::result::Result<Capsule, Error>,
    stored: std::result::Result<Capsule, Error>,
    inspection: WorktreeInspection,
    reads: CloseReads,
    sealed_at: u64,
    pending: PendingClose,
    encoded: Seq<u8>,
    closed: Capsule,
)
    requires
        close_check(root, id, options, shown, stored, inspection, reads) is Ok,
        pending.capsule == stored->Ok_0,
        pending.patch == reads.snapshot->Ok_0.patch,
        pending.result@ == result_of(
            stored->Ok_0,
            reads.snapshot->Ok_0@,
            reads.head->Ok_0@,
            reads.clean->Ok_0,
            reads.ignored->Ok_0@,
            sealed_at,
        ),
        is_sealed_from(closed, pending, encoded),
    ensures
        store::journals_consistent(closed),
        closed.state is Closed,
        artifacts::seal_agrees(
            closed,
            closed.result->0,
            pending.result@,
            encoded,
            pending.patch@,
        ),
{
    assert(pending.result@.changed_paths.len() == pending.result.changed_paths@.len());
}

/// Closing with executed evidence required never seals claims alone, and never
/// seals evidence for another patch.
pub proof fn law_executed_close_means_execution(
    root: Seq<u8>,
    id: Seq<char>,
    options: CloseOptions,
    shown: std::result::Result<Capsule, Error>,
    stored: std::result::Result<Capsule, Error>,
    inspection: WorktreeInspection,
    reads: CloseReads,
)
    requires
        close_check(root, id, options, shown, stored, inspection, reads) is Ok,
        options.require_executed_evidence,
    ensures
        exists|i: int|
            0 <= i < stored->Ok_0.evidence@.len() && (#[trigger] stored->Ok_0.evidence@[i]).executed
                && stored->Ok_0.evidence@[i].exit_code == 0
                && stored->Ok_0.evidence@[i].patch_sha256@ == digest::sha256_hex_of(
                reads.snapshot->Ok_0@.patch,
            ),
{
    let records = record::views(stored->Ok_0.evidence@);
    let i = choose|i: int|
        0 <= i < records.len() && (#[trigger] records[i]).executed && evidence::passed_for(
            records[i],
            digest::sha256_hex_of(reads.snapshot->Ok_0@.patch),
        );
    assert(records[i] == stored->Ok_0.evidence@[i]@);
}

} // verus!
