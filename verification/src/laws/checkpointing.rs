//! What a checkpoint commits, journals, and leaves behind.

use vstd::prelude::*;
use vstd::string::*;

use crate::checkpoint::{
    CheckpointFinish, CheckpointMoves, CheckpointPlan, CheckpointRequest, FinishObservation,
    PreparedCheckpoint,
};
use crate::error::Error;
use crate::git::Snapshot;
use crate::laws::integrating;
use crate::laws::sealing;
use crate::laws::verifying;
use crate::laws::workspaces;
use crate::manager::CapsuleManager;
use crate::model::{Capsule, CapsuleState, Checkpoint, CheckpointJournal};
use crate::options::CheckpointOptions;
use crate::worktree::WorktreeInspection;
use crate::{checkpoint, laws};

verus! {

/// A checkpoint begins exactly where its message and author are usable, the
/// capsule is open to change, and there is something to commit. What is to be
/// committed is what was read, on top of the `HEAD` that was read.
pub proof fn law_checkpoints_begin_where_something_changed(
    m: CapsuleManager,
    id: &str,
    options: CheckpointOptions,
    shown: std::result::Result<Capsule, Error>,
    stored: std::result::Result<Capsule, Error>,
    seen: WorktreeInspection,
    head: std::result::Result<String, Error>,
    snapshot: std::result::Result<Snapshot, Error>,
    r: std::result::Result<CheckpointRequest, Error>,
)
    requires
        call_ensures(
            CapsuleManager::begin_checkpoint,
            (&m, id, &options, shown, stored, &seen, head, snapshot),
            r,
        ),
    ensures
        r is Ok <==> {
            &&& laws::is_text(options.message@, 16384, true)
            &&& integrating::is_author(options.author)
            &&& workspaces::is_open(m.store.root.bytes@, id@, shown, stored, seen)
            &&& head is Ok
            &&& snapshot matches Ok(s) && s.patch@.len() > 0
        },
        r matches Ok(q) ==> q.capsule == stored->Ok_0 && q.head_before@ == head->Ok_0@
            && q.snapshot == snapshot->Ok_0,
{
    laws::lemma_text(options.message@, 16384, "checkpoint message"@, true);
    integrating::lemma_author(options.author);
    workspaces::lemma_open(m.store.root.bytes@, id@, shown, stored, seen);
}

/// A checkpoint is journaled exactly where the prepared commit has the
/// workspace's `HEAD` as its one parent and makes exactly the workspace's
/// change, the complete change stays within 64 MiB, and the capsule has fewer
/// than 128 checkpoints. The journal says which commit replaces which, what it
/// changes, and under which message and author.
pub proof fn law_checkpoints_are_journaled_as_prepared(
    m: CapsuleManager,
    request: CheckpointRequest,
    options: CheckpointOptions,
    p: PreparedCheckpoint,
    at: u64,
    r: std::result::Result<CheckpointPlan, Error>,
)
    requires
        call_ensures(CapsuleManager::checkpoint, (&m, request, options, p, at), r),
    ensures
        r is Ok <==> {
            &&& p.commit is Ok
            &&& p.parents matches Ok(parents) && parents@.len() == 1 && parents@[0]@
                == request.head_before@
            &&& p.prepared matches Ok(s) && sealing::same_change(s, request.snapshot)
            &&& p.complete matches Ok(s) && s.patch@.len() <= 67108864
            &&& request.capsule.checkpoints@.len() < 128
        },
        r matches Ok(plan) ==> {
            &&& plan.reference@ == "refs/change-capsule/"@ + request.capsule.id@ + "/checkpoint"@
            &&& plan.capsule == (Capsule {
                state: CapsuleState::Checkpointing,
                checkpoint: plan.capsule.checkpoint,
                updated_at_unix: at,
                ..request.capsule
            })
            &&& plan.capsule.checkpoint matches Some(j) && j.head_before@ == request.head_before@
                && j.head_after@ == p.commit->Ok_0@ && j.patch_sha256@ == verifying::digest_of(
                request.snapshot.patch@,
            ) && j.message@ == options.message@ && j.author_name@ == options.author.name@
                && j.author_email@ == options.author.email@ && j.started_at_unix == at
        },
{
    if let Ok(parents) = p.parents {
        integrating::lemma_sole(parents@, request.head_before@);
    }
    if let Ok(s) = p.prepared {
        sealing::lemma_same_change(s, request.snapshot);
    }
}

/// Whether a checkpoint is the one that a journal describes.
pub open spec fn is_of(k: Checkpoint, j: CheckpointJournal) -> bool {
    &&& k.commit@ == j.head_after@
    &&& k.message@ == j.message@
    &&& k.author_name@ == j.author_name@
    &&& k.author_email@ == j.author_email@
    &&& k.created_at_unix == j.started_at_unix
}

/// Whether a capsule has no checkpoint at a commit yet.
pub open spec fn is_new(c: Capsule, commit: Seq<char>) -> bool {
    forall|i: int| 0 <= i < c.checkpoints@.len() ==> (#[trigger] c.checkpoints@[i]).commit@ != commit
}

/// Whether a capsule is another with its journaled checkpoint finished: active
/// again, without a journal, and with one checkpoint more.
pub open spec fn is_finished(after: Capsule, before: Capsule) -> bool {
    &&& before.checkpoint is Some
    &&& after == (Capsule {
        state: CapsuleState::Active,
        checkpoint: None,
        checkpoints: after.checkpoints,
        ..before
    })
    &&& after.checkpoints@.len() == before.checkpoints@.len() + 1
    &&& after.checkpoints@.drop_last() == before.checkpoints@
    &&& is_of(after.checkpoints@.last(), before.checkpoint->0)
}

proof fn lemma_new(c: Capsule)
    requires
        c.checkpoint is Some,
    ensures
        is_new(c, c.checkpoint->0.head_after@) <==> checkpoint::complete_check(c) is Ok,
{
}

proof fn lemma_finished(after: Capsule, before: Capsule)
    requires
        checkpoint::is_completed(after, before),
    ensures
        is_finished(after, before),
{
    assert(after.checkpoints@.drop_last() =~= before.checkpoints@);
}

/// A journaled checkpoint is finished in the record exactly where it is not
/// there yet, and becomes its last checkpoint as it was journaled.
pub proof fn law_journaled_checkpoints_are_finished_once(
    c: Capsule,
    r: std::result::Result<(Capsule, Checkpoint), Error>,
)
    requires
        call_ensures(checkpoint::complete_checkpoint, (c,), r),
    ensures
        r is Ok <==> c.checkpoint is Some && is_new(c, c.checkpoint->0.head_after@),
        r matches Ok(done) ==> is_finished(done.0, c) && is_of(done.1, c.checkpoint->0),
{
    if c.checkpoint is Some {
        lemma_new(c);
    }
    if let Ok(done) = r {
        lemma_finished(done.0, c);
    }
}

/// Whether everything proves to be where a journal says: the workspace is the
/// capsule's own, and the prepared commit has the journaled parent and makes the
/// journaled change.
pub open spec fn is_as_journaled(c: Capsule, o: FinishObservation) -> bool {
    &&& c.checkpoint is Some
    &&& workspaces::is_own(c, o.inspection)
    &&& o.parents matches Ok(parents) && parents@.len() == 1 && parents@[0]@
        == c.checkpoint->0.head_before@
    &&& o.committed matches Ok(s) && verifying::digest_of(s.patch@)
        == c.checkpoint->0.patch_sha256@
    &&& o.head is Ok
    &&& o.pending_head is Ok
}

/// A journaled checkpoint is finished only where everything proves to be where
/// the journal says. A workspace that is still at the commit before is advanced,
/// one that is already at the prepared commit only has its index reset, and one
/// that is anywhere else is left alone. The protecting reference is created
/// where it is missing before the branch moves, deleted where it exists, and
/// never touched where it points elsewhere.
pub proof fn law_checkpoints_finish_from_where_they_stopped(
    m: CapsuleManager,
    c: Capsule,
    o: FinishObservation,
    r: std::result::Result<Option<CheckpointFinish>, Error>,
)
    requires
        call_ensures(CapsuleManager::finish_checkpoint, (&m, c, o), r),
    ensures
        r is Ok <==> is_as_journaled(c, o) && ({
            let j = c.checkpoint->0;
            let head = o.head->Ok_0@;
            head == j.head_before@ || head == j.head_after@ ==> (o.pending_head->Ok_0 matches Some(p)
                ==> p@ == j.head_after@)
        }),
        r is Ok ==> {
            let j = c.checkpoint->0;
            let head = o.head->Ok_0@;
            let pending = o.pending_head->Ok_0 is Some;
            &&& r->Ok_0 is None <==> head != j.head_before@ && head != j.head_after@
            &&& r->Ok_0 matches Some(f) ==> {
                &&& f.moves.advance_branch == (head == j.head_before@)
                &&& f.moves.reset_index == (head != j.head_before@)
                &&& f.moves.create_pending == (head == j.head_before@ && !pending)
                &&& f.moves.delete_pending == pending
                &&& f.outcome is Ok <==> is_new(c, j.head_after@)
                &&& f.outcome matches Ok(done) ==> is_finished(done.0, c) && is_of(done.1, j)
            }
        },
{
    workspaces::lemma_own(c, o.inspection);
    if c.checkpoint is Some {
        lemma_new(c);
        if let Ok(parents) = o.parents {
            integrating::lemma_sole(parents@, c.checkpoint->0.head_before@);
        }
    }
    if let Ok(Some(f)) = r {
        if let Ok(done) = f.outcome {
            lemma_finished(done.0, c);
        }
    }
}

/// A patch is refused exactly beyond 64 MiB.
pub proof fn law_patches_are_bounded(size: u64, r: std::result::Result<(), Error>)
    requires
        call_ensures(checkpoint::require_patch_within_hard_bound, (size,), r),
    ensures
        r is Ok <==> size <= 67108864,
{
}

/// Touching a capsule changes the time of its last change and nothing else.
pub proof fn law_touching_changes_the_time_alone(c: Capsule, at: u64, r: Capsule)
    requires
        call_ensures(checkpoint::touch, (c, at), r),
    ensures
        r == (Capsule { updated_at_unix: at, ..c }),
{
}

} // verus!
