//! Checkpoints: committing the workspace's current state durably.
//!
//! The commit is built through a private index and journaled before the
//! capsule branch advances, so an interrupted checkpoint is recoverable.

use vstd::prelude::*;
use vstd::string::*;

use crate::error::{Error, ErrorView};
use crate::git::Snapshot;
use crate::manager::CapsuleManager;
use crate::model::{Capsule, CapsuleState, Checkpoint, CheckpointJournal, HARD_PATCH_BYTES};
use crate::options::CheckpointOptions;
use crate::record::Record;
use crate::worktree::WorktreeInspection;
use crate::{digest, error, git, manager, query, store, text, worktree};

verus! {

/// Most checkpoints a capsule retains.
pub const CHECKPOINT_COUNT_CAP: usize = 128;

/// What the two reads of a manifest around taking the locks say: the first
/// finds the capsule, the second is what the operation works on.
pub open spec fn locked_check(
    root: Seq<u8>,
    id: Seq<char>,
    shown: std::result::Result<Capsule, Error>,
    stored: std::result::Result<Capsule, Error>,
) -> std::result::Result<(), ErrorView> {
    if manager::show_check(root, id, shown) is Err {
        manager::show_check(root, id, shown)
    } else {
        store::read_check(root, id, stored)
    }
}

/// What admitting a change to an active capsule says.
pub open spec fn active_check(
    root: Seq<u8>,
    id: Seq<char>,
    shown: std::result::Result<Capsule, Error>,
    stored: std::result::Result<Capsule, Error>,
    inspection: WorktreeInspection,
) -> std::result::Result<(), ErrorView> {
    if locked_check(root, id, shown, stored) is Err {
        locked_check(root, id, shown, stored)
    } else if !(stored->Ok_0.state is Active) {
        Err(manager::state_error(stored->Ok_0, "active"@))
    } else {
        worktree::ownership_check(stored->Ok_0, inspection)
    }
}

/// What a check against the hard buffering bound says.
pub open spec fn hard_bound_check(size: nat) -> std::result::Result<(), ErrorView> {
    if size > HARD_PATCH_BYTES {
        Err(
            ErrorView::InvalidInput(
                "patch is "@ + text::decimal(size) + " bytes, exceeding the "@ + text::decimal(
                    HARD_PATCH_BYTES as nat,
                ) + " byte hard bound"@,
            ),
        )
    } else {
        Ok(())
    }
}

/// Refuse a patch larger than the hard buffering bound.
pub fn require_patch_within_hard_bound(size: u64) -> (r: std::result::Result<(), Error>)
    ensures
        error::outcome(r) == hard_bound_check(size as nat),
{
    if size > HARD_PATCH_BYTES {
        Err(
            Error::InvalidInput(
                text::cat5(
                    "patch is ",
                    text::decimal_text(size).as_str(),
                    " bytes, exceeding the ",
                    text::decimal_text(HARD_PATCH_BYTES).as_str(),
                    " byte hard bound",
                ),
            ),
        )
    } else {
        Ok(())
    }
}

/// A checkpoint that has something to commit.
#[derive(Debug, PartialEq, Eq)]
pub struct CheckpointRequest {
    /// The capsule as stored.
    pub capsule: Capsule,
    /// Workspace `HEAD` the commit goes on top of.
    pub head_before: String,
    /// The change to commit.
    pub snapshot: Snapshot,
}

/// What beginning a checkpoint says.
pub open spec fn begin_check(
    root: Seq<u8>,
    id: Seq<char>,
    options: CheckpointOptions,
    shown: std::result::Result<Capsule, Error>,
    stored: std::result::Result<Capsule, Error>,
    inspection: WorktreeInspection,
    head: std::result::Result<String, Error>,
    snapshot: std::result::Result<Snapshot, Error>,
) -> std::result::Result<(), ErrorView> {
    if options.check() is Err {
        options.check()
    } else if active_check(root, id, shown, stored, inspection) is Err {
        active_check(root, id, shown, stored, inspection)
    } else if head is Err {
        Err(head->Err_0@)
    } else {
        match snapshot {
            Err(e) => Err(e@),
            Ok(s) => if s.patch@.len() == 0 {
                Err(ErrorView::InvalidInput("nothing to checkpoint"@))
            } else {
                Ok(())
            },
        }
    }
}

/// What was read of the commit that was prepared for a checkpoint.
#[derive(Debug, PartialEq, Eq)]
pub struct PreparedCheckpoint {
    /// The prepared commit.
    pub commit: Result<String, Error>,
    /// The change it makes on top of the `HEAD` before it.
    pub prepared: Result<Snapshot, Error>,
    /// Its parents.
    pub parents: Result<Vec<String>, Error>,
    /// The complete change it makes from the pinned base.
    pub complete: Result<Snapshot, Error>,
}

/// What journaling a prepared checkpoint says.
pub open spec fn journal_check(request: CheckpointRequest, p: PreparedCheckpoint) -> std::result::Result<
    (),
    ErrorView,
> {
    if p.commit is Err {
        Err(p.commit->Err_0@)
    } else if p.prepared is Err {
        Err(p.prepared->Err_0@)
    } else if p.parents is Err {
        Err(p.parents->Err_0@)
    } else if git::texts(p.parents->Ok_0@) != seq![request.head_before@] || p.prepared->Ok_0@
        != request.snapshot@ {
        Err(
            ErrorView::UnsafeState(
                "prepared checkpoint commit does not reproduce the workspace snapshot"@,
            ),
        )
    } else if p.complete is Err {
        Err(p.complete->Err_0@)
    } else if hard_bound_check(p.complete->Ok_0@.patch.len()) is Err {
        hard_bound_check(p.complete->Ok_0@.patch.len())
    } else if request.capsule.checkpoints@.len() >= CHECKPOINT_COUNT_CAP {
        Err(
            ErrorView::InvalidInput(
                "a capsule retains at most "@ + text::decimal(CHECKPOINT_COUNT_CAP as nat)
                    + " checkpoints; close this capsule and start another"@,
            ),
        )
    } else {
        Ok(())
    }
}

/// A checkpoint that may be journaled. Before it is, both manifests it leads
/// to must prove to fit: this one, and the one [`complete_checkpoint`] makes of
/// it.
#[derive(Debug, PartialEq, Eq)]
pub struct CheckpointPlan {
    /// The capsule with its journal.
    pub capsule: Capsule,
    /// The ref that protects the prepared commit.
    pub reference: String,
}

/// Whether a plan journals a request.
pub open spec fn is_plan(
    plan: CheckpointPlan,
    request: CheckpointRequest,
    options: CheckpointOptions,
    commit: Seq<char>,
    started_at: u64,
) -> bool {
    &&& plan.reference@ == manager::checkpoint_ref_of(request.capsule.id@)
    &&& plan.capsule == (Capsule {
        state: CapsuleState::Checkpointing,
        checkpoint: plan.capsule.checkpoint,
        updated_at_unix: started_at,
        ..request.capsule
    })
    &&& plan.capsule.checkpoint matches Some(j) && j.head_before == request.head_before
        && j.head_after@ == commit && j.patch_sha256@ == digest::sha256_hex_of(
        request.snapshot@.patch,
    ) && j.message == options.message && j.author_name == options.author.name && j.author_email
        == options.author.email && j.started_at_unix == started_at
}

/// The checkpoint that a journal describes.
pub open spec fn checkpoint_of(j: CheckpointJournal) -> Checkpoint {
    Checkpoint {
        commit: j.head_after,
        message: j.message,
        author_name: j.author_name,
        author_email: j.author_email,
        created_at_unix: j.started_at_unix,
    }
}

/// Whether some checkpoint of a capsule is a commit.
pub open spec fn records_commit(c: Capsule, commit: Seq<char>) -> bool {
    exists|i: int| 0 <= i < c.checkpoints@.len() && (#[trigger] c.checkpoints@[i]).commit@ == commit
}

/// Whether a capsule is another with its journaled checkpoint finished.
pub open spec fn is_completed(next: Capsule, c: Capsule) -> bool {
    &&& c.checkpoint is Some
    &&& next == (Capsule {
        state: CapsuleState::Active,
        checkpoint: None,
        checkpoints: next.checkpoints,
        ..c
    })
    &&& next.checkpoints@ == c.checkpoints@.push(checkpoint_of(c.checkpoint->0))
}

/// What finishing a journaled checkpoint in the record says.
pub open spec fn complete_check(c: Capsule) -> std::result::Result<(), ErrorView> {
    if c.checkpoint is None {
        Err(ErrorView::UnsafeState("checkpointing capsule has no checkpoint journal"@))
    } else if records_commit(c, c.checkpoint->0.head_after@) {
        Err(ErrorView::UnsafeState("checkpoint journal duplicates an existing checkpoint"@))
    } else {
        Ok(())
    }
}

/// Turn a capsule's checkpoint journal into a finished checkpoint.
pub fn complete_checkpoint(capsule: Capsule) -> (r: std::result::Result<
    (Capsule, Checkpoint),
    Error,
>)
    ensures
        match complete_check(capsule) {
            Err(e) => r matches Err(found) && found@ == e,
            Ok(_) => r matches Ok(done) && is_completed(done.0, capsule) && done.1
                == checkpoint_of(capsule.checkpoint->0),
        },
{
    let mut c = capsule;
    let journal = match c.checkpoint {
        None => {
            return Err(
                Error::UnsafeState(
                    "checkpointing capsule has no checkpoint journal".to_owned(),
                ),
            );
        },
        Some(j) => j,
    };
    c.checkpoint = None;
    if query::has_checkpoint(&c, journal.head_after.as_str()) {
        return Err(
            Error::UnsafeState("checkpoint journal duplicates an existing checkpoint".to_owned()),
        );
    }
    let kept = Checkpoint {
        commit: journal.head_after.clone(),
        message: journal.message.clone(),
        author_name: journal.author_name.clone(),
        author_email: journal.author_email.clone(),
        created_at_unix: journal.started_at_unix,
    };
    let given = Checkpoint {
        commit: journal.head_after,
        message: journal.message,
        author_name: journal.author_name,
        author_email: journal.author_email,
        created_at_unix: journal.started_at_unix,
    };
    c.checkpoints.push(kept);
    c.state = CapsuleState::Active;
    Ok((c, given))
}

/// Everything that was read to finish a journaled checkpoint.
#[derive(Debug, PartialEq, Eq)]
pub struct FinishObservation {
    /// What proves ownership of the workspace.
    pub inspection: WorktreeInspection,
    /// The parents of the prepared commit.
    pub parents: Result<Vec<String>, Error>,
    /// The change that the prepared commit makes.
    pub committed: Result<Snapshot, Error>,
    /// The `HEAD` commit of the workspace.
    pub head: Result<String, Error>,
    /// Where the protecting ref points, if it exists.
    pub pending_head: Result<Option<String>, Error>,
}

/// What to do in Git to finish a checkpoint, in this order.
#[derive(Debug, Clone, Copy, PartialEq, Eq, Structural)]
pub struct CheckpointMoves {
    /// Create the protecting ref at the prepared commit.
    pub create_pending: bool,
    /// Advance the capsule branch from the `HEAD` before to the prepared commit.
    pub advance_branch: bool,
    /// Reset the index to the prepared commit.
    pub reset_index: bool,
    /// Delete the protecting ref, which must be at the prepared commit.
    pub delete_pending: bool,
}

/// The moves that finish a checkpoint, given where the workspace and the
/// protecting ref are; none where the workspace is somewhere else.
pub open spec fn moves_of(j: CheckpointJournal, head: Seq<char>, pending: Option<Seq<char>>) -> std::result::Result<
    Option<CheckpointMoves>,
    ErrorView,
> {
    let unexpected = ErrorView::UnsafeState(
        "checkpoint pending ref points to an unexpected commit"@,
    );
    if head == j.head_before@ {
        if pending matches Some(p) && p != j.head_after@ {
            Err(unexpected)
        } else {
            Ok(
                Some(
                    CheckpointMoves {
                        create_pending: pending is None,
                        advance_branch: true,
                        reset_index: false,
                        delete_pending: pending is Some,
                    },
                ),
            )
        }
    } else if head == j.head_after@ {
        if pending matches Some(p) && p != head {
            Err(unexpected)
        } else {
            Ok(
                Some(
                    CheckpointMoves {
                        create_pending: false,
                        advance_branch: false,
                        reset_index: true,
                        delete_pending: pending is Some,
                    },
                ),
            )
        }
    } else {
        Ok(None)
    }
}

/// What the reads before finishing a checkpoint say: the journal must describe
/// its prepared commit exactly.
pub open spec fn finish_check(c: Capsule, o: FinishObservation) -> std::result::Result<
    (),
    ErrorView,
> {
    if c.checkpoint is None {
        Err(ErrorView::UnsafeState("checkpointing capsule has no checkpoint journal"@))
    } else if worktree::ownership_check(c, o.inspection) is Err {
        worktree::ownership_check(c, o.inspection)
    } else if o.parents is Err {
        Err(o.parents->Err_0@)
    } else if o.committed is Err {
        Err(o.committed->Err_0@)
    } else if git::texts(o.parents->Ok_0@) != seq![c.checkpoint->0.head_before@]
        || digest::sha256_hex_of(o.committed->Ok_0@.patch) != c.checkpoint->0.patch_sha256@ {
        Err(ErrorView::UnsafeState("checkpoint journal does not match its prepared commit"@))
    } else if o.head is Err {
        Err(o.head->Err_0@)
    } else if o.pending_head is Err {
        Err(o.pending_head->Err_0@)
    } else {
        Ok(())
    }
}

/// A checkpoint being finished: what to do in Git first, and what follows.
#[derive(Debug, PartialEq, Eq)]
pub struct CheckpointFinish {
    /// What to do in Git.
    pub moves: CheckpointMoves,
    /// The finished capsule and checkpoint, or why the record refuses it.
    pub outcome: Result<(Capsule, Checkpoint), Error>,
}

/// Whether a finish has given moves and the outcome that completing gives.
pub open spec fn is_finish(f: CheckpointFinish, moves: CheckpointMoves, c: Capsule) -> bool {
    &&& f.moves == moves
    &&& match complete_check(c) {
        Err(e) => f.outcome matches Err(found) && found@ == e,
        Ok(_) => f.outcome matches Ok(done) && is_completed(done.0, c) && done.1 == checkpoint_of(
            c.checkpoint->0,
        ),
    }
}

/// What finishing a journaled checkpoint gives.
pub open spec fn finish_matches(
    r: std::result::Result<Option<CheckpointFinish>, Error>,
    c: Capsule,
    o: FinishObservation,
) -> bool {
    match finish_check(c, o) {
        Err(e) => r matches Err(found) && found@ == e,
        Ok(_) => match moves_of(
            c.checkpoint->0,
            o.head->Ok_0@,
            text::opt_view(o.pending_head->Ok_0),
        ) {
            Err(e) => r matches Err(found) && found@ == e,
            Ok(None) => r == Ok::<Option<CheckpointFinish>, Error>(None),
            Ok(Some(moves)) => r matches Ok(Some(f)) && is_finish(f, moves, c),
        },
    }
}

fn decide_moves(j: &CheckpointJournal, head: &str, pending: &Option<String>) -> (r:
    std::result::Result<Option<CheckpointMoves>, Error>)
    ensures
        match moves_of(*j, head@, text::opt_view(*pending)) {
            Err(e) => r matches Err(found) && found@ == e,
            Ok(moves) => r == Ok::<Option<CheckpointMoves>, Error>(moves),
        },
{
    let at_after = match pending {
        Some(p) => text::same_text(p.as_str(), j.head_after.as_str()),
        None => true,
    };
    if text::same_text(head, j.head_before.as_str()) {
        if !at_after {
            return Err(
                Error::UnsafeState(
                    "checkpoint pending ref points to an unexpected commit".to_owned(),
                ),
            );
        }
        return Ok(
            Some(
                CheckpointMoves {
                    create_pending: pending.is_none(),
                    advance_branch: true,
                    reset_index: false,
                    delete_pending: pending.is_some(),
                },
            ),
        );
    }
    if text::same_text(head, j.head_after.as_str()) {
        if !at_after {
            return Err(
                Error::UnsafeState(
                    "checkpoint pending ref points to an unexpected commit".to_owned(),
                ),
            );
        }
        return Ok(
            Some(
                CheckpointMoves {
                    create_pending: false,
                    advance_branch: false,
                    reset_index: true,
                    delete_pending: pending.is_some(),
                },
            ),
        );
    }
    Ok(None)
}

/// A capsule changed at a given time.
pub open spec fn touched(c: Capsule, at: u64) -> Capsule {
    Capsule { updated_at_unix: at, ..c }
}

/// Record when a capsule was last changed.
pub fn touch(capsule: Capsule, at: u64) -> (r: Capsule)
    ensures
        r == touched(capsule, at),
{
    let mut c = capsule;
    c.updated_at_unix = at;
    c
}

impl CapsuleManager {
    /// Read a manifest again once the locks are held.
    pub fn reread(
        &self,
        id: &str,
        shown: std::result::Result<Capsule, Error>,
        stored: std::result::Result<Capsule, Error>,
    ) -> (r: std::result::Result<Capsule, Error>)
        ensures
            match locked_check(self.store.root@, id@, shown, stored) {
                Err(e) => r matches Err(found) && found@ == e,
                Ok(_) => r == stored,
            },
    {
        match self.show(id, shown) {
            Err(e) => {
                return Err(e);
            },
            Ok(_) => {},
        }
        self.store.read_capsule(id, stored)
    }

    /// Read a manifest again once the locks are held, and admit a change to
    /// it: it must be active and its workspace its own.
    pub fn reread_active(
        &self,
        id: &str,
        shown: std::result::Result<Capsule, Error>,
        stored: std::result::Result<Capsule, Error>,
        inspection: &WorktreeInspection,
    ) -> (r: std::result::Result<Capsule, Error>)
        ensures
            match active_check(self.store.root@, id@, shown, stored, *inspection) {
                Err(e) => r matches Err(found) && found@ == e,
                Ok(_) => r == stored,
            },
    {
        let capsule = match self.reread(id, shown, stored) {
            Err(e) => {
                return Err(e);
            },
            Ok(c) => c,
        };
        match manager::require_state(&capsule, CapsuleState::Active, "active") {
            Err(e) => {
                return Err(e);
            },
            Ok(_) => {},
        }
        match worktree::validate_owned_worktree(&capsule, inspection) {
            Err(e) => Err(e),
            Ok(_) => Ok(capsule),
        }
    }

    /// Begin a checkpoint: check the request, and find what there is to commit
    /// on top of the workspace's `HEAD`.
    pub fn begin_checkpoint(
        &self,
        id: &str,
        options: &CheckpointOptions,
        shown: std::result::Result<Capsule, Error>,
        stored: std::result::Result<Capsule, Error>,
        inspection: &WorktreeInspection,
        head: std::result::Result<String, Error>,
        snapshot: std::result::Result<Snapshot, Error>,
    ) -> (r: std::result::Result<CheckpointRequest, Error>)
        ensures
            match begin_check(
                self.store.root@,
                id@,
                *options,
                shown,
                stored,
                *inspection,
                head,
                snapshot,
            ) {
                Err(e) => r matches Err(found) && found@ == e,
                Ok(_) => r == Ok::<CheckpointRequest, Error>(
                    CheckpointRequest {
                        capsule: stored->Ok_0,
                        head_before: head->Ok_0,
                        snapshot: snapshot->Ok_0,
                    },
                ),
            },
    {
        match options.validate() {
            Err(e) => {
                return Err(e);
            },
            Ok(_) => {},
        }
        let capsule = match self.reread_active(id, shown, stored, inspection) {
            Err(e) => {
                return Err(e);
            },
            Ok(c) => c,
        };
        let head_before = match head {
            Err(e) => {
                return Err(e);
            },
            Ok(h) => h,
        };
        match snapshot {
            Err(e) => Err(e),
            Ok(s) => if s.patch.len() == 0 {
                Err(Error::InvalidInput("nothing to checkpoint".to_owned()))
            } else {
                Ok(CheckpointRequest { capsule, head_before, snapshot: s })
            },
        }
    }

    /// Journal a prepared checkpoint, once the prepared commit proves to be
    /// exactly the workspace's change on top of its `HEAD`.
    pub fn checkpoint(
        &self,
        request: CheckpointRequest,
        options: CheckpointOptions,
        prepared: PreparedCheckpoint,
        started_at: u64,
    ) -> (r: std::result::Result<CheckpointPlan, Error>)
        ensures
            match journal_check(request, prepared) {
                Err(e) => r matches Err(found) && found@ == e,
                Ok(_) => r matches Ok(plan) && is_plan(
                    plan,
                    request,
                    options,
                    prepared.commit->Ok_0@,
                    started_at,
                ),
            },
    {
        let head_after = match prepared.commit {
            Err(e) => {
                return Err(e);
            },
            Ok(h) => h,
        };
        let change = match prepared.prepared {
            Err(e) => {
                return Err(e);
            },
            Ok(s) => s,
        };
        let parents = match prepared.parents {
            Err(e) => {
                return Err(e);
            },
            Ok(p) => p,
        };
        if !git::sole_parent(&parents, request.head_before.as_str()) || !change.same(
            &request.snapshot,
        ) {
            return Err(
                Error::UnsafeState(
                    "prepared checkpoint commit does not reproduce the workspace snapshot".to_owned(),
                ),
            );
        }
        let complete = match prepared.complete {
            Err(e) => {
                return Err(e);
            },
            Ok(s) => s,
        };
        match require_patch_within_hard_bound(complete.patch.len() as u64) {
            Err(e) => {
                return Err(e);
            },
            Ok(_) => {},
        }
        if request.capsule.checkpoints.len() >= CHECKPOINT_COUNT_CAP {
            return Err(
                Error::InvalidInput(
                    text::cat3(
                        "a capsule retains at most ",
                        text::decimal_text(CHECKPOINT_COUNT_CAP as u64).as_str(),
                        " checkpoints; close this capsule and start another",
                    ),
                ),
            );
        }
        let reference = manager::checkpoint_ref(&request.capsule);
        let patch_sha256 = digest::sha256_hex(request.snapshot.patch.as_slice());
        let mut capsule = request.capsule;
        capsule.checkpoint = Some(
            CheckpointJournal {
                head_before: request.head_before,
                head_after,
                patch_sha256,
                message: options.message,
                author_name: options.author.name,
                author_email: options.author.email,
                started_at_unix: started_at,
            },
        );
        capsule.state = CapsuleState::Checkpointing;
        capsule.updated_at_unix = started_at;
        Ok(CheckpointPlan { capsule, reference })
    }

    /// Finish a journaled checkpoint, if everything proves to be where the
    /// journal says; where the workspace is somewhere else, nothing is done.
    pub fn finish_checkpoint(&self, capsule: Capsule, observed: FinishObservation) -> (r:
        std::result::Result<Option<CheckpointFinish>, Error>)
        ensures
            finish_matches(r, capsule, observed),
    {
        let journal = match &capsule.checkpoint {
            None => {
                return Err(
                    Error::UnsafeState(
                        "checkpointing capsule has no checkpoint journal".to_owned(),
                    ),
                );
            },
            Some(j) => j,
        };
        match worktree::validate_owned_worktree(&capsule, &observed.inspection) {
            Err(e) => {
                return Err(e);
            },
            Ok(_) => {},
        }
        let parents = match observed.parents {
            Err(e) => {
                return Err(e);
            },
            Ok(p) => p,
        };
        let committed = match observed.committed {
            Err(e) => {
                return Err(e);
            },
            Ok(s) => s,
        };
        if !git::sole_parent(&parents, journal.head_before.as_str()) || !text::same_text(
            digest::sha256_hex(committed.patch.as_slice()).as_str(),
            journal.patch_sha256.as_str(),
        ) {
            return Err(
                Error::UnsafeState(
                    "checkpoint journal does not match its prepared commit".to_owned(),
                ),
            );
        }
        let head = match observed.head {
            Err(e) => {
                return Err(e);
            },
            Ok(h) => h,
        };
        let pending = match observed.pending_head {
            Err(e) => {
                return Err(e);
            },
            Ok(p) => p,
        };
        match decide_moves(journal, head.as_str(), &pending) {
            Err(e) => Err(e),
            Ok(None) => Ok(None),
            Ok(Some(moves)) => {
                let outcome = complete_checkpoint(capsule);
                Ok(Some(CheckpointFinish { moves, outcome }))
            },
        }
    }
}

/// A journaled checkpoint keeps the record consistent, and so does finishing
/// it: a crash in between leaves a record that recovery can read.
pub proof fn law_checkpoints_keep_journals_consistent(
    request: CheckpointRequest,
    options: CheckpointOptions,
    commit: Seq<char>,
    started_at: u64,
    plan: CheckpointPlan,
    next: Capsule,
)
    requires
        store::journals_consistent(request.capsule),
        request.capsule.state is Active,
        is_plan(plan, request, options, commit, started_at),
        is_completed(next, plan.capsule),
    ensures
        store::journals_consistent(plan.capsule),
        store::journals_consistent(next),
        next.state is Active,
{
}

/// A finished checkpoint is the journaled one: its commit, message, and author
/// are those that were journaled before the branch moved.
pub proof fn law_finished_checkpoint_is_the_journaled_one(
    request: CheckpointRequest,
    options: CheckpointOptions,
    commit: Seq<char>,
    started_at: u64,
    plan: CheckpointPlan,
    next: Capsule,
)
    requires
        is_plan(plan, request, options, commit, started_at),
        is_completed(next, plan.capsule),
    ensures
        next.checkpoints@.len() == request.capsule.checkpoints@.len() + 1,
        next.checkpoints@.drop_last() == request.capsule.checkpoints@,
        next.checkpoints@.last().commit@ == commit,
        next.checkpoints@.last().message == options.message,
        next.checkpoints@.last().author_name == options.author.name,
        next.checkpoints@.last().author_email == options.author.email,
{
    assert(next.checkpoints@.drop_last() =~= request.capsule.checkpoints@);
}

/// A checkpoint is refused, and nothing is journaled, where nothing changed,
/// where the capsule is not active or its workspace is not its own, and where
/// the capsule has as many checkpoints as it may retain, whatever was prepared.
pub proof fn law_checkpoints_are_refused(
    root: Seq<u8>,
    id: Seq<char>,
    options: CheckpointOptions,
    shown: std::result::Result<Capsule, Error>,
    stored: std::result::Result<Capsule, Error>,
    inspection: WorktreeInspection,
    head: std::result::Result<String, Error>,
    snapshot: std::result::Result<Snapshot, Error>,
    request: CheckpointRequest,
    p: PreparedCheckpoint,
)
    ensures
        options.check() is Ok && active_check(root, id, shown, stored, inspection) is Ok && head
            is Ok && snapshot is Ok && snapshot->Ok_0.patch@.len() == 0 ==> begin_check(
            root,
            id,
            options,
            shown,
            stored,
            inspection,
            head,
            snapshot,
        ) == Err::<(), ErrorView>(ErrorView::InvalidInput("nothing to checkpoint"@)),
        active_check(root, id, shown, stored, inspection) is Err ==> begin_check(
            root,
            id,
            options,
            shown,
            stored,
            inspection,
            head,
            snapshot,
        ) is Err,
        request.capsule.checkpoints@.len() >= CHECKPOINT_COUNT_CAP ==> journal_check(request, p)
            is Err,
        request.capsule.checkpoints@.len() >= CHECKPOINT_COUNT_CAP && p.commit is Ok && p.prepared
            is Ok && p.parents is Ok && git::texts(p.parents->Ok_0@) == seq![request.head_before@]
            && p.prepared->Ok_0@ == request.snapshot@ && p.complete is Ok && hard_bound_check(
            p.complete->Ok_0@.patch.len(),
        ) is Ok ==> journal_check(request, p) == Err::<(), ErrorView>(
            ErrorView::InvalidInput(
                "a capsule retains at most "@ + text::decimal(CHECKPOINT_COUNT_CAP as nat)
                    + " checkpoints; close this capsule and start another"@,
            ),
        ),
{
}

} // verus!
