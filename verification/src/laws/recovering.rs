//! What recovery may finish or undo, and in which steps.

use vstd::prelude::*;
use vstd::string::*;

use crate::checkpoint::{
    CheckpointFinish, CheckpointMoves, CheckpointPlan, FinishObservation,
};
use crate::cleanup::Removal;
use crate::create::{CreatingObservation, CreatingOutcome};
use crate::error::Error;
use crate::git::Snapshot;
use crate::laws::creating;
use crate::laws::integrating;
use crate::laws::places;
use crate::laws::records;
use crate::laws::sealing;
use crate::laws::workspaces;
use crate::manager::CapsuleManager;
use crate::model::{
    Capsule, CapsuleResult, CapsuleState, CheckpointJournal, Integration, RecoveryAction,
};
use crate::recover::{
    ActiveRecovery, IntegratingObservation, IntegratingRecovery, RecoveryPath, RecoveryTarget,
};
use crate::steps::{PendingRef, Step};
use crate::worktree::WorktreeInspection;
use crate::{artifacts, laws, record, recover, steps};

verus! {

/// An active capsule is intact exactly where its workspace is its own. A
/// reference that was left behind is then deleted; a capsule whose workspace is
/// missing or foreign is orphaned and otherwise unchanged.
pub proof fn law_active_capsules_are_intact_or_orphaned(
    m: CapsuleManager,
    c: Capsule,
    exists_there: bool,
    seen: WorktreeInspection,
    pending: std::result::Result<Option<String>, Error>,
    r: std::result::Result<ActiveRecovery, Error>,
)
    requires
        call_ensures(CapsuleManager::recover_active, (&m, c, exists_there, &seen, pending), r),
    ensures
        (r matches Ok(ActiveRecovery::Orphaned(_))) <==> !(exists_there && workspaces::is_own(
            c,
            seen,
        )),
        r matches Ok(ActiveRecovery::Orphaned(next)) ==> next == (Capsule {
            state: CapsuleState::Orphaned,
            ..c
        }),
        (r matches Ok(ActiveRecovery::Intact)) <==> exists_there && workspaces::is_own(c, seen) && (
        pending matches Ok(None)),
        r matches Ok(ActiveRecovery::DeleteRef(commit)) ==> (pending matches Ok(Some(p)) && p@
            == commit@),
        exists_there && workspaces::is_own(c, seen) && pending is Err ==> r is Err,
{
    workspaces::lemma_own(c, seen);
}

/// Whether a target is still the one that was journaled, clean and complete.
pub open spec fn is_journaled_target(c: Capsule, i: Integration, o: RecoveryTarget) -> bool {
    &&& o.exists
    &&& o.repository matches Ok(t) && places::same_place(
        t.common_dir.bytes@,
        c.repository_common_dir.bytes@,
    ) && places::same_place(t.git_dir.bytes@, i.target_git_dir.bytes@)
    &&& o.head_ref matches Ok(h) && h@ == i.target_head_ref@
    &&& o.sparse == Ok::<bool, Error>(false)
    &&& o.hidden == Ok::<bool, Error>(false)
    &&& o.clean == Ok::<bool, Error>(true)
}

proof fn lemma_journaled_target(c: Capsule, i: Integration, o: RecoveryTarget)
    ensures
        is_journaled_target(c, i, o) <==> recover::target_holds(c, i, o) == Ok::<
            bool,
            crate::error::ErrorView,
        >(true),
{
    if let Ok(t) = o.repository {
        places::lemma_same_place(t.common_dir.bytes@, c.repository_common_dir.bytes@);
        places::lemma_same_place(t.git_dir.bytes@, i.target_git_dir.bytes@);
    }
}

/// Whether a commit makes exactly the sealed change on top of the commit before
/// it; a result that changes nothing leaves the target where it was.
pub open spec fn makes_the_change(
    i: Integration,
    r: CapsuleResult,
    patch: Seq<u8>,
    head: Seq<char>,
    parents: std::result::Result<Vec<String>, Error>,
    change: std::result::Result<Snapshot, Error>,
) -> bool {
    if head == i.target_head_before@ {
        &&& r.kind is NoChange
        &&& r.patch_bytes == 0 && r.changed_paths@.len() == 0 && patch.len() == 0
    } else {
        &&& parents matches Ok(p) && p@.len() == 1 && p@[0]@ == i.target_head_before@
        &&& change matches Ok(s) && s.patch@ == patch && laws::same_paths(
            s.changed_paths@,
            r.changed_paths@,
        )
    }
}

proof fn lemma_makes_the_change(
    i: Integration,
    r: CapsuleResult,
    patch: Seq<u8>,
    head: Seq<char>,
    parents: std::result::Result<Vec<String>, Error>,
    change: std::result::Result<Snapshot, Error>,
)
    ensures
        makes_the_change(i, r, patch, head, parents, change) <==> recover::integration_matches_of(
            i,
            r@,
            patch,
            head,
            parents,
            change,
        ) == Ok::<bool, crate::error::ErrorView>(true),
{
    laws::lemma_views(r.changed_paths@);
    if let Ok(p) = parents {
        integrating::lemma_sole(p@, i.target_head_before@);
    }
    if let Ok(s) = change {
        laws::lemma_same_paths(s.changed_paths@, r.changed_paths@);
    }
}

/// Recovery takes a target for the journaled one, and a commit for the sealed
/// change, exactly where everything that was read says so.
pub proof fn law_recovery_believes_only_what_was_read(
    c: Capsule,
    i: Integration,
    o: RecoveryTarget,
    target: std::result::Result<bool, Error>,
    result: CapsuleResult,
    patch: &[u8],
    head: &str,
    parents: std::result::Result<Vec<String>, Error>,
    change: std::result::Result<Snapshot, Error>,
    fits: std::result::Result<bool, Error>,
)
    requires
        call_ensures(recover::recovery_integration_target, (&c, &i, o), target),
        call_ensures(
            recover::integration_matches_result,
            (&i, &result, patch, head, parents, change),
            fits,
        ),
    ensures
        target == Ok::<bool, Error>(true) <==> is_journaled_target(c, i, o),
        !o.exists || o.repository is Err ==> target == Ok::<bool, Error>(false),
        fits == Ok::<bool, Error>(true) <==> makes_the_change(
            i,
            result,
            patch@,
            head@,
            parents,
            change,
        ),
{
    lemma_journaled_target(c, i, o);
    lemma_makes_the_change(i, result, patch@, head@, parents, change);
}

/// The prepared commit of an integration, where it moves the target.
pub open spec fn prepared_of(i: Integration) -> Option<Seq<char>> {
    match i.target_head_after {
        Some(h) => if h@ == i.target_head_before@ {
            None
        } else {
            Some(h@)
        },
        None => None,
    }
}

/// An interrupted integration is finished only where the target is at the
/// prepared commit and that commit makes exactly the sealed change. It is undone
/// only where the target is still at the commit before. Nothing else is touched.
pub proof fn law_integrations_are_finished_or_undone_exactly(
    m: CapsuleManager,
    c: Capsule,
    o: IntegratingObservation,
    at: u64,
    r: std::result::Result<Option<IntegratingRecovery>, Error>,
)
    requires
        call_ensures(CapsuleManager::recover_integrating, (&m, c, o, at), r),
    ensures
        c.integration is None ==> (r matches Ok(Some(done)) && done.capsule == (Capsule {
            state: CapsuleState::Orphaned,
            ..c
        }) && done.delete_ref is None),
        c.integration is Some ==> (r matches Ok(Some(done)) ==> {
            let i = c.integration->0;
            &&& is_journaled_target(c, i, o.target)
            &&& o.head is Ok
            &&& o.pending_head is Ok
            &&& if done.capsule.state is Integrated {
                &&& done.capsule == (Capsule {
                    state: CapsuleState::Integrated,
                    integration: Some(Integration { integrated_at_unix: Some(at), ..i }),
                    ..c
                })
                &&& i.target_head_after matches Some(h) && h@ == o.head->Ok_0@
                &&& sealing::is_intact(c, o.stored, o.patch)
                &&& makes_the_change(
                    i,
                    o.stored->Ok_0.result,
                    o.patch->Ok_0@,
                    o.head->Ok_0@,
                    o.parents,
                    o.change,
                )
                &&& laws::opt(done.delete_ref) == prepared_of(i)
            } else {
                &&& done.capsule == (Capsule {
                    state: CapsuleState::Closed,
                    integration: None,
                    ..c
                })
                &&& o.head->Ok_0@ == i.target_head_before@
                &&& if i.target_head_after is None {
                    laws::opt(done.delete_ref) == laws::opt(o.pending_head->Ok_0)
                } else {
                    &&& sealing::is_intact(c, o.stored, o.patch)
                    &&& laws::opt(done.delete_ref) == prepared_of(i)
                    &&& prepared_of(i) is Some ==> laws::opt(o.pending_head->Ok_0) == prepared_of(i)
                }
            }
        }),
        (c.integration matches Some(i) && is_journaled_target(c, i, o.target) && o.head is Ok
            && o.pending_head is Ok && i.target_head_after is None && o.head->Ok_0@
            == i.target_head_before@) ==> (r matches Ok(Some(_))),
        (c.integration matches Some(i) && is_journaled_target(c, i, o.target) && o.head is Ok
            && o.pending_head is Ok && (i.target_head_after matches Some(h) && h@ == o.head->Ok_0@)
            && sealing::is_intact(c, o.stored, o.patch) && (o.pending_head->Ok_0 is Some
            && prepared_of(i) is Some ==> laws::opt(o.pending_head->Ok_0) == prepared_of(i))
            && makes_the_change(
            i,
            o.stored->Ok_0.result,
            o.patch->Ok_0@,
            o.head->Ok_0@,
            o.parents,
            o.change,
        )) ==> (r matches Ok(Some(done)) && done.capsule.state is Integrated),
        (c.integration matches Some(i) && is_journaled_target(c, i, o.target) && o.head is Ok
            && o.pending_head is Ok && o.head->Ok_0@ == i.target_head_before@
            && sealing::is_intact(c, o.stored, o.patch) && prepared_of(i) is Some && laws::opt(
            o.pending_head->Ok_0,
        ) == prepared_of(i)) ==> (r matches Ok(Some(done)) && done.capsule.state is Closed),
{
    if let Some(i) = c.integration {
        lemma_journaled_target(c, i, o.target);
        sealing::lemma_intact(c, o.stored, o.patch);
        if o.stored is Ok && o.patch is Ok && o.head is Ok {
            lemma_makes_the_change(
                i,
                o.stored->Ok_0.result,
                o.patch->Ok_0@,
                o.head->Ok_0@,
                o.parents,
                o.change,
            );
        }
    }
}

/// A capsule is recovered from what is stored, by the transition its state
/// names. Where it is in none, there is nothing to recover.
pub proof fn law_recovery_goes_by_the_stored_state(
    m: CapsuleManager,
    id: &str,
    listed: std::result::Result<Capsule, Error>,
    stored: std::result::Result<Capsule, Error>,
    r: std::result::Result<(Capsule, RecoveryPath), Error>,
)
    requires
        call_ensures(CapsuleManager::recover_capsule, (&m, id, listed, stored), r),
    ensures
        r is Ok <==> records::is_found(m.store.root.bytes@, id@, listed) && records::is_found(
            m.store.root.bytes@,
            id@,
            stored,
        ),
        r matches Ok(found) ==> found.0 == stored->Ok_0 && match found.1 {
            RecoveryPath::Creating => found.0.state is Creating,
            RecoveryPath::Checkpointing => found.0.state is Checkpointing,
            RecoveryPath::Active => found.0.state is Active,
            RecoveryPath::Integrating => found.0.state is Integrating,
            RecoveryPath::Dropping => found.0.state is Dropping,
            RecoveryPath::Settled => found.0.state is Closed || found.0.state is Integrated
                || found.0.state is Orphaned || found.0.state is Dropped,
        },
{
    records::lemma_found(m.store.root.bytes@, id@, listed);
    records::lemma_found(m.store.root.bytes@, id@, stored);
}

/// A recovery is reported as what it was: which capsule, from which state, to
/// which, and what was done.
pub proof fn law_recoveries_are_reported_as_made(
    c: Capsule,
    previous: CapsuleState,
    action: String,
    at: u64,
    r: (Capsule, RecoveryAction),
)
    requires
        call_ensures(recover::recovered, (c, previous, action, at), r),
    ensures
        r.0 == (Capsule { updated_at_unix: at, ..c }),
        r.1.capsule_id@ == c.id@,
        r.1.previous_state == previous,
        r.1.state == c.state,
        r.1.action@ == action@,
{
}

/// Recovering a creation goes on as the creation itself would, and orphans what
/// it cannot prove instead of failing.
pub proof fn law_recovered_creations_go_on_as_creations(
    m: CapsuleManager,
    c: Capsule,
    o: CreatingObservation,
    at: u64,
    r: std::result::Result<CreatingOutcome, Error>,
)
    requires
        call_ensures(CapsuleManager::recover_creating, (&m, c, o, at), r),
    ensures
        !creating::source_fits(c, o) ==> (r matches Ok(CreatingOutcome::Done {
            capsule,
            checkout: false,
            ..
        }) && capsule.state is Orphaned),
        (r matches Ok(CreatingOutcome::Done { checkout: true, .. })) <==> {
            &&& creating::source_fits(c, o)
            &&& o.workspace_entry == Ok::<bool, Error>(true)
            &&& workspaces::is_own(creating::with_git_dir(c, o.found_git_dir), o.inspection)
            &&& creating::is_at_base(c, o)
        },
        r matches Ok(CreatingOutcome::Done { capsule, checkout: true, .. }) ==> capsule == (
        Capsule {
            state: CapsuleState::Active,
            updated_at_unix: at,
            ..creating::with_git_dir(c, o.found_git_dir)
        }),
{
    creating::lemma_continued(c, o);
}

/// A checkpoint's commit is protected before the journal that names it is
/// written. Its branch moves only from the commit before to the commit after,
/// and the protection goes last.
pub proof fn law_checkpoints_are_protected_throughout(
    plan: CheckpointPlan,
    journaled: Vec<Step>,
    moves: CheckpointMoves,
    j: CheckpointJournal,
    finished: Vec<Step>,
)
    requires
        call_ensures(steps::journal_checkpoint, (plan,), journaled),
        call_ensures(steps::finish_checkpoint, (moves, &j), finished),
    ensures
        plan.capsule.checkpoint matches Some(k) ==> {
            &&& journaled@.len() == 2
            &&& journaled@[0] matches Step::Protect { which, commit } && which
                == PendingRef::Checkpoint && commit@ == k.head_after@
            &&& journaled@[1] matches Step::Write(c) && c == plan.capsule
        },
        forall|i: int|
            0 <= i < finished@.len() ==> match #[trigger] finished@[i] {
                Step::Protect { which, commit } => moves.create_pending && which
                    == PendingRef::Checkpoint && commit@ == j.head_after@ && i == 0,
                Step::AdvanceBranch { commit, previous } => moves.advance_branch && commit@
                    == j.head_after@ && previous@ == j.head_before@,
                Step::ResetIndex(commit) => moves.reset_index && commit@ == j.head_after@,
                Step::Unprotect { which, commit } => moves.delete_pending && which
                    == PendingRef::Checkpoint && commit@ == j.head_after@ && i == finished@.len()
                    - 1,
                _ => false,
            },
        finished@.len() == (if moves.create_pending {
            1int
        } else {
            0
        }) + (if moves.advance_branch {
            1int
        } else {
            0
        }) + (if moves.reset_index {
            1int
        } else {
            0
        }) + (if moves.delete_pending {
            1int
        } else {
            0
        }),
{
    laws::lemma_views(journaled@);
    laws::lemma_views(finished@);
    if plan.capsule.checkpoint is Some {
        assert(record::views(journaled@)[0] == journaled@[0]@);
        assert(record::views(journaled@)[1] == journaled@[1]@);
    }
    assert forall|i: int| 0 <= i < finished@.len() implies match #[trigger] finished@[i] {
        Step::Protect { which, commit } => moves.create_pending && which == PendingRef::Checkpoint
            && commit@ == j.head_after@ && i == 0,
        Step::AdvanceBranch { commit, previous } => moves.advance_branch && commit@ == j.head_after@
            && previous@ == j.head_before@,
        Step::ResetIndex(commit) => moves.reset_index && commit@ == j.head_after@,
        Step::Unprotect { which, commit } => moves.delete_pending && which == PendingRef::Checkpoint
            && commit@ == j.head_after@ && i == finished@.len() - 1,
        _ => false,
    } by {
        assert(record::views(finished@)[i] == finished@[i]@);
    }
}

/// An integration's commit is protected before the journal that names it is
/// written, and only then is the target moved to it. The protection goes before
/// the finished record is written. A target that does not move is not touched.
pub proof fn law_integrations_are_protected_throughout(
    c: Capsule,
    proposed: String,
    at: u64,
    protected: std::result::Result<Vec<Step>, Error>,
    advanced: std::result::Result<Vec<Step>, Error>,
)
    requires
        call_ensures(steps::protect_target, (c, proposed, at), protected),
        call_ensures(steps::advance_target, (c, at), advanced),
    ensures
        protected is Ok <==> c.integration is Some,
        advanced is Ok <==> c.integration is Some,
        c.integration matches Some(i) ==> {
            let p = protected->Ok_0@;
            let a = advanced->Ok_0@;
            &&& p.len() == (if proposed@ == i.target_head_before@ {
                1int
            } else {
                2
            })
            &&& p.len() == 2 ==> (p[0] matches Step::Protect { which, commit } && which
                == PendingRef::Integration && commit@ == proposed@)
            &&& p.last() matches Step::Write(next) && next == (Capsule {
                integration: Some(Integration { target_head_after: Some(proposed), ..i }),
                updated_at_unix: at,
                ..c
            })
            &&& a.len() == (if prepared_of(i) is Some {
                3int
            } else {
                1
            })
            &&& a.len() == 3 ==> (a[0] matches Step::FastForward(commit) && Some(commit@)
                == prepared_of(i)) && (a[1] matches Step::Unprotect { which, commit } && which
                == PendingRef::Integration && Some(commit@) == prepared_of(i))
            &&& a.last() matches Step::Write(next) && next == (Capsule {
                state: CapsuleState::Integrated,
                integration: Some(Integration { integrated_at_unix: Some(at), ..i }),
                updated_at_unix: at,
                ..c
            })
        },
{
    if let Some(i) = c.integration {
        let p = protected->Ok_0@;
        let a = advanced->Ok_0@;
        laws::lemma_views(p);
        laws::lemma_views(a);
        assert(record::views(p)[0] == p[0]@);
        assert(record::views(p).last() == p.last()@);
        assert(record::views(a)[0] == a[0]@);
        assert(record::views(a).last() == a.last()@);
        if a.len() == 3 {
            assert(record::views(a)[1] == a[1]@);
        }
    }
}

/// A cleanup removes the worktree first, then the branch it journaled and no
/// other, then the references that may have been left. A creation adds its
/// worktree before it checks it out.
pub proof fn law_cleanups_remove_what_they_journaled(
    c: Capsule,
    removal: Removal,
    r: Vec<Step>,
    outcome: CreatingOutcome,
    created: Vec<Step>,
)
    requires
        call_ensures(steps::carry_out_cleanup, (&c, removal), r),
        call_ensures(steps::carry_out_creation, (&outcome,), created),
    ensures
        ({
            let n = match removal {
                Removal::RemoveWorktree => 1int,
                Removal::Prune => 2,
                Removal::Nothing => 0,
            };
            &&& r@.len() == n + 4
            &&& removal is RemoveWorktree ==> r@[0] is RemoveWorktree
            &&& removal is Prune ==> r@[0] is Prune && r@[1] is RequireUnregistered
            &&& match c.cleanup {
                Some(k) => match k.branch_head {
                    Some(h) => r@[n] matches Step::DeleteBranch(commit) && commit@ == h@,
                    None => r@[n] is RequireNoBranch,
                },
                None => r@[n] is RequireNoBranch,
            }
            &&& r@[n + 1] is Prune
            &&& r@[n + 2] == Step::Clear(PendingRef::Checkpoint)
            &&& r@[n + 3] == Step::Clear(PendingRef::Integration)
        }),
        match outcome {
            CreatingOutcome::AddWorktree(_) => created@.len() == 2 && created@[0] is AddWorktree
                && created@[1] is CheckOut,
            CreatingOutcome::Done { checkout, .. } => if checkout {
                created@.len() == 1 && created@[0] is CheckOut
            } else {
                created@.len() == 0
            },
        },
{
    laws::lemma_views(r@);
    laws::lemma_views(created@);
    let n = match removal {
        Removal::RemoveWorktree => 1int,
        Removal::Prune => 2,
        Removal::Nothing => 0,
    };
    assert(record::views(r@)[0] == r@[0]@);
    assert(record::views(r@)[1] == r@[1]@);
    assert(record::views(r@)[n] == r@[n]@);
    assert(record::views(r@)[n + 1] == r@[n + 1]@);
    assert(record::views(r@)[n + 2] == r@[n + 2]@);
    assert(record::views(r@)[n + 3] == r@[n + 3]@);
    if created@.len() > 0 {
        assert(record::views(created@)[0] == created@[0]@);
    }
    if created@.len() > 1 {
        assert(record::views(created@)[1] == created@[1]@);
    }
}

/// What recovery did is told in fixed words.
pub proof fn law_recoveries_are_told_in_fixed_words(
    m: CapsuleManager,
    commit: &str,
    removed: String,
    orphaned: String,
    finished: String,
    c: Capsule,
    o: IntegratingObservation,
    at: u64,
    r: std::result::Result<Option<IntegratingRecovery>, Error>,
)
    requires
        call_ensures(recover::removed_ref_action, (), removed),
        call_ensures(recover::orphaned_action, (), orphaned),
        call_ensures(recover::finished_checkpoint_action, (commit,), finished),
        call_ensures(CapsuleManager::recover_integrating, (&m, c, o, at), r),
    ensures
        removed@ == "removed a prepared checkpoint ref left before its journal was written"@,
        orphaned@
            == "marked an active capsule orphaned because its owned worktree is missing or foreign"@,
        finished@ == "completed interrupted checkpoint "@ + commit@,
        r matches Ok(Some(done)) ==> {
            &&& done.capsule.state is Integrated ==> done.action@
                == "finalized an integration whose exact Git commit completed before the journal update"@
            &&& done.capsule.state is Closed && c.integration->0.target_head_after is Some
                ==> done.action@ == "restored a pre-side-effect interrupted integration to closed"@
            &&& done.capsule.state is Closed && c.integration->0.target_head_after is None
                ==> done.action@
                == "removed a prepared integration ref left before its journal update"@
            &&& done.capsule.state is Orphaned ==> done.action@
                == "marked an integration orphaned because its journal record is missing"@
        },
{
}

/// An interrupted checkpoint is finished as it would have been without the
/// interruption.
pub proof fn law_recovered_checkpoints_are_finished_alike(
    m: CapsuleManager,
    c: Capsule,
    o: FinishObservation,
    recovered: std::result::Result<Option<CheckpointFinish>, Error>,
    finished: std::result::Result<Option<CheckpointFinish>, Error>,
)
    requires
        call_ensures(CapsuleManager::recover_checkpointing, (&m, c, o), recovered),
        call_ensures(CapsuleManager::finish_checkpoint, (&m, c, o), finished),
    ensures
        recovered is Ok <==> finished is Ok,
        (recovered matches Ok(None)) <==> (finished matches Ok(None)),
        (recovered matches Ok(Some(a)) && finished matches Ok(Some(b))) ==> {
            let (a, b) = (recovered->Ok_0->0, finished->Ok_0->0);
            &&& a.moves == b.moves
            &&& a.outcome is Ok <==> b.outcome is Ok
            &&& a.outcome is Ok ==> a.outcome->Ok_0.0.state == b.outcome->Ok_0.0.state
                && a.outcome->Ok_0.0.checkpoints@ == b.outcome->Ok_0.0.checkpoints@
                && a.outcome->Ok_0.1 == b.outcome->Ok_0.1
        },
{
}

} // verus!
