//! Journaled transitions as steps, and that recovery completes what an
//! interruption leaves behind.
//!
//! A transition is a row of steps that are carried out in order. A process may
//! stop between any two of them. What the next process finds is modelled by
//! [`World`], and the laws say what recovery makes of it.

use vstd::prelude::*;
use vstd::string::*;

use crate::checkpoint::{
    CheckpointMoves, CheckpointPlan, CheckpointRequest, PreparedCheckpoint, CHECKPOINT_COUNT_CAP,
};
use crate::cleanup::{CleanupObservation, Removal};
use crate::create::{CreatingObservation, CreatingOutcome, CreatingView};
use crate::close::PendingClose;
use crate::error::{Error, ErrorView};
use crate::git::Repository;
use crate::model::{Capsule, CapsuleState, CheckpointJournal, Integration};
use crate::options::{CheckpointOptions, IntegrateOptions};
use crate::paths::NativePath;
use crate::recover::{IntegratingObservation, IntegratingView};
use crate::worktree::WorktreeInspection;
use crate::{
    artifacts, checkpoint, cleanup, close, create, git, integrate, manager, paths, query, record,
    recover, text, validate, worktree,
};

verus! {

/// A ref that protects a prepared commit.
#[derive(Debug, Clone, Copy, PartialEq, Eq, Structural)]
pub enum PendingRef {
    /// The one of a checkpoint.
    Checkpoint,
    /// The one of an integration.
    Integration,
}

/// One step of a transition.
#[derive(Debug, PartialEq, Eq)]
pub enum Step {
    /// Write the capsule's manifest.
    Write(Capsule),
    /// Create a protecting ref at a commit.
    Protect {
        /// Which ref.
        which: PendingRef,
        /// Where it points.
        commit: String,
    },
    /// Delete a protecting ref, which must be at a commit if it exists.
    Unprotect {
        /// Which ref.
        which: PendingRef,
        /// Where it must point.
        commit: String,
    },
    /// Delete a protecting ref wherever it points, if it exists.
    Clear(PendingRef),
    /// Advance the capsule branch and the index with it.
    AdvanceBranch {
        /// The new commit.
        commit: String,
        /// The commit it must be at.
        previous: String,
    },
    /// Make the workspace's index equal to a commit.
    ResetIndex(String),
    /// Advance the integration target to a commit that follows its own.
    FastForward(String),
    /// Add the worktree and its branch at the base commit.
    AddWorktree,
    /// Check the base commit out completely.
    CheckOut,
    /// Remove the worktree.
    RemoveWorktree,
    /// Forget the registration of worktrees that are gone.
    Prune,
    /// Stop if the worktree is still registered.
    RequireUnregistered,
    /// Delete the capsule branch, which must be at a commit if it exists.
    DeleteBranch(String),
    /// Stop if the capsule branch exists.
    RequireNoBranch,
}

/// What a [`Step`] holds.
pub enum StepView {
    Write(Capsule),
    Protect { which: PendingRef, commit: Seq<char> },
    Unprotect { which: PendingRef, commit: Seq<char> },
    Clear(PendingRef),
    AdvanceBranch { commit: Seq<char>, previous: Seq<char> },
    ResetIndex(Seq<char>),
    FastForward(Seq<char>),
    AddWorktree,
    CheckOut,
    RemoveWorktree,
    Prune,
    RequireUnregistered,
    DeleteBranch(Seq<char>),
    RequireNoBranch,
}

impl View for Step {
    type V = StepView;

    open spec fn view(&self) -> StepView {
        match self {
            Step::Write(c) => StepView::Write(*c),
            Step::Protect { which, commit } => StepView::Protect { which: *which, commit: commit@ },
            Step::Unprotect { which, commit } => StepView::Unprotect {
                which: *which,
                commit: commit@,
            },
            Step::Clear(which) => StepView::Clear(*which),
            Step::AdvanceBranch { commit, previous } => StepView::AdvanceBranch {
                commit: commit@,
                previous: previous@,
            },
            Step::ResetIndex(commit) => StepView::ResetIndex(commit@),
            Step::FastForward(commit) => StepView::FastForward(commit@),
            Step::AddWorktree => StepView::AddWorktree,
            Step::CheckOut => StepView::CheckOut,
            Step::RemoveWorktree => StepView::RemoveWorktree,
            Step::Prune => StepView::Prune,
            Step::RequireUnregistered => StepView::RequireUnregistered,
            Step::DeleteBranch(commit) => StepView::DeleteBranch(commit@),
            Step::RequireNoBranch => StepView::RequireNoBranch,
        }
    }
}

/// The steps that journal a checkpoint: its commit is protected before the
/// journal that speaks of it is written.
pub open spec fn journal_steps(c: Capsule) -> Seq<StepView> {
    match c.checkpoint {
        Some(j) => seq![
            StepView::Protect { which: PendingRef::Checkpoint, commit: j.head_after@ },
            StepView::Write(c),
        ],
        None => seq![StepView::Write(c)],
    }
}

/// The steps that journal a planned checkpoint; see [`journal_steps`].
pub fn journal_checkpoint(plan: CheckpointPlan) -> (r: Vec<Step>)
    ensures
        record::views(r@) == journal_steps(plan.capsule),
{
    let mut r: Vec<Step> = Vec::new();
    match &plan.capsule.checkpoint {
        Some(j) => {
            r.push(Step::Protect { which: PendingRef::Checkpoint, commit: j.head_after.clone() });
        },
        None => {},
    }
    r.push(Step::Write(plan.capsule));
    proof {
        assert(record::views(r@) =~= journal_steps(plan.capsule));
    }
    r
}

/// A row of one step, or none.
pub open spec fn only_if(wanted: bool, step: StepView) -> Seq<StepView> {
    if wanted {
        seq![step]
    } else {
        Seq::empty()
    }
}

/// The steps that finish a journaled checkpoint in Git, in order.
pub open spec fn moves_steps(m: CheckpointMoves, j: CheckpointJournal) -> Seq<StepView> {
    only_if(
        m.create_pending,
        StepView::Protect { which: PendingRef::Checkpoint, commit: j.head_after@ },
    ) + only_if(
        m.advance_branch,
        StepView::AdvanceBranch { commit: j.head_after@, previous: j.head_before@ },
    ) + only_if(m.reset_index, StepView::ResetIndex(j.head_after@)) + only_if(
        m.delete_pending,
        StepView::Unprotect { which: PendingRef::Checkpoint, commit: j.head_after@ },
    )
}

/// The steps that finish a journaled checkpoint in Git; see [`moves_steps`].
/// The finished manifest is written after them.
pub fn finish_checkpoint(moves: CheckpointMoves, journal: &CheckpointJournal) -> (r: Vec<Step>)
    ensures
        record::views(r@) == moves_steps(moves, *journal),
{
    let mut r: Vec<Step> = Vec::new();
    if moves.create_pending {
        r.push(
            Step::Protect { which: PendingRef::Checkpoint, commit: journal.head_after.clone() },
        );
    }
    if moves.advance_branch {
        r.push(
            Step::AdvanceBranch {
                commit: journal.head_after.clone(),
                previous: journal.head_before.clone(),
            },
        );
    }
    if moves.reset_index {
        r.push(Step::ResetIndex(journal.head_after.clone()));
    }
    if moves.delete_pending {
        r.push(
            Step::Unprotect { which: PendingRef::Checkpoint, commit: journal.head_after.clone() },
        );
    }
    proof {
        assert(record::views(r@) =~= moves_steps(moves, *journal));
    }
    r
}

/// A capsule whose integration records the commit it is about to advance to.
pub open spec fn with_prepared(c: Capsule, proposed: String, at: u64) -> Capsule {
    Capsule {
        integration: Some(
            Integration { target_head_after: Some(proposed), ..c.integration->0 },
        ),
        updated_at_unix: at,
        ..c
    }
}

/// The steps that record a prepared integration: its commit is protected
/// before the journal that speaks of it is written.
pub open spec fn protect_steps(c: Capsule, proposed: String, at: u64) -> Seq<StepView> {
    only_if(
        proposed@ != c.integration->0.target_head_before@,
        StepView::Protect { which: PendingRef::Integration, commit: proposed@ },
    ).push(StepView::Write(with_prepared(c, proposed, at)))
}

/// The steps that record a prepared integration; see [`protect_steps`].
pub fn protect_target(capsule: Capsule, proposed: String, at: u64) -> (r: std::result::Result<
    Vec<Step>,
    Error,
>)
    ensures
        match capsule.integration {
            None => r matches Err(e) && e@ == ErrorView::UnsafeState(
                "integration record disappeared"@,
            ),
            Some(_) => r matches Ok(steps) && record::views(steps@) == protect_steps(
                capsule,
                proposed,
                at,
            ),
        },
{
    let mut r: Vec<Step> = Vec::new();
    match &capsule.integration {
        Some(i) => {
            if !text::same_text(proposed.as_str(), i.target_head_before.as_str()) {
                r.push(
                    Step::Protect { which: PendingRef::Integration, commit: proposed.clone() },
                );
            }
        },
        None => {},
    }
    match integrate::record_prepared(capsule, proposed, at) {
        Err(e) => Err(e),
        Ok(recorded) => {
            r.push(Step::Write(recorded));
            proof {
                assert(record::views(r@) =~= protect_steps(capsule, proposed, at));
            }
            Ok(r)
        },
    }
}

/// The steps that advance an integration target to its recorded commit and
/// complete the integration.
pub open spec fn advance_steps(c: Capsule, at: u64) -> Seq<StepView> {
    match recover::pending_of(c.integration->0) {
        Some(commit) => seq![
            StepView::FastForward(commit),
            StepView::Unprotect { which: PendingRef::Integration, commit },
            StepView::Write(integrate::integrated(c, at)),
        ],
        None => seq![StepView::Write(integrate::integrated(c, at))],
    }
}

/// The steps that complete an integration; see [`advance_steps`].
pub fn advance_target(capsule: Capsule, at: u64) -> (r: std::result::Result<Vec<Step>, Error>)
    ensures
        match capsule.integration {
            None => r matches Err(e) && e@ == ErrorView::UnsafeState(
                "integration record disappeared"@,
            ),
            Some(_) => r matches Ok(steps) && record::views(steps@) == advance_steps(capsule, at),
        },
{
    let mut r: Vec<Step> = Vec::new();
    match &capsule.integration {
        Some(i) => match recover::pending_commit(i) {
            Some(commit) => {
                r.push(Step::FastForward(commit.clone()));
                r.push(Step::Unprotect { which: PendingRef::Integration, commit });
            },
            None => {},
        },
        None => {},
    }
    match integrate::complete_integration(capsule, at) {
        Err(e) => Err(e),
        Ok(done) => {
            r.push(Step::Write(done));
            proof {
                assert(record::views(r@) =~= advance_steps(capsule, at));
            }
            Ok(r)
        },
    }
}

/// The steps that carry a journaled cleanup out, given what is left to remove.
pub open spec fn cleanup_steps(c: Capsule, removal: Removal) -> Seq<StepView> {
    (match removal {
        Removal::RemoveWorktree => seq![StepView::RemoveWorktree],
        Removal::Prune => seq![StepView::Prune, StepView::RequireUnregistered],
        Removal::Nothing => Seq::empty(),
    }) + seq![
        (match c.cleanup {
            Some(journal) => match journal.branch_head {
                Some(head) => StepView::DeleteBranch(head@),
                None => StepView::RequireNoBranch,
            },
            None => StepView::RequireNoBranch,
        }),
        StepView::Prune,
        StepView::Clear(PendingRef::Checkpoint),
        StepView::Clear(PendingRef::Integration),
    ]
}

/// The steps that carry a journaled cleanup out; see [`cleanup_steps`]. The
/// dropped manifest is written after them.
pub fn carry_out_cleanup(capsule: &Capsule, removal: Removal) -> (r: Vec<Step>)
    ensures
        record::views(r@) == cleanup_steps(*capsule, removal),
{
    let mut r: Vec<Step> = Vec::new();
    match removal {
        Removal::RemoveWorktree => {
            r.push(Step::RemoveWorktree);
        },
        Removal::Prune => {
            r.push(Step::Prune);
            r.push(Step::RequireUnregistered);
        },
        Removal::Nothing => {},
    }
    match &capsule.cleanup {
        Some(journal) => match &journal.branch_head {
            Some(head) => {
                r.push(Step::DeleteBranch(head.clone()));
            },
            None => {
                r.push(Step::RequireNoBranch);
            },
        },
        None => {
            r.push(Step::RequireNoBranch);
        },
    }
    r.push(Step::Prune);
    r.push(Step::Clear(PendingRef::Checkpoint));
    r.push(Step::Clear(PendingRef::Integration));
    proof {
        assert(record::views(r@) =~= cleanup_steps(*capsule, removal));
    }
    r
}

/// The steps that bring a capsule's worktree into being.
pub open spec fn creation_steps(outcome: CreatingOutcome) -> Seq<StepView> {
    match outcome {
        CreatingOutcome::AddWorktree(_) => seq![StepView::AddWorktree, StepView::CheckOut],
        CreatingOutcome::Done { checkout, .. } => only_if(checkout, StepView::CheckOut),
    }
}

/// The steps that bring a capsule's worktree into being; see
/// [`creation_steps`]. The manifest in its new state is written after them.
pub fn carry_out_creation(outcome: &CreatingOutcome) -> (r: Vec<Step>)
    ensures
        record::views(r@) == creation_steps(*outcome),
{
    let mut r: Vec<Step> = Vec::new();
    match outcome {
        CreatingOutcome::AddWorktree(_) => {
            r.push(Step::AddWorktree);
            r.push(Step::CheckOut);
        },
        CreatingOutcome::Done { checkout, .. } => {
            if *checkout {
                r.push(Step::CheckOut);
            }
        },
    }
    proof {
        assert(record::views(r@) =~= creation_steps(*outcome));
    }
    r
}

/// What a process finds of one capsule.
pub struct World {
    /// The stored manifest.
    pub manifest: Capsule,
    /// Whether the workspace exists.
    pub workspace: bool,
    /// Whether Git has it registered.
    pub registered: bool,
    /// Where the capsule branch is; the workspace's `HEAD` where it exists.
    pub branch: Option<Seq<char>>,
    /// Where the integration target is.
    pub target: Seq<char>,
    /// Where the ref that protects a checkpoint is.
    pub checkpoint_ref: Option<Seq<char>>,
    /// Where the ref that protects an integration is.
    pub integration_ref: Option<Seq<char>>,
}

/// A world in which a protecting ref is somewhere else.
pub open spec fn with_ref(w: World, which: PendingRef, at: Option<Seq<char>>) -> World {
    match which {
        PendingRef::Checkpoint => World { checkpoint_ref: at, ..w },
        PendingRef::Integration => World { integration_ref: at, ..w },
    }
}

/// What one step makes of a world.
pub open spec fn stepped(w: World, step: StepView) -> World {
    match step {
        StepView::Write(c) => World { manifest: c, ..w },
        StepView::Protect { which, commit } => with_ref(w, which, Some(commit)),
        StepView::Unprotect { which, commit: _ } => with_ref(w, which, None),
        StepView::Clear(which) => with_ref(w, which, None),
        StepView::AdvanceBranch { commit, previous: _ } => World { branch: Some(commit), ..w },
        StepView::FastForward(commit) => World { target: commit, ..w },
        StepView::AddWorktree => World {
            workspace: true,
            registered: true,
            branch: Some(w.manifest.base_commit@),
            ..w
        },
        StepView::RemoveWorktree => World { workspace: false, registered: false, ..w },
        StepView::Prune => World { registered: w.registered && w.workspace, ..w },
        StepView::DeleteBranch(_) => World { branch: None, ..w },
        StepView::ResetIndex(_) | StepView::CheckOut | StepView::RequireUnregistered
        | StepView::RequireNoBranch => w,
    }
}

/// What a row of steps makes of a world.
pub open spec fn after(w: World, steps: Seq<StepView>) -> World
    decreases steps.len(),
{
    if steps.len() == 0 {
        w
    } else {
        stepped(after(w, steps.drop_last()), steps.last())
    }
}

/// Whether a step can be carried out in a world: a protecting ref is not there
/// yet, or where it must be; a branch is where it must be; and so on.
pub open spec fn admits(w: World, step: StepView) -> bool {
    match step {
        StepView::Protect { which: PendingRef::Checkpoint, commit: _ } => w.checkpoint_ref is None,
        StepView::Protect { which: PendingRef::Integration, commit: _ } => w.integration_ref
            is None,
        StepView::Unprotect { which: PendingRef::Checkpoint, commit } => w.checkpoint_ref is None
            || w.checkpoint_ref == Some(commit),
        StepView::Unprotect { which: PendingRef::Integration, commit } => w.integration_ref is None
            || w.integration_ref == Some(commit),
        StepView::AdvanceBranch { commit: _, previous } => w.workspace && w.branch == Some(
            previous,
        ),
        StepView::ResetIndex(_) | StepView::CheckOut => w.workspace,
        StepView::AddWorktree => !w.workspace && !w.registered && w.branch is None,
        StepView::RemoveWorktree => w.workspace && w.registered,
        StepView::RequireUnregistered => !w.registered,
        StepView::DeleteBranch(commit) => !w.registered && (w.branch is None || w.branch == Some(
            commit,
        )),
        StepView::RequireNoBranch => w.branch is None,
        StepView::Write(_) | StepView::Clear(_) | StepView::FastForward(_) | StepView::Prune =>
            true,
    }
}

/// Whether every step of a row can be carried out in turn.
pub open spec fn admitted(w: World, steps: Seq<StepView>) -> bool
    decreases steps.len(),
{
    steps.len() == 0 || (admitted(w, steps.drop_last()) && admits(
        after(w, steps.drop_last()),
        steps.last(),
    ))
}

/// One more step.
proof fn lemma_push(w: World, steps: Seq<StepView>, step: StepView)
    ensures
        after(w, steps.push(step)) == stepped(after(w, steps), step),
        admitted(w, steps.push(step)) == (admitted(w, steps) && admits(after(w, steps), step)),
{
    assert(steps.push(step).drop_last() =~= steps);
}

/// One step.
proof fn lemma_one(w: World, step: StepView)
    ensures
        after(w, seq![step]) == stepped(w, step),
        admitted(w, seq![step]) == admits(w, step),
{
    lemma_push(w, Seq::empty(), step);
    assert(Seq::<StepView>::empty().push(step) =~= seq![step]);
}

/// Two rows of steps, one after the other.
proof fn lemma_append(w: World, first: Seq<StepView>, second: Seq<StepView>)
    ensures
        after(w, first + second) == after(after(w, first), second),
        admitted(w, first + second) == (admitted(w, first) && admitted(after(w, first), second)),
    decreases second.len(),
{
    if second.len() == 0 {
        assert(first + second =~= first);
    } else {
        lemma_append(w, first, second.drop_last());
        assert((first + second).drop_last() =~= first + second.drop_last());
    }
}

/// The steps of a checkpoint from its journal to its finished manifest.
pub open spec fn checkpoint_run(journaled: Capsule, done: Capsule, at: u64) -> Seq<StepView> {
    let j = journaled.checkpoint->0;
    journal_steps(journaled) + (match checkpoint::moves_of(j, j.head_before@, Some(j.head_after@)) {
        Ok(Some(m)) => moves_steps(m, j),
        _ => Seq::empty(),
    }).push(StepView::Write(checkpoint::touched(done, at)))
}

/// The steps with which recovery continues a checkpoint that it finds: it
/// finishes a journaled one, and removes a ref that was left before the journal
/// was written.
pub open spec fn checkpoint_recovery(w: World, done: Capsule, at: u64) -> Seq<StepView> {
    if w.manifest.state is Checkpointing {
        let j = w.manifest.checkpoint->0;
        match checkpoint::moves_of(j, w.branch->0, w.checkpoint_ref) {
            Ok(Some(m)) => moves_steps(m, j).push(
                StepView::Write(checkpoint::touched(done, at)),
            ),
            _ => Seq::empty(),
        }
    } else {
        match w.checkpoint_ref {
            Some(commit) => seq![
                StepView::Unprotect { which: PendingRef::Checkpoint, commit },
            ],
            None => Seq::empty(),
        }
    }
}

/// A checkpoint that is interrupted after any of its steps is recovered to
/// exactly the world before it, or to exactly the world after it, depending on
/// whether its journal was written.
pub proof fn law_interrupted_checkpoint_is_recovered(
    w: World,
    journaled: Capsule,
    done: Capsule,
    at: u64,
    n: int,
)
    requires
        w.manifest.state is Active,
        w.workspace,
        w.checkpoint_ref is None,
        journaled.state is Checkpointing,
        checkpoint::is_completed(done, journaled),
        w.branch == Some(journaled.checkpoint->0.head_before@),
        journaled.checkpoint->0.head_before@ != journaled.checkpoint->0.head_after@,
        0 <= n <= checkpoint_run(journaled, done, at).len(),
    ensures
        ({
            let run = checkpoint_run(journaled, done, at);
            let found = after(w, run.take(n));
            let steps = checkpoint_recovery(found, done, at);
            &&& admitted(w, run)
            &&& admitted(found, steps)
            &&& after(found, steps) == if n < 2 {
                w
            } else {
                World {
                    manifest: checkpoint::touched(done, at),
                    branch: Some(journaled.checkpoint->0.head_after@),
                    ..w
                }
            }
        }),
{
    let j = journaled.checkpoint->0;
    let protect = StepView::Protect { which: PendingRef::Checkpoint, commit: j.head_after@ };
    let journal = StepView::Write(journaled);
    let advance = StepView::AdvanceBranch { commit: j.head_after@, previous: j.head_before@ };
    let reset = StepView::ResetIndex(j.head_after@);
    let unprotect = StepView::Unprotect { which: PendingRef::Checkpoint, commit: j.head_after@ };
    let last = StepView::Write(checkpoint::touched(done, at));
    let run = checkpoint_run(journaled, done, at);
    assert(run =~= seq![protect, journal, advance, unprotect, last]);
    let none = Seq::<StepView>::empty();
    assert(run.take(0) =~= none);
    assert(run.take(1) =~= run.take(0).push(protect));
    assert(run.take(2) =~= run.take(1).push(journal));
    assert(run.take(3) =~= run.take(2).push(advance));
    assert(run.take(4) =~= run.take(3).push(unprotect));
    assert(run.take(5) =~= run.take(4).push(last));
    assert(run.take(5) =~= run);
    lemma_push(w, run.take(0), protect);
    lemma_push(w, run.take(1), journal);
    lemma_push(w, run.take(2), advance);
    lemma_push(w, run.take(3), unprotect);
    lemma_push(w, run.take(4), last);
    let found = after(w, run.take(n));
    let steps = checkpoint_recovery(found, done, at);
    if n == 0 {
        assert(steps =~= none);
    } else if n == 1 {
        lemma_one(found, unprotect);
    } else if n == 2 {
        assert(steps =~= none.push(advance).push(unprotect).push(last));
        lemma_push(found, none, advance);
        lemma_push(found, none.push(advance), unprotect);
        lemma_push(found, none.push(advance).push(unprotect), last);
    } else if n == 3 {
        assert(steps =~= none.push(reset).push(unprotect).push(last));
        lemma_push(found, none, reset);
        lemma_push(found, none.push(reset), unprotect);
        lemma_push(found, none.push(reset).push(unprotect), last);
    } else if n == 4 {
        assert(steps =~= none.push(reset).push(last));
        lemma_push(found, none, reset);
        lemma_push(found, none.push(reset), last);
    } else {
        assert(steps =~= none);
    }
}

/// The steps of an integration from its journal to its completed manifest.
pub open spec fn integration_run(c: Capsule, proposed: String, prepared_at: u64, at: u64) -> Seq<
    StepView,
> {
    seq![StepView::Write(c)] + protect_steps(c, proposed, prepared_at) + advance_steps(
        with_prepared(c, proposed, prepared_at),
        at,
    )
}

/// Whether what recovery read of an integration is what there is, with the
/// sealed artifacts intact and the target otherwise untouched.
pub open spec fn integration_seen(w: World, o: IntegratingObservation) -> bool {
    let c = w.manifest;
    let i = c.integration->0;
    &&& recover::target_holds(c, i, o.target) == Ok::<bool, ErrorView>(true)
    &&& o.head matches Ok(head) && head@ == w.target
    &&& o.pending_head matches Ok(pending) && text::opt_view(pending) == w.integration_ref
    &&& artifacts::sealed_check(c, o.stored, o.patch) is Ok
    &&& artifacts::intact_check(c, o.stored, o.patch) is Ok
    &&& text::opt_view(i.target_head_after) == Some(w.target) ==> recover::integration_matches_of(
        i,
        o.stored->Ok_0.result@,
        o.patch->Ok_0@,
        w.target,
        o.parents,
        o.change,
    ) == Ok::<bool, ErrorView>(true)
}

/// The steps with which recovery continues an integration, given what it
/// decided on.
pub open spec fn integration_recovery(w: World, decided: IntegratingView, at: u64) -> Seq<StepView> {
    let closed = Capsule { state: CapsuleState::Closed, integration: None, ..w.manifest };
    let complete = Capsule {
        state: CapsuleState::Integrated,
        integration: Some(
            Integration { integrated_at_unix: Some(at), ..w.manifest.integration->0 },
        ),
        ..w.manifest
    };
    match decided {
        IntegratingView::Unprepared(commit) => unprotected(commit).push(StepView::Write(closed)),
        IntegratingView::Restore(commit) => unprotected(commit).push(StepView::Write(closed)),
        IntegratingView::Complete(commit) => unprotected(commit).push(StepView::Write(complete)),
        _ => Seq::empty(),
    }
}

/// The step that deletes the ref of an integration, where it is to be deleted.
pub open spec fn unprotected(commit: Option<Seq<char>>) -> Seq<StepView> {
    match commit {
        Some(commit) => seq![StepView::Unprotect { which: PendingRef::Integration, commit }],
        None => Seq::empty(),
    }
}

/// An integration that is interrupted after any of its steps is recovered
/// either to a closed capsule whose target was never touched, or to an
/// integrated one whose target is at the prepared commit; no protecting ref is
/// left in either case.
pub proof fn law_interrupted_integration_is_recovered(
    w: World,
    c: Capsule,
    proposed: String,
    prepared_at: u64,
    at: u64,
    n: int,
    o: IntegratingObservation,
)
    requires
        c.state is Integrating,
        c.integration is Some,
        c.integration->0.target_head_after is None,
        w.target == c.integration->0.target_head_before@,
        w.integration_ref is None,
        0 < n < integration_run(c, proposed, prepared_at, at).len(),
        integration_seen(after(w, integration_run(c, proposed, prepared_at, at).take(n)), o),
    ensures
        ({
            let run = integration_run(c, proposed, prepared_at, at);
            let found = after(w, run.take(n));
            let steps = integration_recovery(
                found,
                recover::integrating_of(found.manifest, o),
                at,
            );
            let end = after(found, steps);
            &&& admitted(w, run)
            &&& admitted(found, steps)
            &&& end.integration_ref is None
            &&& end == (World {
                manifest: end.manifest,
                target: end.target,
                integration_ref: None,
                ..w
            })
            &&& end.manifest.state is Closed && end.manifest.integration is None && end.target
                == w.target || end.manifest.state is Integrated && end.target == proposed@
        }),
{
    let prepared = with_prepared(c, proposed, prepared_at);
    let begin = StepView::Write(c);
    let protect = StepView::Protect { which: PendingRef::Integration, commit: proposed@ };
    let note = StepView::Write(prepared);
    let advance = StepView::FastForward(proposed@);
    let unprotect = StepView::Unprotect { which: PendingRef::Integration, commit: proposed@ };
    let last = StepView::Write(integrate::integrated(prepared, at));
    let run = integration_run(c, proposed, prepared_at, at);
    let none = Seq::<StepView>::empty();
    let found = after(w, run.take(n));
    let decided = recover::integrating_of(found.manifest, o);
    let steps = integration_recovery(found, decided, at);
    assert(run.take(0) =~= none);
    assert(run.take(1) =~= run.take(0).push(begin));
    lemma_push(w, run.take(0), begin);
    assert(run.take(run.len() as int) =~= run);
    if proposed@ != c.integration->0.target_head_before@ {
        assert(run =~= seq![begin, protect, note, advance, unprotect, last]);
        assert(run.take(2) =~= run.take(1).push(protect));
        assert(run.take(3) =~= run.take(2).push(note));
        assert(run.take(4) =~= run.take(3).push(advance));
        assert(run.take(5) =~= run.take(4).push(unprotect));
        assert(run.take(6) =~= run.take(5).push(last));
        lemma_push(w, run.take(1), protect);
        lemma_push(w, run.take(2), note);
        lemma_push(w, run.take(3), advance);
        lemma_push(w, run.take(4), unprotect);
        lemma_push(w, run.take(5), last);
    } else {
        assert(run =~= seq![begin, note, last]);
        assert(run.take(2) =~= run.take(1).push(note));
        assert(run.take(3) =~= run.take(2).push(last));
        lemma_push(w, run.take(1), note);
        lemma_push(w, run.take(2), last);
    }
    let write = steps.last();
    assert(steps.len() > 0);
    if steps.len() == 1 {
        assert(steps =~= none.push(write));
        lemma_push(found, none, write);
    } else {
        assert(steps =~= none.push(unprotect).push(write));
        lemma_push(found, none, unprotect);
        lemma_push(found, none.push(unprotect), write);
    }
}

/// Whether what a cleanup read is what there is, with the workspace the
/// capsule's own as long as it exists.
pub open spec fn cleanup_seen(w: World, o: CleanupObservation) -> bool {
    let c = w.manifest;
    let expected = text::opt_view(c.cleanup->0.branch_head);
    &&& o.execution_root is Ok
    &&& o.workspace_exists == w.workspace
    &&& w.workspace ==> {
        &&& worktree::ownership_check(c, o.inspection) is Ok
        &&& o.head matches Ok(head) && w.branch == Some(head@)
        &&& c.cleanup->0.require_sealed ==> query::sealed_state_check(c, o.seal) is Ok
    }
    &&& !w.workspace ==> match o.registered {
        Ok(Some(found)) => w.registered && worktree::registration_check(c, found@, expected) is Ok,
        Ok(None) => !w.registered,
        Err(_) => false,
    }
}

/// A cleanup that is interrupted after any of its steps can be finished, and
/// finishing it leaves neither the worktree, nor its registration, nor the
/// branch, nor a protecting ref.
pub proof fn law_interrupted_cleanup_is_finished(
    w: World,
    removal: Removal,
    n: int,
    o: CleanupObservation,
)
    requires
        w.manifest.cleanup is Some,
        w.branch == text::opt_view(w.manifest.cleanup->0.branch_head),
        w.workspace ==> w.registered && w.branch is Some,
        removal == if w.workspace {
            Removal::RemoveWorktree
        } else if w.registered {
            Removal::Prune
        } else {
            Removal::Nothing
        },
        0 <= n <= cleanup_steps(w.manifest, removal).len(),
        cleanup_seen(after(w, cleanup_steps(w.manifest, removal).take(n)), o),
    ensures
        ({
            let run = cleanup_steps(w.manifest, removal);
            let found = after(w, run.take(n));
            &&& admitted(w, run)
            &&& cleanup::removal_of(w.manifest, o) matches Ok(rest) && {
                let steps = cleanup_steps(w.manifest, rest);
                &&& admitted(found, steps)
                &&& after(found, steps) == (World {
                    workspace: false,
                    registered: false,
                    branch: None,
                    checkpoint_ref: None,
                    integration_ref: None,
                    ..w
                })
            }
        }),
{
    let run = cleanup_steps(w.manifest, removal);
    let found = after(w, run.take(n));
    lemma_cleanup_prefix(w, removal, n);
    lemma_cleanup_run(w, removal);
    let rest = if found.workspace {
        Removal::RemoveWorktree
    } else if found.registered {
        Removal::Prune
    } else {
        Removal::Nothing
    };
    assert(cleanup::removal_of(w.manifest, o) == Ok::<Removal, ErrorView>(rest));
    lemma_cleanup_run(found, rest);
}

/// A cleanup as far as it got leaves a place from which it can be begun again.
proof fn lemma_cleanup_prefix(w: World, removal: Removal, n: int)
    requires
        w.manifest.cleanup is Some,
        w.branch == text::opt_view(w.manifest.cleanup->0.branch_head),
        w.workspace ==> w.registered && w.branch is Some,
        removal == if w.workspace {
            Removal::RemoveWorktree
        } else if w.registered {
            Removal::Prune
        } else {
            Removal::Nothing
        },
        0 <= n <= cleanup_steps(w.manifest, removal).len(),
    ensures
        ({
            let found = after(w, cleanup_steps(w.manifest, removal).take(n));
            &&& found.manifest == w.manifest
            &&& found.target == w.target
            &&& found.workspace ==> found == w
            &&& n > 0 ==> !found.workspace && !found.registered || removal is Nothing
            &&& found.registered ==> found == w
            &&& found.branch is None || found.branch == w.branch
        }),
    decreases n,
{
    let run = cleanup_steps(w.manifest, removal);
    if n == 0 {
        assert(run.take(0) =~= Seq::<StepView>::empty());
    } else {
        lemma_cleanup_prefix(w, removal, n - 1);
        assert(run.take(n) =~= run.take(n - 1).push(run[n - 1]));
        lemma_push(w, run.take(n - 1), run[n - 1]);
        if removal is Prune && n == 2 {
            assert(run.take(1) =~= Seq::<StepView>::empty().push(run[0]));
        }
    }
}

/// A cleanup from a place where it can be begun.
proof fn lemma_cleanup_run(w: World, removal: Removal)
    requires
        w.manifest.cleanup is Some,
        w.branch is None || w.branch == text::opt_view(w.manifest.cleanup->0.branch_head),
        w.workspace ==> w.registered,
        removal == if w.workspace {
            Removal::RemoveWorktree
        } else if w.registered {
            Removal::Prune
        } else {
            Removal::Nothing
        },
    ensures
        admitted(w, cleanup_steps(w.manifest, removal)),
        after(w, cleanup_steps(w.manifest, removal)) == (World {
            workspace: false,
            registered: false,
            branch: None,
            checkpoint_ref: None,
            integration_ref: None,
            ..w
        }),
{
    let none = Seq::<StepView>::empty();
    let first = match removal {
        Removal::RemoveWorktree => seq![StepView::RemoveWorktree],
        Removal::Prune => seq![StepView::Prune, StepView::RequireUnregistered],
        Removal::Nothing => none,
    };
    let run = cleanup_steps(w.manifest, removal);
    let rest = run.skip(first.len() as int);
    assert(run =~= first + rest);
    lemma_append(w, first, rest);
    if removal is RemoveWorktree {
        lemma_one(w, StepView::RemoveWorktree);
    } else if removal is Prune {
        assert(first =~= none.push(StepView::Prune).push(StepView::RequireUnregistered));
        lemma_push(w, none, StepView::Prune);
        lemma_push(w, none.push(StepView::Prune), StepView::RequireUnregistered);
    }
    let at = after(w, first);
    assert(at == (World { workspace: false, registered: false, ..w }));
    let branch = rest[0];
    let prune = StepView::Prune;
    let one = StepView::Clear(PendingRef::Checkpoint);
    let two = StepView::Clear(PendingRef::Integration);
    assert(rest =~= none.push(branch).push(prune).push(one).push(two));
    lemma_push(at, none, branch);
    lemma_push(at, none.push(branch), prune);
    lemma_push(at, none.push(branch).push(prune), one);
    lemma_push(at, none.push(branch).push(prune).push(one), two);
}

/// Whether what a creation read is what there is: the source repository is
/// the recorded one, and a workspace that exists is the capsule's own, checked
/// out or not, at the base commit.
pub open spec fn creation_seen(w: World, o: CreatingObservation) -> bool {
    let c = w.manifest;
    &&& o.source matches Ok(source) && paths::same(source.common_dir@, c.repository_common_dir@)
    &&& o.workspace_entry matches Ok(there) && there == w.workspace
    &&& o.branch_head matches Ok(head) && text::opt_view(head) == w.branch
    &&& w.workspace ==> {
        &&& worktree::ownership_check(
            create::with_found_git_dir(c, o.found_git_dir),
            o.inspection,
        ) is Ok
        &&& o.head matches Ok(head) && w.branch == Some(head@)
        &&& o.clean matches Ok(clean) && (clean || (o.unchecked_shape matches Ok(shape) && shape))
    }
    &&& !w.workspace ==> (o.listed matches Ok(listed) && worktree::already_registered(
        c,
        record::opt_view(o.canonical_workspace),
        record::opt_view(o.current_dir),
        listed@,
    ) == w.registered)
}

/// The steps with which a creation continues, given what was decided on.
pub open spec fn creation_continued(decided: CreatingView) -> Seq<StepView> {
    match decided {
        CreatingView::Add => seq![StepView::AddWorktree, StepView::CheckOut],
        CreatingView::Adopt => seq![StepView::CheckOut],
        _ => Seq::empty(),
    }
}

/// A creation that is interrupted after any of its steps is resumed, never
/// abandoned, and ends with the same worktree and branch at the base commit.
pub proof fn law_interrupted_creation_is_resumed(w: World, n: int, o: CreatingObservation)
    requires
        !w.workspace,
        !w.registered,
        w.branch is None,
        0 <= n <= creation_continued(CreatingView::Add).len(),
        creation_seen(after(w, creation_continued(CreatingView::Add).take(n)), o),
    ensures
        ({
            let run = creation_continued(CreatingView::Add);
            let found = after(w, run.take(n));
            let decided = create::creating_of(w.manifest, o);
            let steps = creation_continued(decided);
            &&& decided is Add <==> n == 0
            &&& decided is Adopt <==> n > 0
            &&& admitted(w, run)
            &&& admitted(found, steps)
            &&& after(found, steps) == (World {
                workspace: true,
                registered: true,
                branch: Some(w.manifest.base_commit@),
                ..w
            })
        }),
{
    let none = Seq::<StepView>::empty();
    let add = StepView::AddWorktree;
    let check_out = StepView::CheckOut;
    let run = creation_continued(CreatingView::Add);
    assert(run =~= none.push(add).push(check_out));
    assert(run.take(0) =~= none);
    assert(run.take(1) =~= none.push(add));
    assert(run.take(2) =~= run);
    lemma_push(w, none, add);
    lemma_push(w, none.push(add), check_out);
    let found = after(w, run.take(n));
    if n == 0 {
        assert(found == w);
    } else {
        lemma_one(found, check_out);
    }
}

/// Whether a row of steps leaves integration targets alone.
pub open spec fn keeps_targets(steps: Seq<StepView>) -> bool {
    forall|i: int| 0 <= i < steps.len() ==> !((#[trigger] steps[i]) is FastForward)
}

/// A row of steps that leaves targets alone moves none.
proof fn lemma_keeps_targets(w: World, steps: Seq<StepView>)
    requires
        keeps_targets(steps),
    ensures
        after(w, steps).target == w.target,
    decreases steps.len(),
{
    if steps.len() > 0 {
        assert forall|i: int| 0 <= i < steps.drop_last().len() implies !((
        #[trigger] steps.drop_last()[i]) is FastForward) by {
            assert(steps.drop_last()[i] == steps[i]);
        }
        lemma_keeps_targets(w, steps.drop_last());
    }
}

/// Nothing but an explicit integration moves another worktree: creating,
/// checkpointing, and dropping a capsule leave every target where it is, and so
/// does recovering them.
pub proof fn law_only_integration_moves_a_target(
    w: World,
    c: Capsule,
    done: Capsule,
    removal: Removal,
    outcome: CreatingOutcome,
    at: u64,
)
    ensures
        after(w, creation_steps(outcome)).target == w.target,
        after(w, checkpoint_run(c, done, at)).target == w.target,
        after(w, checkpoint_recovery(w, done, at)).target == w.target,
        after(w, cleanup_steps(c, removal)).target == w.target,
{
    lemma_keeps_targets(w, creation_steps(outcome));
    lemma_keeps_targets(w, checkpoint_run(c, done, at));
    lemma_keeps_targets(w, checkpoint_recovery(w, done, at));
    lemma_keeps_targets(w, cleanup_steps(c, removal));
}

/// A checkpoint commits the workspace's change and nothing else. The prepared
/// commit has the workspace's `HEAD` as its only parent, and makes exactly the
/// change that the workspace held. Once the checkpoint ran, the branch is at
/// that commit, no protecting ref is left, and the record is active again: it
/// has one more checkpoint, of that commit, with the message and author that
/// were given, and is otherwise what it was but for the time of the change. It
/// can be read back.
pub proof fn law_checkpoint_commits_the_change(
    root: Seq<u8>,
    id: Seq<char>,
    options: CheckpointOptions,
    shown: std::result::Result<Capsule, Error>,
    inspection: WorktreeInspection,
    request: CheckpointRequest,
    p: PreparedCheckpoint,
    plan: CheckpointPlan,
    done: Capsule,
    started_at: u64,
    at: u64,
    w: World,
)
    requires
        checkpoint::begin_check(
            root,
            id,
            options,
            shown,
            Ok(request.capsule),
            inspection,
            Ok(request.head_before),
            Ok(request.snapshot),
        ) is Ok,
        checkpoint::journal_check(request, p) is Ok,
        validate::is_object_id(p.commit->Ok_0@),
        checkpoint::is_plan(plan, request, options, p.commit->Ok_0@, started_at),
        checkpoint::is_completed(done, plan.capsule),
        w.manifest == request.capsule,
        w.workspace,
        w.checkpoint_ref is None,
        w.branch == Some(request.head_before@),
    ensures
        request.snapshot@.patch.len() > 0,
        git::texts(p.parents->Ok_0@) == seq![request.head_before@],
        p.prepared->Ok_0@ == request.snapshot@,
        ({
            let before = request.capsule;
            let commit = p.commit->Ok_0@;
            let run = checkpoint_run(plan.capsule, done, at);
            let next = checkpoint::touched(done, at);
            &&& admitted(w, run)
            &&& after(w, run) == World { manifest: next, branch: Some(commit), ..w }
            &&& next == Capsule { checkpoints: next.checkpoints, updated_at_unix: at, ..before }
            &&& next.state is Active
            &&& next.checkpoints@.len() == before.checkpoints@.len() + 1
            &&& next.checkpoints@.len() <= CHECKPOINT_COUNT_CAP
            &&& next.checkpoints@.drop_last() == before.checkpoints@
            &&& next.checkpoints@.last().commit@ == commit
            &&& next.checkpoints@.last().message == options.message
            &&& next.checkpoints@.last().author_name == options.author.name
            &&& next.checkpoints@.last().author_email == options.author.email
            &&& next.checkpoints@.last().created_at_unix == started_at
            &&& manager::show_check(root, id, Ok(next)) == Ok::<(), ErrorView>(())
        }),
{
    let before = request.capsule;
    let j = plan.capsule.checkpoint->0;
    let next = checkpoint::touched(done, at);
    assert(before.checkpoint is None);
    assert(next.checkpoints@.drop_last() =~= before.checkpoints@);
    assert forall|i: int| 0 <= i < next.checkpoints@.len() implies validate::is_object_id(
        (#[trigger] next.checkpoints@[i]).commit@,
    ) by {
        if i < before.checkpoints@.len() {
            assert(next.checkpoints@[i] == before.checkpoints@[i]);
        }
    }
    let protect = StepView::Protect { which: PendingRef::Checkpoint, commit: j.head_after@ };
    let journal = StepView::Write(plan.capsule);
    let advance = StepView::AdvanceBranch { commit: j.head_after@, previous: j.head_before@ };
    let unprotect = StepView::Unprotect { which: PendingRef::Checkpoint, commit: j.head_after@ };
    let last = StepView::Write(next);
    let run = checkpoint_run(plan.capsule, done, at);
    let none = Seq::<StepView>::empty();
    assert(run =~= none.push(protect).push(journal).push(advance).push(unprotect).push(last));
    lemma_push(w, none, protect);
    lemma_push(w, none.push(protect), journal);
    lemma_push(w, none.push(protect).push(journal), advance);
    lemma_push(w, none.push(protect).push(journal).push(advance), unprotect);
    lemma_push(w, none.push(protect).push(journal).push(advance).push(unprotect), last);
}

/// Whatever becomes of a capsule, it stays the one that its reservation is for:
/// each step of creating, checkpointing, closing, integrating, giving up an
/// integration, and dropping keeps everything that a reservation is compared
/// with.
pub proof fn law_transitions_keep_the_identity(
    c: Capsule,
    next: Capsule,
    git_dir: Option<NativePath>,
    state: CapsuleState,
    request: CheckpointRequest,
    options: CheckpointOptions,
    commit: Seq<char>,
    plan: CheckpointPlan,
    pending: PendingClose,
    encoded: Seq<u8>,
    integration: IntegrateOptions,
    target: Repository,
    head: Seq<char>,
    head_ref: Seq<char>,
    branch_head: Option<String>,
    require_sealed: bool,
    at: u64,
)
    ensures
        create::same_identity(c, create::with_found_git_dir(c, git_dir)),
        create::same_identity(c, create::moved(c, state, at)),
        checkpoint::is_plan(plan, request, options, commit, at) ==> create::same_identity(
            request.capsule,
            plan.capsule,
        ),
        checkpoint::is_completed(next, c) ==> create::same_identity(c, next),
        create::same_identity(c, checkpoint::touched(c, at)),
        close::is_sealed_from(next, pending, encoded) ==> create::same_identity(
            pending.capsule,
            next,
        ),
        integrate::is_started(next, c, integration, target, head, head_ref, at)
            ==> create::same_identity(c, next),
        create::same_identity(c, integrate::integrated(c, at)),
        create::same_identity(c, integrate::aborted(c, at)),
        create::same_identity(c, cleanup::dropping(c, branch_head, require_sealed, at)),
        create::same_identity(c, cleanup::dropped(c, at)),
{
}

} // verus!
