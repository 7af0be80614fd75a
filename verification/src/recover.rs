//! Conservative reconciliation of interrupted transitions.
//!
//! Recovery completes only transitions whose worktree identity, refs, commit
//! parents, patch digests, and journals all agree. Anything ambiguous is left
//! for explicit inspection.

use vstd::prelude::*;
use vstd::string::*;

use crate::artifacts::StoredResult;
use crate::checkpoint::{CheckpointFinish, FinishObservation};
use crate::create::{CreatingObservation, CreatingOutcome};
use crate::error::{Error, ErrorView};
use crate::git::{Repository, Snapshot};
use crate::manager::CapsuleManager;
use crate::model::{
    Capsule, CapsuleResult, CapsuleState, Integration, RecoveryAction, ResultKind, ResultView,
};
use crate::query::StoredEntry;
use crate::worktree::WorktreeInspection;
use crate::{
    artifacts, bytes, checkpoint, cleanup, create, git, order, paths, query, record, store, text, worktree,
};

verus! {

/// How recovering an active capsule goes on.
#[derive(Debug, PartialEq, Eq)]
pub enum ActiveRecovery {
    /// It is intact: nothing is to be done.
    Intact,
    /// A protecting ref was left behind: delete it, at this commit.
    DeleteRef(String),
    /// Its workspace is not its own: it is now orphaned.
    Orphaned(Capsule),
}

/// What recovering an active capsule gives.
pub open spec fn active_recovery_matches(
    r: std::result::Result<ActiveRecovery, Error>,
    c: Capsule,
    workspace_exists: bool,
    inspection: WorktreeInspection,
    pending_head: std::result::Result<Option<String>, Error>,
) -> bool {
    if workspace_exists && worktree::ownership_check(c, inspection) is Ok {
        match pending_head {
            Err(e) => r matches Err(found) && found@ == e@,
            Ok(None) => r == Ok::<ActiveRecovery, Error>(ActiveRecovery::Intact),
            Ok(Some(commit)) => r == Ok::<ActiveRecovery, Error>(
                ActiveRecovery::DeleteRef(commit),
            ),
        }
    } else {
        r == Ok::<ActiveRecovery, Error>(
            ActiveRecovery::Orphaned(Capsule { state: CapsuleState::Orphaned, ..c }),
        )
    }
}

/// What recovery says of a protecting ref that it removed.
pub fn removed_ref_action() -> (r: String)
    ensures
        r@ == "removed a prepared checkpoint ref left before its journal was written"@,
{
    "removed a prepared checkpoint ref left before its journal was written".to_owned()
}

/// What recovery says of an active capsule that it orphaned.
pub fn orphaned_action() -> (r: String)
    ensures
        r@
            == "marked an active capsule orphaned because its owned worktree is missing or foreign"@,
{
    "marked an active capsule orphaned because its owned worktree is missing or foreign".to_owned()
}

/// What recovery says of a checkpoint that it finished.
pub fn finished_checkpoint_action(commit: &str) -> (r: String)
    ensures
        r@ == "completed interrupted checkpoint "@ + commit@,
{
    text::cat2("completed interrupted checkpoint ", commit)
}

/// Everything that was read of the target of an interrupted integration.
///
/// What could not be read carries the error that prevented it.
#[derive(Debug, PartialEq, Eq)]
pub struct RecoveryTarget {
    /// Whether the target worktree exists.
    pub exists: bool,
    /// The repository there.
    pub repository: Result<Repository, Error>,
    /// Its symbolic `HEAD`.
    pub head_ref: Result<String, Error>,
    /// Whether sparse checkout is on.
    pub sparse: Result<bool, Error>,
    /// Whether the index hides entries.
    pub hidden: Result<bool, Error>,
    /// Whether it is clean.
    pub clean: Result<bool, Error>,
}

/// Whether the target of an interrupted integration is still what it was,
/// clean and complete; where that cannot be told for a reason other than its
/// absence, why.
pub open spec fn target_holds(capsule: Capsule, i: Integration, o: RecoveryTarget) -> std::result::Result<
    bool,
    ErrorView,
> {
    if !o.exists || o.repository is Err {
        Ok(false)
    } else if !paths::same(o.repository->Ok_0.common_dir@, capsule.repository_common_dir@)
        || !paths::same(o.repository->Ok_0.git_dir@, i.target_git_dir@) {
        Ok(false)
    } else if o.head_ref is Err {
        Err(o.head_ref->Err_0@)
    } else if o.head_ref->Ok_0@ != i.target_head_ref@ {
        Ok(false)
    } else if o.sparse is Err {
        Err(o.sparse->Err_0@)
    } else if o.sparse->Ok_0 {
        Ok(false)
    } else if o.hidden is Err {
        Err(o.hidden->Err_0@)
    } else if o.hidden->Ok_0 {
        Ok(false)
    } else if o.clean is Err {
        Err(o.clean->Err_0@)
    } else {
        Ok(o.clean->Ok_0)
    }
}

/// Test for [`target_holds`].
pub fn recovery_integration_target(
    capsule: &Capsule,
    integration: &Integration,
    observed: RecoveryTarget,
) -> (r: std::result::Result<bool, Error>)
    ensures
        match target_holds(*capsule, *integration, observed) {
            Ok(b) => r == Ok::<bool, Error>(b),
            Err(e) => r matches Err(found) && found@ == e,
        },
{
    if !observed.exists {
        return Ok(false);
    }
    match observed.repository {
        Err(_) => {
            return Ok(false);
        },
        Ok(target) => {
            if !target.common_dir.same_path(&capsule.repository_common_dir)
                || !target.git_dir.same_path(&integration.target_git_dir) {
                return Ok(false);
            }
        },
    }
    match observed.head_ref {
        Err(e) => {
            return Err(e);
        },
        Ok(head_ref) => {
            if !text::same_text(head_ref.as_str(), integration.target_head_ref.as_str()) {
                return Ok(false);
            }
        },
    }
    match observed.sparse {
        Err(e) => {
            return Err(e);
        },
        Ok(on) => {
            if on {
                return Ok(false);
            }
        },
    }
    match observed.hidden {
        Err(e) => {
            return Err(e);
        },
        Ok(on) => {
            if on {
                return Ok(false);
            }
        },
    }
    observed.clean
}

/// Whether a target's `HEAD` is exactly the sealed result on top of the
/// commit before it.
pub open spec fn integration_matches_of(
    i: Integration,
    r: ResultView,
    patch: Seq<u8>,
    head: Seq<char>,
    parents: std::result::Result<Vec<String>, Error>,
    change: std::result::Result<Snapshot, Error>,
) -> std::result::Result<bool, ErrorView> {
    if head == i.target_head_before@ {
        Ok(
            r.kind is NoChange && r.patch_bytes == 0 && r.changed_paths.len() == 0 && patch.len()
                == 0,
        )
    } else if parents is Err {
        Err(parents->Err_0@)
    } else if change is Err {
        Err(change->Err_0@)
    } else {
        Ok(
            git::texts(parents->Ok_0@) == seq![i.target_head_before@] && change->Ok_0@.patch
                == patch && change->Ok_0@.changed_paths == r.changed_paths,
        )
    }
}

/// Test for [`integration_matches_of`].
pub fn integration_matches_result(
    integration: &Integration,
    result: &CapsuleResult,
    stored_patch: &[u8],
    head: &str,
    parents: std::result::Result<Vec<String>, Error>,
    change: std::result::Result<Snapshot, Error>,
) -> (r: std::result::Result<bool, Error>)
    ensures
        match integration_matches_of(
            *integration,
            result@,
            stored_patch@,
            head@,
            parents,
            change,
        ) {
            Ok(b) => r == Ok::<bool, Error>(b),
            Err(e) => r matches Err(found) && found@ == e,
        },
{
    proof {
        assert(result@.changed_paths.len() == result.changed_paths@.len());
    }
    if text::same_text(head, integration.target_head_before.as_str()) {
        return Ok(
            result.kind == ResultKind::NoChange && result.patch_bytes == 0
                && result.changed_paths.len() == 0 && stored_patch.len() == 0,
        );
    }
    let parents = match parents {
        Err(e) => {
            return Err(e);
        },
        Ok(p) => p,
    };
    let change = match change {
        Err(e) => {
            return Err(e);
        },
        Ok(s) => s,
    };
    Ok(
        git::sole_parent(&parents, integration.target_head_before.as_str()) && bytes::same_bytes(
            change.patch.as_slice(),
            stored_patch,
        ) && record::same_rows(&change.changed_paths, &result.changed_paths),
    )
}

/// Everything that was read to recover an interrupted integration.
///
/// What could not be read carries the error that prevented it.
#[derive(Debug, PartialEq, Eq)]
pub struct IntegratingObservation {
    /// The target.
    pub target: RecoveryTarget,
    /// The target's `HEAD` commit.
    pub head: Result<String, Error>,
    /// Where the protecting ref points, if it exists.
    pub pending_head: Result<Option<String>, Error>,
    /// The stored result.
    pub stored: Result<StoredResult, Error>,
    /// The stored patch.
    pub patch: Result<Vec<u8>, Error>,
    /// The parents of the target's `HEAD`.
    pub parents: Result<Vec<String>, Error>,
    /// The change from the commit before to the target's `HEAD`.
    pub change: Result<Snapshot, Error>,
}

/// How recovering an interrupted integration goes on.
#[derive(Debug, PartialEq, Eq)]
pub struct IntegratingRecovery {
    /// The capsule in its new state.
    pub capsule: Capsule,
    /// What was done, in words.
    pub action: String,
    /// The commit at which the protecting ref is to be deleted, if it is.
    pub delete_ref: Option<String>,
}

/// How recovering an interrupted integration goes on.
pub enum IntegratingView {
    /// Nothing is certain: nothing is done.
    Leave,
    /// The journal is missing: the capsule is orphaned.
    Orphan,
    /// Nothing was journaled as prepared: back to closed, deleting the
    /// protecting ref at this commit if it is there.
    Unprepared(Option<Seq<char>>),
    /// The target is at the prepared commit: the integration is complete.
    Complete(Option<Seq<char>>),
    /// The target was not advanced: back to closed.
    Restore(Option<Seq<char>>),
    /// What was read does not allow a decision.
    Fail(ErrorView),
}

/// The prepared commit of an integration, where it differs from the commit
/// before.
pub open spec fn pending_of(i: Integration) -> Option<Seq<char>> {
    match i.target_head_after {
        Some(h) => if h@ != i.target_head_before@ {
            Some(h@)
        } else {
            None
        },
        None => None,
    }
}

/// How recovering an integration with a prepared commit goes on.
pub open spec fn prepared_recovery_of(c: Capsule, i: Integration, o: IntegratingObservation) -> IntegratingView {
    let head = o.head->Ok_0@;
    let pending = pending_of(i);
    let pending_head = text::opt_view(o.pending_head->Ok_0);
    if artifacts::sealed_check(c, o.stored, o.patch) is Err {
        IntegratingView::Fail(artifacts::sealed_check(c, o.stored, o.patch)->Err_0)
    } else if artifacts::intact_check(c, o.stored, o.patch) is Err {
        IntegratingView::Leave
    } else if pending is Some && pending_head is Some && pending_head != pending {
        IntegratingView::Fail(
            ErrorView::UnsafeState("integration pending ref points to an unexpected commit"@),
        )
    } else if i.target_head_after->0@ == head {
        match integration_matches_of(
            i,
            o.stored->Ok_0.result@,
            o.patch->Ok_0@,
            head,
            o.parents,
            o.change,
        ) {
            Err(e) => IntegratingView::Fail(e),
            Ok(false) => IntegratingView::Leave,
            Ok(true) => IntegratingView::Complete(pending),
        }
    } else if head == i.target_head_before@ {
        if pending is Some && pending_head != pending {
            IntegratingView::Leave
        } else {
            IntegratingView::Restore(pending)
        }
    } else {
        IntegratingView::Leave
    }
}

/// How recovering an interrupted integration goes on.
pub open spec fn integrating_of(c: Capsule, o: IntegratingObservation) -> IntegratingView {
    match c.integration {
        None => IntegratingView::Orphan,
        Some(i) => match target_holds(c, i, o.target) {
            Err(e) => IntegratingView::Fail(e),
            Ok(false) => IntegratingView::Leave,
            Ok(true) => if o.head is Err {
                IntegratingView::Fail(o.head->Err_0@)
            } else if o.pending_head is Err {
                IntegratingView::Fail(o.pending_head->Err_0@)
            } else if i.target_head_after is None {
                if o.head->Ok_0@ != i.target_head_before@ {
                    IntegratingView::Leave
                } else {
                    IntegratingView::Unprepared(text::opt_view(o.pending_head->Ok_0))
                }
            } else {
                prepared_recovery_of(c, i, o)
            },
        },
    }
}

/// What recovering an interrupted integration gives.
pub open spec fn integrating_matches(
    r: std::result::Result<Option<IntegratingRecovery>, Error>,
    c: Capsule,
    o: IntegratingObservation,
    at: u64,
) -> bool {
    let restored = Capsule { state: CapsuleState::Closed, integration: None, ..c };
    match integrating_of(c, o) {
        IntegratingView::Fail(e) => r matches Err(found) && found@ == e,
        IntegratingView::Leave => r == Ok::<Option<IntegratingRecovery>, Error>(None),
        IntegratingView::Orphan => r matches Ok(Some(done)) && done.capsule == (Capsule {
            state: CapsuleState::Orphaned,
            ..c
        }) && done.delete_ref is None && done.action@
            == "marked an integration orphaned because its journal record is missing"@,
        IntegratingView::Unprepared(commit) => r matches Ok(Some(done)) && done.capsule == restored
            && text::opt_view(done.delete_ref) == commit && done.action@
            == "removed a prepared integration ref left before its journal update"@,
        IntegratingView::Complete(commit) => r matches Ok(Some(done)) && done.capsule == (Capsule {
            state: CapsuleState::Integrated,
            integration: Some(
                Integration { integrated_at_unix: Some(at), ..c.integration->0 },
            ),
            ..c
        }) && text::opt_view(done.delete_ref) == commit && done.action@
            == "finalized an integration whose exact Git commit completed before the journal update"@,
        IntegratingView::Restore(commit) => r matches Ok(Some(done)) && done.capsule == restored
            && text::opt_view(done.delete_ref) == commit && done.action@
            == "restored a pre-side-effect interrupted integration to closed"@,
    }
}

pub(crate) fn pending_commit(i: &Integration) -> (r: Option<String>)
    ensures
        text::opt_view(r) == pending_of(*i),
{
    match &i.target_head_after {
        Some(h) => if text::same_text(h.as_str(), i.target_head_before.as_str()) {
            None
        } else {
            Some(h.clone())
        },
        None => None,
    }
}

fn restored_to_closed(capsule: Capsule) -> (r: Capsule)
    ensures
        r == (Capsule { state: CapsuleState::Closed, integration: None, ..capsule }),
{
    let mut c = capsule;
    c.state = CapsuleState::Closed;
    c.integration = None;
    c
}

/// A recovered capsule and the action that describes it.
pub fn recovered(capsule: Capsule, previous: CapsuleState, action: String, at: u64) -> (r: (
    Capsule,
    RecoveryAction,
))
    ensures
        r.0 == checkpoint::touched(capsule, at),
        r.1.capsule_id == capsule.id,
        r.1.previous_state == previous,
        r.1.state == capsule.state,
        r.1.action == action,
{
    let done = RecoveryAction {
        capsule_id: capsule.id.clone(),
        previous_state: previous,
        state: capsule.state,
        action,
    };
    (checkpoint::touch(capsule, at), done)
}

/// Which transition a capsule is recovered from.
#[derive(Debug, Clone, Copy, PartialEq, Eq, Structural)]
pub enum RecoveryPath {
    /// Complete its creation.
    Creating,
    /// Finish its checkpoint.
    Checkpointing,
    /// Make sure that its workspace is its own.
    Active,
    /// Finish or undo its integration.
    Integrating,
    /// Finish its cleanup.
    Dropping,
    /// There is nothing to recover.
    Settled,
}

/// Which transition a state is recovered from.
pub open spec fn path_of(state: CapsuleState) -> RecoveryPath {
    match state {
        CapsuleState::Creating => RecoveryPath::Creating,
        CapsuleState::Checkpointing => RecoveryPath::Checkpointing,
        CapsuleState::Active => RecoveryPath::Active,
        CapsuleState::Integrating => RecoveryPath::Integrating,
        CapsuleState::Dropping => RecoveryPath::Dropping,
        CapsuleState::Closed | CapsuleState::Integrated | CapsuleState::Orphaned
        | CapsuleState::Dropped => RecoveryPath::Settled,
    }
}

/// One capsule that a recovery sweep visits.
#[derive(Debug, PartialEq, Eq)]
pub struct RecoveryVisit {
    /// The capsule.
    pub id: String,
    /// The project whose lock its recovery holds.
    pub project_key: String,
}

/// Whether a sweep visits each of `capsules` once, in their order.
pub open spec fn visits(sweep: Seq<RecoveryVisit>, capsules: Seq<Capsule>) -> bool {
    &&& sweep.len() == capsules.len()
    &&& forall|i: int|
        0 <= i < sweep.len() ==> (#[trigger] sweep[i]).id == capsules[i].id && sweep[i].project_key
            == capsules[i].project_key
}

impl CapsuleManager {
    /// The capsules that a recovery sweep visits, given every stored entry:
    /// all of them, in the order of their listing.
    pub fn recover(&self, entries: Vec<StoredEntry>) -> (r: std::result::Result<
        Vec<RecoveryVisit>,
        Error,
    >)
        ensures
            match query::capsules_of(self.store.root@, entries@) {
                Err(e) => r matches Err(found) && found@ == e,
                Ok(all) => r matches Ok(sweep) && visits(sweep@, order::sorted(all)),
            },
    {
        let capsules = match self.list_capsules(entries) {
            Err(e) => {
                return Err(e);
            },
            Ok(capsules) => capsules,
        };
        let mut sweep: Vec<RecoveryVisit> = Vec::new();
        let mut i: usize = 0;
        while i < capsules.len()
            invariant
                i <= capsules@.len(),
                visits(sweep@, capsules@.take(i as int)),
            decreases capsules.len() - i,
        {
            sweep.push(
                RecoveryVisit {
                    id: capsules[i].id.clone(),
                    project_key: capsules[i].project_key.clone(),
                },
            );
            i += 1;
        }
        proof {
            assert(capsules@.take(capsules@.len() as int) =~= capsules@);
        }
        Ok(sweep)
    }

    /// Recover an interrupted creation. The identity already exists, so a Git
    /// state that proves nothing orphans it instead of failing.
    pub fn recover_creating(&self, capsule: Capsule, observed: CreatingObservation, at: u64) -> (r:
        std::result::Result<CreatingOutcome, Error>)
        ensures
            create::creating_outcome_matches(r, capsule, observed, true, at),
    {
        self.complete_creating(capsule, observed, true, at)
    }

    /// Reread a capsule under its locks and tell which transition it is to be
    /// recovered from.
    pub fn recover_capsule(
        &self,
        id: &str,
        listed: std::result::Result<Capsule, Error>,
        stored: std::result::Result<Capsule, Error>,
    ) -> (r: std::result::Result<(Capsule, RecoveryPath), Error>)
        ensures
            match store::read_check(self.store.root@, id@, listed) {
                Err(e) => r matches Err(found) && found@ == e,
                Ok(_) => match store::read_check(self.store.root@, id@, stored) {
                    Err(e) => r matches Err(found) && found@ == e,
                    Ok(_) => r == Ok::<(Capsule, RecoveryPath), Error>(
                        (stored->Ok_0, path_of(stored->Ok_0.state)),
                    ),
                },
            },
    {
        match self.store.read_capsule(id, listed) {
            Err(e) => {
                return Err(e);
            },
            Ok(_) => {},
        }
        let capsule = match self.store.read_capsule(id, stored) {
            Err(e) => {
                return Err(e);
            },
            Ok(c) => c,
        };
        let path = match capsule.state {
            CapsuleState::Creating => RecoveryPath::Creating,
            CapsuleState::Checkpointing => RecoveryPath::Checkpointing,
            CapsuleState::Active => RecoveryPath::Active,
            CapsuleState::Integrating => RecoveryPath::Integrating,
            CapsuleState::Dropping => RecoveryPath::Dropping,
            CapsuleState::Closed | CapsuleState::Integrated | CapsuleState::Orphaned
            | CapsuleState::Dropped => RecoveryPath::Settled,
        };
        Ok((capsule, path))
    }

    /// Finish an interrupted checkpoint; see
    /// [`CapsuleManager::finish_checkpoint`].
    pub fn recover_checkpointing(&self, capsule: Capsule, observed: FinishObservation) -> (r:
        std::result::Result<Option<CheckpointFinish>, Error>)
        ensures
            checkpoint::finish_matches(r, capsule, observed),
    {
        self.finish_checkpoint(capsule, observed)
    }

    /// Recover an active capsule: a workspace that is missing or foreign
    /// orphans it.
    pub fn recover_active(
        &self,
        capsule: Capsule,
        workspace_exists: bool,
        inspection: &WorktreeInspection,
        pending_head: std::result::Result<Option<String>, Error>,
    ) -> (r: std::result::Result<ActiveRecovery, Error>)
        ensures
            active_recovery_matches(r, capsule, workspace_exists, *inspection, pending_head),
    {
        if workspace_exists && worktree::validate_owned_worktree(&capsule, inspection).is_ok() {
            return match pending_head {
                Err(e) => Err(e),
                Ok(None) => Ok(ActiveRecovery::Intact),
                Ok(Some(commit)) => Ok(ActiveRecovery::DeleteRef(commit)),
            };
        }
        let mut c = capsule;
        c.state = CapsuleState::Orphaned;
        Ok(ActiveRecovery::Orphaned(c))
    }

    /// Recover an interrupted integration; see [`integrating_of`].
    pub fn recover_integrating(
        &self,
        capsule: Capsule,
        observed: IntegratingObservation,
        at: u64,
    ) -> (r: std::result::Result<Option<IntegratingRecovery>, Error>)
        ensures
            integrating_matches(r, capsule, observed, at),
    {
        let integration = match &capsule.integration {
            None => {
                let mut c = capsule;
                c.state = CapsuleState::Orphaned;
                return Ok(
                    Some(
                        IntegratingRecovery {
                            capsule: c,
                            action: "marked an integration orphaned because its journal record is missing".to_owned(),
                            delete_ref: None,
                        },
                    ),
                );
            },
            Some(i) => i,
        };
        match recovery_integration_target(&capsule, integration, observed.target) {
            Err(e) => {
                return Err(e);
            },
            Ok(holds) => {
                if !holds {
                    return Ok(None);
                }
            },
        }
        let head = match observed.head {
            Err(e) => {
                return Err(e);
            },
            Ok(h) => h,
        };
        let pending_head = match observed.pending_head {
            Err(e) => {
                return Err(e);
            },
            Ok(p) => p,
        };
        let at_before = text::same_text(head.as_str(), integration.target_head_before.as_str());
        let at_after = match &integration.target_head_after {
            None => {
                if !at_before {
                    return Ok(None);
                }
                return Ok(
                    Some(
                        IntegratingRecovery {
                            capsule: restored_to_closed(capsule),
                            action: "removed a prepared integration ref left before its journal update".to_owned(),
                            delete_ref: pending_head,
                        },
                    ),
                );
            },
            Some(after) => text::same_text(after.as_str(), head.as_str()),
        };
        let sealed = match self.sealed_artifacts(&capsule, observed.stored, observed.patch) {
            Err(e) => {
                return Err(e);
            },
            Ok(sealed) => sealed,
        };
        if !sealed.matches_seal {
            return Ok(None);
        }
        let pending = pending_commit(integration);
        if pending.is_some() && pending_head.is_some() && !text::same_opt_text(
            &pending_head,
            &pending,
        ) {
            return Err(
                Error::UnsafeState(
                    "integration pending ref points to an unexpected commit".to_owned(),
                ),
            );
        }
        if at_after {
            match integration_matches_result(
                integration,
                &sealed.result,
                sealed.patch.as_slice(),
                head.as_str(),
                observed.parents,
                observed.change,
            ) {
                Err(e) => {
                    return Err(e);
                },
                Ok(holds) => {
                    if !holds {
                        return Ok(None);
                    }
                },
            }
            let mut c = capsule;
            match c.integration {
                None => {},
                Some(i) => {
                    let mut completed = i;
                    completed.integrated_at_unix = Some(at);
                    c.integration = Some(completed);
                },
            }
            c.state = CapsuleState::Integrated;
            return Ok(
                Some(
                    IntegratingRecovery {
                        capsule: c,
                        action: "finalized an integration whose exact Git commit completed before the journal update".to_owned(),
                        delete_ref: pending,
                    },
                ),
            );
        }
        if at_before {
            if pending.is_some() && !text::same_opt_text(&pending_head, &pending) {
                return Ok(None);
            }
            return Ok(
                Some(
                    IntegratingRecovery {
                        capsule: restored_to_closed(capsule),
                        action: "restored a pre-side-effect interrupted integration to closed".to_owned(),
                        delete_ref: pending,
                    },
                ),
            );
        }
        Ok(None)
    }
}

/// Recovery keeps the record consistent, whatever it finds.
pub proof fn law_recovered_integrations_are_consistent(
    c: Capsule,
    o: IntegratingObservation,
    at: u64,
    done: IntegratingRecovery,
)
    requires
        store::journals_consistent(c),
        c.state is Integrating,
        integrating_matches(Ok::<Option<IntegratingRecovery>, Error>(Some(done)), c, o, at),
    ensures
        store::journals_consistent(done.capsule),
        done.capsule.state is Closed || done.capsule.state is Integrated,
{
}

/// Recovery finalizes an integration only for the exact sealed change: the
/// target's `HEAD` is the journaled commit, and either nothing changed or the
/// commit has the journaled parent and makes the sealed change.
pub proof fn law_finalized_integrations_are_exact(c: Capsule, o: IntegratingObservation)
    requires
        integrating_of(c, o) is Complete,
    ensures
        c.integration->0.target_head_after->0@ == o.head->Ok_0@,
        artifacts::intact_check(c, o.stored, o.patch) is Ok,
        o.head->Ok_0@ != c.integration->0.target_head_before@ ==> {
            &&& git::texts(o.parents->Ok_0@) == seq![c.integration->0.target_head_before@]
            &&& o.change->Ok_0@.patch == o.patch->Ok_0@
            &&& o.change->Ok_0@.changed_paths == o.stored->Ok_0.result@.changed_paths
        },
{
}

/// Recovery leaves the settled states alone, and whatever it completes is
/// settled or active, so that recovering again finds nothing interrupted.
pub proof fn law_recovery_settles(
    c: Capsule,
    created: create::CreatingOutcome,
    creating: create::CreatingObservation,
    finished: CheckpointFinish,
    finishing: FinishObservation,
    done: IntegratingRecovery,
    integrating: IntegratingObservation,
    at: u64,
)
    ensures
        path_of(c.state) is Settled <==> (c.state is Closed || c.state is Integrated
            || c.state is Orphaned || c.state is Dropped),
        create::creating_outcome_matches(
            Ok::<create::CreatingOutcome, Error>(created),
            c,
            creating,
            true,
            at,
        ) ==> (created matches CreatingOutcome::Done { capsule, .. } ==> capsule.state is Active
            || capsule.state is Orphaned),
        checkpoint::finish_matches(
            Ok::<Option<CheckpointFinish>, Error>(Some(finished)),
            c,
            finishing,
        ) ==> (finished.outcome matches Ok(kept) ==> kept.0.state is Active),
        integrating_matches(
            Ok::<Option<IntegratingRecovery>, Error>(Some(done)),
            c,
            integrating,
            at,
        ) ==> path_of(done.capsule.state) is Settled,
        path_of(cleanup::dropped(c, at).state) is Settled,
{
}

/// An intact active capsule is left alone.
pub proof fn law_intact_capsules_are_left_alone(
    c: Capsule,
    inspection: WorktreeInspection,
    r: std::result::Result<ActiveRecovery, Error>,
)
    requires
        worktree::ownership_check(c, inspection) is Ok,
        active_recovery_matches(r, c, true, inspection, Ok(None)),
    ensures
        r == Ok::<ActiveRecovery, Error>(ActiveRecovery::Intact),
{
}

} // verus!
