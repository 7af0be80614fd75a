//! Cleanup: removing a capsule's owned worktree and branch while keeping its
//! durable record.
//!
//! What no longer proves to be the worktree the capsule created is never
//! removed, not even by force. The cleanup is journaled before it begins.

use vstd::prelude::*;
use vstd::string::*;

use crate::error::{Error, ErrorView};
use crate::git::{Repository, WorktreeRecord};
use crate::manager::CapsuleManager;
use crate::model::{Capsule, CapsuleState, Cleanup};
use crate::paths::NativePath;
use crate::query::SealObservation;
use crate::worktree::WorktreeInspection;
use crate::{checkpoint, error, manager, query, store, text, worktree};

verus! {

/// Everything that was read before a cleanup begins.
///
/// What could not be read carries the error that prevented it.
#[derive(Debug, PartialEq, Eq)]
pub struct DropObservation {
    /// What tells whether the seal still holds.
    pub seal: SealObservation,
    /// Where Git can be run.
    pub execution_root: Result<NativePath, Error>,
    /// The commit the capsule branch points at, if it exists.
    pub branch_head: Result<Option<String>, Error>,
    /// Whether anything exists at the workspace path.
    pub workspace_exists: bool,
    /// The repository found at the workspace path.
    pub workspace_repository: Result<Repository, Error>,
    /// What proves ownership of the workspace.
    pub inspection: WorktreeInspection,
    /// The `HEAD` commit of the workspace.
    pub head: Result<String, Error>,
    /// The registered worktree at the workspace path, if any.
    pub registered: Result<Option<WorktreeRecord>, Error>,
}

/// Whether a cleanup must prove the seal first.
pub open spec fn needs_seal(c: Capsule, force: bool) -> bool {
    (c.state is Closed || c.state is Integrated) && !force
}

/// Whether a capsule is in the middle of a journaled transition.
pub open spec fn in_transition(c: Capsule) -> bool {
    c.state is Creating || c.state is Checkpointing || c.state is Integrating
}

/// A capsule whose workspace Git directory is taken from what is there, where
/// its creation was interrupted before it was known.
pub open spec fn with_observed_git_dir(c: Capsule, o: DropObservation) -> Capsule {
    if o.workspace_exists && c.workspace_git_dir is None && c.state is Creating {
        Capsule { workspace_git_dir: Some(o.workspace_repository->Ok_0.git_dir), ..c }
    } else {
        c
    }
}

/// What the state of a capsule says about beginning a cleanup.
pub open spec fn drop_state_check(c: Capsule, id: Seq<char>, force: bool) -> std::result::Result<
    (),
    ErrorView,
> {
    if in_transition(c) && !force {
        Err(manager::state_error(c, "closed, integrated, orphaned, or --force"@))
    } else if c.state is Active && !force {
        Err(ErrorView::UnsealedChanges(id))
    } else {
        Ok(())
    }
}

/// What the workspace and the branch say about beginning a cleanup.
pub open spec fn drop_place_check(c: Capsule, force: bool, o: DropObservation) -> std::result::Result<
    (),
    ErrorView,
> {
    let foreign = ErrorView::ForeignWorktree(c.workspace_path@);
    let branch_head = text::opt_view(o.branch_head->Ok_0);
    if o.workspace_exists {
        if c.workspace_git_dir is None && c.state is Creating && o.workspace_repository is Err {
            Err(o.workspace_repository->Err_0@)
        } else if worktree::ownership_check(with_observed_git_dir(c, o), o.inspection) is Err {
            worktree::ownership_check(with_observed_git_dir(c, o), o.inspection)
        } else if o.head is Err {
            Err(o.head->Err_0@)
        } else if branch_head != Some(o.head->Ok_0@) {
            Err(foreign)
        } else {
            Ok(())
        }
    } else if needs_seal(c, force) {
        Err(foreign)
    } else {
        match o.registered {
            Err(e) => Err(e@),
            Ok(Some(found)) => worktree::registration_check(c, found@, branch_head),
            Ok(None) => if branch_head matches Some(h) && !query::knows_head(c, h) {
                Err(foreign)
            } else {
                Ok(())
            },
        }
    }
}

/// What beginning a cleanup says.
pub open spec fn drop_check(c: Capsule, id: Seq<char>, force: bool, o: DropObservation) -> std::result::Result<
    (),
    ErrorView,
> {
    if drop_state_check(c, id, force) is Err {
        drop_state_check(c, id, force)
    } else if needs_seal(c, force) && query::sealed_state_check(c, o.seal) is Err {
        query::sealed_state_check(c, o.seal)
    } else if o.execution_root is Err {
        Err(o.execution_root->Err_0@)
    } else if o.branch_head is Err {
        Err(o.branch_head->Err_0@)
    } else {
        drop_place_check(c, force, o)
    }
}

/// A capsule whose cleanup is journaled.
pub open spec fn dropping(c: Capsule, branch_head: Option<String>, require_sealed: bool, at: u64) -> Capsule {
    Capsule {
        state: CapsuleState::Dropping,
        cleanup: Some(Cleanup { branch_head, require_sealed, started_at_unix: at }),
        updated_at_unix: at,
        ..c
    }
}

/// How dropping a capsule goes on.
#[derive(Debug, PartialEq, Eq)]
pub enum DropStep {
    /// It was dropped before: nothing is to be done.
    Dropped(Capsule),
    /// A cleanup was begun before: finish it.
    Resume(Capsule),
    /// The cleanup may begin: write this journal, then finish it.
    Begin(Capsule),
}

/// What a cleanup removes first.
#[derive(Debug, Clone, Copy, PartialEq, Eq, Structural)]
pub enum Removal {
    /// The worktree itself.
    RemoveWorktree,
    /// The registration of a worktree that is gone.
    Prune,
    /// Nothing is left.
    Nothing,
}

/// Everything that was read to finish a cleanup.
///
/// What could not be read carries the error that prevented it.
#[derive(Debug, PartialEq, Eq)]
pub struct CleanupObservation {
    /// Where Git can be run.
    pub execution_root: Result<NativePath, Error>,
    /// Whether anything exists at the workspace path.
    pub workspace_exists: bool,
    /// What proves ownership of the workspace.
    pub inspection: WorktreeInspection,
    /// The `HEAD` commit of the workspace.
    pub head: Result<String, Error>,
    /// What tells whether the seal still holds.
    pub seal: SealObservation,
    /// The registered worktree at the workspace path, if any.
    pub registered: Result<Option<WorktreeRecord>, Error>,
}

/// What a cleanup removes first, or why it removes nothing.
pub open spec fn removal_of(c: Capsule, o: CleanupObservation) -> std::result::Result<
    Removal,
    ErrorView,
> {
    if c.cleanup is None {
        Err(ErrorView::UnsafeState("dropping capsule has no cleanup journal"@))
    } else if o.execution_root is Err {
        Err(o.execution_root->Err_0@)
    } else {
        let expected = text::opt_view(c.cleanup->0.branch_head);
        if o.workspace_exists {
            if worktree::ownership_check(c, o.inspection) is Err {
                Err(worktree::ownership_check(c, o.inspection)->Err_0)
            } else if o.head is Err {
                Err(o.head->Err_0@)
            } else if expected != Some(o.head->Ok_0@) {
                Err(ErrorView::ForeignWorktree(c.workspace_path@))
            } else if c.cleanup->0.require_sealed && query::sealed_state_check(c, o.seal) is Err {
                Err(query::sealed_state_check(c, o.seal)->Err_0)
            } else {
                Ok(Removal::RemoveWorktree)
            }
        } else {
            match o.registered {
                Err(e) => Err(e@),
                Ok(None) => Ok(Removal::Nothing),
                Ok(Some(found)) => match worktree::registration_check(c, found@, expected) {
                    Err(e) => Err(e),
                    Ok(_) => Ok(Removal::Prune),
                },
            }
        }
    }
}

/// Refuse to go on where a worktree is still registered after pruning.
pub fn check_pruned(capsule: &Capsule, registered: std::result::Result<Option<WorktreeRecord>, Error>) -> (r:
    std::result::Result<(), Error>)
    ensures
        error::outcome(r) == match registered {
            Err(e) => Err(e@),
            Ok(Some(_)) => Err(ErrorView::ForeignWorktree(capsule.workspace_path@)),
            Ok(None) => Ok(()),
        },
{
    match registered {
        Err(e) => Err(e),
        Ok(Some(_)) => Err(worktree::foreign(capsule)),
        Ok(None) => Ok(()),
    }
}

/// Refuse to go on where a branch appeared that did not exist when the cleanup
/// began.
pub fn check_branch_absent(capsule: &Capsule, branch_head: std::result::Result<Option<String>, Error>) -> (r:
    std::result::Result<(), Error>)
    ensures
        error::outcome(r) == match branch_head {
            Err(e) => Err(e@),
            Ok(Some(_)) => Err(
                ErrorView::UnsafeState(
                    "refusing to delete branch "@ + capsule.branch@
                        + " created after cleanup began"@,
                ),
            ),
            Ok(None) => Ok(()),
        },
{
    match branch_head {
        Err(e) => Err(e),
        Ok(Some(_)) => Err(
            Error::UnsafeState(
                text::cat3(
                    "refusing to delete branch ",
                    capsule.branch.as_str(),
                    " created after cleanup began",
                ),
            ),
        ),
        Ok(None) => Ok(()),
    }
}

/// A capsule whose cleanup is complete.
pub open spec fn dropped(c: Capsule, at: u64) -> Capsule {
    Capsule {
        state: CapsuleState::Dropped,
        checkpoint: None,
        cleanup: None,
        dropped_at_unix: Some(at),
        ..c
    }
}

/// Record that a cleanup is complete.
pub fn complete_cleanup(capsule: Capsule, at: u64) -> (r: (Capsule, String))
    ensures
        r.0 == dropped(capsule, at),
        r.1@ == "completed journaled worktree and branch cleanup"@,
{
    let mut c = capsule;
    c.state = CapsuleState::Dropped;
    c.checkpoint = None;
    c.cleanup = None;
    c.dropped_at_unix = Some(at);
    (c, "completed journaled worktree and branch cleanup".to_owned())
}

impl CapsuleManager {
    /// Decide how dropping a capsule goes on. Refuses what no longer proves to
    /// be the worktree this capsule created, even when `force` is set.
    pub fn drop_capsule(
        &self,
        id: &str,
        force: bool,
        shown: std::result::Result<Capsule, Error>,
        stored: std::result::Result<Capsule, Error>,
        observed: DropObservation,
        started_at: u64,
    ) -> (r: std::result::Result<DropStep, Error>)
        ensures
            match checkpoint::locked_check(self.store.root@, id@, shown, stored) {
                Err(e) => r matches Err(found) && found@ == e,
                Ok(_) => if stored->Ok_0.state is Dropped {
                    r == Ok::<DropStep, Error>(DropStep::Dropped(stored->Ok_0))
                } else if stored->Ok_0.state is Dropping {
                    r == Ok::<DropStep, Error>(DropStep::Resume(stored->Ok_0))
                } else {
                    match drop_check(stored->Ok_0, id@, force, observed) {
                        Err(e) => r matches Err(found) && found@ == e,
                        Ok(_) => r == Ok::<DropStep, Error>(
                            DropStep::Begin(
                                dropping(
                                    with_observed_git_dir(stored->Ok_0, observed),
                                    observed.branch_head->Ok_0,
                                    needs_seal(stored->Ok_0, force),
                                    started_at,
                                ),
                            ),
                        ),
                    }
                },
            },
    {
        let mut capsule = match self.reread(id, shown, stored) {
            Err(e) => {
                return Err(e);
            },
            Ok(c) => c,
        };
        if capsule.state == CapsuleState::Dropped {
            return Ok(DropStep::Dropped(capsule));
        }
        if capsule.state == CapsuleState::Dropping {
            return Ok(DropStep::Resume(capsule));
        }
        if (capsule.state == CapsuleState::Creating || capsule.state == CapsuleState::Checkpointing
            || capsule.state == CapsuleState::Integrating) && !force {
            return Err(
                manager::invalid_state(&capsule, "closed, integrated, orphaned, or --force"),
            );
        }
        if capsule.state == CapsuleState::Active && !force {
            return Err(Error::UnsealedChanges(id.to_owned()));
        }
        let require_sealed = (capsule.state == CapsuleState::Closed || capsule.state
            == CapsuleState::Integrated) && !force;
        if require_sealed {
            match self.ensure_sealed(&capsule, observed.seal) {
                Err(e) => {
                    return Err(e);
                },
                Ok(_) => {},
            }
        }
        match observed.execution_root {
            Err(e) => {
                return Err(e);
            },
            Ok(_) => {},
        }
        let branch_head = match observed.branch_head {
            Err(e) => {
                return Err(e);
            },
            Ok(h) => h,
        };
        if observed.workspace_exists {
            if capsule.workspace_git_dir.is_none() && capsule.state == CapsuleState::Creating {
                match observed.workspace_repository {
                    Err(e) => {
                        return Err(e);
                    },
                    Ok(found) => {
                        capsule.workspace_git_dir = Some(found.git_dir);
                    },
                }
            }
            match worktree::validate_owned_worktree(&capsule, &observed.inspection) {
                Err(e) => {
                    return Err(e);
                },
                Ok(_) => {},
            }
            let head = match observed.head {
                Err(e) => {
                    return Err(e);
                },
                Ok(h) => h,
            };
            let on_branch = match &branch_head {
                Some(b) => text::same_text(b.as_str(), head.as_str()),
                None => false,
            };
            if !on_branch {
                return Err(worktree::foreign(&capsule));
            }
        } else if require_sealed {
            return Err(worktree::foreign(&capsule));
        } else {
            match observed.registered {
                Err(e) => {
                    return Err(e);
                },
                Ok(Some(found)) => match worktree::validate_registered_record(
                    &capsule,
                    &found,
                    &branch_head,
                ) {
                    Err(e) => {
                        return Err(e);
                    },
                    Ok(_) => {},
                },
                Ok(None) => {
                    let known = match &branch_head {
                        Some(h) => query::recorded_capsule_head(&capsule, h.as_str()),
                        None => true,
                    };
                    if !known {
                        return Err(worktree::foreign(&capsule));
                    }
                },
            }
        }
        capsule.state = CapsuleState::Dropping;
        capsule.cleanup = Some(
            Cleanup { branch_head, require_sealed, started_at_unix: started_at },
        );
        capsule.updated_at_unix = started_at;
        Ok(DropStep::Begin(capsule))
    }

    /// Decide what a journaled cleanup removes first; see [`removal_of`].
    pub fn finish_cleanup(&self, capsule: &Capsule, observed: CleanupObservation) -> (r:
        std::result::Result<Removal, Error>)
        ensures
            match removal_of(*capsule, observed) {
                Err(e) => r matches Err(found) && found@ == e,
                Ok(removal) => r == Ok::<Removal, Error>(removal),
            },
    {
        let journal = match &capsule.cleanup {
            None => {
                return Err(
                    Error::UnsafeState("dropping capsule has no cleanup journal".to_owned()),
                );
            },
            Some(journal) => journal,
        };
        match observed.execution_root {
            Err(e) => {
                return Err(e);
            },
            Ok(_) => {},
        }
        if observed.workspace_exists {
            match worktree::validate_owned_worktree(capsule, &observed.inspection) {
                Err(e) => {
                    return Err(e);
                },
                Ok(_) => {},
            }
            let head = match observed.head {
                Err(e) => {
                    return Err(e);
                },
                Ok(h) => h,
            };
            let expected = match &journal.branch_head {
                Some(b) => text::same_text(b.as_str(), head.as_str()),
                None => false,
            };
            if !expected {
                return Err(worktree::foreign(capsule));
            }
            if journal.require_sealed {
                match self.ensure_sealed(capsule, observed.seal) {
                    Err(e) => {
                        return Err(e);
                    },
                    Ok(_) => {},
                }
            }
            return Ok(Removal::RemoveWorktree);
        }
        match observed.registered {
            Err(e) => Err(e),
            Ok(None) => Ok(Removal::Nothing),
            Ok(Some(found)) => match worktree::validate_registered_record(
                capsule,
                &found,
                &journal.branch_head,
            ) {
                Err(e) => Err(e),
                Ok(_) => Ok(Removal::Prune),
            },
        }
    }
}

/// Cleanup never removes what does not prove to be the capsule's own worktree
/// at the journaled commit.
pub proof fn law_only_owned_worktrees_are_removed(c: Capsule, o: CleanupObservation)
    requires
        removal_of(c, o) == Ok::<Removal, ErrorView>(Removal::RemoveWorktree),
    ensures
        worktree::ownership_check(c, o.inspection) is Ok,
        text::opt_view(c.cleanup->0.branch_head) == Some(o.head->Ok_0@),
        c.cleanup->0.require_sealed ==> query::sealed_state_check(c, o.seal) is Ok,
{
}

/// Force does not lift ownership: a workspace that exists and is not the
/// capsule's own refuses cleanup either way.
pub proof fn law_force_does_not_lift_ownership(
    c: Capsule,
    id: Seq<char>,
    force: bool,
    o: DropObservation,
)
    requires
        o.workspace_exists,
        worktree::ownership_check(with_observed_git_dir(c, o), o.inspection) is Err,
    ensures
        drop_check(c, id, force, o) is Err,
{
}

/// Unsealed work is never dropped without force.
pub proof fn law_unsealed_work_needs_force(c: Capsule, id: Seq<char>, o: DropObservation)
    requires
        c.state is Active || in_transition(c),
    ensures
        drop_check(c, id, false, o) is Err,
{
}

/// Journaling and completing a cleanup keep the record consistent.
pub proof fn law_cleanup_keeps_journals_consistent(
    c: Capsule,
    branch_head: Option<String>,
    require_sealed: bool,
    started_at: u64,
    at: u64,
)
    requires
        store::journals_consistent(c),
        !(c.state is Dropped),
        !(c.state is Dropping),
    ensures
        store::journals_consistent(dropping(c, branch_head, require_sealed, started_at)),
        store::journals_consistent(
            dropped(dropping(c, branch_head, require_sealed, started_at), at),
        ),
{
}

} // verus!
