//! Integration: applying a sealed result to a clean target that is still at
//! the pinned base.
//!
//! The candidate commit is built in a private index, checked for one exact
//! parent and exact reproduction of the sealed patch, protected by a ref, and
//! only then fast-forwarded. Nothing is rebased, merged, resolved, or pushed.

use vstd::prelude::*;
use vstd::string::*;

use crate::artifacts::StoredResult;
use crate::error::{Error, ErrorView};
use crate::git::{Repository, Snapshot};
use crate::manager::CapsuleManager;
use crate::model::{Capsule, CapsuleResult, CapsuleState, Integration, ResultKind, ResultView};
use crate::options::IntegrateOptions;
use crate::query::SealObservation;
use crate::{
    artifacts, bytes, checkpoint, error, git, manager, paths, query, record, store, text,
};

verus! {

/// Everything that was read of an integration target.
///
/// What could not be read carries the error that prevented it.
#[derive(Debug, PartialEq, Eq)]
pub struct TargetObservation {
    /// The repository at the target path.
    pub repository: Result<Repository, Error>,
    /// Whether sparse checkout is on.
    pub sparse: Result<bool, Error>,
    /// Whether the index hides entries.
    pub hidden: Result<bool, Error>,
    /// Whether the worktree is clean.
    pub clean: Result<bool, Error>,
    /// Its `HEAD` commit.
    pub head: Result<String, Error>,
    /// Its symbolic `HEAD`.
    pub head_ref: Result<String, Error>,
}

/// What a check of an integration target says.
pub open spec fn target_check(capsule: Capsule, o: TargetObservation) -> std::result::Result<
    (),
    ErrorView,
> {
    let partial = ErrorView::InvalidInput(
        "integration target uses sparse-checkout, skip-worktree, or assume-unchanged entries; restore a full checkout first"@,
    );
    match o.repository {
        Err(e) => Err(e@),
        Ok(target) => if !paths::same(target.common_dir@, capsule.repository_common_dir@) {
            Err(ErrorView::ForeignWorktree(target.worktree@))
        } else if paths::same(target.worktree@, capsule.workspace_path@) {
            Err(
                ErrorView::InvalidInput("cannot integrate a capsule into its own workspace"@),
            )
        } else if o.sparse is Err {
            Err(o.sparse->Err_0@)
        } else if o.sparse->Ok_0 {
            Err(partial)
        } else if o.hidden is Err {
            Err(o.hidden->Err_0@)
        } else if o.hidden->Ok_0 {
            Err(partial)
        } else if o.clean is Err {
            Err(o.clean->Err_0@)
        } else if !o.clean->Ok_0 {
            Err(ErrorView::DirtyIntegrationTarget(target.worktree@))
        } else if o.head is Err {
            Err(o.head->Err_0@)
        } else if o.head_ref is Err {
            Err(o.head_ref->Err_0@)
        } else if o.head->Ok_0@ != capsule.base_commit@ {
            Err(
                ErrorView::InvalidInput(
                    "integration target HEAD "@ + o.head->Ok_0@ + " does not equal pinned base "@
                        + capsule.base_commit@ + "; update or recreate the capsule explicitly"@,
                ),
            )
        } else {
            Ok(())
        },
    }
}

/// A target that may be integrated into.
#[derive(Debug, PartialEq, Eq)]
pub struct IntegrationTarget {
    /// Where it is.
    pub repository: Repository,
    /// Its `HEAD` commit, which is the pinned base.
    pub head: String,
    /// Its symbolic `HEAD`.
    pub head_ref: String,
}

fn partial_checkout() -> (r: Error)
    ensures
        r@ == ErrorView::InvalidInput(
            "integration target uses sparse-checkout, skip-worktree, or assume-unchanged entries; restore a full checkout first"@,
        ),
{
    Error::InvalidInput(
        "integration target uses sparse-checkout, skip-worktree, or assume-unchanged entries; restore a full checkout first".to_owned(),
    )
}

/// Refuse a target that is not a clean, full checkout of the same repository
/// at the pinned base.
pub fn validate_integration_target(capsule: &Capsule, observed: TargetObservation) -> (r:
    std::result::Result<IntegrationTarget, Error>)
    ensures
        match target_check(*capsule, observed) {
            Err(e) => r matches Err(found) && found@ == e,
            Ok(_) => r == Ok::<IntegrationTarget, Error>(
                IntegrationTarget {
                    repository: observed.repository->Ok_0,
                    head: observed.head->Ok_0,
                    head_ref: observed.head_ref->Ok_0,
                },
            ),
        },
{
    let target = match observed.repository {
        Err(e) => {
            return Err(e);
        },
        Ok(t) => t,
    };
    if !target.common_dir.same_path(&capsule.repository_common_dir) {
        return Err(Error::ForeignWorktree(target.worktree));
    }
    if target.worktree.same_path(&capsule.workspace_path) {
        return Err(
            Error::InvalidInput("cannot integrate a capsule into its own workspace".to_owned()),
        );
    }
    match observed.sparse {
        Err(e) => {
            return Err(e);
        },
        Ok(on) => {
            if on {
                return Err(partial_checkout());
            }
        },
    }
    match observed.hidden {
        Err(e) => {
            return Err(e);
        },
        Ok(on) => {
            if on {
                return Err(partial_checkout());
            }
        },
    }
    match observed.clean {
        Err(e) => {
            return Err(e);
        },
        Ok(clean) => {
            if !clean {
                return Err(Error::DirtyIntegrationTarget(target.worktree));
            }
        },
    }
    let head = match observed.head {
        Err(e) => {
            return Err(e);
        },
        Ok(h) => h,
    };
    let head_ref = match observed.head_ref {
        Err(e) => {
            return Err(e);
        },
        Ok(h) => h,
    };
    if !text::same_text(head.as_str(), capsule.base_commit.as_str()) {
        return Err(
            Error::InvalidInput(
                text::cat5(
                    "integration target HEAD ",
                    head.as_str(),
                    " does not equal pinned base ",
                    capsule.base_commit.as_str(),
                    "; update or recreate the capsule explicitly",
                ),
            ),
        );
    }
    Ok(IntegrationTarget { repository: target, head, head_ref })
}

/// The subject of an integration commit: the one given, then the capsule's
/// label, then a generated one.
pub open spec fn subject_of(options: IntegrateOptions, capsule: Capsule) -> Seq<char> {
    match options.message {
        Some(m) => m@,
        None => match capsule.label {
            Some(l) => l@,
            None => "Integrate capsule "@ + capsule.id@,
        },
    }
}

/// The message of an integration commit, which names the capsule.
pub open spec fn message_of(subject: Seq<char>, id: Seq<char>) -> Seq<char> {
    subject + "\n\nChange-Capsule: "@ + id
}

/// The message of an integration commit; see [`message_of`].
pub fn integration_message(subject: &str, id: &str) -> (r: String)
    ensures
        r@ == message_of(subject@, id@),
{
    text::cat3(subject, "\n\nChange-Capsule: ", id)
}

/// What starting an integration says.
pub open spec fn start_check(
    root: Seq<u8>,
    id: Seq<char>,
    options: IntegrateOptions,
    shown: std::result::Result<Capsule, Error>,
    stored: std::result::Result<Capsule, Error>,
    seal: SealObservation,
    target: TargetObservation,
    result: std::result::Result<StoredResult, Error>,
    patch: std::result::Result<Vec<u8>, Error>,
) -> std::result::Result<(), ErrorView> {
    if options.check() is Err {
        options.check()
    } else if checkpoint::locked_check(root, id, shown, stored) is Err {
        checkpoint::locked_check(root, id, shown, stored)
    } else if !(stored->Ok_0.state is Closed) {
        Err(manager::state_error(stored->Ok_0, "closed"@))
    } else if query::sealed_state_check(stored->Ok_0, seal) is Err {
        query::sealed_state_check(stored->Ok_0, seal)
    } else if target_check(stored->Ok_0, target) is Err {
        target_check(stored->Ok_0, target)
    } else if artifacts::stored_result_check(id, result) is Err {
        artifacts::stored_result_check(id, result)
    } else {
        match patch {
            Err(e) => Err(e@),
            Ok(p) => checkpoint::hard_bound_check(p@.len()),
        }
    }
}

/// An integration that was started: its journal is written before anything is
/// prepared.
#[derive(Debug, PartialEq, Eq)]
pub struct StartedIntegration {
    /// The capsule with its journal.
    pub capsule: Capsule,
    /// The target.
    pub target: Repository,
    /// The sealed result.
    pub result: CapsuleResult,
    /// The sealed patch.
    pub patch: Vec<u8>,
}

/// Whether a capsule is another with a started integration.
pub open spec fn is_started(
    c: Capsule,
    before: Capsule,
    options: IntegrateOptions,
    target: Repository,
    head: Seq<char>,
    head_ref: Seq<char>,
    started_at: u64,
) -> bool {
    &&& c == (Capsule {
        state: CapsuleState::Integrating,
        integration: c.integration,
        updated_at_unix: started_at,
        ..before
    })
    &&& c.integration matches Some(i) && i.target_worktree@ == target.worktree@
        && i.target_git_dir@ == target.git_dir@ && i.target_head_ref@ == head_ref
        && i.target_head_before@ == head && i.target_head_after is None && i.commit_message@
        == subject_of(options, before) && i.author_name@ == options.author.name@ && i.author_email@
        == options.author.email@ && i.started_at_unix == started_at && i.integrated_at_unix is None
}

fn started(
    capsule: Capsule,
    options: &IntegrateOptions,
    target: &Repository,
    head: String,
    head_ref: String,
    started_at: u64,
) -> (r: Capsule)
    ensures
        is_started(r, capsule, *options, *target, head@, head_ref@, started_at),
{
    let subject = match &options.message {
        Some(m) => m.clone(),
        None => match &capsule.label {
            Some(l) => l.clone(),
            None => text::cat2("Integrate capsule ", capsule.id.as_str()),
        },
    };
    let mut c = capsule;
    c.integration = Some(
        Integration {
            target_worktree: target.worktree.clone(),
            target_git_dir: target.git_dir.clone(),
            target_head_ref: head_ref,
            target_head_before: head,
            target_head_after: None,
            commit_message: subject,
            author_name: options.author.name.clone(),
            author_email: options.author.email.clone(),
            started_at_unix: started_at,
            integrated_at_unix: None,
        },
    );
    c.state = CapsuleState::Integrating;
    c.updated_at_unix = started_at;
    c
}

/// What was read of the commit that was prepared for an integration.
#[derive(Debug, PartialEq, Eq)]
pub struct PreparedIntegration {
    /// The target's `HEAD`, where the result changes nothing.
    pub head: Result<String, Error>,
    /// The prepared commit, where it does.
    pub commit: Result<String, Error>,
    /// Its parents.
    pub parents: Result<Vec<String>, Error>,
    /// The change it makes on top of the pinned base.
    pub prepared: Result<Snapshot, Error>,
}

/// The commit that the target is to be advanced to.
pub open spec fn proposed_of(
    capsule: Capsule,
    r: ResultView,
    patch: Seq<u8>,
    p: PreparedIntegration,
) -> std::result::Result<Seq<char>, ErrorView> {
    if r.kind is NoChange {
        match p.head {
            Err(e) => Err(e@),
            Ok(h) => Ok(h@),
        }
    } else if capsule.integration is None {
        Err(ErrorView::UnsafeState("integration record disappeared"@))
    } else if p.commit is Err {
        Err(p.commit->Err_0@)
    } else if p.parents is Err {
        Err(p.parents->Err_0@)
    } else if git::texts(p.parents->Ok_0@) != seq![capsule.base_commit@] {
        Err(
            ErrorView::UnsafeState(
                "prepared integration commit "@ + p.commit->Ok_0@
                    + " does not have exactly the pinned base as parent"@,
            ),
        )
    } else if p.prepared is Err {
        Err(p.prepared->Err_0@)
    } else if p.prepared->Ok_0@.patch != patch || p.prepared->Ok_0@.changed_paths
        != r.changed_paths {
        Err(
            ErrorView::UnsafeState(
                "prepared integration commit does not reproduce the sealed result"@,
            ),
        )
    } else {
        Ok(p.commit->Ok_0@)
    }
}

/// Accept a prepared commit only if it has the pinned base as its one parent
/// and reproduces the sealed result exactly; see [`proposed_of`].
pub fn prepare_integration(
    capsule: &Capsule,
    result: &CapsuleResult,
    patch: &[u8],
    prepared: PreparedIntegration,
) -> (r: std::result::Result<String, Error>)
    ensures
        match proposed_of(*capsule, result@, patch@, prepared) {
            Err(e) => r matches Err(found) && found@ == e,
            Ok(commit) => r matches Ok(found) && found@ == commit,
        },
{
    if result.kind == ResultKind::NoChange {
        return prepared.head;
    }
    if capsule.integration.is_none() {
        return Err(Error::UnsafeState("integration record disappeared".to_owned()));
    }
    let commit = match prepared.commit {
        Err(e) => {
            return Err(e);
        },
        Ok(c) => c,
    };
    let parents = match prepared.parents {
        Err(e) => {
            return Err(e);
        },
        Ok(p) => p,
    };
    if !git::sole_parent(&parents, capsule.base_commit.as_str()) {
        return Err(
            Error::UnsafeState(
                text::cat3(
                    "prepared integration commit ",
                    commit.as_str(),
                    " does not have exactly the pinned base as parent",
                ),
            ),
        );
    }
    let change = match prepared.prepared {
        Err(e) => {
            return Err(e);
        },
        Ok(s) => s,
    };
    if !bytes::same_bytes(change.patch.as_slice(), patch) || !record::same_rows(
        &change.changed_paths,
        &result.changed_paths,
    ) {
        return Err(
            Error::UnsafeState(
                "prepared integration commit does not reproduce the sealed result".to_owned(),
            ),
        );
    }
    Ok(commit)
}

/// A capsule whose integration was given up: closed again, without a journal.
pub open spec fn aborted(c: Capsule, at: u64) -> Capsule {
    Capsule { state: CapsuleState::Closed, integration: None, updated_at_unix: at, ..c }
}

/// Give up an integration that failed before the target changed.
pub fn abort_integration(capsule: Capsule, at: u64) -> (r: Capsule)
    ensures
        r == aborted(capsule, at),
{
    let mut c = capsule;
    c.state = CapsuleState::Closed;
    c.integration = None;
    c.updated_at_unix = at;
    c
}

/// Record the commit that the target is about to be advanced to.
pub fn record_prepared(capsule: Capsule, proposed: String, at: u64) -> (r: std::result::Result<
    Capsule,
    Error,
>)
    ensures
        match capsule.integration {
            None => r matches Err(e) && e@ == ErrorView::UnsafeState(
                "integration record disappeared"@,
            ),
            Some(i) => r == Ok::<Capsule, Error>(
                Capsule {
                    integration: Some(Integration { target_head_after: Some(proposed), ..i }),
                    updated_at_unix: at,
                    ..capsule
                },
            ),
        },
{
    let mut c = capsule;
    match c.integration {
        None => Err(Error::UnsafeState("integration record disappeared".to_owned())),
        Some(i) => {
            let mut integration = i;
            integration.target_head_after = Some(proposed);
            c.integration = Some(integration);
            c.updated_at_unix = at;
            Ok(c)
        },
    }
}

/// Everything that was read of a target right before it is advanced.
#[derive(Debug, PartialEq, Eq)]
pub struct TargetRecheck {
    /// The repository at the target worktree.
    pub repository: Result<Repository, Error>,
    /// Its symbolic `HEAD`.
    pub head_ref: Result<String, Error>,
    /// Whether it is clean.
    pub clean: Result<bool, Error>,
    /// Its `HEAD` commit.
    pub head: Result<String, Error>,
}

/// What checking once more that a target is untouched says.
pub open spec fn recheck(capsule: Capsule, target: Repository, before: Seq<char>, o: TargetRecheck) -> std::result::Result<
    (),
    ErrorView,
> {
    let foreign = ErrorView::ForeignWorktree(target.worktree@);
    match o.repository {
        Err(e) => Err(e@),
        Ok(now) => if !paths::same(now.common_dir@, capsule.repository_common_dir@)
            || !paths::same(now.git_dir@, target.git_dir@) {
            Err(foreign)
        } else if o.head_ref is Err {
            Err(o.head_ref->Err_0@)
        } else if capsule.integration is None {
            Err(ErrorView::UnsafeState("integration record disappeared"@))
        } else if o.head_ref->Ok_0@ != capsule.integration->0.target_head_ref@ {
            Err(foreign)
        } else if o.clean is Err {
            Err(o.clean->Err_0@)
        } else if !o.clean->Ok_0 {
            Err(foreign)
        } else if o.head is Err {
            Err(o.head->Err_0@)
        } else if o.head->Ok_0@ != before {
            Err(foreign)
        } else {
            Ok(())
        },
    }
}

/// Refuse to advance a target that is no longer what it was when the
/// integration started.
pub fn confirm_target(
    capsule: &Capsule,
    target: &Repository,
    before: &str,
    observed: TargetRecheck,
) -> (r: std::result::Result<(), Error>)
    ensures
        error::outcome(r) == recheck(*capsule, *target, before@, observed),
{
    match observed.repository {
        Err(e) => {
            return Err(e);
        },
        Ok(now) => {
            if !now.common_dir.same_path(&capsule.repository_common_dir) || !now.git_dir.same_path(
                &target.git_dir,
            ) {
                return Err(Error::ForeignWorktree(target.worktree.clone()));
            }
        },
    }
    let head_ref = match observed.head_ref {
        Err(e) => {
            return Err(e);
        },
        Ok(h) => h,
    };
    match &capsule.integration {
        None => {
            return Err(Error::UnsafeState("integration record disappeared".to_owned()));
        },
        Some(i) => {
            if !text::same_text(head_ref.as_str(), i.target_head_ref.as_str()) {
                return Err(Error::ForeignWorktree(target.worktree.clone()));
            }
        },
    }
    match observed.clean {
        Err(e) => {
            return Err(e);
        },
        Ok(clean) => {
            if !clean {
                return Err(Error::ForeignWorktree(target.worktree.clone()));
            }
        },
    }
    match observed.head {
        Err(e) => Err(e),
        Ok(head) => if text::same_text(head.as_str(), before) {
            Ok(())
        } else {
            Err(Error::ForeignWorktree(target.worktree.clone()))
        },
    }
}

/// A capsule whose integration is complete.
pub open spec fn integrated(c: Capsule, at: u64) -> Capsule {
    Capsule {
        state: CapsuleState::Integrated,
        integration: Some(Integration { integrated_at_unix: Some(at), ..c.integration->0 }),
        updated_at_unix: at,
        ..c
    }
}

/// Record that the target was advanced.
pub fn complete_integration(capsule: Capsule, at: u64) -> (r: std::result::Result<Capsule, Error>)
    ensures
        match capsule.integration {
            None => r matches Err(e) && e@ == ErrorView::UnsafeState(
                "integration record disappeared"@,
            ),
            Some(_) => r == Ok::<Capsule, Error>(integrated(capsule, at)),
        },
{
    let mut c = capsule;
    match c.integration {
        None => Err(Error::UnsafeState("integration record disappeared".to_owned())),
        Some(i) => {
            let mut integration = i;
            integration.integrated_at_unix = Some(at);
            c.integration = Some(integration);
            c.state = CapsuleState::Integrated;
            c.updated_at_unix = at;
            Ok(c)
        },
    }
}

impl CapsuleManager {
    /// Start applying a sealed result to a clean target still at the pinned
    /// base.
    pub fn integrate(
        &self,
        id: &str,
        options: &IntegrateOptions,
        shown: std::result::Result<Capsule, Error>,
        stored: std::result::Result<Capsule, Error>,
        seal: SealObservation,
        target: TargetObservation,
        result: std::result::Result<StoredResult, Error>,
        patch: std::result::Result<Vec<u8>, Error>,
        started_at: u64,
    ) -> (r: std::result::Result<StartedIntegration, Error>)
        ensures
            match start_check(
                self.store.root@,
                id@,
                *options,
                shown,
                stored,
                seal,
                target,
                result,
                patch,
            ) {
                Err(e) => r matches Err(found) && found@ == e,
                Ok(_) => r matches Ok(started) && is_started(
                    started.capsule,
                    stored->Ok_0,
                    *options,
                    target.repository->Ok_0,
                    target.head->Ok_0@,
                    target.head_ref->Ok_0@,
                    started_at,
                ) && started.target == target.repository->Ok_0 && started.result
                    == result->Ok_0.result && started.patch == patch->Ok_0,
            },
    {
        match options.validate() {
            Err(e) => {
                return Err(e);
            },
            Ok(_) => {},
        }
        let capsule = match self.reread(id, shown, stored) {
            Err(e) => {
                return Err(e);
            },
            Ok(c) => c,
        };
        match manager::require_state(&capsule, CapsuleState::Closed, "closed") {
            Err(e) => {
                return Err(e);
            },
            Ok(_) => {},
        }
        match self.ensure_sealed(&capsule, seal) {
            Err(e) => {
                return Err(e);
            },
            Ok(_) => {},
        }
        let target = match validate_integration_target(&capsule, target) {
            Err(e) => {
                return Err(e);
            },
            Ok(t) => t,
        };
        let held = match result {
            Err(e) => {
                return Err(e);
            },
            Ok(held) => held,
        };
        let result = match self.store.read_result_artifact(id, Ok(held.result)) {
            Err(e) => {
                return Err(e);
            },
            Ok(r) => r,
        };
        let patch = match patch {
            Err(e) => {
                return Err(e);
            },
            Ok(p) => p,
        };
        match checkpoint::require_patch_within_hard_bound(patch.len() as u64) {
            Err(e) => {
                return Err(e);
            },
            Ok(_) => {},
        }
        let capsule = started(
            capsule,
            options,
            &target.repository,
            target.head,
            target.head_ref,
            started_at,
        );
        Ok(StartedIntegration { capsule, target: target.repository, result, patch })
    }
}

/// Integration is explicit and exact: whatever commit is proposed for a target
/// has the pinned base as its one parent and makes exactly the sealed change.
pub proof fn law_proposed_commits_reproduce_the_seal(
    capsule: Capsule,
    r: ResultView,
    patch: Seq<u8>,
    p: PreparedIntegration,
)
    requires
        proposed_of(capsule, r, patch, p) is Ok,
        !(r.kind is NoChange),
    ensures
        git::texts(p.parents->Ok_0@) == seq![capsule.base_commit@],
        p.prepared->Ok_0@.patch == patch,
        p.prepared->Ok_0@.changed_paths == r.changed_paths,
{
}

/// Only a clean target that is still at the pinned base is integrated into.
pub proof fn law_integration_needs_the_pinned_base(capsule: Capsule, o: TargetObservation)
    requires
        target_check(capsule, o) is Ok,
    ensures
        o.clean == Ok::<bool, Error>(true),
        o.head->Ok_0@ == capsule.base_commit@,
        paths::same(o.repository->Ok_0.common_dir@, capsule.repository_common_dir@),
        !paths::same(o.repository->Ok_0.worktree@, capsule.workspace_path@),
{
}

/// Every step of an integration keeps the record consistent, and giving one up
/// restores the closed capsule but for the time of the change.
pub proof fn law_integration_keeps_journals_consistent(
    before: Capsule,
    started: Capsule,
    options: IntegrateOptions,
    target: Repository,
    head: Seq<char>,
    head_ref: Seq<char>,
    started_at: u64,
    at: u64,
)
    requires
        store::journals_consistent(before),
        before.state is Closed,
        is_started(started, before, options, target, head, head_ref, started_at),
    ensures
        store::journals_consistent(started),
        store::journals_consistent(integrated(started, at)),
        store::journals_consistent(aborted(started, at)),
        aborted(started, at) == checkpoint::touched(before, at),
{
}

} // verus!
