//! Whether the policy admits a transition.
//!
//! A transition that was found possible is held against the policy before
//! anything is written. What the policy admits comes back as it was; what it
//! does not admit is a violation.

use vstd::prelude::*;

use crate::checkpoint::CheckpointRequest;
use crate::close::PendingClose;
use crate::error::{Error, ErrorView};
use crate::git::Snapshot;
use crate::git_path::GitPath;
use crate::idempotency::{IdempotencyRecord, ReservationEntry};
use crate::integrate::StartedIntegration;
use crate::model::Capsule;
use crate::paths::NativePath;
use crate::policy::Policy;
use crate::recording::AttachedEvidence;
use crate::{idempotency, policy};

verus! {

/// What is read to hold any transition against the policy.
///
/// What could not be read carries the error that prevented it. A size is looked
/// at only where the policy limits it.
#[derive(Debug, PartialEq, Eq)]
pub struct PolicyReads {
    /// The effective policy.
    pub policy: Result<Policy, Error>,
    /// The bytes of the state directory.
    pub state_bytes: Result<u64, Error>,
    /// The bytes of all workspaces.
    pub workspace_bytes: Result<u64, Error>,
}

/// What is read to hold a creation against the policy. The capsules and the
/// reservations are looked at only where the policy limits how many there may
/// be.
#[derive(Debug, PartialEq, Eq)]
pub struct CreationReads {
    /// The policy, and the sizes.
    pub general: PolicyReads,
    /// The capsules that exist.
    pub capsules: Result<Vec<Capsule>, Error>,
    /// The reservations that exist.
    pub reservations: Result<Vec<ReservationEntry>, Error>,
}

/// What is read to hold a checkpoint against the policy. Ignored content is
/// looked at only where the policy limits it.
#[derive(Debug, PartialEq, Eq)]
pub struct CheckpointReads {
    /// The policy, and the sizes.
    pub general: PolicyReads,
    /// The ignored paths in the workspace.
    pub ignored_paths: Result<Vec<GitPath>, Error>,
    /// The bytes of ignored content in the workspace.
    pub ignored_bytes: Result<u64, Error>,
}

/// Whether a policy limits how many capsules there may be.
pub open spec fn counts(p: Policy) -> bool {
    p.max_capsules is Some || p.max_live_capsules is Some
}

/// What the policy says about creating one more capsule from a worktree.
pub open spec fn creation_check(reads: CreationReads, worktree: Seq<u8>) -> std::result::Result<
    (),
    ErrorView,
> {
    let (state, workspace) = (reads.general.state_bytes, reads.general.workspace_bytes);
    match reads.general.policy {
        Err(e) => Err(e@),
        Ok(p) => if !counts(p) {
            policy::create_check(p, Seq::empty(), worktree, 0, state, workspace)
        } else {
            match reads.capsules {
                Err(e) => Err(e@),
                Ok(capsules) => match reads.reservations {
                    Err(e) => Err(e@),
                    Ok(reservations) => match idempotency::unmaterialized_of(reservations@) {
                        Err(e) => Err(e),
                        Ok(n) => policy::create_check(
                            p,
                            capsules@,
                            worktree,
                            n as u64,
                            state,
                            workspace,
                        ),
                    },
                },
            }
        },
    }
}

fn check_creation(reads: CreationReads, worktree: &NativePath) -> (r: std::result::Result<(), Error>)
    ensures
        match creation_check(reads, worktree@) {
            Err(e) => r matches Err(found) && found@ == e,
            Ok(_) => r is Ok,
        },
{
    let PolicyReads { policy: held, state_bytes, workspace_bytes } = reads.general;
    let p = match held {
        Err(e) => {
            return Err(e);
        },
        Ok(p) => p,
    };
    if p.max_capsules.is_none() && p.max_live_capsules.is_none() {
        let none: Vec<Capsule> = Vec::new();
        return policy::enforce_creation(&p, &none, worktree, 0, state_bytes, workspace_bytes);
    }
    let capsules = match reads.capsules {
        Err(e) => {
            return Err(e);
        },
        Ok(capsules) => capsules,
    };
    let reservations = match reads.reservations {
        Err(e) => {
            return Err(e);
        },
        Ok(reservations) => reservations,
    };
    match idempotency::unmaterialized_reservations(&reservations) {
        Err(e) => Err(e),
        Ok(n) => policy::enforce_creation(&p, &capsules, worktree, n, state_bytes, workspace_bytes),
    }
}

/// Hold a capsule that is to be created against the policy.
pub fn admit_creation(capsule: Capsule, reads: CreationReads) -> (r: std::result::Result<
    Capsule,
    Error,
>)
    ensures
        match creation_check(reads, capsule.source_worktree@) {
            Err(e) => r matches Err(found) && found@ == e,
            Ok(_) => r == Ok::<Capsule, Error>(capsule),
        },
{
    match check_creation(reads, &capsule.source_worktree) {
        Err(e) => Err(e),
        Ok(_) => Ok(capsule),
    }
}

/// Hold a reservation that is to be made against the policy: it counts as a
/// capsule from then on.
pub fn admit_reservation(record: IdempotencyRecord, reads: CreationReads) -> (r:
    std::result::Result<IdempotencyRecord, Error>)
    ensures
        match creation_check(reads, record.source_worktree@) {
            Err(e) => r matches Err(found) && found@ == e,
            Ok(_) => r == Ok::<IdempotencyRecord, Error>(record),
        },
{
    match check_creation(reads, &record.source_worktree) {
        Err(e) => Err(e),
        Ok(_) => Ok(record),
    }
}

/// What the policy says about going on with a capsule.
pub open spec fn transition_check(c: Capsule, reads: PolicyReads, now: u64) -> std::result::Result<
    (),
    ErrorView,
> {
    policy::capsule_check(reads.policy, c, now, reads.state_bytes, reads.workspace_bytes)
}

/// Hold a record of evidence against the policy before it is written.
pub fn admit_evidence(attached: AttachedEvidence, reads: PolicyReads, now: u64) -> (r:
    std::result::Result<AttachedEvidence, Error>)
    ensures
        match transition_check(attached.capsule, reads, now) {
            Err(e) => r matches Err(found) && found@ == e,
            Ok(_) => r == Ok::<AttachedEvidence, Error>(attached),
        },
{
    match policy::enforce_capsule_policy(
        reads.policy,
        &attached.capsule,
        now,
        reads.state_bytes,
        reads.workspace_bytes,
    ) {
        Err(e) => Err(e),
        Ok(_) => Ok(attached),
    }
}

/// Hold an integration against the policy before it is journaled.
pub fn admit_integration(started: StartedIntegration, reads: PolicyReads, now: u64) -> (r:
    std::result::Result<StartedIntegration, Error>)
    ensures
        match transition_check(started.capsule, reads, now) {
            Err(e) => r matches Err(found) && found@ == e,
            Ok(_) => r == Ok::<StartedIntegration, Error>(started),
        },
{
    match policy::enforce_capsule_policy(
        reads.policy,
        &started.capsule,
        now,
        reads.state_bytes,
        reads.workspace_bytes,
    ) {
        Err(e) => Err(e),
        Ok(_) => Ok(started),
    }
}

/// What the policy says about closing a capsule with a result.
pub open spec fn close_check(pending: PendingClose, reads: PolicyReads, now: u64) -> std::result::Result<
    (),
    ErrorView,
> {
    match transition_check(pending.capsule, reads, now) {
        Err(e) => Err(e),
        Ok(_) => policy::result_check(
            reads.policy->Ok_0,
            pending.result.patch_bytes,
            pending.result.changed_paths@.len() as usize,
            pending.result.ignored_paths@.len() as usize,
            pending.result.ignored_bytes,
        ),
    }
}

/// Hold a close against the policy before anything is sealed.
pub fn admit_close(pending: PendingClose, reads: PolicyReads, now: u64) -> (r: std::result::Result<
    PendingClose,
    Error,
>)
    ensures
        match close_check(pending, reads, now) {
            Err(e) => r matches Err(found) && found@ == e,
            Ok(_) => r == Ok::<PendingClose, Error>(pending),
        },
{
    let p = match policy::enforce_capsule_policy(
        reads.policy,
        &pending.capsule,
        now,
        reads.state_bytes,
        reads.workspace_bytes,
    ) {
        Err(e) => {
            return Err(e);
        },
        Ok(p) => p,
    };
    match policy::enforce_result_policy(
        &p,
        pending.result.patch_bytes,
        pending.result.changed_paths.len(),
        pending.result.ignored_paths.len(),
        pending.result.ignored_bytes,
    ) {
        Err(e) => Err(e),
        Ok(_) => Ok(pending),
    }
}

/// What the policy says about a checkpoint: the complete change that it leads
/// to, from the pinned base, is held against the limits of a result. Where that
/// change could not be read, journaling the checkpoint says so.
pub open spec fn checkpoint_check(
    request: CheckpointRequest,
    complete: std::result::Result<Snapshot, Error>,
    reads: CheckpointReads,
    now: u64,
) -> std::result::Result<(), ErrorView> {
    match transition_check(request.capsule, reads.general, now) {
        Err(e) => Err(e),
        Ok(_) => match complete {
            Err(_) => Ok(()),
            Ok(change) => {
                let p = reads.general.policy->Ok_0;
                match policy::ignored_usage_of(p, reads.ignored_paths, reads.ignored_bytes) {
                    Err(e) => Err(e),
                    Ok(usage) => policy::result_check(
                        p,
                        change.patch@.len() as u64,
                        change.changed_paths@.len() as usize,
                        usage.0 as usize,
                        usage.1,
                    ),
                }
            },
        },
    }
}

/// Hold a checkpoint against the policy before it is journaled.
pub fn admit_checkpoint(
    request: CheckpointRequest,
    complete: &std::result::Result<Snapshot, Error>,
    reads: CheckpointReads,
    now: u64,
) -> (r: std::result::Result<CheckpointRequest, Error>)
    ensures
        match checkpoint_check(request, *complete, reads, now) {
            Err(e) => r matches Err(found) && found@ == e,
            Ok(_) => r == Ok::<CheckpointRequest, Error>(request),
        },
{
    let PolicyReads { policy: held, state_bytes, workspace_bytes } = reads.general;
    let p = match policy::enforce_capsule_policy(
        held,
        &request.capsule,
        now,
        state_bytes,
        workspace_bytes,
    ) {
        Err(e) => {
            return Err(e);
        },
        Ok(p) => p,
    };
    let change = match complete {
        Err(_) => {
            return Ok(request);
        },
        Ok(change) => change,
    };
    let (ignored_paths, ignored_bytes) = match policy::ignored_usage_for_policy(
        &p,
        reads.ignored_paths,
        reads.ignored_bytes,
    ) {
        Err(e) => {
            return Err(e);
        },
        Ok(usage) => usage,
    };
    match policy::enforce_result_policy(
        &p,
        change.patch.len() as u64,
        change.changed_paths.len(),
        ignored_paths,
        ignored_bytes,
    ) {
        Err(e) => Err(e),
        Ok(_) => Ok(request),
    }
}

/// Whether a capsule and the sizes that were read are within the limits of a
/// policy.
pub open spec fn capsule_within(p: Policy, c: Capsule, reads: PolicyReads, now: u64) -> bool {
    &&& policy::allows(p, c.source_worktree@)
    &&& p.max_capsule_age_seconds matches Some(l) ==> now - c.created_at_unix <= l
    &&& p.max_state_bytes matches Some(l) ==> (reads.state_bytes matches Ok(n) && n <= l)
    &&& p.max_workspace_bytes matches Some(l) ==> (reads.workspace_bytes matches Ok(n) && n <= l)
}

/// Whether a change and the ignored content beside it are within the limits of
/// a policy.
pub open spec fn change_within(
    p: Policy,
    patch_bytes: nat,
    changed_paths: nat,
    ignored_paths: nat,
    ignored_bytes: nat,
) -> bool {
    &&& patch_bytes <= p.max_patch_bytes
    &&& p.max_changed_paths matches Some(l) ==> changed_paths <= l
    &&& p.max_ignored_paths matches Some(l) ==> ignored_paths <= l
    &&& p.max_ignored_bytes matches Some(l) ==> ignored_bytes <= l
}

/// A close that the policy admits is within its limits, and one that is within
/// them is admitted. Where the policy and the sizes that it limits could be
/// read, a close that is not admitted is a violation of the policy.
pub proof fn law_admitted_closes_are_within_limits(pending: PendingClose, reads: PolicyReads, now: u64)
    ensures
        close_check(pending, reads, now) is Ok <==> (reads.policy matches Ok(p) && capsule_within(
            p,
            pending.capsule,
            reads,
            now,
        ) && change_within(
            p,
            pending.result.patch_bytes as nat,
            pending.result.changed_paths@.len(),
            pending.result.ignored_paths@.len(),
            pending.result.ignored_bytes as nat,
        )),
        reads.policy is Ok && reads.state_bytes is Ok && reads.workspace_bytes is Ok ==> (
        close_check(pending, reads, now) matches Err(e) ==> e is PolicyViolation),
{
    assert(pending.result.changed_paths.len() <= usize::MAX);
    assert(pending.result.ignored_paths.len() <= usize::MAX);
}

/// A checkpoint that the policy admits leads to a complete change within its
/// limits, and one that is within them is admitted. Where everything could be
/// read, a checkpoint that is not admitted is a violation of the policy.
pub proof fn law_admitted_checkpoints_are_within_limits(
    request: CheckpointRequest,
    complete: Snapshot,
    reads: CheckpointReads,
    now: u64,
)
    requires
        reads.ignored_paths is Ok,
        reads.ignored_bytes is Ok,
    ensures
        checkpoint_check(request, Ok(complete), reads, now) is Ok <==> (
        reads.general.policy matches Ok(p) && capsule_within(
            p,
            request.capsule,
            reads.general,
            now,
        ) && change_within(
            p,
            complete.patch@.len(),
            complete.changed_paths@.len(),
            reads.ignored_paths->Ok_0@.len(),
            reads.ignored_bytes->Ok_0 as nat,
        )),
        reads.general.policy is Ok && reads.general.state_bytes is Ok
            && reads.general.workspace_bytes is Ok ==> (checkpoint_check(
            request,
            Ok(complete),
            reads,
            now,
        ) matches Err(e) ==> e is PolicyViolation),
{
    assert(complete.patch.len() <= usize::MAX);
    assert(complete.changed_paths.len() <= usize::MAX);
    assert(reads.ignored_paths->Ok_0.len() <= usize::MAX);
}

/// Evidence and integrations that the policy admits belong to a capsule within
/// its limits, and such a capsule is admitted. Where the policy and the sizes
/// that it limits could be read, one that is not is a violation of the policy.
pub proof fn law_admitted_capsules_are_within_limits(c: Capsule, reads: PolicyReads, now: u64)
    ensures
        transition_check(c, reads, now) is Ok <==> (reads.policy matches Ok(p) && capsule_within(
            p,
            c,
            reads,
            now,
        )),
        reads.policy is Ok && reads.state_bytes is Ok && reads.workspace_bytes is Ok ==> (
        transition_check(c, reads, now) matches Err(e) ==> e is PolicyViolation),
{
}

/// A creation that the policy admits is from an allowed repository, and keeps
/// the capsules and reservations within their limits once it is counted. Where
/// everything could be read, one that is not admitted is a violation of the
/// policy.
pub proof fn law_admitted_creations_are_within_limits(
    reads: CreationReads,
    created: Capsule,
    worktree: Seq<u8>,
)
    ensures
        creation_check(reads, worktree) is Ok ==> {
            let p = reads.general.policy->Ok_0;
            &&& reads.general.policy is Ok
            &&& policy::allows(p, worktree)
            &&& counts(p) ==> {
                let capsules = reads.capsules->Ok_0@;
                let reserved = idempotency::unmaterialized_of(reads.reservations->Ok_0@)->Ok_0;
                &&& reads.capsules is Ok
                &&& reads.reservations is Ok
                &&& p.max_capsules matches Some(l) ==> capsules.push(created).len() + reserved <= l
                &&& p.max_live_capsules matches Some(l) ==> policy::live_of(capsules.push(created))
                    + reserved <= l
            }
        },
        reads.general.policy is Ok && reads.general.state_bytes is Ok
            && reads.general.workspace_bytes is Ok && reads.capsules is Ok && (
        reads.reservations matches Ok(all) && idempotency::unmaterialized_of(all@) is Ok) ==> (
        creation_check(reads, worktree) matches Err(e) ==> e is PolicyViolation),
{
    if creation_check(reads, worktree) is Ok && counts(reads.general.policy->Ok_0) {
        let reservations = reads.reservations->Ok_0;
        idempotency::lemma_unmaterialized_bounded(reservations@);
        assert(reservations.len() <= usize::MAX);
        policy::law_admitted_creations_stay_within_limits(
            reads.general.policy->Ok_0,
            reads.capsules->Ok_0@,
            created,
            worktree,
            idempotency::unmaterialized_of(reservations@)->Ok_0 as u64,
            reads.general.state_bytes,
            reads.general.workspace_bytes,
        );
    }
}

} // verus!
