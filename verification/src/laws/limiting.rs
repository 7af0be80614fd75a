//! What a policy lets pass.

use vstd::prelude::*;
use vstd::string::*;

use crate::admission::{CheckpointReads, CreationReads, PolicyReads};
use crate::artifacts::StoredResult;
use crate::checkpoint::CheckpointRequest;
use crate::close::PendingClose;
use crate::error::Error;
use crate::git::{Repository, Snapshot};
use crate::git_path::GitPath;
use crate::idempotency::{IdempotencyRecord, ReservationEntry};
use crate::integrate::StartedIntegration;
use crate::laws::exporting;
use crate::laws::places;
use crate::laws::reserving;
use crate::laws::sealing;
use crate::laws::wording;
use crate::laws::workspaces;
use crate::manager::CapsuleManager;
use crate::model::{Capsule, ResultRef};
use crate::order::Ordered;
use crate::paths::NativePath;
use crate::policy::{Policy, PolicyEntry, PolicyObservation, PolicyReport, RootReads};
use crate::recording::AttachedEvidence;
use crate::{admission, artifacts, git, idempotency, laws, order, paths, policy, text, worktree};

verus! {

/// Whether a value keeps to a limit that may be absent.
pub open spec fn keeps(value: int, limit: Option<u64>) -> bool {
    limit matches Some(l) ==> value <= l
}

/// Whether a policy can be applied.
pub open spec fn is_applicable(p: Policy) -> bool {
    &&& p.schema_version == 1
    &&& 0 < p.max_patch_bytes <= 67108864
    &&& forall|i: int|
        0 <= i < p.allowed_repository_roots@.len() ==> places::is_rooted(
            (#[trigger] p.allowed_repository_roots@[i]).bytes@,
        )
}

/// Whether a policy lets a repository be used: it names no roots, or one that
/// the worktree is or lies below.
pub open spec fn may_use(p: Policy, worktree: Seq<u8>) -> bool {
    p.allowed_repository_roots@.len() == 0 || exists|i: int|
        0 <= i < p.allowed_repository_roots@.len() && exporting::is_below(
            worktree,
            (#[trigger] p.allowed_repository_roots@[i]).bytes@,
        )
}

/// Whether the sizes keep to their limits; one that is limited must have been
/// read.
pub open spec fn sizes_keep(
    p: Policy,
    state_bytes: std::result::Result<u64, Error>,
    workspace_bytes: std::result::Result<u64, Error>,
) -> bool {
    &&& p.max_state_bytes matches Some(l) ==> (state_bytes matches Ok(n) && n <= l)
    &&& p.max_workspace_bytes matches Some(l) ==> (workspace_bytes matches Ok(n) && n <= l)
}

/// How many capsules are not dropped.
pub open spec fn live(capsules: Seq<Capsule>) -> int {
    capsules.filter(|c: Capsule| !(c.state is Dropped)).len() as int
}

pub(crate) proof fn lemma_may_use(p: Policy, worktree: Seq<u8>)
    ensures
        may_use(p, worktree) <==> policy::allows(p, worktree),
{
    let roots = p.allowed_repository_roots@;
    assert forall|i: int| 0 <= i < roots.len() implies (exporting::is_below(
        worktree,
        (#[trigger] roots[i]).bytes@,
    ) <==> paths::is_within(worktree, roots[i]@)) by {
        exporting::lemma_below(worktree, roots[i].bytes@);
    }
    if may_use(p, worktree) && roots.len() > 0 {
        let i = choose|i: int|
            0 <= i < roots.len() && exporting::is_below(worktree, (#[trigger] roots[i]).bytes@);
        assert(paths::is_within(worktree, roots[i]@));
    }
    if policy::allows(p, worktree) && roots.len() > 0 {
        let i = choose|i: int|
            0 <= i < roots.len() && paths::is_within(worktree, #[trigger] roots[i]@);
        assert(exporting::is_below(worktree, roots[i].bytes@));
    }
}

proof fn lemma_applicable(p: Policy)
    ensures
        is_applicable(p) <==> p.check() is Ok,
{
    let roots = p.allowed_repository_roots@;
    assert forall|i: int| 0 <= i < roots.len() implies (places::is_rooted(
        (#[trigger] roots[i]).bytes@,
    ) <==> paths::is_absolute(roots[i]@)) by {}
    if !is_applicable(p) && p.schema_version == 1 && 0 < p.max_patch_bytes <= 67108864 {
        let i = choose|i: int|
            0 <= i < roots.len() && !places::is_rooted((#[trigger] roots[i]).bytes@);
        assert(!paths::is_absolute(roots[i]@));
    }
}

pub(crate) proof fn lemma_live(capsules: Seq<Capsule>)
    ensures
        live(capsules) == policy::live_of(capsules),
        live(capsules) <= capsules.len(),
    decreases capsules.len(),
{
    reveal(Seq::filter);
    if capsules.len() > 0 {
        lemma_live(capsules.drop_last());
    }
}

/// The permissive policy limits nothing but the size of a patch, and it is what
/// applies where none is stored.
pub proof fn law_without_a_policy_all_is_allowed(
    m: CapsuleManager,
    stored: std::result::Result<Option<Policy>, Error>,
    r: std::result::Result<Policy, Error>,
)
    requires
        call_ensures(CapsuleManager::policy, (&m, stored), r),
    ensures
        r is Ok <==> stored is Ok,
        stored matches Ok(Some(p)) ==> r == Ok::<Policy, Error>(p),
        (stored matches Ok(None)) ==> {
            let p = r->Ok_0;
            &&& p.schema_version == 1
            &&& p.allowed_repository_roots@.len() == 0
            &&& p.max_patch_bytes == 67108864
            &&& p.max_capsules is None && p.max_live_capsules is None
            &&& p.max_changed_paths is None && p.max_ignored_paths is None
            &&& p.max_ignored_bytes is None && p.max_capsule_age_seconds is None
            &&& p.max_state_bytes is None && p.max_workspace_bytes is None
            &&& is_applicable(p)
        },
{
}

/// A policy is accepted exactly where it can be applied, and lets a repository
/// be used exactly where one of its roots holds it.
pub proof fn law_policies_are_accepted_where_they_apply(
    p: Policy,
    r: std::result::Result<(), Error>,
    at: NativePath,
    allowed: bool,
)
    requires
        call_ensures(Policy::validate, (&p,), r),
        call_ensures(policy::repository_allowed, (&p, &at), allowed),
    ensures
        r is Ok <==> is_applicable(p),
        r matches Err(e) ==> e is PolicyViolation,
        allowed <==> may_use(p, at.bytes@),
{
    lemma_applicable(p);
    lemma_may_use(p, at.bytes@);
}

/// How a value over its limit is named.
pub open spec fn over(name: Seq<char>, value: int, limit: int) -> Seq<char> {
    name + " "@ + wording::digits(value) + " exceeds limit "@ + wording::digits(limit)
}

proof fn lemma_over(name: Seq<char>, value: u64, limit: u64)
    ensures
        over(name, value as int, limit as int) == policy::limit_text(name, value, limit),
{
    wording::lemma_digits(value as nat);
    wording::lemma_digits(limit as nat);
}

/// A value is refused exactly where it is over its limit, and one more exactly
/// where the count is at it.
pub proof fn law_limits_are_inclusive(
    name: &str,
    value: u64,
    limit: Option<u64>,
    r: std::result::Result<(), Error>,
    next: std::result::Result<(), Error>,
)
    requires
        call_ensures(policy::enforce_limit, (name, value, limit), r),
        call_ensures(policy::enforce_next_limit, (name, value, limit), next),
    ensures
        r is Ok <==> keeps(value as int, limit),
        next is Ok <==> keeps(value + 1, limit),
        r matches Err(e) ==> (e matches Error::PolicyViolation(t) && t@ == over(
            name@,
            value as int,
            limit->0 as int,
        )),
        next matches Err(e) ==> (e matches Error::PolicyViolation(t) && t@ == name@ + " "@
            + wording::digits(value as int) + " reached limit "@ + wording::digits(
            limit->0 as int,
        )),
{
    if let Some(l) = limit {
        lemma_over(name@, value, l);
        wording::lemma_digits(value as nat);
        wording::lemma_digits(l as nat);
    }
}

/// Live capsules are those that are not dropped.
pub proof fn law_live_capsules_are_those_not_dropped(capsules: Vec<Capsule>, r: u64)
    requires
        call_ensures(policy::live_count, (&capsules,), r),
    ensures
        r == live(capsules@),
{
    lemma_live(capsules@);
}

/// Whether one more capsule may be created from a worktree.
pub open spec fn may_create(
    p: Policy,
    capsules: Seq<Capsule>,
    worktree: Seq<u8>,
    reservations: int,
    state_bytes: std::result::Result<u64, Error>,
    workspace_bytes: std::result::Result<u64, Error>,
) -> bool {
    &&& is_applicable(p)
    &&& may_use(p, worktree)
    &&& capsules.len() + reservations <= u64::MAX
    &&& keeps(capsules.len() + reservations + 1, p.max_capsules)
    &&& keeps(live(capsules) + reservations + 1, p.max_live_capsules)
    &&& sizes_keep(p, state_bytes, workspace_bytes)
}

proof fn lemma_may_create(
    p: Policy,
    capsules: Seq<Capsule>,
    worktree: Seq<u8>,
    reservations: u64,
    state_bytes: std::result::Result<u64, Error>,
    workspace_bytes: std::result::Result<u64, Error>,
)
    ensures
        may_create(p, capsules, worktree, reservations as int, state_bytes, workspace_bytes)
            <==> policy::create_check(
            p,
            capsules,
            worktree,
            reservations,
            state_bytes,
            workspace_bytes,
        ) is Ok,
{
    lemma_applicable(p);
    lemma_may_use(p, worktree);
    lemma_live(capsules);
}

/// One more capsule is created exactly where the policy leaves room for it and
/// its repository is allowed.
pub proof fn law_creations_need_room(
    p: Policy,
    capsules: Vec<Capsule>,
    repository: Repository,
    reservations: u64,
    state_bytes: std::result::Result<u64, Error>,
    workspace_bytes: std::result::Result<u64, Error>,
    r: std::result::Result<(), Error>,
)
    requires
        call_ensures(
            policy::enforce_create_policy,
            (&p, &capsules, &repository, reservations, state_bytes, workspace_bytes),
            r,
        ),
    ensures
        r is Ok <==> may_create(
            p,
            capsules@,
            repository.worktree.bytes@,
            reservations as int,
            state_bytes,
            workspace_bytes,
        ),
{
    lemma_may_create(
        p,
        capsules@,
        repository.worktree.bytes@,
        reservations,
        state_bytes,
        workspace_bytes,
    );
}

/// Whether what was read lets one more capsule be created from a worktree. The
/// capsules and the reservations that wait for one are counted only where the
/// policy limits them.
pub open spec fn is_admitted(reads: CreationReads, worktree: Seq<u8>) -> bool {
    &&& reads.general.policy is Ok
    &&& {
        let p = reads.general.policy->Ok_0;
        &&& is_applicable(p)
        &&& may_use(p, worktree)
        &&& sizes_keep(p, reads.general.state_bytes, reads.general.workspace_bytes)
        &&& p.max_capsules is Some || p.max_live_capsules is Some ==> {
            &&& reads.capsules is Ok
            &&& reads.reservations is Ok
            &&& forall|i: int|
                0 <= i < reads.reservations->Ok_0@.len() ==> reserving::is_counted(
                    #[trigger] reads.reservations->Ok_0@[i],
                )
            &&& {
                let waiting = reads.reservations->Ok_0@.filter(
                    |e: ReservationEntry| reserving::is_waiting(e),
                ).len();
                let capsules = reads.capsules->Ok_0@;
                &&& capsules.len() + waiting <= u64::MAX
                &&& keeps(capsules.len() as int + waiting + 1, p.max_capsules)
                &&& keeps(live(capsules) + waiting + 1, p.max_live_capsules)
            }
        }
    }
}

proof fn lemma_admitted(reads: CreationReads, worktree: Seq<u8>)
    ensures
        is_admitted(reads, worktree) <==> admission::creation_check(reads, worktree) is Ok,
{
    if let Ok(p) = reads.general.policy {
        let (state, space) = (reads.general.state_bytes, reads.general.workspace_bytes);
        lemma_may_create(p, Seq::empty(), worktree, 0, state, space);
        if let (Ok(capsules), Ok(reservations)) = (reads.capsules, reads.reservations) {
            reserving::lemma_waiting(reservations@);
            idempotency::lemma_unmaterialized_bounded(reservations@);
            assert(reservations.len() <= usize::MAX);
            if let Ok(n) = idempotency::unmaterialized_of(reservations@) {
                lemma_may_create(p, capsules@, worktree, n as u64, state, space);
            }
        }
    }
}

/// A creation or a reservation is admitted, and then unchanged, exactly where
/// the policy leaves room for it.
pub proof fn law_admitted_creations_have_room(
    c: Capsule,
    record: IdempotencyRecord,
    reads: CreationReads,
    created: std::result::Result<Capsule, Error>,
    reserved: std::result::Result<IdempotencyRecord, Error>,
)
    requires
        call_ensures(admission::admit_creation, (c, reads), created),
        call_ensures(admission::admit_reservation, (record, reads), reserved),
    ensures
        created is Ok <==> is_admitted(reads, c.source_worktree.bytes@),
        reserved is Ok <==> is_admitted(reads, record.source_worktree.bytes@),
        created matches Ok(found) ==> found == c,
        reserved matches Ok(found) ==> found == record,
{
    lemma_admitted(reads, c.source_worktree.bytes@);
    lemma_admitted(reads, record.source_worktree.bytes@);
}

/// Whether a policy lets work on a capsule go on.
pub open spec fn may_go_on(
    p: Policy,
    c: Capsule,
    now: u64,
    state_bytes: std::result::Result<u64, Error>,
    workspace_bytes: std::result::Result<u64, Error>,
) -> bool {
    &&& may_use(p, c.source_worktree.bytes@)
    &&& keeps(now - c.created_at_unix, p.max_capsule_age_seconds)
    &&& sizes_keep(p, state_bytes, workspace_bytes)
}

/// Whether a change and the ignored content beside it keep to a policy.
pub open spec fn change_keeps(
    p: Policy,
    patch_bytes: int,
    changed_paths: int,
    ignored_paths: int,
    ignored_bytes: int,
) -> bool {
    &&& patch_bytes <= p.max_patch_bytes
    &&& keeps(changed_paths, p.max_changed_paths)
    &&& keeps(ignored_paths, p.max_ignored_paths)
    &&& keeps(ignored_bytes, p.max_ignored_bytes)
}

/// Work on a capsule goes on exactly where the policy could be read and lets
/// it, and the policy is then handed on.
pub proof fn law_work_goes_on_within_the_policy(
    p: std::result::Result<Policy, Error>,
    c: Capsule,
    now: u64,
    state_bytes: std::result::Result<u64, Error>,
    workspace_bytes: std::result::Result<u64, Error>,
    r: std::result::Result<Policy, Error>,
)
    requires
        call_ensures(
            policy::enforce_capsule_policy,
            (p, &c, now, state_bytes, workspace_bytes),
            r,
        ),
    ensures
        r is Ok <==> (p matches Ok(p) && may_go_on(p, c, now, state_bytes, workspace_bytes)),
        r is Ok ==> r == p,
{
    if let Ok(p) = p {
        lemma_may_use(p, c.source_worktree.bytes@);
    }
}

/// A result is refused exactly where it is over a limit. Ignored content is
/// counted only where it is limited, and measured only where its bytes are.
pub proof fn law_results_keep_to_the_policy(
    p: Policy,
    patch_bytes: u64,
    changed_paths: usize,
    ignored_paths: usize,
    ignored_bytes: u64,
    r: std::result::Result<(), Error>,
    found: std::result::Result<Vec<GitPath>, Error>,
    measured: std::result::Result<u64, Error>,
    usage: std::result::Result<(usize, u64), Error>,
)
    requires
        call_ensures(
            policy::enforce_result_policy,
            (&p, patch_bytes, changed_paths, ignored_paths, ignored_bytes),
            r,
        ),
        call_ensures(policy::ignored_usage_for_policy, (&p, found, measured), usage),
    ensures
        r is Ok <==> change_keeps(
            p,
            patch_bytes as int,
            changed_paths as int,
            ignored_paths as int,
            ignored_bytes as int,
        ),
        usage is Ok <==> (p.max_ignored_paths is Some || p.max_ignored_bytes is Some ==> found
            is Ok) && (p.max_ignored_bytes is Some ==> measured is Ok),
        usage matches Ok(u) ==> {
            &&& u.0 == (if p.max_ignored_paths is Some || p.max_ignored_bytes is Some {
                found->Ok_0@.len()
            } else {
                0
            })
            &&& u.1 == (if p.max_ignored_bytes is Some {
                measured->Ok_0
            } else {
                0
            })
        },
{
}

/// Evidence and integrations are admitted, and then unchanged, exactly where
/// the policy lets work on their capsule go on.
pub proof fn law_transitions_are_held_against_the_policy(
    attached: AttachedEvidence,
    started: StartedIntegration,
    reads: PolicyReads,
    now: u64,
    a: std::result::Result<AttachedEvidence, Error>,
    i: std::result::Result<StartedIntegration, Error>,
)
    requires
        call_ensures(admission::admit_evidence, (attached, reads, now), a),
        call_ensures(admission::admit_integration, (started, reads, now), i),
    ensures
        a is Ok <==> (reads.policy matches Ok(p) && may_go_on(
            p,
            attached.capsule,
            now,
            reads.state_bytes,
            reads.workspace_bytes,
        )),
        i is Ok <==> (reads.policy matches Ok(p) && may_go_on(
            p,
            started.capsule,
            now,
            reads.state_bytes,
            reads.workspace_bytes,
        )),
        a matches Ok(found) ==> found == attached,
        i matches Ok(found) ==> found == started,
{
    if let Ok(p) = reads.policy {
        lemma_may_use(p, attached.capsule.source_worktree.bytes@);
        lemma_may_use(p, started.capsule.source_worktree.bytes@);
    }
}

/// A close is admitted, and then unchanged, exactly where the policy lets work
/// on its capsule go on and its result keeps to the limits.
pub proof fn law_closes_are_held_against_the_policy(
    pending: PendingClose,
    reads: PolicyReads,
    now: u64,
    r: std::result::Result<PendingClose, Error>,
)
    requires
        call_ensures(admission::admit_close, (pending, reads, now), r),
    ensures
        r is Ok <==> (reads.policy matches Ok(p) && may_go_on(
            p,
            pending.capsule,
            now,
            reads.state_bytes,
            reads.workspace_bytes,
        ) && change_keeps(
            p,
            pending.result.patch_bytes as int,
            pending.result.changed_paths@.len() as int,
            pending.result.ignored_paths@.len() as int,
            pending.result.ignored_bytes as int,
        )),
        r matches Ok(found) ==> found == pending,
{
    if let Ok(p) = reads.policy {
        lemma_may_use(p, pending.capsule.source_worktree.bytes@);
    }
    assert(pending.result.changed_paths.len() <= usize::MAX);
    assert(pending.result.ignored_paths.len() <= usize::MAX);
}

/// A checkpoint is admitted, and then unchanged, exactly where the policy lets
/// work on its capsule go on and the complete change that it leads to keeps to
/// the limits. A change that could not be read is left to the journaling.
pub proof fn law_checkpoints_are_held_against_the_policy(
    request: CheckpointRequest,
    complete: std::result::Result<Snapshot, Error>,
    reads: CheckpointReads,
    now: u64,
    r: std::result::Result<CheckpointRequest, Error>,
)
    requires
        call_ensures(admission::admit_checkpoint, (request, &complete, reads, now), r),
    ensures
        r is Ok <==> (reads.general.policy matches Ok(p) && may_go_on(
            p,
            request.capsule,
            now,
            reads.general.state_bytes,
            reads.general.workspace_bytes,
        ) && (complete matches Ok(change) ==> {
            &&& change.patch@.len() <= p.max_patch_bytes
            &&& keeps(change.changed_paths@.len() as int, p.max_changed_paths)
            &&& p.max_ignored_paths is Some || p.max_ignored_bytes is Some ==> (
            reads.ignored_paths matches Ok(found) && keeps(found@.len() as int, p.max_ignored_paths))
            &&& p.max_ignored_bytes is Some ==> (reads.ignored_bytes matches Ok(n) && keeps(
                n as int,
                p.max_ignored_bytes,
            ))
        })),
        r matches Ok(found) ==> found == request,
{
    if let Ok(p) = reads.general.policy {
        lemma_may_use(p, request.capsule.source_worktree.bytes@);
    }
    if let Ok(change) = complete {
        assert(change.patch.len() <= usize::MAX);
        assert(change.changed_paths.len() <= usize::MAX);
    }
    if let Ok(found) = reads.ignored_paths {
        assert(found.len() <= usize::MAX);
    }
}

/// Whether the ignored content that is in a workspace now keeps to a policy.
pub open spec fn ignored_keeps(p: Policy, o: PolicyObservation) -> bool {
    p.max_ignored_paths is Some || p.max_ignored_bytes is Some ==> {
        &&& o.ignored_paths matches Ok(found) && keeps(found@.len() as int, p.max_ignored_paths)
        &&& p.max_ignored_bytes is Some ==> (o.ignored_bytes matches Ok(n) && keeps(
            n as int,
            p.max_ignored_bytes,
        ))
    }
}

/// Whether a sealed capsule keeps to a policy: its result does and is intact,
/// and so does the ignored content that its workspace holds, or held when the
/// result was sealed where the workspace is gone.
pub open spec fn sealed_keeps(
    p: Policy,
    c: Capsule,
    reference: ResultRef,
    o: PolicyObservation,
) -> bool {
    &&& reference.patch_bytes <= p.max_patch_bytes
    &&& keeps(reference.changed_paths as int, p.max_changed_paths)
    &&& sealing::is_intact(c, o.stored, o.patch)
    &&& if o.workspace_exists {
        p.max_ignored_paths is Some || p.max_ignored_bytes is Some ==> workspaces::is_own(
            c,
            o.inspection,
        ) && ignored_keeps(p, o)
    } else {
        &&& keeps(o.stored->Ok_0.result.ignored_paths@.len() as int, p.max_ignored_paths)
        &&& keeps(o.stored->Ok_0.result.ignored_bytes as int, p.max_ignored_bytes)
    }
}

/// Whether a capsule that is not sealed keeps to a policy.
pub open spec fn active_keeps(p: Policy, c: Capsule, o: PolicyObservation) -> bool {
    c.state is Active || c.state is Checkpointing ==> {
        &&& workspaces::is_own(c, o.inspection)
        &&& o.snapshot matches Ok(s) && s.patch@.len() <= p.max_patch_bytes && keeps(
            s.changed_paths@.len() as int,
            p.max_changed_paths,
        )
        &&& ignored_keeps(p, o)
    }
}

/// Whether a capsule keeps to a policy.
pub open spec fn capsule_keeps(p: Policy, c: Capsule, now: u64, o: PolicyObservation) -> bool {
    &&& may_use(p, c.source_worktree.bytes@)
    &&& c.state is Dropped || keeps(now - c.created_at_unix, p.max_capsule_age_seconds)
    &&& match c.result {
        Some(reference) => sealed_keeps(p, c, reference, o),
        None => active_keeps(p, c, o),
    }
}

proof fn lemma_capsule_keeps(p: Policy, c: Capsule, now: u64, o: PolicyObservation)
    ensures
        capsule_keeps(p, c, now, o) <==> policy::capsule_notes(p, c, now, o).len() == 0,
{
    lemma_may_use(p, c.source_worktree.bytes@);
    workspaces::lemma_own(c, o.inspection);
    sealing::lemma_intact(c, o.stored, o.patch);
    if let Ok(s) = o.snapshot {
        assert(s.patch.len() <= usize::MAX);
        assert(s.changed_paths.len() <= usize::MAX);
    }
    if let Ok(found) = o.ignored_paths {
        assert(found.len() <= usize::MAX);
    }
    if let Ok(s) = o.stored {
        assert(s.result.ignored_paths.len() <= usize::MAX);
        laws::lemma_views(s.result.ignored_paths@);
        assert(s.result@.ignored_paths.len() == s.result.ignored_paths@.len());
    }
    let standing = policy::standing_notes(p, c, now);
    match c.result {
        Some(reference) => {
            let rest = policy::sealed_notes(p, c, reference, o);
            assert(policy::capsule_notes(p, c, now, o).len() == standing.len() + rest.len());
            let usage = policy::sealed_usage_of(p, c, o.stored->Ok_0.result@, o);
            assert(policy::sealed_usage_notes(p, c.id@, usage).len() == usage.notes.len()
                + policy::capsule_limit_notes(
                c.id@,
                "ignored paths"@,
                usage.paths,
                p.max_ignored_paths,
            ).len() + policy::capsule_limit_notes(
                c.id@,
                "ignored bytes"@,
                usage.bytes,
                p.max_ignored_bytes,
            ).len());
        },
        None => {
            let rest = policy::active_notes(p, c, o);
            assert(policy::capsule_notes(p, c, now, o).len() == standing.len() + rest.len());
        },
    }
}

/// Whether one of a row of texts says something.
pub open spec fn says(row: Seq<String>, t: Seq<char>) -> bool {
    exists|i: int| 0 <= i < row.len() && (#[trigger] row[i])@ == t
}

proof fn lemma_says(row: Seq<String>, t: Seq<char>)
    ensures
        says(row, t) <==> git::texts(row).contains(t),
{
    let all = git::texts(row);
    if says(row, t) {
        let i = choose|i: int| 0 <= i < row.len() && (#[trigger] row[i])@ == t;
        assert(all[i] == t);
    }
    if all.contains(t) {
        let i = all.index_of(t);
        assert(row[i]@ == t);
    }
}

proof fn lemma_noted(a: Seq<Seq<char>>, b: Seq<Seq<char>>, t: Seq<char>)
    ensures
        (a + b).contains(t) <==> a.contains(t) || b.contains(t),
{
    let c = a + b;
    if a.contains(t) {
        let i = a.index_of(t);
        assert(c[i] == t);
    }
    if b.contains(t) {
        let i = b.index_of(t);
        assert(c[a.len() + i] == t);
    }
    if c.contains(t) {
        let i = c.index_of(t);
        if i < a.len() {
            assert(a[i] == t);
        } else {
            assert(b[i - a.len()] == t);
        }
    }
}

/// A capsule that keeps to the policy is reported for nothing, and any other is
/// reported. What is over a limit is named with the value and the limit.
pub proof fn law_violations_of_a_capsule_are_reported(
    m: CapsuleManager,
    p: Policy,
    c: Capsule,
    now: u64,
    o: PolicyObservation,
    r: Vec<String>,
)
    requires
        call_ensures(CapsuleManager::capsule_policy_violations, (&m, &p, &c, now, o), r),
    ensures
        r@.len() == 0 <==> capsule_keeps(p, c, now, o),
        !may_use(p, c.source_worktree.bytes@) ==> says(
            r@,
            "capsule "@ + c.id@ + " repository is outside allowed roots: "@
                + crate::digest::lossy_text_of(c.source_worktree.bytes@),
        ),
        !(c.state is Dropped) && !keeps(now - c.created_at_unix, p.max_capsule_age_seconds) ==> says(
            r@,
            "capsule "@ + c.id@ + " age "@ + wording::digits(now - c.created_at_unix)
                + " seconds exceeds limit "@ + wording::digits(
                p.max_capsule_age_seconds->0 as int,
            ),
        ),
        (c.result matches Some(reference) && reference.patch_bytes > p.max_patch_bytes) ==> says(
            r@,
            "capsule "@ + c.id@ + " "@ + over(
                "patch bytes"@,
                c.result->0.patch_bytes as int,
                p.max_patch_bytes as int,
            ),
        ),
        (c.result matches Some(reference) && !keeps(
            reference.changed_paths as int,
            p.max_changed_paths,
        )) ==> says(
            r@,
            "capsule "@ + c.id@ + " "@ + over(
                "changed paths"@,
                c.result->0.changed_paths as int,
                p.max_changed_paths->0 as int,
            ),
        ),
        (c.result is None && (c.state is Active || c.state is Checkpointing) && workspaces::is_own(
            c,
            o.inspection,
        ) && (o.snapshot matches Ok(s) && s.patch@.len() > p.max_patch_bytes)) ==> says(
            r@,
            "capsule "@ + c.id@ + " "@ + over(
                "patch bytes"@,
                o.snapshot->Ok_0.patch@.len() as int,
                p.max_patch_bytes as int,
            ),
        ),
        (c.result is None && (c.state is Active || c.state is Checkpointing) && workspaces::is_own(
            c,
            o.inspection,
        ) && (o.snapshot matches Ok(s) && !keeps(
            s.changed_paths@.len() as int,
            p.max_changed_paths,
        ))) ==> says(
            r@,
            "capsule "@ + c.id@ + " "@ + over(
                "changed paths"@,
                o.snapshot->Ok_0.changed_paths@.len() as int,
                p.max_changed_paths->0 as int,
            ),
        ),
{
    lemma_capsule_keeps(p, c, now, o);
    lemma_may_use(p, c.source_worktree.bytes@);
    workspaces::lemma_own(c, o.inspection);
    assert(git::texts(r@).len() == r@.len());
    let all = policy::capsule_notes(p, c, now, o);
    let standing = policy::standing_notes(p, c, now);
    let rest = match c.result {
        Some(reference) => policy::sealed_notes(p, c, reference, o),
        None => policy::active_notes(p, c, o),
    };
    assert(all == standing + rest);
    let outside = "capsule "@ + c.id@ + " repository is outside allowed roots: "@
        + crate::digest::lossy_text_of(c.source_worktree.bytes@);
    lemma_says(r@, outside);
    lemma_noted(standing, rest, outside);
    if !may_use(p, c.source_worktree.bytes@) {
        assert(standing[0] == outside);
    }
    if let Some(l) = p.max_capsule_age_seconds {
        let old = "capsule "@ + c.id@ + " age "@ + wording::digits(now - c.created_at_unix)
            + " seconds exceeds limit "@ + wording::digits(l as int);
        lemma_says(r@, old);
        lemma_noted(standing, rest, old);
        if !(c.state is Dropped) && now - c.created_at_unix > l {
            wording::lemma_digits((now - c.created_at_unix) as nat);
            wording::lemma_digits(l as nat);
            assert(standing.last() == old);
            assert(standing.contains(old));
        }
    }
    let patch = match c.result {
        Some(reference) => reference.patch_bytes,
        None => o.snapshot->Ok_0.patch@.len() as u64,
    };
    let changed = match c.result {
        Some(reference) => reference.changed_paths as u64,
        None => o.snapshot->Ok_0.changed_paths@.len() as u64,
    };
    if let Ok(s) = o.snapshot {
        assert(s.patch.len() <= usize::MAX);
        assert(s.changed_paths.len() <= usize::MAX);
    }
    let first = policy::capsule_limit_notes(c.id@, "patch bytes"@, patch, Some(p.max_patch_bytes));
    let second = policy::capsule_limit_notes(
        c.id@,
        "changed paths"@,
        changed,
        p.max_changed_paths,
    );
    lemma_over("patch bytes"@, patch, p.max_patch_bytes);
    let large = "capsule "@ + c.id@ + " "@ + over(
        "patch bytes"@,
        patch as int,
        p.max_patch_bytes as int,
    );
    lemma_says(r@, large);
    lemma_noted(standing, rest, large);
    if patch > p.max_patch_bytes {
        assert(first[0] == large);
        lemma_noted(first, second, large);
        lemma_noted(first + second, policy::sealed_artifact_notes(p, c, o), large);
        lemma_noted(first + second, policy::active_ignored_notes(p, c.id@, o), large);
    }
    if let Some(l) = p.max_changed_paths {
        lemma_over("changed paths"@, changed, l);
        let many = "capsule "@ + c.id@ + " "@ + over("changed paths"@, changed as int, l as int);
        lemma_says(r@, many);
        lemma_noted(standing, rest, many);
        if changed > l {
            assert(second[0] == many);
            lemma_noted(first, second, many);
            lemma_noted(first + second, policy::sealed_artifact_notes(p, c, o), many);
            lemma_noted(first + second, policy::active_ignored_notes(p, c.id@, o), many);
        }
    }
}

/// The capsules that entries are about.
pub open spec fn held(entries: Seq<PolicyEntry>) -> Seq<Capsule> {
    Seq::new(entries.len(), |i: int| entries[i].capsule)
}

/// Whether everything keeps to a policy.
pub open spec fn all_keeps(
    p: Policy,
    entries: Seq<PolicyEntry>,
    state_bytes: std::result::Result<u64, Error>,
    workspace_bytes: std::result::Result<u64, Error>,
    now: u64,
) -> bool {
    &&& keeps(entries.len() as int, p.max_capsules)
    &&& keeps(live(held(entries)), p.max_live_capsules)
    &&& sizes_keep(p, state_bytes, workspace_bytes)
    &&& forall|i: int|
        0 <= i < entries.len() ==> capsule_keeps(
            p,
            (#[trigger] entries[i]).capsule,
            now,
            entries[i].observed,
        )
}

proof fn lemma_entries(p: Policy, entries: Seq<PolicyEntry>, now: u64)
    ensures
        policy::entry_notes(p, entries, now).len() == 0 <==> forall|i: int|
            0 <= i < entries.len() ==> capsule_keeps(
                p,
                (#[trigger] entries[i]).capsule,
                now,
                entries[i].observed,
            ),
    decreases entries.len(),
{
    if entries.len() > 0 {
        let front = entries.drop_last();
        let last = entries.last();
        lemma_entries(p, front, now);
        lemma_capsule_keeps(p, last.capsule, now, last.observed);
        let all = policy::entry_notes(p, entries, now);
        assert(all.len() == policy::entry_notes(p, front, now).len() + policy::capsule_notes(
            p,
            last.capsule,
            now,
            last.observed,
        ).len());
        if all.len() == 0 {
            assert forall|i: int| 0 <= i < entries.len() implies capsule_keeps(
                p,
                (#[trigger] entries[i]).capsule,
                now,
                entries[i].observed,
            ) by {
                if i < front.len() {
                    assert(front[i] == entries[i]);
                }
            }
        }
        if forall|i: int|
            0 <= i < entries.len() ==> capsule_keeps(
                p,
                (#[trigger] entries[i]).capsule,
                now,
                entries[i].observed,
            ) {
            assert forall|i: int| 0 <= i < front.len() implies capsule_keeps(
                p,
                (#[trigger] front[i]).capsule,
                now,
                front[i].observed,
            ) by {
                assert(front[i] == entries[i]);
            }
            assert(entries[entries.len() - 1] == last);
        }
    }
}

proof fn lemma_entry_noted(p: Policy, entries: Seq<PolicyEntry>, now: u64, i: int, t: Seq<char>)
    requires
        0 <= i < entries.len(),
        policy::capsule_notes(p, entries[i].capsule, now, entries[i].observed).contains(t),
    ensures
        policy::entry_notes(p, entries, now).contains(t),
    decreases entries.len(),
{
    let front = entries.drop_last();
    let last = entries.last();
    lemma_noted(
        policy::entry_notes(p, front, now),
        policy::capsule_notes(p, last.capsule, now, last.observed),
        t,
    );
    if i < front.len() {
        assert(front[i] == entries[i]);
        lemma_entry_noted(p, front, now, i, t);
    }
}

/// A report is made exactly where the policy can be applied and the sizes that
/// it limits could be read. It finds everything compliant exactly where all
/// keeps to the policy. What a single capsule is reported for is in it.
pub proof fn law_reports_find_every_violation(
    m: CapsuleManager,
    p: Policy,
    entries: Vec<PolicyEntry>,
    state_bytes: std::result::Result<u64, Error>,
    workspace_bytes: std::result::Result<u64, Error>,
    now: u64,
    r: std::result::Result<PolicyReport, Error>,
    k: int,
    single: Vec<String>,
    n: int,
)
    requires
        call_ensures(
            CapsuleManager::policy_report,
            (&m, Ok(p), Ok(entries), state_bytes, workspace_bytes, now),
            r,
        ),
        0 <= k < entries@.len() ==> call_ensures(
            CapsuleManager::capsule_policy_violations,
            (&m, &p, &entries@[k].capsule, now, entries@[k].observed),
            single,
        ),
    ensures
        r is Ok <==> is_applicable(p) && (p.max_state_bytes is Some ==> state_bytes is Ok) && (
        p.max_workspace_bytes is Some ==> workspace_bytes is Ok),
        r matches Ok(report) ==> {
            &&& report.compliant == all_keeps(p, entries@, state_bytes, workspace_bytes, now)
            &&& report.compliant == (report.violations@.len() == 0)
            &&& !keeps(entries@.len() as int, p.max_capsules) ==> says(
                report.violations@,
                over("capsule records"@, entries@.len() as int, p.max_capsules->0 as int),
            )
            &&& !keeps(live(held(entries@)), p.max_live_capsules) ==> says(
                report.violations@,
                over(
                    "live capsules"@,
                    live(held(entries@)),
                    p.max_live_capsules->0 as int,
                ),
            )
            &&& p.max_state_bytes is Some && !keeps(state_bytes->Ok_0 as int, p.max_state_bytes)
                ==> says(
                report.violations@,
                over("state bytes"@, state_bytes->Ok_0 as int, p.max_state_bytes->0 as int),
            )
            &&& p.max_workspace_bytes is Some && !keeps(
                workspace_bytes->Ok_0 as int,
                p.max_workspace_bytes,
            ) ==> says(
                report.violations@,
                over(
                    "workspace bytes"@,
                    workspace_bytes->Ok_0 as int,
                    p.max_workspace_bytes->0 as int,
                ),
            )
            &&& 0 <= k < entries@.len() && 0 <= n < single@.len() ==> says(
                report.violations@,
                single@[n]@,
            )
        },
{
    lemma_applicable(p);
    if let Ok(report) = r {
        let rows = report.violations@;
        let capsules = policy::capsules_in(entries@);
        lemma_live(capsules);
        assert(capsules =~= held(entries@));
        lemma_entries(p, entries@, now);
        assert(entries.len() <= usize::MAX);
        assert(capsules.len() == entries@.len());
        assert(git::texts(rows).len() == rows.len());
        let (s, w) = (state_bytes->Ok_0, workspace_bytes->Ok_0);
        let a = policy::limit_notes("capsule records"@, capsules.len() as u64, p.max_capsules);
        let b = policy::limit_notes(
            "live capsules"@,
            policy::live_of(capsules) as u64,
            p.max_live_capsules,
        );
        let c = policy::limit_notes("state bytes"@, s, p.max_state_bytes);
        let d = policy::limit_notes("workspace bytes"@, w, p.max_workspace_bytes);
        let total = policy::total_notes(p, capsules, s, w);
        let each = policy::entry_notes(p, entries@, now);
        assert(total == a + b + c + d);
        assert(git::texts(rows) == total + each);
        assert(rows.len() == a.len() + b.len() + c.len() + d.len() + each.len());
        if let Some(l) = p.max_capsules {
            let t = over("capsule records"@, entries@.len() as int, l as int);
            lemma_over("capsule records"@, entries@.len() as u64, l);
            lemma_says(rows, t);
            lemma_noted(total, each, t);
            lemma_noted(a + b + c, d, t);
            lemma_noted(a + b, c, t);
            lemma_noted(a, b, t);
            if entries@.len() > l {
                assert(a[0] == t);
            }
        }
        if let Some(l) = p.max_live_capsules {
            let t = over("live capsules"@, live(capsules), l as int);
            lemma_over("live capsules"@, live(capsules) as u64, l);
            lemma_says(rows, t);
            lemma_noted(total, each, t);
            lemma_noted(a + b + c, d, t);
            lemma_noted(a + b, c, t);
            lemma_noted(a, b, t);
            if live(capsules) > l {
                assert(b[0] == t);
            }
        }
        if let Some(l) = p.max_state_bytes {
            let t = over("state bytes"@, s as int, l as int);
            lemma_over("state bytes"@, s, l);
            lemma_says(rows, t);
            lemma_noted(total, each, t);
            lemma_noted(a + b + c, d, t);
            lemma_noted(a + b, c, t);
            if s > l {
                assert(c[0] == t);
            }
        }
        if let Some(l) = p.max_workspace_bytes {
            let t = over("workspace bytes"@, w as int, l as int);
            lemma_over("workspace bytes"@, w, l);
            lemma_says(rows, t);
            lemma_noted(total, each, t);
            lemma_noted(a + b + c, d, t);
            if w > l {
                assert(d[0] == t);
            }
        }
        if 0 <= k < entries@.len() && 0 <= n < single@.len() {
            let t = single@[n]@;
            assert(git::texts(single@)[n] == t);
            lemma_entry_noted(p, entries@, now, k, t);
            lemma_noted(total, each, t);
            lemma_says(rows, t);
        }
    }
}

/// A policy is installed exactly where it can be applied once every root that it
/// names was resolved to a directory. What is installed names those directories,
/// each once, and says everything else as it was asked.
pub proof fn law_policies_are_installed_as_asked(
    m: CapsuleManager,
    p: Policy,
    roots: Vec<RootReads>,
    r: std::result::Result<Policy, Error>,
)
    requires
        call_ensures(CapsuleManager::set_policy, (&m, p, roots), r),
    ensures
        r is Ok <==> {
            &&& roots@.len() == p.allowed_repository_roots@.len()
            &&& forall|i: int|
                0 <= i < roots@.len() ==> is_resolved(
                    #[trigger] roots@[i],
                    p.allowed_repository_roots@[i],
                )
            &&& p.schema_version == 1
            &&& 0 < p.max_patch_bytes <= 67108864
        },
        r matches Ok(found) ==> {
            &&& is_applicable(found)
            &&& found == (Policy {
                allowed_repository_roots: found.allowed_repository_roots,
                ..p
            })
            &&& forall|i: int|
                0 <= i < roots@.len() ==> names_place(
                    found.allowed_repository_roots@,
                    (#[trigger] roots@[i]).canonical->Ok_0.bytes@,
                )
            &&& forall|i: int|
                0 <= i < found.allowed_repository_roots@.len() ==> is_canonical_of(
                    #[trigger] found.allowed_repository_roots@[i],
                    roots@,
                )
            &&& forall|i: int, j: int|
                0 <= i < j < found.allowed_repository_roots@.len() ==> !places::same_place(
                    (#[trigger] found.allowed_repository_roots@[i]).bytes@,
                    (#[trigger] found.allowed_repository_roots@[j]).bytes@,
                )
        },
{
    lemma_resolved(roots@);
    if policy::are_requested(roots@, p) && policy::resolved_roots(roots@) is Ok {
        let all = policy::resolved_roots(roots@)->Ok_0;
        let kept = policy::distinct(order::sorted(all));
        lemma_kept(all);
        if policy::policy_check(p, kept) is Ok {
            let found = r->Ok_0;
            policy::law_installed_roots_are_the_requested_ones(found, p, roots@, all);
            lemma_applicable(found);
            assert forall|i: int| 0 <= i < roots@.len() implies is_resolved(
                #[trigger] roots@[i],
                p.allowed_repository_roots@[i],
            ) by {
                assert(policy::holds(kept, all[i]@));
                let k = choose|k: int|
                    0 <= k < kept.len() && paths::same((#[trigger] kept[k])@, all[i]@);
                assert(paths::is_absolute(kept[k]@));
                lemma_same_rooted(kept[k]@, all[i]@);
            }
            assert forall|i: int| 0 <= i < roots@.len() implies names_place(
                found.allowed_repository_roots@,
                (#[trigger] roots@[i]).canonical->Ok_0.bytes@,
            ) by {
                assert(policy::holds(kept, all[i]@));
                let k = choose|k: int|
                    0 <= k < kept.len() && paths::same((#[trigger] kept[k])@, all[i]@);
                places::lemma_same_place(kept[k].bytes@, all[i].bytes@);
            }
            assert forall|i: int| 0 <= i < kept.len() implies is_canonical_of(
                #[trigger] kept[i],
                roots@,
            ) by {
                assert(all.contains(kept[i]));
                let k = all.index_of(kept[i]);
                assert(roots@[k].canonical == Ok::<NativePath, Error>(kept[i]));
            }
            assert forall|i: int, j: int| 0 <= i < j < kept.len() implies !places::same_place(
                (#[trigger] kept[i]).bytes@,
                (#[trigger] kept[j]).bytes@,
            ) by {
                places::lemma_same_place(kept[i].bytes@, kept[j].bytes@);
                assert(found.allowed_repository_roots@[i].precedes(
                    found.allowed_repository_roots@[j],
                ));
                paths::lemma_components_irreflexive(paths::components(kept[i]@));
            }
        } else if p.schema_version == 1 && 0 < p.max_patch_bytes <= 67108864 {
            let k = choose|k: int| 0 <= k < kept.len() && !paths::is_absolute(#[trigger] kept[k]@);
            assert(all.contains(kept[k]));
            let i = all.index_of(kept[k]);
            assert(!is_resolved(roots@[i], p.allowed_repository_roots@[i]));
        }
    }
    if policy::are_requested(roots@, p) && policy::resolved_roots(roots@) is Err {
        let i = choose|i: int|
            0 <= i < roots@.len() && ((#[trigger] roots@[i]).canonical is Err
                || !roots@[i].directory);
        assert(!is_resolved(roots@[i], p.allowed_repository_roots@[i]));
    }
    if !policy::are_requested(roots@, p) && roots@.len() == p.allowed_repository_roots@.len() {
        let i = choose|i: int|
            0 <= i < roots@.len() && (#[trigger] roots@[i]).requested@
                != p.allowed_repository_roots@[i]@;
        assert(!is_resolved(roots@[i], p.allowed_repository_roots@[i]));
    }
}

/// Whether a root was resolved to a directory.
pub open spec fn is_resolved(reads: RootReads, requested: NativePath) -> bool {
    &&& reads.requested.bytes@ == requested.bytes@
    &&& reads.canonical matches Ok(p) && places::is_rooted(p.bytes@)
    &&& reads.directory
}

/// Whether a row of paths names a place.
pub open spec fn names_place(row: Seq<NativePath>, p: Seq<u8>) -> bool {
    exists|i: int| 0 <= i < row.len() && places::same_place((#[trigger] row[i]).bytes@, p)
}

/// Whether a path is what one of the roots was resolved to.
pub open spec fn is_canonical_of(p: NativePath, roots: Seq<RootReads>) -> bool {
    exists|i: int|
        0 <= i < roots.len() && (#[trigger] roots[i]).canonical == Ok::<NativePath, Error>(p)
}

proof fn lemma_same_rooted(a: Seq<u8>, b: Seq<u8>)
    requires
        paths::same(a, b),
    ensures
        places::is_rooted(a) == places::is_rooted(b),
{
    places::lemma_same_place(a, b);
}

proof fn lemma_resolved(roots: Seq<RootReads>)
    ensures
        policy::resolved_roots(roots) is Err ==> exists|i: int|
            0 <= i < roots.len() && ((#[trigger] roots[i]).canonical is Err || !roots[i].directory),
        policy::resolved_roots(roots) matches Ok(all) ==> all.len() == roots.len() && forall|i: int|
            0 <= i < roots.len() ==> (#[trigger] roots[i]).directory && roots[i].canonical == Ok::<
                NativePath,
                Error,
            >(all[i]),
    decreases roots.len(),
{
    if roots.len() > 0 {
        let front = roots.drop_last();
        lemma_resolved(front);
        if policy::resolved_roots(front) is Err {
            let i = choose|i: int|
                0 <= i < front.len() && ((#[trigger] front[i]).canonical is Err
                    || !front[i].directory);
            assert(roots[i] == front[i]);
        } else if policy::resolved_roots(roots) is Err {
            assert(roots[roots.len() - 1] == roots.last());
        } else {
            let all = policy::resolved_roots(roots)->Ok_0;
            assert forall|i: int| 0 <= i < roots.len() implies (#[trigger] roots[i]).directory
                && roots[i].canonical == Ok::<NativePath, Error>(all[i]) by {
                if i < front.len() {
                    assert(front[i] == roots[i]);
                }
            }
        }
    }
}

proof fn lemma_kept(all: Seq<NativePath>)
    ensures
        forall|i: int|
            0 <= i < policy::distinct(order::sorted(all)).len() ==> all.contains(
                #[trigger] policy::distinct(order::sorted(all))[i],
            ),
{
    lemma_distinct_rows(order::sorted(all));
    let kept = policy::distinct(order::sorted(all));
    assert forall|i: int| 0 <= i < kept.len() implies all.contains(#[trigger] kept[i]) by {
        let k = order::sorted(all).index_of(kept[i]);
        order::lemma_sorted_contains(all, k);
    }
}

proof fn lemma_distinct_rows(rows: Seq<NativePath>)
    ensures
        forall|i: int|
            0 <= i < policy::distinct(rows).len() ==> rows.contains(
                #[trigger] policy::distinct(rows)[i],
            ),
    decreases rows.len(),
{
    if rows.len() > 0 {
        let front = rows.drop_last();
        lemma_distinct_rows(front);
        let kept = policy::distinct(rows);
        assert forall|i: int| 0 <= i < kept.len() implies rows.contains(#[trigger] kept[i]) by {
            if i < policy::distinct(front).len() {
                let k = front.index_of(policy::distinct(front)[i]);
                assert(rows[k] == kept[i]);
            } else {
                assert(rows[rows.len() - 1] == kept[i]);
            }
        }
    }
}

} // verus!
