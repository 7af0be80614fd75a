//! Resource and repository policy.
//!
//! A policy limits which repositories may be used and how much may be kept. It
//! is permissive by default.

use vstd::prelude::*;
use vstd::string::*;

use crate::artifacts::StoredResult;
use crate::error::{Error, ErrorView};
use crate::git::{Repository, Snapshot};
use crate::git_path::GitPath;
use crate::manager::CapsuleManager;
use crate::model::{
    Capsule, CapsuleResult, CapsuleState, ResultRef, ResultView, HARD_PATCH_BYTES,
};
use crate::order::Ordered;
use crate::paths::NativePath;
use crate::worktree::WorktreeInspection;
use crate::{artifacts, bytes, error, git, order, paths, text, worktree};

verus! {

/// Schema version of the stored policy.
pub const POLICY_SCHEMA_VERSION: u32 = 1;

/// Limits on repositories and resources. A limit that is absent does not
/// apply.
#[derive(Debug, PartialEq, Eq)]
pub struct Policy {
    /// Schema version of this record.
    pub schema_version: u32,
    /// Directories whose repositories may be used; all of them where empty.
    pub allowed_repository_roots: Vec<NativePath>,
    /// Most durable capsule records.
    pub max_capsules: Option<u64>,
    /// Most capsules that are not dropped.
    pub max_live_capsules: Option<u64>,
    /// Most bytes of one patch.
    pub max_patch_bytes: u64,
    /// Most changed paths of one result.
    pub max_changed_paths: Option<u64>,
    /// Most ignored paths in one workspace.
    pub max_ignored_paths: Option<u64>,
    /// Most bytes of ignored content in one workspace.
    pub max_ignored_bytes: Option<u64>,
    /// Oldest age of a capsule in seconds.
    pub max_capsule_age_seconds: Option<u64>,
    /// Most bytes of durable state.
    pub max_state_bytes: Option<u64>,
    /// Most bytes of live workspaces.
    pub max_workspace_bytes: Option<u64>,
}

/// Whether a policy is the permissive one.
pub open spec fn is_default(p: Policy) -> bool {
    &&& p.schema_version == POLICY_SCHEMA_VERSION
    &&& p.allowed_repository_roots@.len() == 0
    &&& p.max_capsules is None
    &&& p.max_live_capsules is None
    &&& p.max_patch_bytes == HARD_PATCH_BYTES
    &&& p.max_changed_paths is None
    &&& p.max_ignored_paths is None
    &&& p.max_ignored_bytes is None
    &&& p.max_capsule_age_seconds is None
    &&& p.max_state_bytes is None
    &&& p.max_workspace_bytes is None
}

impl Default for Policy {
    fn default() -> (r: Self)
        ensures
            is_default(r),
    {
        Policy {
            schema_version: POLICY_SCHEMA_VERSION,
            allowed_repository_roots: Vec::new(),
            max_capsules: None,
            max_live_capsules: None,
            max_patch_bytes: HARD_PATCH_BYTES,
            max_changed_paths: None,
            max_ignored_paths: None,
            max_ignored_bytes: None,
            max_capsule_age_seconds: None,
            max_state_bytes: None,
            max_workspace_bytes: None,
        }
    }
}

/// What evaluating all records against a policy found.
#[derive(Debug, PartialEq, Eq)]
pub struct PolicyReport {
    /// Whether nothing violates the policy.
    pub compliant: bool,
    /// What does, in words.
    pub violations: Vec<String>,
}

/// What a check of a policy with the given roots says.
pub open spec fn policy_check(p: Policy, roots: Seq<NativePath>) -> std::result::Result<
    (),
    ErrorView,
> {
    if p.schema_version != POLICY_SCHEMA_VERSION {
        Err(
            ErrorView::PolicyViolation(
                "policy schema version "@ + text::decimal(p.schema_version as nat)
                    + " is incompatible with supported version "@ + text::decimal(
                    POLICY_SCHEMA_VERSION as nat,
                ),
            ),
        )
    } else if p.max_patch_bytes > HARD_PATCH_BYTES {
        Err(
            ErrorView::PolicyViolation(
                "max_patch_bytes cannot exceed the hard safety bound of "@ + text::decimal(
                    HARD_PATCH_BYTES as nat,
                ),
            ),
        )
    } else if p.max_patch_bytes == 0 {
        Err(ErrorView::PolicyViolation("max_patch_bytes must be greater than zero"@))
    } else if exists|i: int| 0 <= i < roots.len() && !paths::is_absolute(#[trigger] roots[i]@) {
        Err(ErrorView::PolicyViolation("allowed repository roots must be absolute paths"@))
    } else {
        Ok(())
    }
}

impl Policy {
    /// What a check of a policy says.
    pub open spec fn check(self) -> std::result::Result<(), ErrorView> {
        policy_check(self, self.allowed_repository_roots@)
    }

    /// Refuse a policy that cannot be applied.
    pub fn validate(&self) -> (r: std::result::Result<(), Error>)
        ensures
            error::outcome(r) == self.check(),
    {
        if self.schema_version != POLICY_SCHEMA_VERSION {
            return Err(
                Error::PolicyViolation(
                    text::cat4(
                        "policy schema version ",
                        text::decimal_text(self.schema_version as u64).as_str(),
                        " is incompatible with supported version ",
                        text::decimal_text(POLICY_SCHEMA_VERSION as u64).as_str(),
                    ),
                ),
            );
        }
        if self.max_patch_bytes > HARD_PATCH_BYTES {
            return Err(
                Error::PolicyViolation(
                    text::cat2(
                        "max_patch_bytes cannot exceed the hard safety bound of ",
                        text::decimal_text(HARD_PATCH_BYTES).as_str(),
                    ),
                ),
            );
        }
        if self.max_patch_bytes == 0 {
            return Err(
                Error::PolicyViolation("max_patch_bytes must be greater than zero".to_owned()),
            );
        }
        if !all_absolute(&self.allowed_repository_roots) {
            return Err(
                Error::PolicyViolation(
                    "allowed repository roots must be absolute paths".to_owned(),
                ),
            );
        }
        Ok(())
    }
}

fn all_absolute(roots: &Vec<NativePath>) -> (r: bool)
    ensures
        r == !(exists|i: int|
            0 <= i < roots@.len() && !paths::is_absolute(#[trigger] roots@[i]@)),
{
    let mut i: usize = 0;
    while i < roots.len()
        invariant
            i <= roots.len(),
            forall|j: int| 0 <= j < i ==> paths::is_absolute(#[trigger] roots@[j]@),
        decreases roots.len() - i,
    {
        if !roots[i].is_absolute() {
            assert(!paths::is_absolute(roots@[i as int]@));
            return false;
        }
        i += 1;
    }
    true
}

/// Whether a policy lets a repository be used.
pub open spec fn allows(p: Policy, worktree: Seq<u8>) -> bool {
    p.allowed_repository_roots@.len() == 0 || exists|i: int|
        0 <= i < p.allowed_repository_roots@.len() && paths::is_within(
            worktree,
            #[trigger] p.allowed_repository_roots@[i]@,
        )
}

/// Test for [`allows`].
pub fn repository_allowed(policy: &Policy, worktree: &NativePath) -> (r: bool)
    ensures
        r == allows(*policy, worktree@),
{
    let n: usize = policy.allowed_repository_roots.len();
    if n == 0 {
        return true;
    }
    let mut i: usize = 0;
    while i < n
        invariant
            n == policy.allowed_repository_roots@.len(),
            n > 0,
            i <= n,
            forall|j: int|
                0 <= j < i ==> !paths::is_within(
                    worktree@,
                    #[trigger] policy.allowed_repository_roots@[j]@,
                ),
        decreases n - i,
    {
        if worktree.is_within(&policy.allowed_repository_roots[i]) {
            assert(paths::is_within(
                worktree@,
                policy.allowed_repository_roots@[i as int]@,
            ));
            return true;
        }
        i += 1;
    }
    false
}

/// Whether a value is over its limit.
pub open spec fn over_limit(value: u64, limit: Option<u64>) -> bool {
    limit matches Some(l) && value > l
}

/// The message for a value over its limit.
pub open spec fn limit_text(name: Seq<char>, value: u64, limit: u64) -> Seq<char> {
    name + " "@ + text::decimal(value as nat) + " exceeds limit "@ + text::decimal(limit as nat)
}

fn limit_message(name: &str, value: u64, limit: u64) -> (r: String)
    ensures
        r@ == limit_text(name@, value, limit),
{
    text::cat5(
        name,
        " ",
        text::decimal_text(value).as_str(),
        " exceeds limit ",
        text::decimal_text(limit).as_str(),
    )
}

/// What a report says of a value and its limit.
pub open spec fn limit_notes(name: Seq<char>, value: u64, limit: Option<u64>) -> Seq<Seq<char>> {
    if over_limit(value, limit) {
        seq![limit_text(name, value, limit->0)]
    } else {
        Seq::empty()
    }
}

/// What a report says of a capsule's value and its limit.
pub open spec fn capsule_limit_notes(
    id: Seq<char>,
    name: Seq<char>,
    value: u64,
    limit: Option<u64>,
) -> Seq<Seq<char>> {
    if over_limit(value, limit) {
        seq!["capsule "@ + id + " "@ + limit_text(name, value, limit->0)]
    } else {
        Seq::empty()
    }
}

/// What a report says where something of a capsule could not be read.
pub open spec fn unread_note(id: Seq<char>, what: Seq<char>, e: ErrorView) -> Seq<char> {
    "capsule "@ + id + what + error::message_of(e)
}

fn note(violations: &mut Vec<String>, message: String)
    ensures
        git::texts(final(violations)@) == git::texts(old(violations)@).push(message@),
{
    let ghost before = violations@;
    violations.push(message);
    proof {
        assert(git::texts(violations@) =~= git::texts(before).push(message@));
    }
}

/// Note a value that is over its limit.
pub fn check_limit(violations: &mut Vec<String>, name: &str, value: u64, limit: Option<u64>)
    ensures
        git::texts(final(violations)@) == git::texts(old(violations)@) + limit_notes(
            name@,
            value,
            limit,
        ),
{
    let ghost before = git::texts(violations@);
    match limit {
        Some(l) => if value > l {
            note(violations, limit_message(name, value, l));
            proof {
                assert(git::texts(violations@) =~= before + limit_notes(name@, value, limit));
            }
            return ;
        },
        None => {},
    }
    proof {
        assert(git::texts(violations@) =~= before + limit_notes(name@, value, limit));
    }
}

/// Note a capsule's value that is over its limit.
pub fn check_capsule_limit(
    violations: &mut Vec<String>,
    id: &str,
    name: &str,
    value: u64,
    limit: Option<u64>,
)
    ensures
        git::texts(final(violations)@) == git::texts(old(violations)@) + capsule_limit_notes(
            id@,
            name@,
            value,
            limit,
        ),
{
    let ghost before = git::texts(violations@);
    match limit {
        Some(l) => if value > l {
            note(
                violations,
                text::cat4("capsule ", id, " ", limit_message(name, value, l).as_str()),
            );
            proof {
                assert(git::texts(violations@) =~= before + capsule_limit_notes(
                    id@,
                    name@,
                    value,
                    limit,
                ));
            }
            return ;
        },
        None => {},
    }
    proof {
        assert(git::texts(violations@) =~= before + capsule_limit_notes(id@, name@, value, limit));
    }
}

fn note_unread(violations: &mut Vec<String>, id: &str, what: &str, e: &Error)
    ensures
        git::texts(final(violations)@) == git::texts(old(violations)@).push(
            unread_note(id@, what@, e@),
        ),
{
    note(violations, text::cat4("capsule ", id, what, e.message().as_str()));
}

/// What holding a value to its limit says.
pub open spec fn limit_check(name: Seq<char>, value: u64, limit: Option<u64>) -> std::result::Result<
    (),
    ErrorView,
> {
    if over_limit(value, limit) {
        Err(ErrorView::PolicyViolation(limit_text(name, value, limit->0)))
    } else {
        Ok(())
    }
}

/// Refuse a value that is over its limit.
pub fn enforce_limit(name: &str, value: u64, limit: Option<u64>) -> (r: std::result::Result<
    (),
    Error,
>)
    ensures
        error::outcome(r) == limit_check(name@, value, limit),
{
    match limit {
        Some(l) => if value > l {
            Err(Error::PolicyViolation(limit_message(name, value, l)))
        } else {
            Ok(())
        },
        None => Ok(()),
    }
}

/// What holding one more than a count to its limit says.
pub open spec fn next_limit_check(name: Seq<char>, count: u64, limit: Option<u64>) -> std::result::Result<
    (),
    ErrorView,
> {
    if limit matches Some(l) && count >= l {
        Err(
            ErrorView::PolicyViolation(
                name + " "@ + text::decimal(count as nat) + " reached limit "@ + text::decimal(
                    limit->0 as nat,
                ),
            ),
        )
    } else {
        Ok(())
    }
}

/// Refuse one more where a count has reached its limit.
pub fn enforce_next_limit(name: &str, count: u64, limit: Option<u64>) -> (r: std::result::Result<
    (),
    Error,
>)
    ensures
        error::outcome(r) == next_limit_check(name@, count, limit),
{
    match limit {
        Some(l) => if count >= l {
            Err(
                Error::PolicyViolation(
                    text::cat5(
                        name,
                        " ",
                        text::decimal_text(count).as_str(),
                        " reached limit ",
                        text::decimal_text(l).as_str(),
                    ),
                ),
            )
        } else {
            Ok(())
        },
        None => Ok(()),
    }
}

/// How many capsules are not dropped.
pub open spec fn live_of(capsules: Seq<Capsule>) -> nat
    decreases capsules.len(),
{
    if capsules.len() == 0 {
        0
    } else {
        live_of(capsules.drop_last()) + if capsules.last().state is Dropped {
            0nat
        } else {
            1nat
        }
    }
}

/// Count the capsules that are not dropped.
pub fn live_count(capsules: &Vec<Capsule>) -> (r: u64)
    ensures
        r == live_of(capsules@),
        r <= capsules@.len(),
{
    let mut live: u64 = 0;
    let mut i: usize = 0;
    while i < capsules.len()
        invariant
            i <= capsules.len(),
            live == live_of(capsules@.take(i as int)),
            live <= i,
        decreases capsules.len() - i,
    {
        proof {
            assert(capsules@.take(i + 1).drop_last() =~= capsules@.take(i as int));
        }
        if capsules[i].state != CapsuleState::Dropped {
            live += 1;
        }
        i += 1;
    }
    proof {
        assert(capsules@.take(capsules@.len() as int) =~= capsules@);
    }
    live
}

/// What the state and workspace byte limits say; each is read only where it
/// applies.
pub open spec fn space_check(
    p: Policy,
    state_bytes: std::result::Result<u64, Error>,
    workspace_bytes: std::result::Result<u64, Error>,
) -> std::result::Result<(), ErrorView> {
    if p.max_state_bytes is Some && state_bytes is Err {
        Err(state_bytes->Err_0@)
    } else if p.max_state_bytes is Some && limit_check(
        "state bytes"@,
        state_bytes->Ok_0,
        p.max_state_bytes,
    ) is Err {
        limit_check("state bytes"@, state_bytes->Ok_0, p.max_state_bytes)
    } else if p.max_workspace_bytes is Some && workspace_bytes is Err {
        Err(workspace_bytes->Err_0@)
    } else if p.max_workspace_bytes is Some {
        limit_check("workspace bytes"@, workspace_bytes->Ok_0, p.max_workspace_bytes)
    } else {
        Ok(())
    }
}

fn enforce_space(
    policy: &Policy,
    state_bytes: std::result::Result<u64, Error>,
    workspace_bytes: std::result::Result<u64, Error>,
) -> (r: std::result::Result<(), Error>)
    ensures
        error::outcome(r) == space_check(*policy, state_bytes, workspace_bytes),
{
    if policy.max_state_bytes.is_some() {
        match state_bytes {
            Err(e) => {
                return Err(e);
            },
            Ok(n) => match enforce_limit("state bytes", n, policy.max_state_bytes) {
                Err(e) => {
                    return Err(e);
                },
                Ok(_) => {},
            },
        }
    }
    if policy.max_workspace_bytes.is_some() {
        return match workspace_bytes {
            Err(e) => Err(e),
            Ok(n) => enforce_limit("workspace bytes", n, policy.max_workspace_bytes),
        };
    }
    Ok(())
}

/// What a policy says about creating one more capsule.
pub open spec fn create_check(
    p: Policy,
    capsules: Seq<Capsule>,
    worktree: Seq<u8>,
    reservations: u64,
    state_bytes: std::result::Result<u64, Error>,
    workspace_bytes: std::result::Result<u64, Error>,
) -> std::result::Result<(), ErrorView> {
    let records = capsules.len() + reservations;
    let live = live_of(capsules) + reservations;
    if p.check() is Err {
        p.check()
    } else if !allows(p, worktree) {
        Err(
            ErrorView::PolicyViolation(
                "repository is outside allowed roots: "@ + paths::display_of(worktree),
            ),
        )
    } else if records > u64::MAX {
        Err(ErrorView::PolicyViolation("capsule record count overflowed"@))
    } else if next_limit_check("capsule records"@, records as u64, p.max_capsules) is Err {
        next_limit_check("capsule records"@, records as u64, p.max_capsules)
    } else if next_limit_check("live capsules"@, live as u64, p.max_live_capsules) is Err {
        next_limit_check("live capsules"@, live as u64, p.max_live_capsules)
    } else {
        space_check(p, state_bytes, workspace_bytes)
    }
}

/// Refuse a creation that the policy does not allow. Reservations that have no
/// capsule yet count as capsules.
pub fn enforce_create_policy(
    policy: &Policy,
    capsules: &Vec<Capsule>,
    repository: &Repository,
    unmaterialized_reservations: u64,
    state_bytes: std::result::Result<u64, Error>,
    workspace_bytes: std::result::Result<u64, Error>,
) -> (r: std::result::Result<(), Error>)
    ensures
        error::outcome(r) == create_check(
            *policy,
            capsules@,
            repository.worktree@,
            unmaterialized_reservations,
            state_bytes,
            workspace_bytes,
        ),
{
    enforce_creation(
        policy,
        capsules,
        &repository.worktree,
        unmaterialized_reservations,
        state_bytes,
        workspace_bytes,
    )
}

/// Refuse a creation from a worktree; see [`enforce_create_policy`].
pub(crate) fn enforce_creation(
    policy: &Policy,
    capsules: &Vec<Capsule>,
    worktree: &NativePath,
    unmaterialized_reservations: u64,
    state_bytes: std::result::Result<u64, Error>,
    workspace_bytes: std::result::Result<u64, Error>,
) -> (r: std::result::Result<(), Error>)
    ensures
        error::outcome(r) == create_check(
            *policy,
            capsules@,
            worktree@,
            unmaterialized_reservations,
            state_bytes,
            workspace_bytes,
        ),
{
    match policy.validate() {
        Err(e) => {
            return Err(e);
        },
        Ok(_) => {},
    }
    if !repository_allowed(policy, worktree) {
        return Err(
            Error::PolicyViolation(
                text::cat2(
                    "repository is outside allowed roots: ",
                    worktree.display().as_str(),
                ),
            ),
        );
    }
    let records: u64 = match (capsules.len() as u64).checked_add(unmaterialized_reservations) {
        None => {
            return Err(Error::PolicyViolation("capsule record count overflowed".to_owned()));
        },
        Some(n) => n,
    };
    match enforce_next_limit("capsule records", records, policy.max_capsules) {
        Err(e) => {
            return Err(e);
        },
        Ok(_) => {},
    }
    let live: u64 = live_count(capsules) + unmaterialized_reservations;
    match enforce_next_limit("live capsules", live, policy.max_live_capsules) {
        Err(e) => {
            return Err(e);
        },
        Ok(_) => {},
    }
    enforce_space(policy, state_bytes, workspace_bytes)
}

/// How old a capsule is.
pub open spec fn age_of(c: Capsule, now: u64) -> u64 {
    if now >= c.created_at_unix {
        (now - c.created_at_unix) as u64
    } else {
        0
    }
}

fn age(capsule: &Capsule, now: u64) -> (r: u64)
    ensures
        r == age_of(*capsule, now),
{
    if now >= capsule.created_at_unix {
        now - capsule.created_at_unix
    } else {
        0
    }
}

/// What a policy says about going on with a capsule.
pub open spec fn capsule_check(
    p: std::result::Result<Policy, Error>,
    c: Capsule,
    now: u64,
    state_bytes: std::result::Result<u64, Error>,
    workspace_bytes: std::result::Result<u64, Error>,
) -> std::result::Result<(), ErrorView> {
    match p {
        Err(e) => Err(e@),
        Ok(p) => if !allows(p, c.source_worktree@) {
            Err(
                ErrorView::PolicyViolation(
                    "capsule repository is outside allowed roots: "@ + paths::display_of(
                        c.source_worktree@,
                    ),
                ),
            )
        } else if over_limit(age_of(c, now), p.max_capsule_age_seconds) {
            Err(
                ErrorView::PolicyViolation(
                    "capsule age "@ + text::decimal(age_of(c, now) as nat)
                        + " seconds exceeds limit "@ + text::decimal(
                        p.max_capsule_age_seconds->0 as nat,
                    ),
                ),
            )
        } else {
            space_check(p, state_bytes, workspace_bytes)
        },
    }
}

/// Refuse to go on with a capsule that the policy does not allow; otherwise
/// give the policy back.
pub fn enforce_capsule_policy(
    policy: std::result::Result<Policy, Error>,
    capsule: &Capsule,
    now: u64,
    state_bytes: std::result::Result<u64, Error>,
    workspace_bytes: std::result::Result<u64, Error>,
) -> (r: std::result::Result<Policy, Error>)
    ensures
        match capsule_check(policy, *capsule, now, state_bytes, workspace_bytes) {
            Err(e) => r matches Err(found) && found@ == e,
            Ok(_) => r == policy,
        },
{
    let policy = match policy {
        Err(e) => {
            return Err(e);
        },
        Ok(p) => p,
    };
    if !repository_allowed(&policy, &capsule.source_worktree) {
        return Err(
            Error::PolicyViolation(
                text::cat2(
                    "capsule repository is outside allowed roots: ",
                    capsule.source_worktree.display().as_str(),
                ),
            ),
        );
    }
    match policy.max_capsule_age_seconds {
        Some(limit) => {
            let old: u64 = age(capsule, now);
            if old > limit {
                return Err(
                    Error::PolicyViolation(
                        text::cat4(
                            "capsule age ",
                            text::decimal_text(old).as_str(),
                            " seconds exceeds limit ",
                            text::decimal_text(limit).as_str(),
                        ),
                    ),
                );
            }
        },
        None => {},
    }
    match enforce_space(&policy, state_bytes, workspace_bytes) {
        Err(e) => Err(e),
        Ok(_) => Ok(policy),
    }
}

/// What is measured of ignored content: nothing where no limit makes it
/// relevant, and bytes only where they are limited.
pub open spec fn ignored_usage_of(
    p: Policy,
    paths: std::result::Result<Vec<GitPath>, Error>,
    bytes: std::result::Result<u64, Error>,
) -> std::result::Result<(nat, u64), ErrorView> {
    if p.max_ignored_paths is None && p.max_ignored_bytes is None {
        Ok((0, 0))
    } else {
        match paths {
            Err(e) => Err(e@),
            Ok(found) => if p.max_ignored_bytes is None {
                Ok((found@.len(), 0))
            } else {
                match bytes {
                    Err(e) => Err(e@),
                    Ok(n) => Ok((found@.len(), n)),
                }
            },
        }
    }
}

/// Measure ignored content as far as the policy makes it relevant.
pub fn ignored_usage_for_policy(
    policy: &Policy,
    paths: std::result::Result<Vec<GitPath>, Error>,
    bytes: std::result::Result<u64, Error>,
) -> (r: std::result::Result<(usize, u64), Error>)
    ensures
        match ignored_usage_of(*policy, paths, bytes) {
            Err(e) => r matches Err(found) && found@ == e,
            Ok(usage) => r matches Ok(found) && found.0 == usage.0 && found.1 == usage.1,
        },
{
    if policy.max_ignored_paths.is_none() && policy.max_ignored_bytes.is_none() {
        return Ok((0, 0));
    }
    match paths {
        Err(e) => Err(e),
        Ok(found) => if policy.max_ignored_bytes.is_none() {
            Ok((found.len(), 0))
        } else {
            match bytes {
                Err(e) => Err(e),
                Ok(n) => Ok((found.len(), n)),
            }
        },
    }
}

/// What a policy says about a result.
pub open spec fn result_check(
    p: Policy,
    patch_bytes: u64,
    changed_paths: usize,
    ignored_paths: usize,
    ignored_bytes: u64,
) -> std::result::Result<(), ErrorView> {
    if limit_check("patch bytes"@, patch_bytes, Some(p.max_patch_bytes)) is Err {
        limit_check("patch bytes"@, patch_bytes, Some(p.max_patch_bytes))
    } else if limit_check("changed paths"@, changed_paths as u64, p.max_changed_paths) is Err {
        limit_check("changed paths"@, changed_paths as u64, p.max_changed_paths)
    } else if limit_check("ignored paths"@, ignored_paths as u64, p.max_ignored_paths) is Err {
        limit_check("ignored paths"@, ignored_paths as u64, p.max_ignored_paths)
    } else {
        limit_check("ignored bytes"@, ignored_bytes, p.max_ignored_bytes)
    }
}

/// Refuse a result that the policy does not allow.
pub fn enforce_result_policy(
    policy: &Policy,
    patch_bytes: u64,
    changed_paths: usize,
    ignored_paths: usize,
    ignored_bytes: u64,
) -> (r: std::result::Result<(), Error>)
    ensures
        error::outcome(r) == result_check(
            *policy,
            patch_bytes,
            changed_paths,
            ignored_paths,
            ignored_bytes,
        ),
{
    match enforce_limit("patch bytes", patch_bytes, Some(policy.max_patch_bytes)) {
        Err(e) => {
            return Err(e);
        },
        Ok(_) => {},
    }
    match enforce_limit("changed paths", changed_paths as u64, policy.max_changed_paths) {
        Err(e) => {
            return Err(e);
        },
        Ok(_) => {},
    }
    match enforce_limit("ignored paths", ignored_paths as u64, policy.max_ignored_paths) {
        Err(e) => {
            return Err(e);
        },
        Ok(_) => {},
    }
    enforce_limit("ignored bytes", ignored_bytes, policy.max_ignored_bytes)
}

/// Everything that was read of one capsule to evaluate it against a policy.
///
/// What could not be read carries the error that prevented it.
#[derive(Debug, PartialEq, Eq)]
pub struct PolicyObservation {
    /// The stored result.
    pub stored: Result<StoredResult, Error>,
    /// The stored patch.
    pub patch: Result<Vec<u8>, Error>,
    /// Whether anything exists at the workspace path.
    pub workspace_exists: bool,
    /// What proves ownership of the workspace.
    pub inspection: WorktreeInspection,
    /// The complete current change.
    pub snapshot: Result<Snapshot, Error>,
    /// The ignored paths in the workspace.
    pub ignored_paths: Result<Vec<GitPath>, Error>,
    /// The bytes of ignored content in the workspace.
    pub ignored_bytes: Result<u64, Error>,
}

/// What a sealed capsule's ignored content amounts to, with what a report says
/// where it could not be read.
pub struct UsageView {
    pub notes: Seq<Seq<char>>,
    pub paths: u64,
    pub bytes: u64,
}

/// Ignored content as it was recorded when the result was sealed.
pub open spec fn recorded_usage(notes: Seq<Seq<char>>, result: ResultView) -> UsageView {
    UsageView { notes, paths: result.ignored_paths.len() as u64, bytes: result.ignored_bytes }
}

/// What a sealed capsule's ignored content amounts to: what is there now, or,
/// where that cannot be read, what was there when the result was sealed.
pub open spec fn sealed_usage_of(p: Policy, c: Capsule, result: ResultView, o: PolicyObservation) -> UsageView {
    if !o.workspace_exists {
        recorded_usage(Seq::empty(), result)
    } else {
        match worktree::ownership_check(c, o.inspection) {
            Err(e) => recorded_usage(
                seq![unread_note(c.id@, " workspace cannot be inspected: "@, e)],
                result,
            ),
            Ok(_) => match o.ignored_paths {
                Err(e) => recorded_usage(
                    seq![unread_note(c.id@, " ignored paths cannot be inspected: "@, e@)],
                    result,
                ),
                Ok(found) => if p.max_ignored_bytes is None {
                    UsageView { notes: Seq::empty(), paths: found@.len() as u64, bytes: 0 }
                } else {
                    match o.ignored_bytes {
                        Ok(n) => UsageView {
                            notes: Seq::empty(),
                            paths: found@.len() as u64,
                            bytes: n,
                        },
                        Err(e) => UsageView {
                            notes: seq![
                                unread_note(c.id@, " ignored bytes cannot be inspected: "@, e@),
                            ],
                            paths: found@.len() as u64,
                            bytes: result.ignored_bytes,
                        },
                    }
                },
            },
        }
    }
}

/// What a report says of a sealed capsule's ignored content.
pub open spec fn sealed_usage_notes(p: Policy, id: Seq<char>, usage: UsageView) -> Seq<Seq<char>> {
    usage.notes + capsule_limit_notes(id, "ignored paths"@, usage.paths, p.max_ignored_paths)
        + capsule_limit_notes(id, "ignored bytes"@, usage.bytes, p.max_ignored_bytes)
}

/// What a report says of the stored artifacts of a sealed capsule.
pub open spec fn sealed_artifact_notes(p: Policy, c: Capsule, o: PolicyObservation) -> Seq<
    Seq<char>,
> {
    if artifacts::sealed_check(c, o.stored, o.patch) is Err {
        seq![
            unread_note(
                c.id@,
                " result cannot be inspected: "@,
                artifacts::sealed_check(c, o.stored, o.patch)->Err_0,
            ),
        ]
    } else if artifacts::intact_check(c, o.stored, o.patch) is Err {
        seq!["capsule "@ + c.id@ + " sealed result artifacts do not match their manifest"@]
    } else if p.max_ignored_paths is None && p.max_ignored_bytes is None {
        Seq::empty()
    } else {
        sealed_usage_notes(p, c.id@, sealed_usage_of(p, c, o.stored->Ok_0.result@, o))
    }
}

/// What a report says of a sealed capsule.
pub open spec fn sealed_notes(p: Policy, c: Capsule, reference: ResultRef, o: PolicyObservation) -> Seq<
    Seq<char>,
> {
    capsule_limit_notes(c.id@, "patch bytes"@, reference.patch_bytes, Some(p.max_patch_bytes))
        + capsule_limit_notes(
        c.id@,
        "changed paths"@,
        reference.changed_paths as u64,
        p.max_changed_paths,
    ) + sealed_artifact_notes(p, c, o)
}

fn sealed_usage(
    policy: &Policy,
    capsule: &Capsule,
    result: &CapsuleResult,
    inspection: &WorktreeInspection,
    workspace_exists: bool,
    ignored_paths: &std::result::Result<Vec<GitPath>, Error>,
    ignored_bytes: &std::result::Result<u64, Error>,
    violations: &mut Vec<String>,
    Ghost(o): Ghost<PolicyObservation>,
) -> (r: (u64, u64))
    requires
        o.inspection == *inspection,
        o.workspace_exists == workspace_exists,
        o.ignored_paths == *ignored_paths,
        o.ignored_bytes == *ignored_bytes,
    ensures
        ({
            let usage = sealed_usage_of(*policy, *capsule, result@, o);
            git::texts(final(violations)@) == git::texts(old(violations)@) + usage.notes && r.0
                == usage.paths && r.1 == usage.bytes
        }),
{
    let ghost before = git::texts(violations@);
    let ghost usage = sealed_usage_of(*policy, *capsule, result@, o);
    let id = capsule.id.as_str();
    proof {
        assert(result@.ignored_paths.len() == result.ignored_paths@.len());
    }
    let recorded: (u64, u64) = (result.ignored_paths.len() as u64, result.ignored_bytes);
    if !workspace_exists {
        proof {
            assert(before + usage.notes =~= before);
        }
        return recorded;
    }
    match worktree::validate_owned_worktree(capsule, inspection) {
        Err(e) => {
            note_unread(violations, id, " workspace cannot be inspected: ", &e);
            proof {
                assert(git::texts(violations@) =~= before + usage.notes);
            }
            return recorded;
        },
        Ok(_) => {},
    }
    match ignored_paths {
        Err(e) => {
            note_unread(violations, id, " ignored paths cannot be inspected: ", e);
            proof {
                assert(git::texts(violations@) =~= before + usage.notes);
            }
            recorded
        },
        Ok(found) => {
            let count: u64 = found.len() as u64;
            if policy.max_ignored_bytes.is_none() {
                proof {
                    assert(before + usage.notes =~= before);
                }
                return (count, 0);
            }
            match ignored_bytes {
                Ok(n) => {
                    proof {
                        assert(before + usage.notes =~= before);
                    }
                    (count, *n)
                },
                Err(e) => {
                    note_unread(violations, id, " ignored bytes cannot be inspected: ", e);
                    proof {
                        assert(git::texts(violations@) =~= before + usage.notes);
                    }
                    (count, result.ignored_bytes)
                },
            }
        },
    }
}

/// What a report says of the ignored content of an active capsule.
pub open spec fn active_ignored_notes(p: Policy, id: Seq<char>, o: PolicyObservation) -> Seq<
    Seq<char>,
> {
    if p.max_ignored_paths is None && p.max_ignored_bytes is None {
        Seq::empty()
    } else {
        match o.ignored_paths {
            Err(e) => seq![unread_note(id, " ignored paths cannot be inspected: "@, e@)],
            Ok(found) => capsule_limit_notes(
                id,
                "ignored paths"@,
                found@.len() as u64,
                p.max_ignored_paths,
            ) + if p.max_ignored_bytes is None {
                Seq::empty()
            } else {
                match o.ignored_bytes {
                    Ok(n) => capsule_limit_notes(id, "ignored bytes"@, n, p.max_ignored_bytes),
                    Err(e) => seq![unread_note(id, " ignored bytes cannot be inspected: "@, e@)],
                }
            },
        }
    }
}

/// What a report says of the current change of an active capsule.
pub open spec fn active_snapshot_notes(p: Policy, id: Seq<char>, o: PolicyObservation) -> Seq<
    Seq<char>,
> {
    match o.snapshot {
        Ok(s) => capsule_limit_notes(
            id,
            "patch bytes"@,
            s.patch@.len() as u64,
            Some(p.max_patch_bytes),
        ) + capsule_limit_notes(
            id,
            "changed paths"@,
            s.changed_paths@.len() as u64,
            p.max_changed_paths,
        ),
        Err(e) => seq![unread_note(id, " active result usage cannot be inspected: "@, e@)],
    }
}

/// What a report says of a capsule that is not sealed.
pub open spec fn active_notes(p: Policy, c: Capsule, o: PolicyObservation) -> Seq<Seq<char>> {
    if !(c.state is Active || c.state is Checkpointing) {
        Seq::empty()
    } else {
        match worktree::ownership_check(c, o.inspection) {
            Err(e) => seq![unread_note(c.id@, " active result usage cannot be inspected: "@, e)],
            Ok(_) => active_snapshot_notes(p, c.id@, o) + active_ignored_notes(p, c.id@, o),
        }
    }
}

/// What a report says of a capsule's repository and age.
pub open spec fn standing_notes(p: Policy, c: Capsule, now: u64) -> Seq<Seq<char>> {
    (if allows(p, c.source_worktree@) {
        Seq::empty()
    } else {
        seq![
            "capsule "@ + c.id@ + " repository is outside allowed roots: "@ + paths::display_of(
                c.source_worktree@,
            ),
        ]
    }) + if !(c.state is Dropped) && over_limit(age_of(c, now), p.max_capsule_age_seconds) {
        seq![
            "capsule "@ + c.id@ + " age "@ + text::decimal(age_of(c, now) as nat)
                + " seconds exceeds limit "@ + text::decimal(
                p.max_capsule_age_seconds->0 as nat,
            ),
        ]
    } else {
        Seq::empty()
    }
}

/// What a report says of one capsule.
pub open spec fn capsule_notes(p: Policy, c: Capsule, now: u64, o: PolicyObservation) -> Seq<
    Seq<char>,
> {
    standing_notes(p, c, now) + match c.result {
        Some(reference) => sealed_notes(p, c, reference, o),
        None => active_notes(p, c, o),
    }
}

fn standing_violations(policy: &Policy, capsule: &Capsule, now: u64) -> (r: Vec<String>)
    ensures
        git::texts(r@) == standing_notes(*policy, *capsule, now),
{
    let mut r: Vec<String> = Vec::new();
    if !repository_allowed(policy, &capsule.source_worktree) {
        note(
            &mut r,
            text::cat4(
                "capsule ",
                capsule.id.as_str(),
                " repository is outside allowed roots: ",
                capsule.source_worktree.display().as_str(),
            ),
        );
    }
    if capsule.state != CapsuleState::Dropped {
        match policy.max_capsule_age_seconds {
            Some(limit) => {
                let old: u64 = age(capsule, now);
                if old > limit {
                    note(
                        &mut r,
                        text::cat6(
                            "capsule ",
                            capsule.id.as_str(),
                            " age ",
                            text::decimal_text(old).as_str(),
                            " seconds exceeds limit ",
                            text::decimal_text(limit).as_str(),
                        ),
                    );
                }
            },
            None => {},
        }
    }
    proof {
        assert(git::texts(r@) =~= standing_notes(*policy, *capsule, now));
    }
    r
}

/// What evaluates one capsule against a policy.
#[derive(Debug, PartialEq, Eq)]
pub struct PolicyEntry {
    /// The capsule.
    pub capsule: Capsule,
    /// What was read of it.
    pub observed: PolicyObservation,
}

/// What a report says of a row of capsules.
pub open spec fn entry_notes(p: Policy, entries: Seq<PolicyEntry>, now: u64) -> Seq<Seq<char>>
    decreases entries.len(),
{
    if entries.len() == 0 {
        Seq::empty()
    } else {
        entry_notes(p, entries.drop_last(), now) + capsule_notes(
            p,
            entries.last().capsule,
            now,
            entries.last().observed,
        )
    }
}

/// The capsules of a row of entries.
pub open spec fn capsules_in(entries: Seq<PolicyEntry>) -> Seq<Capsule> {
    entries.map_values(|e: PolicyEntry| e.capsule)
}

/// What a report says of the state directory as a whole.
pub open spec fn total_notes(
    p: Policy,
    capsules: Seq<Capsule>,
    state_bytes: u64,
    workspace_bytes: u64,
) -> Seq<Seq<char>> {
    limit_notes("capsule records"@, capsules.len() as u64, p.max_capsules) + limit_notes(
        "live capsules"@,
        live_of(capsules) as u64,
        p.max_live_capsules,
    ) + limit_notes("state bytes"@, state_bytes, p.max_state_bytes) + limit_notes(
        "workspace bytes"@,
        workspace_bytes,
        p.max_workspace_bytes,
    )
}

/// Whether everything that a report needs could be read.
pub open spec fn report_check(
    p: Policy,
    state_bytes: std::result::Result<u64, Error>,
    workspace_bytes: std::result::Result<u64, Error>,
) -> std::result::Result<(), ErrorView> {
    if p.check() is Err {
        p.check()
    } else if p.max_state_bytes is Some && state_bytes is Err {
        Err(state_bytes->Err_0@)
    } else if p.max_workspace_bytes is Some && workspace_bytes is Err {
        Err(workspace_bytes->Err_0@)
    } else {
        Ok(())
    }
}

/// Everything that violates a policy, in words.
pub open spec fn violations_of(
    p: Policy,
    entries: Seq<PolicyEntry>,
    state_bytes: std::result::Result<u64, Error>,
    workspace_bytes: std::result::Result<u64, Error>,
    now: u64,
) -> Seq<Seq<char>> {
    total_notes(p, capsules_in(entries), state_bytes->Ok_0, workspace_bytes->Ok_0) + entry_notes(
        p,
        entries,
        now,
    )
}

fn count_live(entries: &Vec<PolicyEntry>) -> (r: u64)
    ensures
        r == live_of(capsules_in(entries@)),
{
    let ghost all = capsules_in(entries@);
    let mut live: u64 = 0;
    let mut i: usize = 0;
    while i < entries.len()
        invariant
            i <= entries.len(),
            all == capsules_in(entries@),
            live == live_of(all.take(i as int)),
            live <= i,
        decreases entries.len() - i,
    {
        proof {
            assert(all.take(i + 1).drop_last() =~= all.take(i as int));
            assert(all.take(i + 1).last() == entries@[i as int].capsule);
        }
        if entries[i].capsule.state != CapsuleState::Dropped {
            live += 1;
        }
        i += 1;
    }
    proof {
        assert(all.take(all.len() as int) =~= all);
    }
    live
}

fn join_notes(left: &mut Vec<String>, right: Vec<String>)
    ensures
        git::texts(final(left)@) == git::texts(old(left)@) + git::texts(right@),
{
    let ghost before = left@;
    let mut more = right;
    left.append(&mut more);
    proof {
        assert(git::texts(left@) =~= git::texts(before) + git::texts(right@));
    }
}

/// What resolving a root of a policy found.
#[derive(Debug, PartialEq, Eq)]
pub struct RootReads {
    /// The root as it was requested.
    pub requested: NativePath,
    /// The canonical form of the root.
    pub canonical: Result<NativePath, Error>,
    /// Whether that is a directory.
    pub directory: bool,
}

/// Whether roots were resolved for a policy: each one that it requests, in its
/// order, and no other.
pub open spec fn are_requested(roots: Seq<RootReads>, p: Policy) -> bool {
    &&& roots.len() == p.allowed_repository_roots@.len()
    &&& forall|i: int|
        0 <= i < roots.len() ==> (#[trigger] roots[i]).requested@
            == p.allowed_repository_roots@[i]@
}

fn resolved_for(roots: &Vec<RootReads>, p: &Policy) -> (r: bool)
    ensures
        r == are_requested(roots@, *p),
{
    if roots.len() != p.allowed_repository_roots.len() {
        return false;
    }
    let mut i: usize = 0;
    while i < roots.len()
        invariant
            i <= roots@.len(),
            roots@.len() == p.allowed_repository_roots@.len(),
            forall|j: int|
                0 <= j < i ==> (#[trigger] roots@[j]).requested@
                    == p.allowed_repository_roots@[j]@,
        decreases roots.len() - i,
    {
        if !bytes::same_bytes(
            roots[i].requested.bytes.as_slice(),
            p.allowed_repository_roots[i].bytes.as_slice(),
        ) {
            assert(roots@[i as int].requested@ != p.allowed_repository_roots@[i as int]@);
            return false;
        }
        i += 1;
    }
    true
}

/// The canonical roots of a policy, where all of them are directories.
pub open spec fn resolved_roots(roots: Seq<RootReads>) -> std::result::Result<
    Seq<NativePath>,
    ErrorView,
>
    decreases roots.len(),
{
    if roots.len() == 0 {
        Ok(Seq::empty())
    } else {
        match resolved_roots(roots.drop_last()) {
            Err(e) => Err(e),
            Ok(before) => match roots.last().canonical {
                Err(e) => Err(e@),
                Ok(path) => if roots.last().directory {
                    Ok(before.push(path))
                } else {
                    Err(
                        ErrorView::PolicyViolation(
                            "allowed repository root is not a directory: "@ + paths::display_of(
                                path@,
                            ),
                        ),
                    )
                },
            },
        }
    }
}

/// A row of paths without those that equal the one kept before them.
pub open spec fn distinct(rows: Seq<NativePath>) -> Seq<NativePath>
    decreases rows.len(),
{
    if rows.len() == 0 {
        rows
    } else {
        let before = distinct(rows.drop_last());
        if before.len() > 0 && paths::same(before.last()@, rows.last()@) {
            before
        } else {
            before.push(rows.last())
        }
    }
}

fn resolve_roots(roots: Vec<RootReads>) -> (r: std::result::Result<Vec<NativePath>, Error>)
    ensures
        match resolved_roots(roots@) {
            Err(e) => r matches Err(found) && found@ == e,
            Ok(all) => r matches Ok(found) && found@ == all,
        },
    decreases roots@.len(),
{
    let mut todo = roots;
    let last = match todo.pop() {
        None => {
            return Ok(Vec::new());
        },
        Some(last) => last,
    };
    proof {
        assert(todo@ =~= roots@.drop_last());
        assert(last == roots@.last());
    }
    let mut done = match resolve_roots(todo) {
        Err(e) => {
            return Err(e);
        },
        Ok(done) => done,
    };
    match last.canonical {
        Err(e) => Err(e),
        Ok(path) => if last.directory {
            done.push(path);
            Ok(done)
        } else {
            Err(
                Error::PolicyViolation(
                    text::cat2(
                        "allowed repository root is not a directory: ",
                        path.display().as_str(),
                    ),
                ),
            )
        },
    }
}

fn without_repeats(rows: Vec<NativePath>) -> (r: Vec<NativePath>)
    ensures
        r@ == distinct(rows@),
    decreases rows@.len(),
{
    let mut todo = rows;
    let last = match todo.pop() {
        None => {
            proof {
                assert(rows@ =~= Seq::empty());
            }
            return Vec::new();
        },
        Some(last) => last,
    };
    proof {
        assert(todo@ =~= rows@.drop_last());
        assert(last == rows@.last());
    }
    let mut kept = without_repeats(todo);
    let n: usize = kept.len();
    if n > 0 && kept[n - 1].same_path(&last) {
        return kept;
    }
    kept.push(last);
    kept
}

/// The policy that results from canonical roots.
pub open spec fn is_installed(r: Policy, requested: Policy, roots: Seq<NativePath>) -> bool {
    &&& r == (Policy { allowed_repository_roots: r.allowed_repository_roots, ..requested })
    &&& r.allowed_repository_roots@ == distinct(order::sorted(roots))
}

impl CapsuleManager {
    /// The effective policy: what is stored, or permissive defaults where
    /// nothing is.
    pub fn policy(&self, stored: std::result::Result<Option<Policy>, Error>) -> (r:
        std::result::Result<Policy, Error>)
        ensures
            match stored {
                Err(e) => r matches Err(found) && found@ == e@,
                Ok(Some(p)) => r == Ok::<Policy, Error>(p),
                Ok(None) => r matches Ok(p) && is_default(p),
            },
    {
        match stored {
            Err(e) => Err(e),
            Ok(Some(p)) => Ok(p),
            Ok(None) => Ok(Policy::default()),
        }
    }

    /// The policy to store in place of the present one. Its roots are
    /// canonical existing directories, in order, each once.
    pub fn set_policy(&self, policy: Policy, roots: Vec<RootReads>) -> (r: std::result::Result<
        Policy,
        Error,
    >)
        ensures
            if !are_requested(roots@, policy) {
                r matches Err(found) && found@ == ErrorView::PolicyViolation(
                    "allowed repository roots were not all resolved"@,
                )
            } else {
                match resolved_roots(roots@) {
                    Err(e) => r matches Err(found) && found@ == e,
                    Ok(all) => match policy_check(policy, distinct(order::sorted(all))) {
                        Err(e) => r matches Err(found) && found@ == e,
                        Ok(_) => r matches Ok(installed) && is_installed(installed, policy, all),
                    },
                }
            },
    {
        if !resolved_for(&roots, &policy) {
            return Err(
                Error::PolicyViolation("allowed repository roots were not all resolved".to_owned()),
            );
        }
        let resolved = match resolve_roots(roots) {
            Err(e) => {
                return Err(e);
            },
            Ok(resolved) => resolved,
        };
        let mut installed = policy;
        installed.allowed_repository_roots = without_repeats(order::sort(resolved));
        match installed.validate() {
            Err(e) => Err(e),
            Ok(_) => Ok(installed),
        }
    }

    /// Note what violates the policy of a sealed capsule.
    pub fn sealed_capsule_policy_violations(
        &self,
        policy: &Policy,
        capsule: &Capsule,
        reference: &ResultRef,
        observed: PolicyObservation,
        violations: &mut Vec<String>,
    )
        ensures
            git::texts(final(violations)@) == git::texts(old(violations)@) + sealed_notes(
                *policy,
                *capsule,
                *reference,
                observed,
            ),
    {
        let ghost before = git::texts(violations@);
        let ghost o = observed;
        let ghost p = *policy;
        let ghost c = *capsule;
        let id = capsule.id.as_str();
        check_capsule_limit(
            violations,
            id,
            "patch bytes",
            reference.patch_bytes,
            Some(policy.max_patch_bytes),
        );
        check_capsule_limit(
            violations,
            id,
            "changed paths",
            reference.changed_paths as u64,
            policy.max_changed_paths,
        );
        let ghost first = git::texts(violations@);
        proof {
            assert(before + sealed_notes(p, c, *reference, o) =~= first + sealed_artifact_notes(
                p,
                c,
                o,
            ));
        }
        let sealed = match self.sealed_artifacts(capsule, observed.stored, observed.patch) {
            Err(e) => {
                note_unread(violations, id, " result cannot be inspected: ", &e);
                proof {
                    assert(git::texts(violations@) =~= first + sealed_artifact_notes(p, c, o));
                }
                return ;
            },
            Ok(sealed) => sealed,
        };
        if !sealed.matches_seal {
            note(
                violations,
                text::cat3("capsule ", id, " sealed result artifacts do not match their manifest"),
            );
            proof {
                assert(git::texts(violations@) =~= first + sealed_artifact_notes(p, c, o));
            }
            return ;
        }
        if policy.max_ignored_paths.is_none() && policy.max_ignored_bytes.is_none() {
            proof {
                assert(git::texts(violations@) =~= first + sealed_artifact_notes(p, c, o));
            }
            return ;
        }
        let (count, bytes) = sealed_usage(
            policy,
            capsule,
            &sealed.result,
            &observed.inspection,
            observed.workspace_exists,
            &observed.ignored_paths,
            &observed.ignored_bytes,
            violations,
            Ghost(o),
        );
        check_capsule_limit(violations, id, "ignored paths", count, policy.max_ignored_paths);
        check_capsule_limit(violations, id, "ignored bytes", bytes, policy.max_ignored_bytes);
        proof {
            assert(git::texts(violations@) =~= first + sealed_artifact_notes(p, c, o));
        }
    }

    /// Note what violates the policy of a capsule that is not sealed.
    pub fn active_capsule_policy_violations(
        &self,
        policy: &Policy,
        capsule: &Capsule,
        observed: &PolicyObservation,
        violations: &mut Vec<String>,
    )
        ensures
            git::texts(final(violations)@) == git::texts(old(violations)@) + active_notes(
                *policy,
                *capsule,
                *observed,
            ),
    {
        let ghost before = git::texts(violations@);
        let ghost wanted = active_notes(*policy, *capsule, *observed);
        let id = capsule.id.as_str();
        if capsule.state != CapsuleState::Active && capsule.state != CapsuleState::Checkpointing {
            proof {
                assert(before =~= before + wanted);
            }
            return ;
        }
        match worktree::validate_owned_worktree(capsule, &observed.inspection) {
            Err(e) => {
                note_unread(violations, id, " active result usage cannot be inspected: ", &e);
                proof {
                    assert(git::texts(violations@) =~= before + wanted);
                }
                return ;
            },
            Ok(_) => {},
        }
        match &observed.snapshot {
            Ok(snapshot) => {
                check_capsule_limit(
                    violations,
                    id,
                    "patch bytes",
                    snapshot.patch.len() as u64,
                    Some(policy.max_patch_bytes),
                );
                check_capsule_limit(
                    violations,
                    id,
                    "changed paths",
                    snapshot.changed_paths.len() as u64,
                    policy.max_changed_paths,
                );
            },
            Err(e) => {
                note_unread(violations, id, " active result usage cannot be inspected: ", e);
            },
        }
        let ghost middle = git::texts(violations@);
        proof {
            assert(middle =~= before + active_snapshot_notes(*policy, id@, *observed));
            assert(before + wanted =~= middle + active_ignored_notes(*policy, id@, *observed));
        }
        if policy.max_ignored_paths.is_none() && policy.max_ignored_bytes.is_none() {
            proof {
                assert(middle =~= middle + active_ignored_notes(*policy, id@, *observed));
            }
            return ;
        }
        match &observed.ignored_paths {
            Err(e) => {
                note_unread(violations, id, " ignored paths cannot be inspected: ", e);
            },
            Ok(found) => {
                check_capsule_limit(
                    violations,
                    id,
                    "ignored paths",
                    found.len() as u64,
                    policy.max_ignored_paths,
                );
                if policy.max_ignored_bytes.is_some() {
                    match &observed.ignored_bytes {
                        Ok(n) => {
                            check_capsule_limit(
                                violations,
                                id,
                                "ignored bytes",
                                *n,
                                policy.max_ignored_bytes,
                            );
                        },
                        Err(e) => {
                            note_unread(
                                violations,
                                id,
                                " ignored bytes cannot be inspected: ",
                                e,
                            );
                        },
                    }
                }
            },
        }
        proof {
            assert(git::texts(violations@) =~= middle + active_ignored_notes(
                *policy,
                id@,
                *observed,
            ));
        }
    }

    /// What violates the policy in one capsule.
    pub fn capsule_policy_violations(
        &self,
        policy: &Policy,
        capsule: &Capsule,
        observed_at: u64,
        observed: PolicyObservation,
    ) -> (r: Vec<String>)
        ensures
            git::texts(r@) == capsule_notes(*policy, *capsule, observed_at, observed),
    {
        let mut r = standing_violations(policy, capsule, observed_at);
        match &capsule.result {
            Some(reference) => {
                self.sealed_capsule_policy_violations(policy, capsule, reference, observed, &mut r);
            },
            None => {
                self.active_capsule_policy_violations(policy, capsule, &observed, &mut r);
            },
        }
        r
    }

    fn entry_violations(&self, policy: &Policy, entries: Vec<PolicyEntry>, now: u64) -> (r: Vec<
        String,
    >)
        ensures
            git::texts(r@) == entry_notes(*policy, entries@, now),
        decreases entries@.len(),
    {
        let mut todo = entries;
        let last = match todo.pop() {
            None => {
                let r: Vec<String> = Vec::new();
                proof {
                    assert(git::texts(r@) =~= Seq::empty());
                }
                return r;
            },
            Some(last) => last,
        };
        proof {
            assert(todo@ =~= entries@.drop_last());
            assert(last == entries@.last());
        }
        let mut r = self.entry_violations(policy, todo, now);
        let more = self.capsule_policy_violations(policy, &last.capsule, now, last.observed);
        join_notes(&mut r, more);
        r
    }

    /// Everything that violates a policy, in words.
    pub fn policy_violations(
        &self,
        policy: &Policy,
        entries: Vec<PolicyEntry>,
        state_bytes: std::result::Result<u64, Error>,
        workspace_bytes: std::result::Result<u64, Error>,
        observed_at: u64,
    ) -> (r: std::result::Result<Vec<String>, Error>)
        ensures
            match report_check(*policy, state_bytes, workspace_bytes) {
                Err(e) => r matches Err(found) && found@ == e,
                Ok(_) => r matches Ok(found) && git::texts(found@) == violations_of(
                    *policy,
                    entries@,
                    state_bytes,
                    workspace_bytes,
                    observed_at,
                ),
            },
    {
        match policy.validate() {
            Err(e) => {
                return Err(e);
            },
            Ok(_) => {},
        }
        let mut r: Vec<String> = Vec::new();
        let ghost capsules = capsules_in(entries@);
        proof {
            assert(capsules.len() == entries@.len());
        }
        check_limit(&mut r, "capsule records", entries.len() as u64, policy.max_capsules);
        check_limit(&mut r, "live capsules", count_live(&entries), policy.max_live_capsules);
        let ghost counted = git::texts(r@);
        if policy.max_state_bytes.is_some() {
            match &state_bytes {
                Err(e) => {
                    return Err(e.clone());
                },
                Ok(n) => {
                    check_limit(&mut r, "state bytes", *n, policy.max_state_bytes);
                },
            }
        }
        let ghost stored = git::texts(r@);
        if policy.max_workspace_bytes.is_some() {
            match &workspace_bytes {
                Err(e) => {
                    return Err(e.clone());
                },
                Ok(n) => {
                    check_limit(&mut r, "workspace bytes", *n, policy.max_workspace_bytes);
                },
            }
        }
        proof {
            assert(stored =~= counted + limit_notes(
                "state bytes"@,
                state_bytes->Ok_0,
                policy.max_state_bytes,
            ));
            assert(git::texts(r@) =~= total_notes(
                *policy,
                capsules,
                state_bytes->Ok_0,
                workspace_bytes->Ok_0,
            ));
        }
        let more = self.entry_violations(policy, entries, observed_at);
        join_notes(&mut r, more);
        Ok(r)
    }

    /// Evaluate all records against the effective policy.
    pub fn policy_report(
        &self,
        policy: std::result::Result<Policy, Error>,
        entries: std::result::Result<Vec<PolicyEntry>, Error>,
        state_bytes: std::result::Result<u64, Error>,
        workspace_bytes: std::result::Result<u64, Error>,
        observed_at: u64,
    ) -> (r: std::result::Result<PolicyReport, Error>)
        ensures
            match (policy, entries) {
                (Err(e), _) => r matches Err(found) && found@ == e@,
                (Ok(_), Err(e)) => r matches Err(found) && found@ == e@,
                (Ok(p), Ok(all)) => match report_check(p, state_bytes, workspace_bytes) {
                    Err(e) => r matches Err(found) && found@ == e,
                    Ok(_) => r matches Ok(report) && git::texts(report.violations@)
                        == violations_of(p, all@, state_bytes, workspace_bytes, observed_at)
                        && report.compliant == (report.violations@.len() == 0),
                },
            },
    {
        let policy = match policy {
            Err(e) => {
                return Err(e);
            },
            Ok(p) => p,
        };
        let entries = match entries {
            Err(e) => {
                return Err(e);
            },
            Ok(all) => all,
        };
        match self.policy_violations(
            &policy,
            entries,
            state_bytes,
            workspace_bytes,
            observed_at,
        ) {
            Err(e) => Err(e),
            Ok(violations) => Ok(
                PolicyReport { compliant: violations.len() == 0, violations },
            ),
        }
    }
}

/// The permissive policy can be applied, allows every repository, and refuses
/// nothing but what the hard bound on patches refuses.
pub proof fn law_default_policy_is_permissive(
    p: Policy,
    worktree: Seq<u8>,
    patch_bytes: u64,
    changed_paths: usize,
    ignored_paths: usize,
    ignored_bytes: u64,
)
    requires
        is_default(p),
    ensures
        p.check() == Ok::<(), ErrorView>(()),
        allows(p, worktree),
        result_check(p, patch_bytes, changed_paths, ignored_paths, ignored_bytes) is Ok <==> (
        patch_bytes <= HARD_PATCH_BYTES),
{
}

/// No policy that can be applied lifts the hard bound on patches.
pub proof fn law_policy_never_lifts_the_hard_bound(
    p: Policy,
    patch_bytes: u64,
    changed_paths: usize,
    ignored_paths: usize,
    ignored_bytes: u64,
)
    requires
        p.check() is Ok,
        result_check(p, patch_bytes, changed_paths, ignored_paths, ignored_bytes) is Ok,
    ensures
        patch_bytes <= HARD_PATCH_BYTES,
{
}

/// Live capsules never exceed a limit that every creation was held to: where
/// one more is admitted, the count after it is within the limit.
pub proof fn law_admitted_creations_stay_within_limits(
    p: Policy,
    capsules: Seq<Capsule>,
    created: Capsule,
    worktree: Seq<u8>,
    reservations: u64,
    state_bytes: std::result::Result<u64, Error>,
    workspace_bytes: std::result::Result<u64, Error>,
)
    requires
        create_check(p, capsules, worktree, reservations, state_bytes, workspace_bytes) is Ok,
    ensures
        p.max_capsules matches Some(l) ==> capsules.push(created).len() + reservations <= l,
        p.max_live_capsules matches Some(l) ==> live_of(capsules.push(created)) + reservations
            <= l,
{
    assert(capsules.push(created).drop_last() =~= capsules);
    lemma_live_bounded(capsules);
}

proof fn lemma_live_bounded(capsules: Seq<Capsule>)
    ensures
        live_of(capsules) <= capsules.len(),
    decreases capsules.len(),
{
    if capsules.len() > 0 {
        lemma_live_bounded(capsules.drop_last());
    }
}

/// Whether a row holds a path, however it is written.
pub open spec fn holds(rows: Seq<NativePath>, path: Seq<u8>) -> bool {
    exists|i: int| 0 <= i < rows.len() && paths::same((#[trigger] rows[i])@, path)
}

/// A row in order without its repeats strictly ascends, and holds the same.
proof fn lemma_distinct(rows: Seq<NativePath>)
    requires
        forall|i: int, j: int|
            0 <= i < j < rows.len() ==> !(#[trigger] rows[j]).precedes(#[trigger] rows[i]),
    ensures
        rows.len() > 0 ==> distinct(rows).len() > 0 && paths::same(
            distinct(rows).last()@,
            rows.last()@,
        ),
        forall|i: int, j: int|
            0 <= i < j < distinct(rows).len() ==> (#[trigger] distinct(rows)[i]).precedes(
                #[trigger] distinct(rows)[j],
            ),
        forall|i: int| 0 <= i < distinct(rows).len() ==> rows.contains(#[trigger] distinct(rows)[i]),
        forall|k: int| 0 <= k < rows.len() ==> holds(distinct(rows), (#[trigger] rows[k])@),
    decreases rows.len(),
{
    if rows.len() > 0 {
        let earlier = rows.drop_last();
        assert forall|i: int, j: int| 0 <= i < j < earlier.len() implies !(
        #[trigger] earlier[j]).precedes(#[trigger] earlier[i]) by {
            assert(earlier[i] == rows[i] && earlier[j] == rows[j]);
        }
        lemma_distinct(earlier);
        let before = distinct(earlier);
        let all = distinct(rows);
        let last = rows.last();
        if all != before {
            assert forall|i: int, j: int| 0 <= i < j < all.len() implies (
            #[trigger] all[i]).precedes(#[trigger] all[j]) by {
                if j == before.len() {
                    let a = paths::components(all[i]@);
                    let b = paths::components(before.last()@);
                    let c = paths::components(last@);
                    assert(earlier.last() == rows[rows.len() - 2]);
                    assert(!rows[rows.len() - 1].precedes(rows[rows.len() - 2]));
                    paths::lemma_components_total(b, c);
                    if i < before.len() - 1 {
                        assert(before[i].precedes(before[before.len() - 1]));
                        paths::lemma_components_transitive(a, b, c);
                    }
                } else {
                    assert(all[i] == before[i] && all[j] == before[j]);
                }
            }
        }
        assert forall|i: int| 0 <= i < all.len() implies rows.contains(#[trigger] all[i]) by {
            if i < before.len() {
                assert(earlier.contains(before[i]));
                let k = earlier.index_of(before[i]);
                assert(rows[k] == before[i]);
            } else {
                assert(rows[rows.len() - 1] == last);
            }
        }
        assert forall|k: int| 0 <= k < rows.len() implies holds(all, (#[trigger] rows[k])@) by {
            if k < rows.len() - 1 {
                assert(holds(before, earlier[k]@));
                let i = choose|i: int|
                    0 <= i < before.len() && paths::same((#[trigger] before[i])@, earlier[k]@);
                assert(all[i] == before[i]);
            } else {
                assert(paths::same(all[all.len() - 1]@, last@));
            }
        }
    }
}

/// Resolved roots are the canonical forms of those that were read, in order.
proof fn lemma_resolved_roots(reads: Seq<RootReads>)
    ensures
        resolved_roots(reads) matches Ok(all) ==> all.len() == reads.len() && (forall|i: int|
            0 <= i < reads.len() ==> (#[trigger] reads[i]).directory && reads[i].canonical == Ok::<
                NativePath,
                Error,
            >(all[i])),
    decreases reads.len(),
{
    if reads.len() > 0 {
        lemma_resolved_roots(reads.drop_last());
        if let Ok(all) = resolved_roots(reads) {
            assert forall|i: int| 0 <= i < reads.len() implies (#[trigger] reads[i]).directory
                && reads[i].canonical == Ok::<NativePath, Error>(all[i]) by {
                if i < reads.len() - 1 {
                    assert(reads.drop_last()[i] == reads[i]);
                }
            }
        }
    }
}

/// The roots of an installed policy strictly ascend, so none occurs twice, and
/// they are exactly the canonical forms of the roots that the policy requests,
/// each of which is a directory. Everything else in the policy is as it was
/// asked for, and it passes the check that reading it back makes.
pub proof fn law_installed_roots_are_the_requested_ones(
    r: Policy,
    requested: Policy,
    reads: Seq<RootReads>,
    roots: Seq<NativePath>,
)
    requires
        are_requested(reads, requested),
        resolved_roots(reads) == Ok::<Seq<NativePath>, ErrorView>(roots),
        is_installed(r, requested, roots),
        policy_check(requested, distinct(order::sorted(roots))) is Ok,
    ensures
        policy_check(r, r.allowed_repository_roots@) is Ok,
        forall|i: int, j: int|
            0 <= i < j < r.allowed_repository_roots@.len() ==> (
            #[trigger] r.allowed_repository_roots@[i]).precedes(
                #[trigger] r.allowed_repository_roots@[j],
            ),
        forall|i: int|
            0 <= i < r.allowed_repository_roots@.len() ==> roots.contains(
                #[trigger] r.allowed_repository_roots@[i],
            ),
        forall|k: int|
            0 <= k < roots.len() ==> holds(r.allowed_repository_roots@, (#[trigger] roots[k])@),
        roots.len() == requested.allowed_repository_roots@.len(),
        forall|k: int|
            0 <= k < roots.len() ==> (#[trigger] reads[k]).requested@
                == requested.allowed_repository_roots@[k]@ && reads[k].directory
                && reads[k].canonical == Ok::<NativePath, Error>(roots[k]),
        r == (Policy { allowed_repository_roots: r.allowed_repository_roots, ..requested }),
{
    broadcast use vstd::seq_lib::group_to_multiset_ensures;

    lemma_resolved_roots(reads);
    let sorted = order::sorted(roots);
    assert forall|a: NativePath, b: NativePath| #[trigger] a.precedes(b) implies !b.precedes(a) by {
        if b.precedes(a) {
            let (x, y) = (paths::components(a@), paths::components(b@));
            paths::lemma_components_transitive(x, y, x);
            paths::lemma_components_irreflexive(x);
        }
    }
    assert forall|a: NativePath, b: NativePath, c: NativePath|
        !(#[trigger] b.precedes(a)) && !(#[trigger] c.precedes(b)) implies !c.precedes(a) by {
        if c.precedes(a) {
            let (x, y, z) = (
                paths::components(a@),
                paths::components(b@),
                paths::components(c@),
            );
            paths::lemma_components_total(x, y);
            if paths::components_before(x, y) {
                paths::lemma_components_transitive(z, x, y);
            }
        }
    }
    order::lemma_sorted_in_order(roots);
    order::lemma_sorted_is_permutation(roots);
    lemma_distinct(sorted);
    let kept = r.allowed_repository_roots@;
    assert forall|i: int| 0 <= i < kept.len() implies roots.contains(#[trigger] kept[i]) by {
        assert(sorted.contains(kept[i]));
        assert(sorted.to_multiset().count(kept[i]) > 0);
        assert(roots.to_multiset().count(kept[i]) > 0);
    }
    assert forall|k: int| 0 <= k < roots.len() implies holds(kept, (#[trigger] roots[k])@) by {
        assert(roots.contains(roots[k]));
        assert(roots.to_multiset().count(roots[k]) > 0);
        assert(sorted.to_multiset().count(roots[k]) > 0);
        assert(sorted.contains(roots[k]));
        let i = sorted.index_of(roots[k]);
        assert(holds(kept, sorted[i]@));
    }
}

/// One root that cannot be resolved, or that is no directory, refuses the whole
/// policy: nothing is installed.
pub proof fn law_unusable_root_refuses_the_policy(roots: Seq<RootReads>, i: int)
    requires
        0 <= i < roots.len(),
        roots[i].canonical is Err || !roots[i].directory,
    ensures
        resolved_roots(roots) is Err,
    decreases roots.len(),
{
    if i < roots.len() - 1 {
        assert(roots.drop_last()[i] == roots[i]);
        law_unusable_root_refuses_the_policy(roots.drop_last(), i);
    }
}

} // verus!
