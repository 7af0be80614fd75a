//! Capsule creation, including state-root-scoped idempotent creation.

use vstd::prelude::*;
use vstd::string::*;

use crate::error::{Error, ErrorView};
use crate::files::EntryKind;
use crate::git::Repository;
use crate::idempotency::{
    IdempotencyLookup, IdempotencyRecord, IdempotencyStatus, IDEMPOTENCY_RECORD_SCHEMA_VERSION,
};
use crate::links::Links;
use crate::manager::CapsuleManager;
use crate::model::{Capsule, CapsuleState, SCHEMA_VERSION};
use crate::options::CreateOptions;
use crate::paths::NativePath;
use crate::store::StateStore;
use crate::worktree::{ListedWorktree, WorktreeInspection};
use crate::{
    error, files, idempotency, manager, paths, record, store, text, validate, worktree,
};

verus! {

/// Whether a character is one that a ULID is written with.
pub open spec fn is_ulid_char(c: char) -> bool {
    '0' <= c <= '9' || 'A' <= c <= 'Z'
}

/// Whether a text is written like a ULID.
pub open spec fn is_ulid(t: Seq<char>) -> bool {
    &&& t.len() == 26
    &&& forall|i: int| 0 <= i < t.len() ==> is_ulid_char(#[trigger] t[i])
}

/// `ulid::Ulid::generate`, written by its `to_string`: twenty-six digits and
/// uppercase letters. Which ones depends on the time and on chance, so that no
/// two calls give the same is not stated.
#[verifier::external_body]
pub(crate) fn fresh_ulid() -> (r: String)
    ensures
        is_ulid(r@),
{
    ulid::Ulid::generate().to_string()
}

/// A character with an ASCII capital made small.
pub open spec fn lowered_char(c: char) -> char {
    if 'A' <= c <= 'Z' {
        (c as u32 + 32) as char
    } else {
        c
    }
}

/// A text with every ASCII capital made small.
pub open spec fn lowered(t: Seq<char>) -> Seq<char> {
    t.map_values(|c: char| lowered_char(c))
}

/// Make every ASCII capital of a text small.
pub(crate) fn lowercase(t: &str) -> (r: String)
    ensures
        r@ == lowered(t@),
{
    let chars = text::text_chars(t);
    let mut r = String::new();
    let mut i: usize = 0;
    proof {
        assert(r@ =~= lowered(t@.take(0)));
    }
    while i < chars.len()
        invariant
            chars@ == t@,
            i <= chars.len(),
            r@ == lowered(t@.take(i as int)),
        decreases chars.len() - i,
    {
        let c = chars[i];
        let ghost before = r@;
        let small = if 'A' <= c && c <= 'Z' {
            let n: u8 = (c as u32 - 'A' as u32) as u8;
            (97 + n) as char
        } else {
            c
        };
        assert(small == lowered_char(c));
        r.push(small);
        proof {
            assert(r@ =~= lowered(t@.take(i + 1)));
        }
        i += 1;
    }
    proof {
        assert(t@.take(t@.len() as int) =~= t@);
    }
    r
}

/// Whether an identifier is a prefix followed by some ULID in small letters.
pub open spec fn is_drawn(prefix: Seq<char>, id: Seq<char>) -> bool {
    exists|t: Seq<char>| is_ulid(t) && id == prefix + #[trigger] lowered(t)
}

/// The capsule ID that a ULID gives.
pub fn capsule_id_of(ulid: &str) -> (r: String)
    ensures
        r@ == "cap-"@ + lowered(ulid@),
{
    text::cat2("cap-", lowercase(ulid).as_str())
}

/// What a ULID gives is shaped like a capsule ID.
proof fn lemma_drawn_capsule_id(ulid: Seq<char>)
    requires
        is_ulid(ulid),
    ensures
        validate::is_capsule_id("cap-"@ + lowered(ulid)),
        ("cap-"@ + lowered(ulid)).len() == 30,
{
    let id = "cap-"@ + lowered(ulid);
    reveal_strlit("cap-");
    assert(id.take(4) =~= "cap-"@);
    assert forall|i: int| 0 <= i < id.len() implies validate::is_id_char(#[trigger] id[i]) by {
        if i >= 4 {
            assert(is_ulid_char(ulid[i - 4]));
            assert(id[i] == lowered_char(ulid[i - 4]));
        } else {
            assert(id[i] == "cap-"@[i]);
        }
    }
}

/// A new capsule ID: that of a fresh ULID.
pub fn new_capsule_id() -> (r: String)
    ensures
        is_drawn("cap-"@, r@),
        r@.len() == 30,
        validate::is_capsule_id(r@),
{
    let ulid = fresh_ulid();
    proof {
        lemma_drawn_capsule_id(ulid@);
    }
    capsule_id_of(ulid.as_str())
}

/// Whether a capsule is a freshly created one for a request.
pub open spec fn is_initial(
    c: Capsule,
    root: Seq<u8>,
    id: Seq<char>,
    label: Option<String>,
    links: Links,
    repository: Repository,
    project_key: Seq<char>,
    base_commit: Seq<char>,
    created_at: u64,
) -> bool {
    &&& c.schema_version == SCHEMA_VERSION
    &&& c.id@ == id
    &&& c.label == label
    &&& c.links == links
    &&& c.state is Creating
    &&& c.source_worktree@ == repository.worktree@
    &&& c.repository_common_dir@ == repository.common_dir@
    &&& c.workspace_git_dir is None
    &&& c.workspace_path@ == store::workspace_path_of(root, project_key, id)
    &&& c.project_key@ == project_key
    &&& c.branch@ == store::branch_of(id)
    &&& c.base_commit@ == base_commit
    &&& c.created_at_unix == created_at
    &&& c.updated_at_unix == created_at
    &&& c.checkpoints@.len() == 0
    &&& c.checkpoint is None
    &&& c.evidence@.len() == 0
    &&& c.audit_events@.len() == 0
    &&& c.audit_events_dropped == 0
    &&& c.result is None
    &&& c.integration is None
    &&& c.cleanup is None
    &&& c.closed_at_unix is None
    &&& c.dropped_at_unix is None
}

/// What the reads before a creation say, in order.
pub open spec fn create_reads_check(
    options: CreateOptions,
    repository: std::result::Result<Repository, Error>,
    base_commit: std::result::Result<String, Error>,
) -> std::result::Result<(), ErrorView> {
    match validate::create_check(text::opt_view(options.label), options.links@) {
        Err(e) => Err(e),
        Ok(_) => match repository {
            Err(e) => Err(e@),
            Ok(r) => match base_commit {
                Err(e) => Err(e@),
                Ok(_) => match validate::project_key_of(r.common_dir@) {
                    Err(e) => Err(e),
                    Ok(_) => Ok(()),
                },
            },
        },
    }
}

/// Whether a stored capsule is the one a reservation is for.
pub open spec fn agrees(record: IdempotencyRecord, capsule: Capsule) -> bool {
    &&& capsule.id@ == record.capsule_id@
    &&& paths::same(capsule.source_worktree@, record.source_worktree@)
    &&& paths::same(capsule.repository_common_dir@, record.repository_common_dir@)
    &&& capsule.project_key@ == record.project_key@
    &&& capsule.base_commit@ == record.base_commit@
    &&& text::opt_view(capsule.label) == text::opt_view(record.label)
    &&& capsule.links@ == record.links@
    &&& capsule.created_at_unix == record.reserved_at_unix
}

/// What comparing a reservation with a stored capsule says.
pub open spec fn reservation_check(
    record: IdempotencyRecord,
    capsule: Capsule,
) -> std::result::Result<(), ErrorView> {
    if agrees(record, capsule) {
        Ok(())
    } else {
        Err(
            ErrorView::UnsafeState(
                "idempotency reservation does not agree with capsule "@ + record.capsule_id@,
            ),
        )
    }
}

/// Refuse a stored capsule that is not the one the reservation is for.
pub fn validate_reservation_capsule(record: &IdempotencyRecord, capsule: &Capsule) -> (r:
    std::result::Result<(), Error>)
    ensures
        error::outcome(r) == reservation_check(*record, *capsule),
{
    if text::same_text(capsule.id.as_str(), record.capsule_id.as_str())
        && capsule.source_worktree.same_path(&record.source_worktree)
        && capsule.repository_common_dir.same_path(&record.repository_common_dir)
        && text::same_text(capsule.project_key.as_str(), record.project_key.as_str())
        && text::same_text(capsule.base_commit.as_str(), record.base_commit.as_str())
        && text::same_opt_text(&capsule.label, &record.label) && capsule.links.same(&record.links)
        && capsule.created_at_unix == record.reserved_at_unix {
        Ok(())
    } else {
        Err(
            Error::UnsafeState(
                text::cat2(
                    "idempotency reservation does not agree with capsule ",
                    record.capsule_id.as_str(),
                ),
            ),
        )
    }
}

/// The commit that a replayed request asks for: the reserved one where the
/// revision is written the same, otherwise what it resolves to now.
pub open spec fn replayed_commit(
    options: CreateOptions,
    record: IdempotencyRecord,
    resolved: std::result::Result<String, Error>,
) -> Option<Seq<char>> {
    if options.base@ == record.base_selector@ {
        Some(record.base_commit@)
    } else {
        match resolved {
            Ok(c) => Some(c@),
            Err(_) => None,
        }
    }
}

/// What comparing a replayed request with its reservation says.
pub open spec fn replay_check(
    options: CreateOptions,
    repository: Repository,
    record: IdempotencyRecord,
    resolved: std::result::Result<String, Error>,
) -> std::result::Result<(), ErrorView> {
    if !paths::same(repository.worktree@, record.source_worktree@) || !paths::same(
        repository.common_dir@,
        record.repository_common_dir@,
    ) {
        Err(ErrorView::IdempotencyConflict)
    } else {
        match validate::project_key_of(repository.common_dir@) {
            Err(e) => Err(e),
            Ok(key) => if key == record.project_key@ && replayed_commit(options, record, resolved)
                == Some(record.base_commit@) && idempotency::request_digest(
                idempotency::RequestView {
                    source_worktree: repository.worktree@,
                    repository_common_dir: repository.common_dir@,
                    project_key: record.project_key@,
                    base_selector: record.base_selector@,
                    base_commit: record.base_commit@,
                    label: text::opt_view(options.label),
                    links: options.links@,
                },
            ) == record.request_sha256@ {
                Ok(())
            } else {
                Err(ErrorView::IdempotencyConflict)
            },
        }
    }
}

/// Refuse a replayed request that is not equivalent to the reserved one.
pub fn validate_replayed_request(
    options: &CreateOptions,
    repository: &Repository,
    record: &IdempotencyRecord,
    resolved: &std::result::Result<String, Error>,
) -> (r: std::result::Result<(), Error>)
    ensures
        error::outcome(r) == replay_check(*options, *repository, *record, *resolved),
{
    if !repository.worktree.same_path(&record.source_worktree)
        || !repository.common_dir.same_path(&record.repository_common_dir) {
        return Err(Error::IdempotencyConflict);
    }
    let key = match validate::project_key(&repository.common_dir) {
        Ok(k) => k,
        Err(e) => {
            return Err(e);
        },
    };
    if !text::same_text(key.as_str(), record.project_key.as_str()) {
        return Err(Error::IdempotencyConflict);
    }
    if !text::same_text(options.base.as_str(), record.base_selector.as_str()) {
        match resolved {
            Ok(c) => {
                if !text::same_text(c.as_str(), record.base_commit.as_str()) {
                    return Err(Error::IdempotencyConflict);
                }
            },
            Err(_) => {
                return Err(Error::IdempotencyConflict);
            },
        }
    }
    let equivalent = idempotency::canonical_request_sha256(
        &repository.worktree,
        &repository.common_dir,
        record.project_key.as_str(),
        record.base_selector.as_str(),
        record.base_commit.as_str(),
        &options.label,
        &options.links,
    );
    if text::same_text(equivalent.as_str(), record.request_sha256.as_str()) {
        Ok(())
    } else {
        Err(Error::IdempotencyConflict)
    }
}

/// What to do about an idempotent creation request.
#[derive(Debug, PartialEq, Eq)]
pub enum IdempotentStep {
    /// Publish this new reservation, then materialize it.
    Reserve(IdempotencyRecord),
    /// The key is already bound to this reservation: materialize it.
    Replay(IdempotencyRecord),
}

/// What the reads before an idempotent creation say, in order: the input
/// checks, the repository, and a stored reservation that must be valid.
pub open spec fn idempotent_reads_check(
    options: CreateOptions,
    key: Seq<char>,
    repository: std::result::Result<Repository, Error>,
    existing: std::result::Result<Option<IdempotencyRecord>, Error>,
) -> std::result::Result<(), ErrorView> {
    match validate::create_check(text::opt_view(options.label), options.links@) {
        Err(e) => Err(e),
        Ok(_) => match idempotency::key_check(key) {
            Err(e) => Err(e),
            Ok(_) => match repository {
                Err(e) => Err(e@),
                Ok(r) => match validate::project_key_of(r.common_dir@) {
                    Err(e) => Err(e),
                    Ok(_) => match existing {
                        Err(e) => Err(e@),
                        Ok(None) => Ok(()),
                        Ok(Some(record)) => record.check(idempotency::key_digest(key)),
                    },
                },
            },
        },
    }
}

/// Whether a reservation is a new one for a request.
pub open spec fn is_reservation_for(
    record: IdempotencyRecord,
    options: CreateOptions,
    key: Seq<char>,
    repository: Repository,
    base_commit: Seq<char>,
    reserved_at: u64,
) -> bool {
    &&& record.idempotency_key_sha256@ == idempotency::key_digest(key)
    &&& is_drawn("cap-"@, record.capsule_id@)
    &&& validate::is_capsule_id(record.capsule_id@)
    &&& record.source_worktree@ == repository.worktree@
    &&& record.repository_common_dir@ == repository.common_dir@
    &&& validate::project_key_of(repository.common_dir@) == Ok::<Seq<char>, ErrorView>(
        record.project_key@,
    )
    &&& record.base_selector == options.base
    &&& record.base_commit@ == base_commit
    &&& record.label == options.label
    &&& record.links == options.links
    &&& record.reserved_at_unix == reserved_at
    &&& record.check(idempotency::key_digest(key)) is Ok
}

/// What to do to bring a reserved capsule into being.
#[derive(Debug, PartialEq, Eq)]
pub enum MaterializeStep {
    /// The manifest exists; it is only to be completed if it is still being
    /// created.
    Existing(Capsule),
    /// No manifest exists: publish this one and complete it.
    New(Capsule),
}

/// Everything that was read to decide how a creation continues.
#[derive(Debug, PartialEq, Eq)]
pub struct CreatingObservation {
    /// The repository at the source worktree.
    pub source: Result<Repository, Error>,
    /// Whether anything exists at the workspace path.
    pub workspace_entry: Result<bool, Error>,
    /// The Git directory found at the workspace path, if any.
    pub found_git_dir: Option<NativePath>,
    /// What proves ownership of the workspace.
    pub inspection: WorktreeInspection,
    /// The `HEAD` commit of the workspace.
    pub head: Result<String, Error>,
    /// The commit the capsule branch points at, if it exists.
    pub branch_head: Result<Option<String>, Error>,
    /// Whether the workspace is clean.
    pub clean: Result<bool, Error>,
    /// Whether the workspace holds nothing but its Git link file.
    pub unchecked_shape: Result<bool, Error>,
    /// The registered worktrees.
    pub listed: Result<Vec<ListedWorktree>, Error>,
    /// The canonical workspace path, if it resolves.
    pub canonical_workspace: Option<NativePath>,
    /// The current directory, if known.
    pub current_dir: Option<NativePath>,
}

/// How a creation continues.
pub enum CreatingView {
    /// Refuse to guess, for this reason.
    Abandon(Seq<char>),
    /// The worktree exists and matches: finish checking it out.
    Adopt,
    /// Nothing exists yet: add the worktree.
    Add,
    /// What was read does not allow a decision.
    Fail(ErrorView),
}

/// A capsule whose workspace Git directory is filled in from what was found,
/// where it was not known yet.
pub open spec fn with_found_git_dir(c: Capsule, found: Option<NativePath>) -> Capsule {
    if c.workspace_git_dir is None {
        Capsule { workspace_git_dir: found, ..c }
    } else {
        c
    }
}

/// How a creation continues with an existing workspace that is the capsule's
/// own: it must be exactly at the reserved base.
pub open spec fn base_match_of(
    base_commit: Seq<char>,
    head: std::result::Result<String, Error>,
    branch_head: std::result::Result<Option<String>, Error>,
    clean: std::result::Result<bool, Error>,
    unchecked_shape: std::result::Result<bool, Error>,
) -> CreatingView {
    let mismatch = CreatingView::Abandon(
        "existing worktree does not exactly match the reserved base"@,
    );
    match head {
        Err(e) => CreatingView::Fail(e@),
        Ok(head) => match branch_head {
            Err(e) => CreatingView::Fail(e@),
            Ok(branch_head) => if head@ != base_commit || text::opt_view(branch_head) != Some(
                base_commit,
            ) {
                mismatch
            } else {
                match clean {
                    Err(e) => CreatingView::Fail(e@),
                    Ok(true) => CreatingView::Adopt,
                    Ok(false) => match unchecked_shape {
                        Err(e) => CreatingView::Fail(e@),
                        Ok(true) => CreatingView::Adopt,
                        Ok(false) => mismatch,
                    },
                }
            },
        },
    }
}

/// How a creation continues where something exists at the workspace path.
pub open spec fn adoption_of(c: Capsule, o: CreatingObservation) -> CreatingView {
    if worktree::ownership_check(with_found_git_dir(c, o.found_git_dir), o.inspection) is Err {
        CreatingView::Abandon("workspace path is contradictory"@)
    } else {
        base_match_of(c.base_commit@, o.head, o.branch_head, o.clean, o.unchecked_shape)
    }
}

/// How a creation continues.
pub open spec fn creating_of(c: Capsule, o: CreatingObservation) -> CreatingView {
    match o.source {
        Err(_) => CreatingView::Abandon("reserved source repository is no longer available"@),
        Ok(source) => if !paths::same(source.common_dir@, c.repository_common_dir@) {
            CreatingView::Abandon("reserved source repository identity no longer agrees"@)
        } else {
            match o.workspace_entry {
                Err(e) => CreatingView::Fail(e@),
                Ok(true) => adoption_of(c, o),
                Ok(false) => match o.branch_head {
                    Err(e) => CreatingView::Fail(e@),
                    Ok(branch_head) => match o.listed {
                        Err(e) => CreatingView::Fail(e@),
                        Ok(listed) => if branch_head is Some || worktree::already_registered(
                            c,
                            record::opt_view(o.canonical_workspace),
                            record::opt_view(o.current_dir),
                            listed@,
                        ) {
                            CreatingView::Abandon("partial Git creation state is contradictory"@)
                        } else {
                            CreatingView::Add
                        },
                    },
                },
            }
        },
    }
}

/// What to do to complete a creation.
#[derive(Debug, PartialEq, Eq)]
pub enum CreatingOutcome {
    /// Write this capsule. Where `checkout` says so, first make the workspace
    /// equal to the base commit.
    Done {
        /// The capsule in its new state.
        capsule: Capsule,
        /// What was done, in words.
        action: String,
        /// Whether the existing worktree still has to be checked out.
        checkout: bool,
    },
    /// Add the worktree, then adopt it.
    AddWorktree(Capsule),
}

/// The message for an orphaned creation.
pub open spec fn orphan_action(reason: Seq<char>) -> Seq<char> {
    "marked an incomplete creation orphaned: "@ + reason + "; explicit inspection is required"@
}

/// A capsule moved to another state at a given time.
pub open spec fn moved(c: Capsule, state: CapsuleState, at: u64) -> Capsule {
    Capsule { state, updated_at_unix: at, ..c }
}

/// Give up on a creation: mark the same capsule orphaned where its identity is
/// already bound, otherwise fail.
pub fn abandon_creation(capsule: Capsule, reason: &str, allow_orphan: bool, at: u64) -> (r:
    std::result::Result<(Capsule, String), Error>)
    ensures
        if allow_orphan {
            r matches Ok(done) && done.0 == moved(capsule, CapsuleState::Orphaned, at) && done.1@
                == orphan_action(reason@)
        } else {
            r matches Err(e) && e@ == ErrorView::UnsafeState(
                "cannot create capsule "@ + capsule.id@ + ": "@ + reason@,
            )
        },
{
    if !allow_orphan {
        return Err(
            Error::UnsafeState(
                text::cat4("cannot create capsule ", capsule.id.as_str(), ": ", reason),
            ),
        );
    }
    let mut c = capsule;
    c.state = CapsuleState::Orphaned;
    c.updated_at_unix = at;
    Ok(
        (
            c,
            text::cat3(
                "marked an incomplete creation orphaned: ",
                reason,
                "; explicit inspection is required",
            ),
        ),
    )
}

/// Make a created capsule usable.
pub fn activate_created_capsule(capsule: Capsule, at: u64) -> (r: (Capsule, String))
    ensures
        r.0 == moved(capsule, CapsuleState::Active, at),
        r.1@ == "completed an interrupted workspace creation"@,
{
    let mut c = capsule;
    c.state = CapsuleState::Active;
    c.updated_at_unix = at;
    (c, "completed an interrupted workspace creation".to_owned())
}

fn match_base(
    base_commit: &String,
    head: &std::result::Result<String, Error>,
    branch_head: &std::result::Result<Option<String>, Error>,
    clean: &std::result::Result<bool, Error>,
    unchecked_shape: &std::result::Result<bool, Error>,
) -> (r: (Option<&'static str>, Option<Error>))
    ensures
        match base_match_of(base_commit@, *head, *branch_head, *clean, *unchecked_shape) {
            CreatingView::Abandon(reason) => r.0 matches Some(found) && found@ == reason && r.1
                is None,
            CreatingView::Adopt => r.0 is None && r.1 is None,
            CreatingView::Fail(e) => r.0 is None && (r.1 matches Some(found) && found@ == e),
            CreatingView::Add => false,
        },
{
    let mismatch = "existing worktree does not exactly match the reserved base";
    let head = match head {
        Err(e) => {
            return (None, Some(e.clone()));
        },
        Ok(h) => h,
    };
    let branch_head = match branch_head {
        Err(e) => {
            return (None, Some(e.clone()));
        },
        Ok(h) => h,
    };
    let on_base = match branch_head {
        Some(h) => text::same_text(h.as_str(), base_commit.as_str()),
        None => false,
    };
    if !text::same_text(head.as_str(), base_commit.as_str()) || !on_base {
        return (Some(mismatch), None);
    }
    match clean {
        Err(e) => (None, Some(e.clone())),
        Ok(clean) => if *clean {
            (None, None)
        } else {
            match unchecked_shape {
                Err(e) => (None, Some(e.clone())),
                Ok(shape) => if *shape {
                    (None, None)
                } else {
                    (Some(mismatch), None)
                },
            }
        },
    }
}

/// The capsule that an abandoned creation leaves, before it changes state: the
/// Git directory is recorded as soon as the workspace was looked at.
pub open spec fn abandoned_capsule(c: Capsule, o: CreatingObservation) -> Capsule {
    match (o.source, o.workspace_entry) {
        (Ok(source), Ok(true)) => if paths::same(source.common_dir@, c.repository_common_dir@) {
            with_found_git_dir(c, o.found_git_dir)
        } else {
            c
        },
        _ => c,
    }
}

/// What completing a creation gives, for each way it continues.
pub open spec fn creating_outcome_matches(
    r: std::result::Result<CreatingOutcome, Error>,
    c: Capsule,
    o: CreatingObservation,
    allow_orphan: bool,
    at: u64,
) -> bool {
    match creating_of(c, o) {
        CreatingView::Fail(e) => r matches Err(found) && found@ == e,
        CreatingView::Add => r matches Ok(CreatingOutcome::AddWorktree(next)) && next == c,
        CreatingView::Adopt => r matches Ok(CreatingOutcome::Done { capsule, action, checkout })
            && capsule == moved(with_found_git_dir(c, o.found_git_dir), CapsuleState::Active, at)
            && action@ == "completed an interrupted workspace creation"@ && checkout,
        CreatingView::Abandon(reason) => if allow_orphan {
            r matches Ok(CreatingOutcome::Done { capsule, action, checkout }) && capsule == moved(
                abandoned_capsule(c, o),
                CapsuleState::Orphaned,
                at,
            ) && action@ == orphan_action(reason) && !checkout
        } else {
            r matches Err(e) && e@ == ErrorView::UnsafeState(
                "cannot create capsule "@ + c.id@ + ": "@ + reason,
            )
        },
    }
}

fn abandoned(capsule: Capsule, reason: &str, allow_orphan: bool, at: u64) -> (r:
    std::result::Result<CreatingOutcome, Error>)
    ensures
        if allow_orphan {
            r matches Ok(CreatingOutcome::Done { capsule: next, action, checkout }) && next
                == moved(capsule, CapsuleState::Orphaned, at) && action@ == orphan_action(reason@)
                && !checkout
        } else {
            r matches Err(e) && e@ == ErrorView::UnsafeState(
                "cannot create capsule "@ + capsule.id@ + ": "@ + reason@,
            )
        },
{
    match abandon_creation(capsule, reason, allow_orphan, at) {
        Ok((c, action)) => Ok(CreatingOutcome::Done { capsule: c, action, checkout: false }),
        Err(e) => Err(e),
    }
}

/// What was read to resolve an idempotency key.
///
/// What could not be read carries the error that prevented it.
#[derive(Debug, PartialEq, Eq)]
pub struct LookupReads {
    /// The reservation stored under the key's digest, if any.
    pub reservation: Result<Option<IdempotencyRecord>, Error>,
    /// The manifest stored under the reserved identity, if any.
    pub manifest: Result<Option<Capsule>, Error>,
    /// Whether the directory of the reserved identity is still empty.
    pub unmaterialized: Result<(), Error>,
}

/// What resolving an idempotency key says, in order: the key, the reservation,
/// and a manifest that must be the reserved one.
pub open spec fn lookup_check(root: Seq<u8>, key: Seq<char>, reads: LookupReads) -> std::result::Result<
    (),
    ErrorView,
> {
    match idempotency::key_check(key) {
        Err(e) => Err(e),
        Ok(_) => match reads.reservation {
            Err(e) => Err(e@),
            Ok(None) => Err(ErrorView::IdempotencyNotFound),
            Ok(Some(record)) => match record.check(idempotency::key_digest(key)) {
                Err(e) => Err(e),
                Ok(_) => match reads.manifest {
                    Err(e) => Err(e@),
                    Ok(None) => error::outcome(reads.unmaterialized),
                    Ok(Some(capsule)) => match store::read_check(
                        root,
                        record.capsule_id@,
                        Ok(capsule),
                    ) {
                        Err(e) => Err(e),
                        Ok(_) => reservation_check(record, capsule),
                    },
                },
            },
        },
    }
}

/// Whether a lookup reports what was read of a key.
pub open spec fn is_lookup_of(
    found: IdempotencyLookup,
    key: Seq<char>,
    record: IdempotencyRecord,
    manifest: Option<Capsule>,
) -> bool {
    &&& found.schema_version == IDEMPOTENCY_RECORD_SCHEMA_VERSION
    &&& found.idempotency_key_sha256@ == idempotency::key_digest(key)
    &&& found.capsule_id == record.capsule_id
    &&& found.capsule == manifest
    &&& found.status == if manifest is Some {
        IdempotencyStatus::Materialized
    } else {
        IdempotencyStatus::Reserved
    }
}

/// What resolving an idempotency key gives.
pub open spec fn lookup_matches(
    r: std::result::Result<IdempotencyLookup, Error>,
    root: Seq<u8>,
    key: Seq<char>,
    reads: LookupReads,
) -> bool {
    match lookup_check(root, key, reads) {
        Err(e) => r matches Err(found) && found@ == e,
        Ok(_) => r matches Ok(found) && is_lookup_of(
            found,
            key,
            reads.reservation->Ok_0->0,
            reads.manifest->Ok_0,
        ),
    }
}

/// Resolve one idempotency key in a state directory.
pub fn lookup_idempotency_key_in_store(store: &StateStore, key: &str, reads: LookupReads) -> (r:
    std::result::Result<IdempotencyLookup, Error>)
    ensures
        lookup_matches(r, store.root@, key@, reads),
{
    let key_digest = match idempotency::key_sha256(key) {
        Err(e) => {
            return Err(e);
        },
        Ok(d) => d,
    };
    let record = match reads.reservation {
        Err(e) => {
            return Err(e);
        },
        Ok(None) => {
            return Err(Error::IdempotencyNotFound);
        },
        Ok(Some(record)) => record,
    };
    match record.validate(key_digest.as_str()) {
        Err(e) => {
            return Err(e);
        },
        Ok(_) => {},
    }
    let manifest = match reads.manifest {
        Err(e) => {
            return Err(e);
        },
        Ok(m) => m,
    };
    match manifest {
        Some(capsule) => {
            let capsule = match store.read_capsule(record.capsule_id.as_str(), Ok(capsule)) {
                Err(e) => {
                    return Err(e);
                },
                Ok(c) => c,
            };
            match validate_reservation_capsule(&record, &capsule) {
                Err(e) => Err(e),
                Ok(_) => Ok(
                    IdempotencyLookup {
                        schema_version: IDEMPOTENCY_RECORD_SCHEMA_VERSION,
                        idempotency_key_sha256: key_digest,
                        capsule_id: record.capsule_id,
                        status: IdempotencyStatus::Materialized,
                        capsule: Some(capsule),
                    },
                ),
            }
        },
        None => match reads.unmaterialized {
            Err(e) => Err(e),
            Ok(_) => Ok(
                IdempotencyLookup {
                    schema_version: IDEMPOTENCY_RECORD_SCHEMA_VERSION,
                    idempotency_key_sha256: key_digest,
                    capsule_id: record.capsule_id,
                    status: IdempotencyStatus::Reserved,
                    capsule: None,
                },
            ),
        },
    }
}

/// What was found of a state directory that must already exist.
///
/// What could not be read carries the error that prevented it.
#[derive(Debug, PartialEq, Eq)]
pub struct ExistingRoot {
    /// What is at the given path.
    pub entry: Result<EntryKind, Error>,
    /// The canonical form of the path.
    pub canonical: Result<NativePath, Error>,
    /// What is at the directory of the capsules.
    pub capsules: Result<EntryKind, Error>,
    /// What is at the directory of the reservations.
    pub idempotency: Result<EntryKind, Error>,
}

/// What requiring an initialized directory says: where it is absent, no
/// reservation can be found in it.
pub open spec fn initialized_check(path: Seq<u8>, found: std::result::Result<EntryKind, Error>) -> std::result::Result<
    (),
    ErrorView,
> {
    match files::directory_check(path, found) {
        Ok(_) => Ok(()),
        Err(e) => if files::is_missing(e) {
            Err(ErrorView::IdempotencyNotFound)
        } else {
            Err(e)
        },
    }
}

/// What opening an existing state directory without creating anything says.
pub open spec fn existing_root_check(path: Seq<u8>, found: ExistingRoot) -> std::result::Result<
    (),
    ErrorView,
> {
    if initialized_check(path, found.entry) is Err {
        initialized_check(path, found.entry)
    } else {
        match found.canonical {
            Err(e) => Err(e@),
            Ok(root) => if initialized_check(store::below(root@, "capsules"@), found.capsules) is Err {
                initialized_check(store::below(root@, "capsules"@), found.capsules)
            } else {
                initialized_check(store::below(root@, "idempotency"@), found.idempotency)
            },
        }
    }
}

/// Open an existing state directory without creating anything.
pub fn open_existing(path: &NativePath, found: ExistingRoot) -> (r: std::result::Result<
    StateStore,
    Error,
>)
    ensures
        match existing_root_check(path@, found) {
            Err(e) => r matches Err(failed) && failed@ == e,
            Ok(_) => r matches Ok(opened) && opened.root == found.canonical->Ok_0,
        },
{
    match files::require_initialized_directory(path, found.entry) {
        Err(e) => {
            return Err(e);
        },
        Ok(_) => {},
    }
    let opened = match found.canonical {
        Err(e) => {
            return Err(e);
        },
        Ok(root) => StateStore::new(root),
    };
    match files::require_initialized_directory(&opened.capsules_dir(), found.capsules) {
        Err(e) => {
            return Err(e);
        },
        Ok(_) => {},
    }
    match files::require_initialized_directory(&opened.idempotency_dir(), found.idempotency) {
        Err(e) => Err(e),
        Ok(_) => Ok(opened),
    }
}

impl CapsuleManager {
    /// Directly resolve one state-root-scoped idempotency key without scans.
    pub fn lookup_idempotency_key(&self, key: &str, reads: LookupReads) -> (r: std::result::Result<
        IdempotencyLookup,
        Error,
    >)
        ensures
            lookup_matches(r, self.store.root@, key@, reads),
    {
        lookup_idempotency_key_in_store(&self.store, key, reads)
    }

    /// Resolve one idempotency key in an existing state directory, without
    /// creating anything there.
    pub fn lookup_idempotency_key_at(
        state_root: &NativePath,
        key: &str,
        found: ExistingRoot,
        reads: LookupReads,
    ) -> (r: std::result::Result<IdempotencyLookup, Error>)
        ensures
            match existing_root_check(state_root@, found) {
                Err(e) => r matches Err(failed) && failed@ == e,
                Ok(_) => lookup_matches(r, found.canonical->Ok_0@, key@, reads),
            },
    {
        match open_existing(state_root, found) {
            Err(e) => Err(e),
            Ok(store) => lookup_idempotency_key_in_store(&store, key, reads),
        }
    }

    /// A capsule in its first state.
    pub fn initial_capsule(
        &self,
        id: String,
        label: Option<String>,
        links: Links,
        repository: &Repository,
        project_key: String,
        base_commit: String,
        created_at: u64,
    ) -> (r: std::result::Result<Capsule, Error>)
        requires
            id@.len() >= 4,
        ensures
            if validate::project_key_check(project_key@) is Err {
                r matches Err(e) && Err::<(), ErrorView>(e@) == validate::project_key_check(
                    project_key@,
                )
            } else if validate::id_check(id@) is Err {
                r matches Err(e) && Err::<(), ErrorView>(e@) == validate::id_check(id@)
            } else {
                r matches Ok(c) && is_initial(
                    c,
                    self.store.root@,
                    id@,
                    label,
                    links,
                    *repository,
                    project_key@,
                    base_commit@,
                    created_at,
                )
            },
    {
        let branch = store::branch_name(id.as_str());
        let workspace_path = match self.store.workspace_path(project_key.as_str(), id.as_str()) {
            Ok(p) => p,
            Err(e) => {
                return Err(e);
            },
        };
        Ok(
            Capsule {
                schema_version: SCHEMA_VERSION,
                id,
                label,
                links,
                state: CapsuleState::Creating,
                source_worktree: repository.worktree.clone(),
                repository_common_dir: repository.common_dir.clone(),
                workspace_git_dir: None,
                workspace_path,
                project_key,
                branch,
                base_commit,
                created_at_unix: created_at,
                updated_at_unix: created_at,
                checkpoints: Vec::new(),
                checkpoint: None,
                evidence: Vec::new(),
                audit_events: Vec::new(),
                audit_events_dropped: 0,
                result: None,
                integration: None,
                cleanup: None,
                closed_at_unix: None,
                dropped_at_unix: None,
            },
        )
    }

    /// A new capsule from a pinned commit, with an identity nothing refers to
    /// yet. It is to be written, and its creation completed.
    pub fn create(
        &self,
        options: CreateOptions,
        repository: std::result::Result<Repository, Error>,
        base_commit: std::result::Result<String, Error>,
        created_at: u64,
    ) -> (r: std::result::Result<Capsule, Error>)
        ensures
            match create_reads_check(options, repository, base_commit) {
                Err(e) => r matches Err(found) && found@ == e,
                Ok(_) => r matches Ok(c) && is_drawn("cap-"@, c.id@) && validate::is_capsule_id(
                    c.id@,
                ) && is_initial(
                    c,
                    self.store.root@,
                    c.id@,
                    options.label,
                    options.links,
                    repository->Ok_0,
                    validate::project_key_of(repository->Ok_0.common_dir@)->Ok_0,
                    base_commit->Ok_0@,
                    created_at,
                ),
            },
    {
        match options.validate() {
            Err(e) => {
                return Err(e);
            },
            Ok(_) => {},
        }
        let repository = match repository {
            Err(e) => {
                return Err(e);
            },
            Ok(r) => r,
        };
        let base_commit = match base_commit {
            Err(e) => {
                return Err(e);
            },
            Ok(c) => c,
        };
        let key = match validate::project_key(&repository.common_dir) {
            Err(e) => {
                return Err(e);
            },
            Ok(k) => k,
        };
        proof {
            validate::lemma_project_key_shape(repository.common_dir@);
            lemma_project_key_passes(key@);
        }
        self.initial_capsule(
            new_capsule_id(),
            options.label,
            options.links,
            &repository,
            key,
            base_commit,
            created_at,
        )
    }

    /// Decide on one state-root-scoped logical creation: bind the key to a new
    /// identity, or replay the identity it is bound to.
    ///
    /// `existing` is the reservation stored under the key, if any; `resolved`
    /// is what the base revision resolves to now.
    pub fn create_idempotent(
        &self,
        options: CreateOptions,
        key: &str,
        repository: std::result::Result<Repository, Error>,
        existing: std::result::Result<Option<IdempotencyRecord>, Error>,
        resolved: std::result::Result<String, Error>,
        reserved_at: u64,
    ) -> (r: std::result::Result<IdempotentStep, Error>)
        ensures
            match idempotent_reads_check(options, key@, repository, existing) {
                Err(e) => r matches Err(found) && found@ == e,
                Ok(_) => match existing->Ok_0 {
                    Some(record) => match replay_check(
                        options,
                        repository->Ok_0,
                        record,
                        resolved,
                    ) {
                        Err(e) => r matches Err(found) && found@ == e,
                        Ok(_) => r == Ok::<IdempotentStep, Error>(IdempotentStep::Replay(record)),
                    },
                    None => match resolved {
                        Err(e) => r matches Err(found) && found@ == e@,
                        Ok(commit) => match r {
                            Ok(IdempotentStep::Reserve(record)) => is_reservation_for(
                                record,
                                options,
                                key@,
                                repository->Ok_0,
                                commit@,
                                reserved_at,
                            ),
                            Ok(IdempotentStep::Replay(_)) => false,
                            Err(found) => found@ == ErrorView::UnsafeState(
                                "idempotency reservation "@ + idempotency::key_digest(key@)
                                    + " is malformed or contradictory"@,
                            ) && !(validate::is_object_id(commit@) && paths::is_absolute(
                                repository->Ok_0.worktree@,
                            ) && paths::is_absolute(repository->Ok_0.common_dir@)
                                && validate::is_revision(options.base@)),
                        },
                    },
                },
            },
    {
        match options.validate() {
            Err(e) => {
                return Err(e);
            },
            Ok(_) => {},
        }
        let key_digest = match idempotency::key_sha256(key) {
            Err(e) => {
                return Err(e);
            },
            Ok(d) => d,
        };
        let repository = match repository {
            Err(e) => {
                return Err(e);
            },
            Ok(r) => r,
        };
        let project_key = match validate::project_key(&repository.common_dir) {
            Err(e) => {
                return Err(e);
            },
            Ok(k) => k,
        };
        let existing = match existing {
            Err(e) => {
                return Err(e);
            },
            Ok(x) => x,
        };
        match existing {
            Some(record) => {
                match record.validate(key_digest.as_str()) {
                    Err(e) => {
                        return Err(e);
                    },
                    Ok(_) => {},
                }
                match validate_replayed_request(&options, &repository, &record, &resolved) {
                    Err(e) => Err(e),
                    Ok(_) => Ok(IdempotentStep::Replay(record)),
                }
            },
            None => {
                let base_commit = match resolved {
                    Err(e) => {
                        return Err(e);
                    },
                    Ok(c) => c,
                };
                let draft = IdempotencyRecord {
                    schema_version: IDEMPOTENCY_RECORD_SCHEMA_VERSION,
                    idempotency_key_sha256: key_digest.clone(),
                    request_sha256: String::new(),
                    record_sha256: String::new(),
                    capsule_id: new_capsule_id(),
                    source_worktree: repository.worktree.clone(),
                    repository_common_dir: repository.common_dir.clone(),
                    project_key,
                    base_selector: options.base,
                    base_commit,
                    label: options.label,
                    links: options.links,
                    reserved_at_unix: reserved_at,
                };
                let record = draft.sealed();
                proof {
                    idempotency::law_accepted_request_can_be_reserved(
                        text::opt_view(options.label),
                        options.links@,
                    );
                    crate::digest::lemma_hex_of_is_lower(
                        crate::digest::sha256_of(
                            vstd::utf8::encode_utf8("change-capsule idempotency key v1\0"@)
                                + idempotency::framed_text(key@),
                        )@,
                    );
                    if validate::is_object_id(record.base_commit@) && paths::is_absolute(
                        repository.worktree@,
                    ) && paths::is_absolute(repository.common_dir@) && validate::is_revision(
                        record.base_selector@,
                    ) {
                        idempotency::law_sealed_reservation_validates(draft, record);
                    }
                }
                match record.validate(key_digest.as_str()) {
                    Err(e) => Err(e),
                    Ok(_) => Ok(IdempotentStep::Reserve(record)),
                }
            },
        }
    }

    /// Decide how to bring a reserved capsule into being.
    ///
    /// `manifest` is the manifest stored under the reserved identity, if any;
    /// `unmaterialized` says whether its directory is still empty; `repository`
    /// is the source repository as it exists now.
    pub fn materialize_idempotency_record(
        &self,
        record: &IdempotencyRecord,
        manifest: std::result::Result<Option<Capsule>, Error>,
        unmaterialized: std::result::Result<(), Error>,
        repository: std::result::Result<Repository, Error>,
    ) -> (r: std::result::Result<MaterializeStep, Error>)
        requires
            record.capsule_id@.len() >= 4,
        ensures
            match manifest {
                Err(e) => r matches Err(found) && found@ == e@,
                Ok(Some(capsule)) => match store::read_check(
                    self.store.root@,
                    record.capsule_id@,
                    Ok(capsule),
                ) {
                    Err(e) => r matches Err(found) && found@ == e,
                    Ok(_) => match reservation_check(*record, capsule) {
                        Err(e) => r matches Err(found) && found@ == e,
                        Ok(_) => r == Ok::<MaterializeStep, Error>(
                            MaterializeStep::Existing(capsule),
                        ),
                    },
                },
                Ok(None) => match unmaterialized {
                    Err(e) => r matches Err(found) && found@ == e@,
                    Ok(_) => match repository {
                        Err(e) => r matches Err(found) && found@ == e@,
                        Ok(now) => if !paths::same(now.worktree@, record.source_worktree@)
                            || !paths::same(now.common_dir@, record.repository_common_dir@) {
                            r matches Err(found) && found@ == ErrorView::UnsafeState(
                                "reserved source repository identity changed before creation"@,
                            )
                        } else if validate::project_key_check(record.project_key@) is Err {
                            r matches Err(found) && Err::<(), ErrorView>(found@)
                                == validate::project_key_check(record.project_key@)
                        } else if validate::id_check(record.capsule_id@) is Err {
                            r matches Err(found) && Err::<(), ErrorView>(found@)
                                == validate::id_check(record.capsule_id@)
                        } else {
                            r matches Ok(MaterializeStep::New(c)) && is_initial(
                                c,
                                self.store.root@,
                                record.capsule_id@,
                                record.label,
                                c.links,
                                now,
                                record.project_key@,
                                record.base_commit@,
                                record.reserved_at_unix,
                            ) && c.links@ == record.links@
                        },
                    },
                },
            },
    {
        match manifest {
            Err(e) => Err(e),
            Ok(Some(capsule)) => {
                let capsule = match self.store.read_capsule(
                    record.capsule_id.as_str(),
                    Ok(capsule),
                ) {
                    Err(e) => {
                        return Err(e);
                    },
                    Ok(c) => c,
                };
                match validate_reservation_capsule(record, &capsule) {
                    Err(e) => Err(e),
                    Ok(_) => Ok(MaterializeStep::Existing(capsule)),
                }
            },
            Ok(None) => {
                match unmaterialized {
                    Err(e) => {
                        return Err(e);
                    },
                    Ok(_) => {},
                }
                let now = match repository {
                    Err(e) => {
                        return Err(e);
                    },
                    Ok(r) => r,
                };
                if !now.worktree.same_path(&record.source_worktree) || !now.common_dir.same_path(
                    &record.repository_common_dir,
                ) {
                    return Err(
                        Error::UnsafeState(
                            "reserved source repository identity changed before creation".to_owned(),
                        ),
                    );
                }
                match self.initial_capsule(
                    record.capsule_id.clone(),
                    text::copy_opt_text(&record.label),
                    record.links.clone(),
                    &now,
                    record.project_key.clone(),
                    record.base_commit.clone(),
                    record.reserved_at_unix,
                ) {
                    Err(e) => Err(e),
                    Ok(c) => Ok(MaterializeStep::New(c)),
                }
            },
        }
    }

    /// Drive a capsule that is being created forward, or refuse to guess.
    ///
    /// With `allow_orphan`, an unprovable Git state marks this same capsule
    /// orphaned and succeeds, because its identity is already bound and must
    /// never be replaced. Without it, the same condition is an error.
    pub fn complete_creating(
        &self,
        capsule: Capsule,
        observed: CreatingObservation,
        allow_orphan: bool,
        at: u64,
    ) -> (r: std::result::Result<CreatingOutcome, Error>)
        ensures
            creating_outcome_matches(r, capsule, observed, allow_orphan, at),
    {
        let source = match &observed.source {
            Err(_) => {
                return abandoned(
                    capsule,
                    "reserved source repository is no longer available",
                    allow_orphan,
                    at,
                );
            },
            Ok(s) => s,
        };
        if !source.common_dir.same_path(&capsule.repository_common_dir) {
            return abandoned(
                capsule,
                "reserved source repository identity no longer agrees",
                allow_orphan,
                at,
            );
        }
        let exists = match &observed.workspace_entry {
            Err(e) => {
                return Err(e.clone());
            },
            Ok(b) => *b,
        };
        if exists {
            let mut c = capsule;
            if c.workspace_git_dir.is_none() {
                c.workspace_git_dir = observed.found_git_dir;
            }
            if worktree::validate_owned_worktree(&c, &observed.inspection).is_err() {
                return abandoned(c, "workspace path is contradictory", allow_orphan, at);
            }
            let (reason, failure) = match_base(
                &c.base_commit,
                &observed.head,
                &observed.branch_head,
                &observed.clean,
                &observed.unchecked_shape,
            );
            match failure {
                Some(e) => {
                    return Err(e);
                },
                None => {},
            }
            return match reason {
                Some(reason) => abandoned(c, reason, allow_orphan, at),
                None => {
                    let (next, action) = activate_created_capsule(c, at);
                    Ok(CreatingOutcome::Done { capsule: next, action, checkout: true })
                },
            };
        }
        let branch_head = match &observed.branch_head {
            Err(e) => {
                return Err(e.clone());
            },
            Ok(h) => h,
        };
        let listed = match &observed.listed {
            Err(e) => {
                return Err(e.clone());
            },
            Ok(l) => l,
        };
        if branch_head.is_some() || worktree::is_already_registered(
            &capsule,
            &observed.canonical_workspace,
            &observed.current_dir,
            listed,
        ) {
            return abandoned(
                capsule,
                "partial Git creation state is contradictory",
                allow_orphan,
                at,
            );
        }
        Ok(CreatingOutcome::AddWorktree(capsule))
    }

    /// Adopt a worktree that was just added, once it proves to be the
    /// capsule's own.
    pub fn adopt_added_worktree(
        &self,
        capsule: Capsule,
        git_dir: NativePath,
        inspection: &WorktreeInspection,
        at: u64,
    ) -> (r: std::result::Result<(Capsule, String), Error>)
        ensures
            match worktree::ownership_check(
                (Capsule { workspace_git_dir: Some(git_dir), ..capsule }),
                *inspection,
            ) {
                Err(e) => r matches Err(found) && found@ == e,
                Ok(_) => r matches Ok(done) && done.0 == moved(
                    (Capsule { workspace_git_dir: Some(git_dir), ..capsule }),
                    CapsuleState::Active,
                    at,
                ) && done.1@ == "completed an interrupted workspace creation"@,
            },
    {
        let mut c = capsule;
        c.workspace_git_dir = Some(git_dir);
        match worktree::validate_owned_worktree(&c, inspection) {
            Err(e) => Err(e),
            Ok(_) => Ok(activate_created_capsule(c, at)),
        }
    }
}

/// A derived project key passes the check of stored keys.
pub proof fn lemma_project_key_passes(key: Seq<char>)
    requires
        validate::is_project_key(key),
    ensures
        validate::project_key_check(key) is Ok,
{
    assert forall|i: int| 0 <= i < key.len() implies validate::is_hex_digit(#[trigger] key[i]) by {
        assert(crate::digest::is_lower_hex(key[i]));
    }
}

/// An exact replay is accepted: the reservation that a request was bound to
/// accepts the same request again, whatever its revision resolves to by then.
pub proof fn law_exact_replay_is_accepted(
    options: CreateOptions,
    key: Seq<char>,
    repository: Repository,
    commit: Seq<char>,
    reserved_at: u64,
    record: IdempotencyRecord,
    resolved_later: std::result::Result<String, Error>,
)
    requires
        is_reservation_for(record, options, key, repository, commit, reserved_at),
    ensures
        replay_check(options, repository, record, resolved_later) == Ok::<(), ErrorView>(()),
{
    assert(record.request() == idempotency::RequestView {
        source_worktree: repository.worktree@,
        repository_common_dir: repository.common_dir@,
        project_key: record.project_key@,
        base_selector: record.base_selector@,
        base_commit: record.base_commit@,
        label: text::opt_view(options.label),
        links: options.links@,
    });
}

/// A replay never changes what a key is bound to: the repository, the commit
/// and the project of an accepted replay are those of the reservation.
pub proof fn law_accepted_replay_keeps_the_binding(
    options: CreateOptions,
    repository: Repository,
    record: IdempotencyRecord,
    resolved: std::result::Result<String, Error>,
)
    requires
        replay_check(options, repository, record, resolved) is Ok,
    ensures
        paths::same(repository.worktree@, record.source_worktree@),
        paths::same(repository.common_dir@, record.repository_common_dir@),
        validate::project_key_of(repository.common_dir@) == Ok::<Seq<char>, ErrorView>(
            record.project_key@,
        ),
        options.base@ == record.base_selector@ || (resolved matches Ok(c) && c@
            == record.base_commit@),
{
}

/// What a reservation materializes to is what it is later compared with: the
/// first manifest of a reserved identity agrees with its reservation, so a
/// replay finds the same capsule.
pub proof fn law_materialized_capsule_agrees(
    record: IdempotencyRecord,
    now: Repository,
    root: Seq<u8>,
    c: Capsule,
)
    requires
        paths::same(now.worktree@, record.source_worktree@),
        paths::same(now.common_dir@, record.repository_common_dir@),
        c.links@ == record.links@,
        is_initial(
            c,
            root,
            record.capsule_id@,
            record.label,
            c.links,
            now,
            record.project_key@,
            record.base_commit@,
            record.reserved_at_unix,
        ),
    ensures
        reservation_check(record, c) == Ok::<(), ErrorView>(()),
{
}

/// Different ULIDs give different texts in small letters.
proof fn lemma_lowered_apart(t: Seq<char>, u: Seq<char>)
    requires
        is_ulid(t),
        is_ulid(u),
        lowered(t) == lowered(u),
    ensures
        t == u,
{
    assert forall|i: int| 0 <= i < t.len() implies t[i] == u[i] by {
        assert(is_ulid_char(t[i]) && is_ulid_char(u[i]));
        assert(lowered(t)[i] == lowered_char(t[i]));
        assert(lowered(u)[i] == lowered_char(u[i]));
    }
    assert(t =~= u);
}

/// Two creations never share a place: where two different ULIDs were drawn, the
/// capsules differ in identity, record, workspace, branch, and protecting refs.
pub proof fn law_different_draws_create_capsules_apart(
    root: Seq<u8>,
    t: Seq<char>,
    u: Seq<char>,
    a: Capsule,
    b: Capsule,
)
    requires
        is_ulid(t),
        is_ulid(u),
        t != u,
        a.id@ == "cap-"@ + lowered(t),
        b.id@ == "cap-"@ + lowered(u),
        a.workspace_path@ == store::workspace_path_of(root, a.project_key@, a.id@),
        b.workspace_path@ == store::workspace_path_of(root, b.project_key@, b.id@),
        a.branch@ == store::branch_of(a.id@),
        b.branch@ == store::branch_of(b.id@),
        validate::project_key_check(a.project_key@) is Ok,
        validate::project_key_check(b.project_key@) is Ok,
    ensures
        a.id@ != b.id@,
        store::capsule_dir_of(root, a.id@) != store::capsule_dir_of(root, b.id@),
        a.workspace_path@ != b.workspace_path@,
        a.branch@ != b.branch@,
        manager::checkpoint_ref_of(a.id@) != manager::checkpoint_ref_of(b.id@),
        manager::integration_ref_of(a.id@) != manager::integration_ref_of(b.id@),
{
    lemma_drawn_capsule_id(t);
    lemma_drawn_capsule_id(u);
    if a.id@ == b.id@ {
        let prefix = "cap-"@;
        assert(a.id@.skip(prefix.len() as int) =~= lowered(t));
        assert(b.id@.skip(prefix.len() as int) =~= lowered(u));
        lemma_lowered_apart(t, u);
    }
    manager::law_capsules_do_not_share_places(
        root,
        a.id@,
        b.id@,
        a.project_key@,
        b.project_key@,
    );
}

/// A created capsule is the one that was asked for, and is usable. Its first
/// record can be read back, so that an interrupted creation is found again. So
/// can the record that adopting its worktree gives, which is active, holds the
/// label, the links and the pinned commit of the request, and has no
/// checkpoint, evidence or result yet.
pub proof fn law_created_capsules_are_active_and_read_back(
    c: Capsule,
    root: Seq<u8>,
    id: Seq<char>,
    options: CreateOptions,
    repository: Repository,
    project_key: Seq<char>,
    base_commit: Seq<char>,
    created_at: u64,
    git_dir: NativePath,
    at: u64,
)
    requires
        is_initial(
            c,
            root,
            id,
            options.label,
            options.links,
            repository,
            project_key,
            base_commit,
            created_at,
        ),
        validate::is_capsule_id(id),
        validate::project_key_of(repository.common_dir@) == Ok::<Seq<char>, ErrorView>(project_key),
        validate::is_object_id(base_commit),
        paths::is_absolute(repository.worktree@),
        paths::is_absolute(repository.common_dir@),
        paths::is_absolute(git_dir@),
    ensures
        manager::show_check(root, id, Ok(c)) == Ok::<(), ErrorView>(()),
        ({
            let done = moved(
                (Capsule { workspace_git_dir: Some(git_dir), ..c }),
                CapsuleState::Active,
                at,
            );
            &&& manager::show_check(root, id, Ok(done)) == Ok::<(), ErrorView>(())
            &&& done.state is Active
            &&& done.id@ == id
            &&& done.label == options.label
            &&& done.links == options.links
            &&& done.base_commit@ == base_commit
            &&& done.branch@ == "capsule/"@ + id.skip(4)
            &&& done.workspace_path@ == store::workspace_path_of(root, project_key, id)
            &&& done.created_at_unix == created_at
            &&& done.updated_at_unix == at
            &&& done.checkpoints@.len() == 0
            &&& done.evidence@.len() == 0
            &&& done.result is None
        }),
{
    validate::lemma_project_key_shape(repository.common_dir@);
    lemma_project_key_passes(project_key);
}

/// Whether two records are of one capsule: everything that a reservation is
/// compared with is equal.
pub open spec fn same_identity(a: Capsule, b: Capsule) -> bool {
    &&& a.id == b.id
    &&& a.source_worktree == b.source_worktree
    &&& a.repository_common_dir == b.repository_common_dir
    &&& a.project_key == b.project_key
    &&& a.base_commit == b.base_commit
    &&& a.label == b.label
    &&& a.links == b.links
    &&& a.created_at_unix == b.created_at_unix
}

/// An equivalent retry gives back the capsule that the key is bound to, in
/// whatever state it is by then and whatever the revision resolves to: the
/// request is admitted as a replay of the stored reservation, whose identity
/// and commit are those of the first request, and the stored record of that
/// identity is the reserved one.
pub proof fn law_retry_returns_the_reserved_capsule(
    options: CreateOptions,
    key: Seq<char>,
    repository: Repository,
    commit: Seq<char>,
    reserved_at: u64,
    record: IdempotencyRecord,
    resolved_later: std::result::Result<String, Error>,
    first: Capsule,
    later: Capsule,
)
    requires
        idempotent_reads_check(options, key, Ok(repository), Ok(None)) is Ok,
        is_reservation_for(record, options, key, repository, commit, reserved_at),
        agrees(record, first),
        same_identity(first, later),
    ensures
        idempotent_reads_check(options, key, Ok(repository), Ok(Some(record))) == Ok::<
            (),
            ErrorView,
        >(()),
        replay_check(options, repository, record, resolved_later) == Ok::<(), ErrorView>(()),
        reservation_check(record, later) == Ok::<(), ErrorView>(()),
        later.id@ == record.capsule_id@,
        later.base_commit@ == commit,
        text::opt_view(later.label) == text::opt_view(options.label),
        later.links@ == options.links@,
{
    law_exact_replay_is_accepted(
        options,
        key,
        repository,
        commit,
        reserved_at,
        record,
        resolved_later,
    );
}

/// Resuming a reserved creation never replaces its capsule: it ends active, or
/// orphaned exactly where what Git holds is contradictory, or it goes on with
/// the same record once the worktree is added, and the identity stays.
pub proof fn law_resumed_creation_keeps_its_capsule(
    c: Capsule,
    o: CreatingObservation,
    at: u64,
    outcome: CreatingOutcome,
)
    requires
        creating_outcome_matches(Ok(outcome), c, o, true, at),
    ensures
        match outcome {
            CreatingOutcome::Done { capsule, .. } => {
                &&& same_identity(c, capsule)
                &&& capsule.state is Active || capsule.state is Orphaned
                &&& capsule.state is Orphaned <==> creating_of(c, o) is Abandon
                &&& capsule.state is Active <==> creating_of(c, o) is Adopt
            },
            CreatingOutcome::AddWorktree(next) => next == c && creating_of(c, o) is Add,
        },
{
}

/// The request that a replay is compared as: what the caller asks for, with the
/// revision and the commit of the reservation.
pub open spec fn replayed_request(
    options: CreateOptions,
    repository: Repository,
    record: IdempotencyRecord,
) -> idempotency::RequestView {
    idempotency::RequestView {
        source_worktree: repository.worktree@,
        repository_common_dir: repository.common_dir@,
        project_key: record.project_key@,
        base_selector: record.base_selector@,
        base_commit: record.base_commit@,
        label: text::opt_view(options.label),
        links: options.links@,
    }
}

/// A key never stands for two requests: another repository, another commit,
/// another label or other links under a bound key is a conflict, and so is a
/// revision that no longer resolves, unless it is written as it was. Two
/// requests for which SHA-256 gives one digest are left out.
pub proof fn law_materially_different_replay_conflicts(
    options: CreateOptions,
    key: Seq<char>,
    repository: Repository,
    record: IdempotencyRecord,
    resolved: std::result::Result<String, Error>,
)
    requires
        idempotent_reads_check(options, key, Ok(repository), Ok(Some(record))) is Ok,
        idempotency::request_digest(replayed_request(options, repository, record))
            == idempotency::request_digest(record.request()) ==> idempotency::request_preimage(
            replayed_request(options, repository, record),
        ) == idempotency::request_preimage(record.request()),
        ({
            ||| !paths::same(repository.worktree@, record.source_worktree@)
            ||| !paths::same(repository.common_dir@, record.repository_common_dir@)
            ||| options.base@ != record.base_selector@ && !(resolved matches Ok(c) && c@
                == record.base_commit@)
            ||| text::opt_view(options.label) != text::opt_view(record.label)
            ||| options.links@ != record.links@
        }),
    ensures
        replay_check(options, repository, record, resolved) == Err::<(), ErrorView>(
            ErrorView::IdempotencyConflict,
        ),
{
    let asked = replayed_request(options, repository, record);
    idempotency::law_accepted_request_can_be_reserved(asked.label, asked.links);
    idempotency::lemma_storable_request_fits(repository.worktree, repository.common_dir, asked);
    idempotency::lemma_storable_request_fits(
        record.source_worktree,
        record.repository_common_dir,
        record.request(),
    );
    if idempotency::request_digest(asked) == idempotency::request_digest(record.request()) {
        idempotency::law_distinct_requests_hash_distinct_bytes(asked, record.request());
        assert(asked.label == record.request().label);
        assert(asked.links == record.request().links);
    }
}

/// A state directory that does not exist, or that was never initialized, holds
/// no reservation: looking a key up there finds none.
pub proof fn law_absent_state_holds_no_reservation(path: Seq<u8>, found: ExistingRoot)
    requires
        ({
            let absent = |at: Seq<u8>, entry: std::result::Result<EntryKind, Error>|
                files::directory_check(at, entry) matches Err(e) && files::is_missing(e);
            ||| absent(path, found.entry)
            ||| files::directory_check(path, found.entry) is Ok && (found.canonical matches Ok(root)
                && (absent(store::below(root@, "capsules"@), found.capsules) || (
            files::directory_check(store::below(root@, "capsules"@), found.capsules) is Ok
                && absent(store::below(root@, "idempotency"@), found.idempotency))))
        }),
    ensures
        existing_root_check(path, found) == Err::<(), ErrorView>(ErrorView::IdempotencyNotFound),
{
}

/// Both ways of looking a key up agree: in one state directory, from the same
/// reads, they give the same answer.
pub proof fn law_both_lookups_agree(
    root: Seq<u8>,
    key: Seq<char>,
    reads: LookupReads,
    opened: std::result::Result<IdempotencyLookup, Error>,
    managed: std::result::Result<IdempotencyLookup, Error>,
)
    requires
        lookup_matches(opened, root, key, reads),
        lookup_matches(managed, root, key, reads),
    ensures
        match (opened, managed) {
            (Err(a), Err(b)) => a@ == b@,
            (Ok(a), Ok(b)) => a.schema_version == b.schema_version && a.idempotency_key_sha256@
                == b.idempotency_key_sha256@ && a.capsule_id == b.capsule_id && a.status == b.status
                && a.capsule == b.capsule,
            _ => false,
        },
{
}

/// Looking a key up says that nothing is bound to it only where the key is
/// valid and no reservation is stored. A reservation that is malformed, or that
/// contradicts the stored capsule, is an error of its own, never an absence.
pub proof fn law_lookup_never_hides_a_reservation(root: Seq<u8>, key: Seq<char>, reads: LookupReads)
    requires
        reads.reservation matches Err(e) ==> e@ != ErrorView::IdempotencyNotFound,
        reads.manifest matches Err(e) ==> e@ != ErrorView::IdempotencyNotFound,
        reads.unmaterialized matches Err(e) ==> e@ != ErrorView::IdempotencyNotFound,
    ensures
        lookup_check(root, key, reads) == Err::<(), ErrorView>(ErrorView::IdempotencyNotFound)
            <==> idempotency::key_check(key) is Ok && reads.reservation == Ok::<
            Option<IdempotencyRecord>,
            Error,
        >(None),
        (reads.reservation matches Ok(Some(record)) && record.check(idempotency::key_digest(key))
            is Err) ==> lookup_check(root, key, reads) is Err,
        (reads.reservation matches Ok(Some(record)) && reads.manifest matches Ok(Some(capsule))
            && !agrees(record, capsule)) ==> lookup_check(root, key, reads) is Err,
{
}

} // verus!
