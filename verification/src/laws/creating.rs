//! What is created, and how a creation is taken up again.

use vstd::prelude::*;
use vstd::string::*;
use vstd::utf8::*;

use crate::create::{
    CreatingObservation, CreatingOutcome, ExistingRoot, IdempotentStep, LookupReads,
    MaterializeStep,
};
use crate::error::{Error, IoFault};
use crate::files::EntryKind;
use crate::git::{Repository, WorktreeRecord};
use crate::idempotency::{IdempotencyLookup, IdempotencyRecord, IdempotencyStatus};
use crate::laws::inputs;
use crate::laws::places;
use crate::laws::records;
use crate::laws::reserving;
use crate::laws::workspaces;
use crate::links::{LinkView, Links};
use crate::manager::CapsuleManager;
use crate::model::{Capsule, CapsuleState};
use crate::options::CreateOptions;
use crate::paths::NativePath;
use crate::store::StateStore;
use crate::worktree::{ListedWorktree, WorktreeInspection};
use crate::{create, files, laws, paths, record, validate, worktree};

verus! {

/// Whether an identifier is `cap-` and twenty-six digits and small letters.
pub open spec fn is_fresh_id(t: Seq<char>) -> bool {
    &&& t.len() == 30
    &&& t[0] == 'c' && t[1] == 'a' && t[2] == 'p' && t[3] == '-'
    &&& forall|i: int| 4 <= i < 30 ==> '0' <= #[trigger] t[i] <= '9' || 'a' <= t[i] <= 'z'
}

/// Whether a capsule is a new one: being created from a commit, with its own
/// place and branch, and with no history.
pub open spec fn is_new(
    c: Capsule,
    root: Seq<u8>,
    id: Seq<char>,
    label: Option<String>,
    row: Seq<LinkView>,
    repository: Repository,
    project: Seq<char>,
    commit: Seq<char>,
    at: u64,
) -> bool {
    &&& c.schema_version == 5
    &&& c.id@ == id
    &&& laws::opt(c.label) == laws::opt(label)
    &&& c.links@ == row
    &&& c.state is Creating
    &&& c.source_worktree.bytes@ == repository.worktree.bytes@
    &&& c.repository_common_dir.bytes@ == repository.common_dir.bytes@
    &&& c.workspace_git_dir is None
    &&& c.workspace_path.bytes@ == places::workspace(root, project, id)
    &&& c.project_key@ == project
    &&& c.branch@ == "capsule/"@ + id.skip(4)
    &&& c.base_commit@ == commit
    &&& c.created_at_unix == at
    &&& c.updated_at_unix == at
    &&& c.checkpoints@.len() == 0 && c.evidence@.len() == 0
    &&& c.audit_events@.len() == 0 && c.audit_events_dropped == 0
    &&& c.checkpoint is None && c.result is None && c.integration is None && c.cleanup is None
    &&& c.closed_at_unix is None && c.dropped_at_unix is None
}

proof fn lemma_new(
    c: Capsule,
    root: Seq<u8>,
    id: Seq<char>,
    label: Option<String>,
    row: Links,
    repository: Repository,
    project: Seq<char>,
    commit: Seq<char>,
    at: u64,
)
    requires
        create::is_initial(c, root, id, label, row, repository, project, commit, at),
    ensures
        is_new(c, root, id, label, row@, repository, project, commit, at),
{
    places::lemma_homes(root, project, id);
}

proof fn lemma_fresh_id(id: Seq<char>)
    requires
        create::is_drawn("cap-"@, id),
    ensures
        is_fresh_id(id),
{
    reveal_strlit("cap-");
    let t = choose|t: Seq<char>| create::is_ulid(t) && id == "cap-"@ + #[trigger] create::lowered(t);
    assert forall|i: int| 4 <= i < 30 implies '0' <= #[trigger] id[i] <= '9' || 'a' <= id[i] <= 'z' by {
        assert(create::is_ulid_char(t[i - 4]));
        assert(id[i] == create::lowered_char(t[i - 4]));
    }
}

/// A capsule's ID is that of a ULID in small letters.
pub proof fn law_identifiers_are_ulids_in_small_letters(ulid: &str, r: String, drawn: String)
    requires
        call_ensures(create::capsule_id_of, (ulid,), r),
        call_ensures(create::new_capsule_id, (), drawn),
    ensures
        r@.len() == ulid@.len() + 4,
        r@.take(4) == "cap-"@,
        forall|i: int|
            0 <= i < ulid@.len() ==> r@[i + 4] == (if 'A' <= #[trigger] ulid@[i] <= 'Z' {
                (ulid@[i] as u32 + 32) as char
            } else {
                ulid@[i]
            }),
        is_fresh_id(drawn@),
        laws::is_id(drawn@),
{
    reveal_strlit("cap-");
    assert(r@.take(4) =~= "cap-"@);
    assert forall|i: int| 0 <= i < ulid@.len() implies r@[i + 4] == (if 'A' <= #[trigger] ulid@[i]
        <= 'Z' {
        (ulid@[i] as u32 + 32) as char
    } else {
        ulid@[i]
    }) by {
        assert(r@[i + 4] == create::lowered(ulid@)[i]);
    }
    lemma_fresh_id(drawn@);
    laws::lemma_shapes(drawn@);
}

/// A capsule is created exactly where the request is accepted, the repository
/// and the commit could be read, and the repository can be grouped. It is new,
/// pinned to that commit, and under a fresh identity.
pub proof fn law_created_capsules_are_new(
    m: CapsuleManager,
    options: CreateOptions,
    repository: std::result::Result<Repository, Error>,
    commit: std::result::Result<String, Error>,
    at: u64,
    r: std::result::Result<Capsule, Error>,
)
    requires
        call_ensures(CapsuleManager::create, (&m, options, repository, commit, at), r),
    ensures
        r is Ok <==> {
            &&& inputs::is_label(options.label)
            &&& inputs::are_links(options.links@)
            &&& repository matches Ok(found) && valid_utf8(found.common_dir.bytes@)
            &&& commit is Ok
        },
        r matches Ok(c) ==> is_fresh_id(c.id@) && is_new(
            c,
            m.store.root.bytes@,
            c.id@,
            options.label,
            options.links@,
            repository->Ok_0,
            inputs::project_of(repository->Ok_0.common_dir.bytes@),
            commit->Ok_0@,
            at,
        ),
{
    inputs::lemma_request(options.label, options.links@);
    if let Ok(c) = r {
        lemma_fresh_id(c.id@);
        lemma_new(
            c,
            m.store.root.bytes@,
            c.id@,
            options.label,
            options.links,
            repository->Ok_0,
            inputs::project_of(repository->Ok_0.common_dir.bytes@),
            commit->Ok_0@,
            at,
        );
    }
}

/// A capsule in its first state is new, and only a usable identity and project
/// give one.
pub proof fn law_first_states_are_new(
    m: CapsuleManager,
    id: String,
    label: Option<String>,
    row: Links,
    repository: Repository,
    project: String,
    commit: String,
    at: u64,
    r: std::result::Result<Capsule, Error>,
)
    requires
        id@.len() >= 4,
        call_ensures(
            CapsuleManager::initial_capsule,
            (&m, id, label, row, &repository, project, commit, at),
            r,
        ),
    ensures
        r is Ok <==> laws::is_id(id@) && places::is_stored_key(project@),
        r matches Ok(c) ==> is_new(
            c,
            m.store.root.bytes@,
            id@,
            label,
            row@,
            repository,
            project@,
            commit@,
            at,
        ),
{
    laws::lemma_shapes(id@);
    places::lemma_stored_key(project@);
    if let Ok(c) = r {
        lemma_new(
            c,
            m.store.root.bytes@,
            id@,
            label,
            row,
            repository,
            project@,
            commit@,
            at,
        );
    }
}

/// Whether a repeated request is the one that was reserved: from the same
/// worktree of the same repository, with the same label and links, and for the
/// reserved commit, which a revision written the same always means.
pub open spec fn is_repeated(
    options: CreateOptions,
    repository: Repository,
    r: IdempotencyRecord,
    resolved: std::result::Result<String, Error>,
) -> bool {
    &&& places::same_place(repository.worktree.bytes@, r.source_worktree.bytes@)
    &&& places::same_place(repository.common_dir.bytes@, r.repository_common_dir.bytes@)
    &&& valid_utf8(repository.common_dir.bytes@)
    &&& inputs::project_of(repository.common_dir.bytes@) == r.project_key@
    &&& options.base@ == r.base_selector@ || (resolved matches Ok(c) && c@ == r.base_commit@)
    &&& reserving::request_digest(
        repository.worktree.bytes@,
        repository.common_dir.bytes@,
        r.project_key@,
        r.base_selector@,
        r.base_commit@,
        options.label,
        options.links@,
    ) == r.request_sha256@
}

proof fn lemma_repeated(
    options: CreateOptions,
    repository: Repository,
    r: IdempotencyRecord,
    resolved: std::result::Result<String, Error>,
)
    ensures
        is_repeated(options, repository, r, resolved) <==> create::replay_check(
            options,
            repository,
            r,
            resolved,
        ) is Ok,
{
    places::lemma_same_place(repository.worktree.bytes@, r.source_worktree.bytes@);
    places::lemma_same_place(repository.common_dir.bytes@, r.repository_common_dir.bytes@);
    reserving::lemma_request_digest(
        repository.worktree.bytes@,
        repository.common_dir.bytes@,
        r.project_key@,
        r.base_selector@,
        r.base_commit@,
        options.label,
        options.links@,
    );
}

/// A repeated request is accepted exactly where it is the one that was
/// reserved. Any other request for the key is a conflict.
pub proof fn law_repeated_requests_are_the_reserved_one(
    options: CreateOptions,
    repository: Repository,
    r: IdempotencyRecord,
    resolved: std::result::Result<String, Error>,
    judged: std::result::Result<(), Error>,
)
    requires
        call_ensures(
            create::validate_replayed_request,
            (&options, &repository, &r, &resolved),
            judged,
        ),
    ensures
        judged is Ok <==> is_repeated(options, repository, r, resolved),
        judged is Err && valid_utf8(repository.common_dir.bytes@) ==> judged->Err_0
            is IdempotencyConflict,
{
    lemma_repeated(options, repository, r, resolved);
}

/// A key that is bound replays what it is bound to, where the request is the
/// same; a key that is not is bound to a fresh identity for exactly this
/// request.
pub proof fn law_keys_bind_one_request(
    m: CapsuleManager,
    options: CreateOptions,
    key: &str,
    repository: std::result::Result<Repository, Error>,
    existing: std::result::Result<Option<IdempotencyRecord>, Error>,
    resolved: std::result::Result<String, Error>,
    at: u64,
    r: std::result::Result<IdempotentStep, Error>,
)
    requires
        call_ensures(
            CapsuleManager::create_idempotent,
            (&m, options, key, repository, existing, resolved, at),
            r,
        ),
    ensures
        r is Ok ==> {
            &&& inputs::is_label(options.label)
            &&& inputs::are_links(options.links@)
            &&& inputs::is_key(key@)
            &&& repository matches Ok(found) && valid_utf8(found.common_dir.bytes@)
            &&& existing is Ok
        },
        r matches Ok(IdempotentStep::Replay(b)) ==> existing->Ok_0 == Some(b)
            && reserving::is_reservation(b, reserving::key_digest(key@)) && is_repeated(
            options,
            repository->Ok_0,
            b,
            resolved,
        ),
        r matches Ok(IdempotentStep::Reserve(b)) ==> {
            &&& existing->Ok_0 is None
            &&& resolved matches Ok(c) && b.base_commit@ == c@
            &&& reserving::is_reservation(b, reserving::key_digest(key@))
            &&& is_fresh_id(b.capsule_id@)
            &&& b.source_worktree.bytes@ == repository->Ok_0.worktree.bytes@
            &&& b.repository_common_dir.bytes@ == repository->Ok_0.common_dir.bytes@
            &&& b.base_selector@ == options.base@
            &&& laws::opt(b.label) == laws::opt(options.label)
            &&& b.links@ == options.links@
            &&& b.reserved_at_unix == at
        },
        inputs::is_label(options.label) && inputs::are_links(options.links@) && inputs::is_key(key@)
            && (repository matches Ok(found) && valid_utf8(found.common_dir.bytes@)) ==> {
            &&& (existing matches Ok(Some(b)) && reserving::is_reservation(
                b,
                reserving::key_digest(key@),
            ) && is_repeated(options, repository->Ok_0, b, resolved)) ==> r is Ok
            &&& (existing matches Ok(None)) && (resolved matches Ok(c) && laws::is_object(c@))
                && places::is_rooted(repository->Ok_0.worktree.bytes@) && places::is_rooted(
                repository->Ok_0.common_dir.bytes@,
            ) && inputs::is_revision(options.base@) ==> r is Ok
        },
{
    inputs::lemma_request(options.label, options.links@);
    inputs::lemma_key(key@);
    reserving::lemma_key_digest(key@);
    inputs::lemma_revision(options.base@);
    if let Ok(c) = resolved {
        laws::lemma_shapes(c@);
    }
    if let Ok(Some(b)) = existing {
        reserving::lemma_reservation(b, reserving::key_digest(key@));
        if let Ok(found) = repository {
            lemma_repeated(options, found, b, resolved);
        }
    }
    if let Ok(IdempotentStep::Reserve(b)) = r {
        reserving::lemma_reservation(b, reserving::key_digest(key@));
        lemma_fresh_id(b.capsule_id@);
    }
}

/// Whether a capsule is the one that a reservation is for.
pub open spec fn is_for(r: IdempotencyRecord, c: Capsule) -> bool {
    &&& c.id@ == r.capsule_id@
    &&& places::same_place(c.source_worktree.bytes@, r.source_worktree.bytes@)
    &&& places::same_place(c.repository_common_dir.bytes@, r.repository_common_dir.bytes@)
    &&& c.project_key@ == r.project_key@
    &&& c.base_commit@ == r.base_commit@
    &&& laws::opt(c.label) == laws::opt(r.label)
    &&& c.links@ == r.links@
    &&& c.created_at_unix == r.reserved_at_unix
}

proof fn lemma_for(r: IdempotencyRecord, c: Capsule)
    ensures
        is_for(r, c) <==> create::reservation_check(r, c) is Ok,
{
    places::lemma_same_place(c.source_worktree.bytes@, r.source_worktree.bytes@);
    places::lemma_same_place(c.repository_common_dir.bytes@, r.repository_common_dir.bytes@);
}

/// A capsule is taken for the reserved one exactly where it is the one that was
/// reserved in every respect.
pub proof fn law_reserved_capsules_are_the_reserved_ones(
    r: IdempotencyRecord,
    c: Capsule,
    judged: std::result::Result<(), Error>,
)
    requires
        call_ensures(create::validate_reservation_capsule, (&r, &c), judged),
    ensures
        judged is Ok <==> is_for(r, c),
{
    lemma_for(r, c);
}

/// A reserved capsule comes into being once: the manifest that exists is taken
/// up where it is the reserved one, and only where there is none yet is a new
/// one made, under the reserved identity and from the reserved commit.
pub proof fn law_reservations_come_into_being_once(
    m: CapsuleManager,
    b: IdempotencyRecord,
    manifest: std::result::Result<Option<Capsule>, Error>,
    unmaterialized: std::result::Result<(), Error>,
    repository: std::result::Result<Repository, Error>,
    r: std::result::Result<MaterializeStep, Error>,
)
    requires
        b.capsule_id@.len() >= 4,
        call_ensures(
            CapsuleManager::materialize_idempotency_record,
            (&m, &b, manifest, unmaterialized, repository),
            r,
        ),
    ensures
        r is Ok <==> match manifest {
            Err(_) => false,
            Ok(Some(c)) => records::is_found(m.store.root.bytes@, b.capsule_id@, Ok(c)) && is_for(
                b,
                c,
            ),
            Ok(None) => unmaterialized is Ok && (repository matches Ok(now) && places::same_place(
                now.worktree.bytes@,
                b.source_worktree.bytes@,
            ) && places::same_place(now.common_dir.bytes@, b.repository_common_dir.bytes@))
                && laws::is_id(b.capsule_id@) && places::is_stored_key(b.project_key@),
        },
        r matches Ok(MaterializeStep::Existing(c)) ==> manifest->Ok_0 == Some(c),
        r matches Ok(MaterializeStep::New(c)) ==> manifest->Ok_0 is None && is_new(
            c,
            m.store.root.bytes@,
            b.capsule_id@,
            b.label,
            b.links@,
            repository->Ok_0,
            b.project_key@,
            b.base_commit@,
            b.reserved_at_unix,
        ),
{
    laws::lemma_shapes(b.capsule_id@);
    places::lemma_stored_key(b.project_key@);
    if let Ok(Some(c)) = manifest {
        records::lemma_found(m.store.root.bytes@, b.capsule_id@, Ok(c));
        lemma_for(b, c);
    }
    if let Ok(now) = repository {
        places::lemma_same_place(now.worktree.bytes@, b.source_worktree.bytes@);
        places::lemma_same_place(now.common_dir.bytes@, b.repository_common_dir.bytes@);
    }
    if let Ok(MaterializeStep::New(c)) = r {
        lemma_new(
            c,
            m.store.root.bytes@,
            b.capsule_id@,
            b.label,
            c.links,
            repository->Ok_0,
            b.project_key@,
            b.base_commit@,
            b.reserved_at_unix,
        );
    }
}

/// Whether a key resolves to its reservation: the reservation is accepted, and
/// what is stored under the reserved identity is nothing yet or the reserved
/// capsule.
pub open spec fn is_resolved(root: Seq<u8>, key: Seq<char>, reads: LookupReads) -> bool {
    &&& inputs::is_key(key)
    &&& reads.reservation matches Ok(Some(b)) && reserving::is_reservation(
        b,
        reserving::key_digest(key),
    )
    &&& match reads.manifest {
        Err(_) => false,
        Ok(None) => reads.unmaterialized is Ok,
        Ok(Some(c)) => records::is_found(root, reads.reservation->Ok_0->0.capsule_id@, Ok(c))
            && is_for(reads.reservation->Ok_0->0, c),
    }
}

/// Whether a lookup reports what a key resolves to.
pub open spec fn reports(found: IdempotencyLookup, key: Seq<char>, reads: LookupReads) -> bool {
    &&& found.schema_version == 1
    &&& found.idempotency_key_sha256@ == reserving::key_digest(key)
    &&& found.capsule_id@ == reads.reservation->Ok_0->0.capsule_id@
    &&& found.capsule == reads.manifest->Ok_0
    &&& found.status is Materialized <==> reads.manifest->Ok_0 is Some
    &&& found.status is Reserved <==> reads.manifest->Ok_0 is None
}

proof fn lemma_resolved(root: Seq<u8>, key: Seq<char>, reads: LookupReads)
    ensures
        is_resolved(root, key, reads) <==> create::lookup_check(root, key, reads) is Ok,
{
    inputs::lemma_key(key);
    reserving::lemma_key_digest(key);
    if let Ok(Some(b)) = reads.reservation {
        reserving::lemma_reservation(b, reserving::key_digest(key));
        if let Ok(Some(c)) = reads.manifest {
            records::lemma_found(root, b.capsule_id@, Ok(c));
            lemma_for(b, c);
        }
    }
}

/// A key is resolved exactly where its reservation is accepted and what is
/// stored under it is the reserved capsule, and then to that.
pub proof fn law_keys_resolve_to_what_they_are_bound_to(
    m: CapsuleManager,
    key: &str,
    reads: LookupReads,
    r: std::result::Result<IdempotencyLookup, Error>,
)
    requires
        call_ensures(CapsuleManager::lookup_idempotency_key, (&m, key, reads), r),
    ensures
        r is Ok <==> is_resolved(m.store.root.bytes@, key@, reads),
        r matches Ok(found) ==> reports(found, key@, reads),
        inputs::is_key(key@) && (reads.reservation matches Ok(None)) ==> (r matches Err(
            Error::IdempotencyNotFound,
        )),
{
    lemma_resolved(m.store.root.bytes@, key@, reads);
    inputs::lemma_key(key@);
    reserving::lemma_key_digest(key@);
}

/// Whether a state directory that must already exist is one.
pub open spec fn is_initialized(found: ExistingRoot) -> bool {
    &&& found.entry == Ok::<EntryKind, Error>(EntryKind::Directory)
    &&& found.canonical is Ok
    &&& found.capsules == Ok::<EntryKind, Error>(EntryKind::Directory)
    &&& found.idempotency == Ok::<EntryKind, Error>(EntryKind::Directory)
}

/// A key is looked up in a state directory that exists, without creating
/// anything. Where the directory is absent, the key is bound to nothing.
pub proof fn law_lookups_create_nothing(
    path: NativePath,
    key: &str,
    found: ExistingRoot,
    reads: LookupReads,
    opened: std::result::Result<StateStore, Error>,
    r: std::result::Result<IdempotencyLookup, Error>,
)
    requires
        call_ensures(create::open_existing, (&path, found), opened),
        call_ensures(CapsuleManager::lookup_idempotency_key_at, (&path, key, found, reads), r),
    ensures
        opened is Ok <==> is_initialized(found),
        opened matches Ok(s) ==> s.root == found.canonical->Ok_0,
        r is Ok <==> is_initialized(found) && is_resolved(
            found.canonical->Ok_0.bytes@,
            key@,
            reads,
        ),
        r matches Ok(l) ==> reports(l, key@, reads),
        found.entry matches Err(Error::Io { fault: IoFault::NotFound, .. }) ==> (r matches Err(
            Error::IdempotencyNotFound,
        )),
{
    if found.canonical is Ok {
        lemma_resolved(found.canonical->Ok_0.bytes@, key@, reads);
    }
    reserving::lemma_key_digest(key@);
}

/// A path made absolute from the current directory, where that is possible.
pub open spec fn absolute(p: Seq<u8>, current: Option<NativePath>) -> Option<Seq<u8>> {
    if places::is_rooted(p) {
        Some(p)
    } else {
        match current {
            Some(d) => Some(places::child(d.bytes@, p)),
            None => None,
        }
    }
}

/// Whether two paths are one place: by their canonical forms where both
/// resolve, otherwise as they are written.
pub open spec fn is_one_place(
    a: Seq<u8>,
    canonical_a: Option<NativePath>,
    b: Seq<u8>,
    canonical_b: Option<NativePath>,
    current: Option<NativePath>,
) -> bool {
    if canonical_a is Some && canonical_b is Some {
        places::same_place(canonical_a->0.bytes@, canonical_b->0.bytes@)
    } else {
        match (absolute(a, current), absolute(b, current)) {
            (Some(x), Some(y)) => places::same_place(x, y),
            (None, None) => true,
            _ => false,
        }
    }
}

/// Whether a registered worktree has a capsule's branch checked out or is at its
/// workspace.
pub open spec fn stands_in_the_way(
    listed: ListedWorktree,
    c: Capsule,
    canonical: Option<NativePath>,
    current: Option<NativePath>,
) -> bool {
    laws::opt(listed.record.branch) == Some(c.branch@) || is_one_place(
        listed.record.path.bytes@,
        listed.canonical,
        c.workspace_path.bytes@,
        canonical,
        current,
    )
}

proof fn lemma_one_place(
    a: Seq<u8>,
    canonical_a: Option<NativePath>,
    b: Seq<u8>,
    canonical_b: Option<NativePath>,
    current: Option<NativePath>,
)
    ensures
        is_one_place(a, canonical_a, b, canonical_b, current) <==> worktree::same_place(
            a,
            record::opt_view(canonical_a),
            b,
            record::opt_view(canonical_b),
            record::opt_view(current),
        ),
{
    if let Some(d) = current {
        places::lemma_child(d.bytes@, a);
        places::lemma_child(d.bytes@, b);
    }
    if canonical_a is Some && canonical_b is Some {
        places::lemma_same_place(canonical_a->0.bytes@, canonical_b->0.bytes@);
    }
    let x = absolute(a, current);
    let y = absolute(b, current);
    if x is Some && y is Some {
        places::lemma_same_place(x->0, y->0);
    }
}

proof fn lemma_in_the_way(
    c: Capsule,
    canonical: Option<NativePath>,
    current: Option<NativePath>,
    listed: Seq<ListedWorktree>,
)
    ensures
        (exists|i: int|
            0 <= i < listed.len() && stands_in_the_way(#[trigger] listed[i], c, canonical, current))
            <==> worktree::already_registered(
            c,
            record::opt_view(canonical),
            record::opt_view(current),
            listed,
        ),
{
    assert forall|i: int| 0 <= i < listed.len() implies stands_in_the_way(
        #[trigger] listed[i],
        c,
        canonical,
        current,
    ) == (crate::text::opt_view(listed[i].record.branch) == Some(c.branch@) || worktree::listed_at(
        listed[i],
        c.workspace_path@,
        record::opt_view(canonical),
        record::opt_view(current),
    )) by {
        lemma_one_place(
            listed[i].record.path.bytes@,
            listed[i].canonical,
            c.workspace_path.bytes@,
            canonical,
            current,
        );
    }
}

/// The worktree registered at a workspace is the first that is there, and a
/// workspace is taken exactly where some registered worktree stands in its way.
pub proof fn law_registered_worktrees_are_found_by_place(
    c: Capsule,
    canonical: Option<NativePath>,
    current: Option<NativePath>,
    listed: Vec<ListedWorktree>,
    taken: bool,
    a: NativePath,
    b: NativePath,
    same: bool,
)
    requires
        call_ensures(
            worktree::is_already_registered,
            (&c, &canonical, &current, &listed),
            taken,
        ),
        call_ensures(
            worktree::same_path_existing_or_clean,
            (&a, &canonical, &b, &canonical, &current),
            same,
        ),
    ensures
        taken <==> exists|i: int|
            0 <= i < listed@.len() && stands_in_the_way(
                #[trigger] listed@[i],
                c,
                canonical,
                current,
            ),
        same <==> is_one_place(a.bytes@, canonical, b.bytes@, canonical, current),
{
    lemma_in_the_way(c, canonical, current, listed@);
    lemma_one_place(a.bytes@, canonical, b.bytes@, canonical, current);
}

/// Whether a workspace was found to be exactly at the reserved base: at its
/// commit, on a branch at that commit, and either clean or not checked out yet.
pub open spec fn is_at_base(c: Capsule, o: CreatingObservation) -> bool {
    &&& o.head matches Ok(h) && h@ == c.base_commit@
    &&& o.branch_head matches Ok(Some(h)) && h@ == c.base_commit@
    &&& o.clean == Ok::<bool, Error>(true) || o.clean == Ok::<bool, Error>(false)
        && o.unchecked_shape == Ok::<bool, Error>(true)
}

/// The capsule with the Git directory that was found, where none is recorded.
pub open spec fn with_git_dir(c: Capsule, found: Option<NativePath>) -> Capsule {
    Capsule {
        workspace_git_dir: if c.workspace_git_dir is Some {
            c.workspace_git_dir
        } else {
            found
        },
        ..c
    }
}

/// Whether the source of a creation is still the capsule's repository.
pub open spec fn source_fits(c: Capsule, o: CreatingObservation) -> bool {
    o.source matches Ok(s) && places::same_place(
        s.common_dir.bytes@,
        c.repository_common_dir.bytes@,
    )
}

pub(crate) proof fn lemma_continued(c: Capsule, o: CreatingObservation)
    ensures
        create::creating_of(c, o) is Add <==> {
            &&& source_fits(c, o)
            &&& o.workspace_entry == Ok::<bool, Error>(false)
            &&& o.branch_head matches Ok(None)
            &&& o.listed matches Ok(l) && !exists|i: int|
                0 <= i < l@.len() && stands_in_the_way(
                    #[trigger] l@[i],
                    c,
                    o.canonical_workspace,
                    o.current_dir,
                )
        },
        create::creating_of(c, o) is Adopt <==> {
            &&& source_fits(c, o)
            &&& o.workspace_entry == Ok::<bool, Error>(true)
            &&& workspaces::is_own(with_git_dir(c, o.found_git_dir), o.inspection)
            &&& is_at_base(c, o)
        },
        !source_fits(c, o) ==> create::creating_of(c, o) is Abandon,
        with_git_dir(c, o.found_git_dir) == create::with_found_git_dir(c, o.found_git_dir),
{
    if let Ok(s) = o.source {
        places::lemma_same_place(s.common_dir.bytes@, c.repository_common_dir.bytes@);
    }
    assert(with_git_dir(c, o.found_git_dir) == create::with_found_git_dir(c, o.found_git_dir));
    workspaces::lemma_own(with_git_dir(c, o.found_git_dir), o.inspection);
    if let Ok(l) = o.listed {
        lemma_in_the_way(c, o.canonical_workspace, o.current_dir, l@);
    }
}

/// A creation goes on only from a state that proves to be its own. A workspace
/// that is exactly at the base is adopted, and where nothing exists at all the
/// worktree is added. Anything else is never guessed at: the capsule is orphaned
/// where that is allowed, and otherwise creation fails.
pub proof fn law_creations_go_on_only_from_their_own_state(
    m: CapsuleManager,
    c: Capsule,
    o: CreatingObservation,
    allow_orphan: bool,
    at: u64,
    r: std::result::Result<CreatingOutcome, Error>,
)
    requires
        call_ensures(CapsuleManager::complete_creating, (&m, c, o, allow_orphan, at), r),
    ensures
        r matches Ok(CreatingOutcome::AddWorktree(next)) ==> next == c,
        (r matches Ok(CreatingOutcome::AddWorktree(_))) <==> {
            &&& source_fits(c, o)
            &&& o.workspace_entry == Ok::<bool, Error>(false)
            &&& o.branch_head matches Ok(None)
            &&& o.listed matches Ok(l) && !exists|i: int|
                0 <= i < l@.len() && stands_in_the_way(
                    #[trigger] l@[i],
                    c,
                    o.canonical_workspace,
                    o.current_dir,
                )
        },
        (r matches Ok(CreatingOutcome::Done { checkout: true, .. })) <==> {
            &&& source_fits(c, o)
            &&& o.workspace_entry == Ok::<bool, Error>(true)
            &&& workspaces::is_own(with_git_dir(c, o.found_git_dir), o.inspection)
            &&& is_at_base(c, o)
        },
        r matches Ok(CreatingOutcome::Done { capsule: next, checkout: true, .. }) ==> next == (
        Capsule {
            state: CapsuleState::Active,
            updated_at_unix: at,
            ..with_git_dir(c, o.found_git_dir)
        }),
        r matches Ok(CreatingOutcome::Done { capsule: next, checkout: false, .. }) ==> allow_orphan
            && next == (Capsule {
            state: CapsuleState::Orphaned,
            updated_at_unix: at,
            workspace_git_dir: next.workspace_git_dir,
            ..c
        }) && (next.workspace_git_dir == c.workspace_git_dir || c.workspace_git_dir is None
            && next.workspace_git_dir == o.found_git_dir),
        !source_fits(c, o) ==> (r is Ok <==> allow_orphan),
{
    lemma_continued(c, o);
}

/// A worktree that was just added is adopted exactly where it proves to be the
/// capsule's own, which then is active.
pub proof fn law_added_worktrees_are_adopted_as_own(
    m: CapsuleManager,
    c: Capsule,
    git_dir: NativePath,
    seen: WorktreeInspection,
    at: u64,
    r: std::result::Result<(Capsule, String), Error>,
)
    requires
        call_ensures(CapsuleManager::adopt_added_worktree, (&m, c, git_dir, &seen, at), r),
    ensures
        r is Ok <==> workspaces::is_own(
            Capsule { workspace_git_dir: Some(git_dir), ..c },
            seen,
        ),
        r matches Ok(done) ==> done.0 == (Capsule {
            state: CapsuleState::Active,
            workspace_git_dir: Some(git_dir),
            updated_at_unix: at,
            ..c
        }),
{
    workspaces::lemma_own(Capsule { workspace_git_dir: Some(git_dir), ..c }, seen);
}

/// Giving up a creation orphans the capsule exactly where that is allowed;
/// finishing one makes it active. Nothing else changes.
pub proof fn law_creations_end_active_or_orphaned(
    c: Capsule,
    reason: &str,
    allow_orphan: bool,
    at: u64,
    given_up: std::result::Result<(Capsule, String), Error>,
    done: (Capsule, String),
)
    requires
        call_ensures(create::abandon_creation, (c, reason, allow_orphan, at), given_up),
        call_ensures(create::activate_created_capsule, (c, at), done),
    ensures
        given_up is Ok <==> allow_orphan,
        given_up matches Ok(g) ==> g.0 == (Capsule {
            state: CapsuleState::Orphaned,
            updated_at_unix: at,
            ..c
        }),
        done.0 == (Capsule { state: CapsuleState::Active, updated_at_unix: at, ..c }),
{
}

/// Whether a listed worktree is at a capsule's workspace.
pub open spec fn is_listed_at(
    w: ListedWorktree,
    c: Capsule,
    canonical: Option<NativePath>,
    current: Option<NativePath>,
) -> bool {
    is_one_place(w.record.path.bytes@, w.canonical, c.workspace_path.bytes@, canonical, current)
}

/// The registration of a capsule is that of the first worktree listed at its
/// workspace, and none where none is; it is accepted exactly where it is on the
/// capsule's branch, at the expected commit, and not bare.
pub proof fn law_registrations_are_found_by_place(
    c: Capsule,
    canonical: Option<NativePath>,
    current: Option<NativePath>,
    listed: Vec<ListedWorktree>,
    r: Option<WorktreeRecord>,
    found: WorktreeRecord,
    head: Option<String>,
    accepted: std::result::Result<(), Error>,
)
    requires
        call_ensures(worktree::registered_record, (&c, &canonical, &current, listed), r),
        call_ensures(worktree::validate_registered_record, (&c, &found, &head), accepted),
    ensures
        r is None <==> forall|i: int|
            0 <= i < listed@.len() ==> !is_listed_at(#[trigger] listed@[i], c, canonical, current),
        r matches Some(w) ==> exists|i: int|
            0 <= i < listed@.len() && (#[trigger] listed@[i]).record == w && is_listed_at(
                listed@[i],
                c,
                canonical,
                current,
            ) && forall|j: int|
                0 <= j < i ==> !is_listed_at(#[trigger] listed@[j], c, canonical, current),
        accepted is Ok <==> workspaces::is_registered(c, found, laws::opt(head)),
        accepted matches Err(e) ==> (e matches Error::ForeignWorktree(p) && p.bytes@
            == c.workspace_path.bytes@),
{
    let (b, d) = (record::opt_view(canonical), record::opt_view(current));
    let path = c.workspace_path@;
    assert forall|i: int| 0 <= i < listed@.len() implies (is_listed_at(
        #[trigger] listed@[i],
        c,
        canonical,
        current,
    ) <==> worktree::listed_at(listed@[i], path, b, d)) by {
        lemma_one_place(
            listed@[i].record.path.bytes@,
            listed@[i].canonical,
            c.workspace_path.bytes@,
            canonical,
            current,
        );
    }
    if let Some(w) = r {
        let i = choose|i: int|
            0 <= i < listed@.len() && w == (#[trigger] listed@[i]).record && worktree::listed_at(
                listed@[i],
                path,
                b,
                d,
            ) && worktree::none_listed(listed@.take(i), path, b, d);
        assert(is_listed_at(listed@[i], c, canonical, current));
        assert forall|j: int| 0 <= j < i implies !is_listed_at(
            #[trigger] listed@[j],
            c,
            canonical,
            current,
        ) by {
            assert(listed@.take(i)[j] == listed@[j]);
        }
    }
}

} // verus!
