//! Which stored records are accepted.

use vstd::prelude::*;
use vstd::string::*;
use vstd::utf8::*;

use crate::error::{Error, IoFault};
use crate::laws::places;
use crate::laws::verifying;
use crate::manager::CapsuleManager;
use crate::model::{
    Capsule, CapsuleResult, CapsuleState, CheckpointJournal, Cleanup, Evidence, Integration,
    ResultRef,
};
use crate::paths::NativePath;
use crate::store::StateStore;
use crate::{digest, git_path, laws, manager, store, validate};

verus! {

/// Whether the journals of a capsule are those of its state: a checkpoint is
/// journaled while one is made, an integration from its start on, and cleanup
/// while it runs. What cleanup interrupts stays journaled.
pub open spec fn journals_fit(c: Capsule) -> bool {
    &&& match c.state {
        CapsuleState::Checkpointing => c.checkpoint is Some,
        CapsuleState::Dropping => true,
        _ => c.checkpoint is None,
    }
    &&& match c.state {
        CapsuleState::Integrating | CapsuleState::Integrated => c.integration is Some,
        CapsuleState::Dropping | CapsuleState::Dropped => true,
        _ => c.integration is None,
    }
    &&& (c.state is Dropping) == (c.cleanup is Some)
}

/// Whether an integration journal holds usable places, a usable reference, and
/// object IDs.
pub open spec fn is_integration(i: Integration) -> bool {
    &&& places::is_rooted(i.target_worktree.bytes@)
    &&& places::is_rooted(i.target_git_dir.bytes@)
    &&& is_reference(i.target_head_ref@)
    &&& laws::is_object(i.target_head_before@)
    &&& i.target_head_after matches Some(h) ==> laws::is_object(h@)
}

/// Whether a text may be a symbolic reference.
pub open spec fn is_reference(t: Seq<char>) -> bool {
    &&& t.len() > 0
    &&& encode_utf8(t).len() <= 1024
    &&& forall|i: int| 0 <= i < t.len() ==> !laws::is_control(#[trigger] t[i])
}

/// Whether a checkpoint journal holds object IDs and a digest.
pub open spec fn is_checkpoint_journal(j: CheckpointJournal) -> bool {
    &&& laws::is_object(j.head_before@)
    &&& laws::is_object(j.head_after@)
    &&& laws::is_digest(j.patch_sha256@)
}

/// Whether a seal holds an object ID, digests, and a size within 64 MiB.
pub open spec fn is_seal(r: ResultRef) -> bool {
    &&& laws::is_object(r.head_commit@)
    &&& laws::is_digest(r.patch_sha256@)
    &&& laws::is_digest(r.result_sha256@)
    &&& r.patch_bytes <= 67108864
}

/// Whether a capsule is well-formed and belongs where it is stored: its
/// workspace and branch are those of its ID, and its project key is that of its
/// repository.
pub open spec fn is_at_home(root: Seq<u8>, id: Seq<char>, c: Capsule) -> bool {
    &&& laws::is_id(id)
    &&& valid_utf8(c.repository_common_dir.bytes@)
    &&& c.project_key@ == digest::hex_of(
        digest::sha256_of(c.repository_common_dir.bytes@)@.take(12),
    )
    &&& places::same_place(
        c.workspace_path.bytes@,
        places::workspace(root, c.project_key@, id),
    )
    &&& c.branch@ == "capsule/"@ + id.skip(4)
    &&& places::is_rooted(c.source_worktree.bytes@)
    &&& places::is_rooted(c.repository_common_dir.bytes@)
    &&& match c.workspace_git_dir {
        Some(p) => places::is_rooted(p.bytes@),
        None => c.state is Creating || c.state is Dropping || c.state is Orphaned || c.state
            is Dropped,
    }
    &&& laws::is_object(c.base_commit@)
    &&& forall|i: int|
        0 <= i < c.checkpoints@.len() ==> laws::is_object((#[trigger] c.checkpoints@[i]).commit@)
    &&& forall|i: int|
        0 <= i < c.evidence@.len() ==> verifying::is_honest(#[trigger] c.evidence@[i])
    &&& c.result matches Some(r) ==> is_seal(r)
    &&& c.checkpoint matches Some(j) ==> is_checkpoint_journal(j)
    &&& c.integration matches Some(i) ==> is_integration(i)
    &&& c.cleanup matches Some(k) ==> (k.branch_head matches Some(h) ==> laws::is_object(h@))
    &&& journals_fit(c)
}

/// Whether what was decoded from a record's directory is accepted as the record
/// of that ID.
pub open spec fn is_record(root: Seq<u8>, id: Seq<char>, c: Capsule) -> bool {
    &&& c.id@ == id
    &&& c.schema_version == 5
    &&& is_at_home(root, id, c)
}

/// Whether reading a capsule found its record.
pub open spec fn is_found(
    root: Seq<u8>,
    id: Seq<char>,
    stored: std::result::Result<Capsule, Error>,
) -> bool {
    laws::is_id(id) && (stored matches Ok(c) && is_record(root, id, c))
}

pub(crate) proof fn lemma_journals(c: Capsule)
    ensures
        journals_fit(c) <==> store::journals_consistent(c),
{
}

pub(crate) proof fn lemma_reference(t: Seq<char>)
    ensures
        is_reference(t) <==> validate::is_head_ref(t),
{
    if is_reference(t) && crate::text::has_control(t) {
        let i = choose|i: int| 0 <= i < t.len() && crate::text::is_control(#[trigger] t[i]);
        assert(laws::is_control(t[i]));
    }
    if validate::is_head_ref(t) {
        assert forall|i: int| 0 <= i < t.len() implies !laws::is_control(#[trigger] t[i]) by {
            assert(!crate::text::is_control(t[i]));
        }
    }
}

proof fn lemma_journal_shapes(c: Capsule)
    ensures
        (c.integration matches Some(i) ==> is_integration(i)) <==> store::integration_shaped(c),
        (c.checkpoint matches Some(j) ==> is_checkpoint_journal(j)) <==> store::checkpoint_shaped(
            c,
        ),
        (c.result matches Some(r) ==> is_seal(r)) <==> (c.result matches Some(r)
            ==> store::is_result_ref(r)),
        (c.cleanup matches Some(k) ==> (k.branch_head matches Some(h) ==> laws::is_object(h@)))
            <==> (c.cleanup matches Some(k) ==> (k.branch_head matches Some(h)
            ==> validate::is_object_id(h@))),
{
    if let Some(i) = c.integration {
        lemma_reference(i.target_head_ref@);
        laws::lemma_shapes(i.target_head_before@);
        if let Some(h) = i.target_head_after {
            laws::lemma_shapes(h@);
        }
    }
    if let Some(j) = c.checkpoint {
        laws::lemma_shapes(j.head_before@);
        laws::lemma_shapes(j.head_after@);
        laws::lemma_shapes(j.patch_sha256@);
    }
    if let Some(r) = c.result {
        laws::lemma_shapes(r.head_commit@);
        laws::lemma_shapes(r.patch_sha256@);
        laws::lemma_shapes(r.result_sha256@);
    }
    if let Some(k) = c.cleanup {
        if let Some(h) = k.branch_head {
            laws::lemma_shapes(h@);
        }
    }
}

proof fn lemma_rows(c: Capsule)
    ensures
        (forall|i: int|
            0 <= i < c.checkpoints@.len() ==> laws::is_object(
                (#[trigger] c.checkpoints@[i]).commit@,
            )) <==> (forall|i: int|
            0 <= i < c.checkpoints@.len() ==> validate::is_object_id(
                (#[trigger] c.checkpoints@[i]).commit@,
            )),
        (forall|i: int|
            0 <= i < c.evidence@.len() ==> verifying::is_honest(#[trigger] c.evidence@[i]))
            <==> store::all_coherent(c.evidence@),
{
    assert forall|i: int| 0 <= i < c.checkpoints@.len() implies laws::is_object(
        (#[trigger] c.checkpoints@[i]).commit@,
    ) == validate::is_object_id(c.checkpoints@[i].commit@) by {
        laws::lemma_shapes(c.checkpoints@[i].commit@);
    }
    assert forall|i: int| 0 <= i < c.evidence@.len() implies verifying::is_honest(
        #[trigger] c.evidence@[i],
    ) == store::is_coherent(c.evidence@[i]@) by {
        verifying::lemma_honest(c.evidence@[i]);
    }
}

pub(crate) proof fn lemma_at_home(root: Seq<u8>, id: Seq<char>, c: Capsule)
    ensures
        is_at_home(root, id, c) <==> store::manifest_check(root, c, id) is Ok,
{
    laws::lemma_shapes(id);
    laws::lemma_shapes(c.base_commit@);
    places::lemma_stored_key(c.project_key@);
    places::lemma_homes(root, c.project_key@, id);
    places::lemma_same_place(
        c.workspace_path.bytes@,
        places::workspace(root, c.project_key@, id),
    );
    lemma_journals(c);
    lemma_journal_shapes(c);
    lemma_rows(c);
    if is_at_home(root, id, c) {
        let head = digest::sha256_of(c.repository_common_dir.bytes@)@.take(12);
        assert(head.len() == 12);
        digest::lemma_hex_of_is_lower(head);
        assert forall|i: int| 0 <= i < c.project_key@.len() implies '0'
            <= #[trigger] c.project_key@[i] <= '9' || 'a' <= c.project_key@[i] <= 'f' || 'A'
            <= c.project_key@[i] <= 'F' by {
            assert(digest::is_lower_hex(c.project_key@[i]));
        }
        assert(places::is_stored_key(c.project_key@));
    }
}

pub(crate) proof fn lemma_found(
    root: Seq<u8>,
    id: Seq<char>,
    stored: std::result::Result<Capsule, Error>,
)
    ensures
        is_found(root, id, stored) <==> store::read_check(root, id, stored) is Ok,
        is_found(root, id, stored) <==> manager::show_check(root, id, stored) is Ok,
{
    laws::lemma_shapes(id);
    if let Ok(c) = stored {
        lemma_at_home(root, id, c);
    }
}

/// A stored manifest is accepted exactly where it is well-formed and belongs
/// where it is stored, and what is given out is what was stored.
pub proof fn law_records_are_accepted_exactly_at_home(
    s: StateStore,
    id: &str,
    c: Capsule,
    stored: std::result::Result<Capsule, Error>,
    judged: std::result::Result<(), Error>,
    read: std::result::Result<Capsule, Error>,
)
    requires
        call_ensures(StateStore::validate_capsule_manifest, (&s, &c, id), judged),
        call_ensures(StateStore::read_capsule, (&s, id, stored), read),
    ensures
        judged is Ok <==> is_at_home(s.root.bytes@, id@, c),
        read is Ok <==> is_found(s.root.bytes@, id@, stored),
        read is Ok ==> read == stored,
{
    lemma_at_home(s.root.bytes@, id@, c);
    lemma_found(s.root.bytes@, id@, stored);
}

/// Showing a capsule gives its record exactly where there is one. A missing
/// manifest means that there is no such capsule, and any other fault in reading
/// it is reported as it is.
pub proof fn law_capsules_are_shown_as_stored(
    m: CapsuleManager,
    id: &str,
    stored: std::result::Result<Capsule, Error>,
    shown: std::result::Result<Capsule, Error>,
    path: std::result::Result<NativePath, Error>,
)
    requires
        call_ensures(CapsuleManager::show, (&m, id, stored), shown),
        call_ensures(CapsuleManager::workspace_path, (&m, id, stored), path),
    ensures
        shown is Ok <==> is_found(m.store.root.bytes@, id@, stored),
        shown is Ok ==> shown == stored,
        path is Ok <==> shown is Ok,
        path matches Ok(p) ==> p == stored->Ok_0.workspace_path,
        !laws::is_id(id@) ==> (shown matches Err(Error::InvalidId(t)) && t@ == id@),
        laws::is_id(id@) && (stored matches Err(Error::Io { fault: IoFault::NotFound, .. })) ==> (
        shown matches Err(Error::NotFound(t)) && t@ == id@),
        laws::is_id(id@) && (stored matches Err(e) && !(e matches Error::Io {
            fault: IoFault::NotFound,
            ..
        })) ==> (shown matches Err(e) && e@ == stored->Err_0@),
{
    lemma_found(m.store.root.bytes@, id@, stored);
    laws::lemma_shapes(id@);
}

/// Whether a decoded result is well-formed: object IDs, digests, a size within
/// 64 MiB, paths in their one encoding, and honest records.
pub open spec fn is_result(r: CapsuleResult) -> bool {
    &&& laws::is_object(r.base_commit@)
    &&& laws::is_object(r.head_commit@)
    &&& laws::is_digest(r.patch_sha256@)
    &&& r.ignored_content_sha256 matches Some(d) && laws::is_digest(d@)
    &&& r.patch_bytes <= 67108864
    &&& forall|i: int|
        0 <= i < r.changed_paths@.len() ==> verifying::is_plain(#[trigger] r.changed_paths@[i])
    &&& forall|i: int|
        0 <= i < r.ignored_paths@.len() ==> verifying::is_plain(#[trigger] r.ignored_paths@[i])
    &&& forall|i: int|
        0 <= i < r.evidence@.len() ==> verifying::is_honest(#[trigger] r.evidence@[i])
}

pub(crate) proof fn lemma_result(r: CapsuleResult)
    ensures
        is_result(r) <==> store::result_shaped(r),
{
    laws::lemma_shapes(r.base_commit@);
    laws::lemma_shapes(r.head_commit@);
    laws::lemma_shapes(r.patch_sha256@);
    if let Some(d) = r.ignored_content_sha256 {
        laws::lemma_shapes(d@);
    }
    assert forall|i: int| 0 <= i < r.changed_paths@.len() implies verifying::is_plain(
        #[trigger] r.changed_paths@[i],
    ) == git_path::is_canonical(r.changed_paths@[i]@) by {
        verifying::lemma_plain(r.changed_paths@[i]);
    }
    assert forall|i: int| 0 <= i < r.ignored_paths@.len() implies verifying::is_plain(
        #[trigger] r.ignored_paths@[i],
    ) == git_path::is_canonical(r.ignored_paths@[i]@) by {
        verifying::lemma_plain(r.ignored_paths@[i]);
    }
    assert forall|i: int| 0 <= i < r.evidence@.len() implies verifying::is_honest(
        #[trigger] r.evidence@[i],
    ) == store::is_coherent(r.evidence@[i]@) by {
        verifying::lemma_honest(r.evidence@[i]);
    }
}

/// A stored result is accepted exactly where it is well-formed and is that of
/// the capsule asked for.
pub proof fn law_results_are_accepted_exactly_for_their_capsule(
    s: StateStore,
    id: &str,
    stored: std::result::Result<CapsuleResult, Error>,
    read: std::result::Result<CapsuleResult, Error>,
)
    requires
        call_ensures(StateStore::read_result_artifact, (&s, id, stored), read),
    ensures
        read is Ok <==> laws::is_id(id@) && (stored matches Ok(r) && r.capsule_id@ == id@
            && is_result(r)),
        read is Ok ==> read == stored,
{
    laws::lemma_shapes(id@);
    if let Ok(r) = stored {
        lemma_result(r);
    }
}

/// A record is only ever written in its own directory, under its fixed name and
/// in the supported version, and a patch only within 64 MiB.
pub proof fn law_records_are_written_at_home(
    s: StateStore,
    c: Capsule,
    id: &str,
    r: CapsuleResult,
    patch: &[u8],
    manifest: std::result::Result<NativePath, Error>,
    result: std::result::Result<NativePath, Error>,
    sealed: std::result::Result<NativePath, Error>,
)
    requires
        call_ensures(StateStore::write_capsule, (&s, &c), manifest),
        call_ensures(StateStore::write_result, (&s, id, &r), result),
        call_ensures(StateStore::write_patch, (&s, id, patch), sealed),
    ensures
        manifest is Ok <==> c.schema_version == 5 && laws::is_id(c.id@),
        manifest matches Ok(p) ==> p.bytes@ == places::inside(
            places::home(s.root.bytes@, c.id@),
            "capsule.json"@,
        ),
        result is Ok <==> r.schema_version == 5 && r.capsule_id@ == id@ && laws::is_id(id@),
        result matches Ok(p) ==> p.bytes@ == places::inside(
            places::home(s.root.bytes@, id@),
            "result.json"@,
        ),
        sealed is Ok <==> patch@.len() <= 67108864 && laws::is_id(id@),
        sealed matches Ok(p) ==> p.bytes@ == places::inside(
            places::home(s.root.bytes@, id@),
            "result.patch"@,
        ),
{
    let root = s.root.bytes@;
    laws::lemma_shapes(id@);
    laws::lemma_shapes(c.id@);
    places::lemma_homes(root, c.project_key@, c.id@);
    places::lemma_homes(root, c.project_key@, id@);
    places::lemma_inside(places::home(root, c.id@), "capsule.json"@);
    places::lemma_inside(places::home(root, id@), "result.json"@);
    places::lemma_inside(places::home(root, id@), "result.patch"@);
}

/// A stored document is accepted exactly where it is JSON that declares version
/// five, and is otherwise refused for what it is.
pub proof fn law_documents_declare_their_version(
    path: NativePath,
    document: &[u8],
    r: std::result::Result<(), Error>,
    declared: std::result::Result<Option<u32>, String>,
    checked: std::result::Result<(), Error>,
)
    requires
        call_ensures(store::decode_versioned_json, (&path, document), r),
        call_ensures(store::check_declared_version, (&path, declared), checked),
    ensures
        r is Ok <==> store::json_number_of(document@, "schema_version"@) == Ok::<
            Option<u64>,
            Seq<char>,
        >(Some(5)),
        store::json_number_of(document@, "schema_version"@) is Err ==> (r matches Err(e) && e
            is Json),
        (store::json_number_of(document@, "schema_version"@) matches Ok(Some(v)) && v != 5 && v
            <= u32::MAX) ==> (r matches Err(e) && (e matches Error::SchemaVersion {
            found,
            supported,
        } && supported == 5 && found == store::json_number_of(
            document@,
            "schema_version"@,
        )->Ok_0->0)),
        checked is Ok <==> (declared matches Ok(Some(v)) && v == 5),
{
}

/// A manifest is written only where it fits its bound, and a stored file is read
/// only where it is regular and fits.
pub proof fn law_stored_files_keep_to_their_bounds(
    encoded: u64,
    fits: std::result::Result<(), Error>,
    path: NativePath,
    regular: bool,
    size: u64,
    read: u64,
    cap: u64,
    r: std::result::Result<(), Error>,
)
    requires
        call_ensures(store::ensure_manifest_capacity, (encoded,), fits),
        call_ensures(store::check_bounded_read, (&path, regular, size, read, cap), r),
    ensures
        fits is Ok <==> encoded <= 1048576,
        fits matches Err(e) ==> e is InvalidInput,
        r is Ok <==> regular && size <= cap && read <= cap,
        r matches Err(e) ==> e is UnsafeState,
{
}

/// A record of evidence is refused exactly where it is not honest, and journals
/// are consistent exactly where they fit the state.
pub proof fn law_stored_records_are_honest(
    e: Evidence,
    refused: bool,
    row: Vec<Evidence>,
    coherent: bool,
    c: Capsule,
    consistent: bool,
    s: ResultRef,
    valid: bool,
)
    requires
        call_ensures(store::invalid_evidence, (&e,), refused),
        call_ensures(store::evidence_coherent, (&row,), coherent),
        call_ensures(store::lifecycle_journals_consistent, (&c,), consistent),
        call_ensures(store::valid_result_ref, (&s,), valid),
    ensures
        refused <==> !verifying::is_honest(e),
        coherent <==> forall|i: int|
            0 <= i < row@.len() ==> verifying::is_honest(#[trigger] row@[i]),
        consistent <==> journals_fit(c),
        valid <==> laws::is_object(s.head_commit@) && laws::is_digest(s.patch_sha256@)
            && laws::is_digest(s.result_sha256@) && s.patch_bytes <= 67108864,
{
    verifying::lemma_honest(e);
    lemma_journals(c);
    laws::lemma_shapes(s.head_commit@);
    laws::lemma_shapes(s.patch_sha256@);
    laws::lemma_shapes(s.result_sha256@);
    assert forall|i: int| 0 <= i < row@.len() implies (verifying::is_honest(#[trigger] row@[i])
        <==> store::is_coherent(row@[i]@)) by {
        verifying::lemma_honest(row@[i]);
    }
    if coherent {
        assert forall|i: int| 0 <= i < row@.len() implies verifying::is_honest(#[trigger] row@[i]) by {
            assert(store::is_coherent(row@[i]@));
        }
    } else {
        let i = choose|i: int| 0 <= i < row@.len() && !store::is_coherent((#[trigger] row@[i])@);
        assert(!verifying::is_honest(row@[i]));
    }
}

} // verus!
