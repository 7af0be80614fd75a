//! What a reservation binds, and which reservations are accepted.

use vstd::prelude::*;
use vstd::string::*;
use vstd::utf8::*;

use crate::error::Error;
use crate::idempotency::{IdempotencyRecord, ReservationEntry};
use crate::laws::inputs;
use crate::laws::places;
use crate::laws::verifying;
use crate::links::{LinkView, Links};
use crate::paths::NativePath;
use crate::{bytes, digest, idempotency, laws, validate};

verus! {

/// A text behind the length of its bytes.
pub open spec fn written(t: Seq<char>) -> Seq<u8> {
    laws::behind_length(encode_utf8(t))
}

/// A path behind its length, marked as bytes.
pub open spec fn placed(p: Seq<u8>) -> Seq<u8> {
    encode_utf8("unix-bytes\0"@) + laws::behind_length(p)
}

/// A label behind a mark of its presence.
pub open spec fn marked(label: Option<String>) -> Seq<u8> {
    match label {
        Some(l) => seq![1u8] + written(l@),
        None => seq![0u8],
    }
}

/// Keys and values, one behind the other.
pub open spec fn enumerated(row: Seq<LinkView>) -> Seq<u8>
    decreases row.len(),
{
    if row.len() == 0 {
        Seq::empty()
    } else {
        written(row[0].0) + (written(row[0].1) + enumerated(row.skip(1)))
    }
}

/// The digest of everything that defines a creation: no part can be taken for a
/// part of its neighbour.
pub open spec fn request_digest(
    worktree: Seq<u8>,
    common_dir: Seq<u8>,
    project: Seq<char>,
    selector: Seq<char>,
    commit: Seq<char>,
    label: Option<String>,
    row: Seq<LinkView>,
) -> Seq<char> {
    verifying::digest_of(
        encode_utf8("change-capsule creation request v1\0"@) + (placed(worktree) + (placed(
            common_dir,
        ) + (written(project) + (written(selector) + (written(commit) + (marked(label) + (
        laws::eight(row.len() as u64) + enumerated(row)))))))),
    )
}

/// The digest of a reservation as a whole.
pub open spec fn record_digest(r: IdempotencyRecord) -> Seq<char> {
    verifying::digest_of(
        encode_utf8("change-capsule idempotency reservation v1\0"@) + (written(
            r.idempotency_key_sha256@,
        ) + (written(r.request_sha256@) + (written(r.capsule_id@) + (placed(
            r.source_worktree.bytes@,
        ) + (placed(r.repository_common_dir.bytes@) + (written(r.project_key@) + (written(
            r.base_selector@,
        ) + (written(r.base_commit@) + laws::eight(r.reserved_at_unix))))))))),
    )
}

/// The digest under which a key is kept.
pub open spec fn key_digest(key: Seq<char>) -> Seq<char> {
    verifying::digest_of(encode_utf8("change-capsule idempotency key v1\0"@) + written(key))
}

/// Whether a stored reservation is the one of a key: every field is
/// well-formed, its project is that of its repository, and both digests cover
/// what it says.
pub open spec fn is_reservation(r: IdempotencyRecord, key: Seq<char>) -> bool {
    &&& r.schema_version == 1
    &&& r.idempotency_key_sha256@ == key
    &&& laws::is_digest(key)
    &&& laws::is_id(r.capsule_id@)
    &&& laws::is_object(r.base_commit@)
    &&& places::is_rooted(r.source_worktree.bytes@)
    &&& places::is_rooted(r.repository_common_dir.bytes@)
    &&& inputs::is_revision(r.base_selector@)
    &&& inputs::is_label(r.label)
    &&& inputs::are_links(r.links@)
    &&& valid_utf8(r.repository_common_dir.bytes@)
    &&& r.project_key@ == inputs::project_of(r.repository_common_dir.bytes@)
    &&& r.request_sha256@ == request_digest(
        r.source_worktree.bytes@,
        r.repository_common_dir.bytes@,
        r.project_key@,
        r.base_selector@,
        r.base_commit@,
        r.label,
        r.links@,
    )
    &&& r.record_sha256@ == record_digest(r)
}

proof fn lemma_written(t: Seq<char>)
    ensures
        written(t) == idempotency::framed_text(t),
{
    laws::lemma_behind_length(encode_utf8(t));
}

proof fn lemma_placed(p: Seq<u8>)
    ensures
        placed(p) == idempotency::framed_path(p),
{
    laws::lemma_behind_length(p);
}

proof fn lemma_enumerated(row: Seq<LinkView>)
    ensures
        enumerated(row) == idempotency::framed_links(row),
    decreases row.len(),
{
    if row.len() > 0 {
        lemma_written(row[0].0);
        lemma_written(row[0].1);
        lemma_enumerated(row.skip(1));
    }
}

pub(crate) proof fn lemma_request_digest(
    worktree: Seq<u8>,
    common_dir: Seq<u8>,
    project: Seq<char>,
    selector: Seq<char>,
    commit: Seq<char>,
    label: Option<String>,
    row: Seq<LinkView>,
)
    ensures
        request_digest(worktree, common_dir, project, selector, commit, label, row)
            == idempotency::request_digest(
            idempotency::RequestView {
                source_worktree: worktree,
                repository_common_dir: common_dir,
                project_key: project,
                base_selector: selector,
                base_commit: commit,
                label: crate::text::opt_view(label),
                links: row,
            },
        ),
{
    lemma_placed(worktree);
    lemma_placed(common_dir);
    lemma_written(project);
    lemma_written(selector);
    lemma_written(commit);
    if let Some(l) = label {
        lemma_written(l@);
    }
    laws::lemma_eight(row.len() as u64);
    lemma_enumerated(row);
}

proof fn lemma_record_digest(r: IdempotencyRecord)
    ensures
        record_digest(r) == r.record_digest(),
{
    lemma_written(r.idempotency_key_sha256@);
    lemma_written(r.request_sha256@);
    lemma_written(r.capsule_id@);
    lemma_placed(r.source_worktree.bytes@);
    lemma_placed(r.repository_common_dir.bytes@);
    lemma_written(r.project_key@);
    lemma_written(r.base_selector@);
    lemma_written(r.base_commit@);
    laws::lemma_eight(r.reserved_at_unix);
}

pub(crate) proof fn lemma_key_digest(key: Seq<char>)
    ensures
        key_digest(key) == idempotency::key_digest(key),
        laws::is_digest(key_digest(key)),
{
    lemma_written(key);
    let covered = encode_utf8("change-capsule idempotency key v1\0"@) + written(key);
    digest::lemma_hex_of_is_lower(digest::sha256_of(covered)@);
    laws::lemma_shapes(key_digest(key));
}

pub(crate) proof fn lemma_reservation(r: IdempotencyRecord, key: Seq<char>)
    ensures
        is_reservation(r, key) <==> r.check(key) is Ok,
{
    laws::lemma_shapes(key);
    laws::lemma_shapes(r.request_sha256@);
    laws::lemma_shapes(r.record_sha256@);
    laws::lemma_shapes(r.capsule_id@);
    laws::lemma_shapes(r.base_commit@);
    inputs::lemma_revision(r.base_selector@);
    inputs::lemma_kept(r.label, r.links@);
    lemma_request_digest(
        r.source_worktree.bytes@,
        r.repository_common_dir.bytes@,
        r.project_key@,
        r.base_selector@,
        r.base_commit@,
        r.label,
        r.links@,
    );
    lemma_record_digest(r);
    validate::lemma_project_key_shape(r.repository_common_dir.bytes@);
    digest::lemma_hex_of_is_lower(
        digest::sha256_of(idempotency::request_preimage(r.request()))@,
    );
    digest::lemma_hex_of_is_lower(digest::sha256_of(r.record_preimage())@);
}

/// A reservation is accepted exactly where it is the one of its key and says
/// what both its digests cover.
pub proof fn law_reservations_say_what_their_digests_cover(
    r: IdempotencyRecord,
    key: &str,
    request: String,
    whole: String,
    judged: std::result::Result<(), Error>,
)
    requires
        call_ensures(IdempotencyRecord::canonical_request_sha256, (&r,), request),
        call_ensures(IdempotencyRecord::canonical_record_sha256, (&r,), whole),
        call_ensures(IdempotencyRecord::validate, (&r, key), judged),
    ensures
        request@ == request_digest(
            r.source_worktree.bytes@,
            r.repository_common_dir.bytes@,
            r.project_key@,
            r.base_selector@,
            r.base_commit@,
            r.label,
            r.links@,
        ),
        whole@ == record_digest(r),
        judged is Ok <==> is_reservation(r, key@),
{
    lemma_request_digest(
        r.source_worktree.bytes@,
        r.repository_common_dir.bytes@,
        r.project_key@,
        r.base_selector@,
        r.base_commit@,
        r.label,
        r.links@,
    );
    lemma_record_digest(r);
    lemma_reservation(r, key@);
}

/// Sealing a reservation fills in its two digests and changes nothing else.
pub proof fn law_sealing_fills_in_the_digests(draft: IdempotencyRecord, r: IdempotencyRecord)
    requires
        call_ensures(IdempotencyRecord::sealed, (draft,), r),
    ensures
        r == (IdempotencyRecord {
            request_sha256: r.request_sha256,
            record_sha256: r.record_sha256,
            ..draft
        }),
        r.request_sha256@ == request_digest(
            draft.source_worktree.bytes@,
            draft.repository_common_dir.bytes@,
            draft.project_key@,
            draft.base_selector@,
            draft.base_commit@,
            draft.label,
            draft.links@,
        ),
        r.record_sha256@ == record_digest(r),
{
    lemma_request_digest(
        draft.source_worktree.bytes@,
        draft.repository_common_dir.bytes@,
        draft.project_key@,
        draft.base_selector@,
        draft.base_commit@,
        draft.label,
        draft.links@,
    );
    lemma_record_digest(r);
}

/// A key is kept under its digest, and only a usable key has one.
pub proof fn law_keys_are_kept_under_their_digest(
    key: &str,
    judged: std::result::Result<(), Error>,
    r: std::result::Result<String, Error>,
)
    requires
        call_ensures(idempotency::validate_key, (key,), judged),
        call_ensures(idempotency::key_sha256, (key,), r),
    ensures
        judged is Ok <==> inputs::is_key(key@),
        r is Ok <==> inputs::is_key(key@),
        r matches Ok(d) ==> d@ == key_digest(key@),
{
    inputs::lemma_key(key@);
    lemma_key_digest(key@);
}

/// A file of the reservations is told by its name, which gives the digest of
/// its key.
pub proof fn law_reservations_are_named_by_their_key(name: &str, r: Option<String>)
    requires
        call_ensures(idempotency::reservation_digest, (name,), r),
    ensures
        r is Some <==> exists|d: Seq<char>| name@ == #[trigger] (d + ".json"@),
        r matches Some(d) ==> name@ == d@ + ".json"@,
{
    reveal_strlit(".json");
    if let Some(d) = r {
        assert(name@ =~= d@ + ".json"@);
    }
    if exists|d: Seq<char>| name@ == #[trigger] (d + ".json"@) {
        let d = choose|d: Seq<char>| name@ == #[trigger] (d + ".json"@);
        assert(name@.skip(name@.len() - 5) =~= ".json"@);
    }
}

/// Whether a stored reservation reserves an identity that has no manifest yet.
pub open spec fn is_waiting(e: ReservationEntry) -> bool {
    &&& e.record matches Ok(Some(_))
    &&& e.has_manifest == Ok::<bool, Error>(false)
}

/// Whether a stored reservation can be counted.
pub open spec fn is_counted(e: ReservationEntry) -> bool {
    match e.record {
        Err(_) => false,
        Ok(None) => true,
        Ok(Some(r)) => is_reservation(r, e.key_digest@) && e.has_manifest is Ok,
    }
}

pub(crate) proof fn lemma_waiting(entries: Seq<ReservationEntry>)
    ensures
        idempotency::unmaterialized_of(entries) is Ok <==> forall|i: int|
            0 <= i < entries.len() ==> is_counted(#[trigger] entries[i]),
        idempotency::unmaterialized_of(entries) matches Ok(n) ==> n == entries.filter(
            |e: ReservationEntry| is_waiting(e),
        ).len(),
    decreases entries.len(),
{
    reveal(Seq::filter);
    if entries.len() > 0 {
        let front = entries.drop_last();
        let last = entries.last();
        lemma_waiting(front);
        if let Ok(Some(r)) = last.record {
            lemma_reservation(r, last.key_digest@);
        }
        if idempotency::unmaterialized_of(entries) is Ok {
            assert forall|i: int| 0 <= i < entries.len() implies is_counted(
                #[trigger] entries[i],
            ) by {
                if i < front.len() {
                    assert(front[i] == entries[i]);
                }
            }
        }
        if forall|i: int| 0 <= i < entries.len() ==> is_counted(#[trigger] entries[i]) {
            assert forall|i: int| 0 <= i < front.len() implies is_counted(#[trigger] front[i]) by {
                assert(front[i] == entries[i]);
            }
            assert(entries[entries.len() - 1] == last);
        }
    }
}

/// The identities that wait for a manifest are counted exactly where every
/// reservation can be read and is accepted.
pub proof fn law_waiting_identities_are_counted(
    entries: Vec<ReservationEntry>,
    r: std::result::Result<u64, Error>,
)
    requires
        call_ensures(idempotency::unmaterialized_reservations, (&entries,), r),
    ensures
        r is Ok <==> forall|i: int| 0 <= i < entries@.len() ==> is_counted(#[trigger] entries@[i]),
        r matches Ok(n) ==> n == entries@.filter(|e: ReservationEntry| is_waiting(e)).len(),
{
    lemma_waiting(entries@);
}

} // verus!
