//! What a verified receipt is.

use vstd::prelude::*;
use vstd::string::*;
use vstd::utf8::*;

use crate::error::Error;
use crate::git_path::GitPath;
use crate::laws::signing;
use crate::model::{
    ArtifactBundle, ArtifactDescriptor, ArtifactKind, CapsuleResult, Evidence, ResultKind,
    VerificationReport,
};
use crate::paths::NativePath;
use crate::verify::{Receipt, RepositoryReads, VerifyOptions};
use crate::{digest, evidence, git_path, laws, record, store, verify};

verus! {

/// The SHA-256 digest of bytes, as it is written.
pub open spec fn digest_of(content: Seq<u8>) -> Seq<char> {
    digest::hex_of(digest::sha256_of(content)@)
}

/// Whether a descriptor describes exactly these bytes under a name.
pub open spec fn describes(d: ArtifactDescriptor, name: Seq<char>, content: Seq<u8>) -> bool {
    &&& d.name@ == name
    &&& d.bytes == content.len()
    &&& d.sha256@ == digest_of(content)
    &&& d.content_address@ == "sha256:"@ + digest_of(content)
}

/// Whether a bundle describes exactly the two files of a receipt.
pub open spec fn bundles(b: ArtifactBundle, content: Seq<u8>, patch: Seq<u8>) -> bool {
    let all = b.artifacts@;
    &&& b.schema_version == 1
    &&& laws::is_id(b.capsule_id@)
    &&& all.len() == 2
    &&& {
        ||| all[0].kind is ResultManifest && all[1].kind is ResultPatch && describes(
            all[0],
            "result.json"@,
            content,
        ) && describes(all[1], "result.patch"@, patch)
        ||| all[1].kind is ResultManifest && all[0].kind is ResultPatch && describes(
            all[1],
            "result.json"@,
            content,
        ) && describes(all[0], "result.patch"@, patch)
    }
}

/// Whether a path is in its one encoding: bytes are written in hexadecimal only
/// where they are no text.
pub open spec fn is_plain(p: GitPath) -> bool {
    p matches GitPath::UnixBytes { unix_bytes_hex } ==> exists|raw: Seq<u8>|
        unix_bytes_hex@ == #[trigger] digest::hex_of(raw) && !valid_utf8(raw)
}

/// Whether a record is marked as executed exactly where it has what a run
/// yields.
pub open spec fn is_honest(e: Evidence) -> bool {
    &&& laws::is_digest(e.patch_sha256@)
    &&& e.executed <==> e.output_sha256 is Some
    &&& e.executed <==> e.output_bytes is Some
    &&& e.output_sha256 matches Some(d) ==> laws::is_digest(d@)
}

/// Whether a sealed result agrees with itself, with its patch, and with the
/// capsule that the bundle names.
pub open spec fn agrees(r: CapsuleResult, id: Seq<char>, patch: Seq<u8>) -> bool {
    &&& r.schema_version == 5
    &&& r.capsule_id@ == id
    &&& laws::is_object(r.base_commit@)
    &&& laws::is_object(r.head_commit@)
    &&& r.patch_sha256@ == digest_of(patch)
    &&& r.patch_bytes == patch.len()
    &&& r.created_at_unix <= r.sealed_at_unix
    &&& r.ignored_content_sha256 matches Some(d) && laws::is_digest(d@)
    &&& forall|i: int| 0 <= i < r.changed_paths@.len() ==> is_plain(#[trigger] r.changed_paths@[i])
    &&& forall|i: int| 0 <= i < r.ignored_paths@.len() ==> is_plain(#[trigger] r.ignored_paths@[i])
    &&& forall|i: int| 0 <= i < r.evidence@.len() ==> is_honest(#[trigger] r.evidence@[i])
    &&& r.kind is NoChange <==> patch.len() == 0
    &&& r.changed_paths@.len() == 0 <==> patch.len() == 0
}

/// Whether the three files of a receipt belong together.
pub open spec fn is_sound(receipt: Receipt) -> bool {
    &&& receipt.bundle_bytes is Ok
    &&& receipt.bundle is Ok
    &&& receipt.result_bytes is Ok
    &&& receipt.patch is Ok
    &&& receipt.result is Ok
    &&& bundles(receipt.bundle->Ok_0, receipt.result_bytes->Ok_0@, receipt.patch->Ok_0@)
    &&& store::json_number_of(receipt.result_bytes->Ok_0@, "schema_version"@) == Ok::<
        Option<u64>,
        Seq<char>,
    >(Some(5))
    &&& agrees(receipt.result->Ok_0, receipt.bundle->Ok_0.capsule_id@, receipt.patch->Ok_0@)
}

/// Whether records meet what is required of them: that there are some and all
/// passed, that one passed for the sealed patch, that such a one was executed.
pub open spec fn meets(
    records: Seq<Evidence>,
    patch_sha256: Seq<char>,
    successful: bool,
    current: bool,
    executed: bool,
) -> bool {
    &&& successful ==> records.len() > 0 && (forall|i: int|
        0 <= i < records.len() ==> (#[trigger] records[i]).exit_code == 0)
    &&& current ==> exists|i: int|
        0 <= i < records.len() && (#[trigger] records[i]).exit_code == 0 && records[i].patch_sha256@
            == patch_sha256
    &&& executed ==> exists|i: int|
        0 <= i < records.len() && (#[trigger] records[i]).executed && records[i].exit_code == 0
            && records[i].patch_sha256@ == patch_sha256
}

/// Whether applying the patch to the pinned base gave the sealed change.
pub open spec fn reproduces(r: CapsuleResult, patch: Seq<u8>, reads: RepositoryReads) -> bool {
    &&& reads.repository is Ok
    &&& reads.resolved matches Ok(commit) && commit@ == r.base_commit@
    &&& !(r.kind is NoChange) ==> reads.scratch is Ok && (reads.preview matches Ok(preview)
        && preview.patch@ == patch && laws::same_paths(preview.changed_paths@, r.changed_paths@))
}

pub(crate) proof fn lemma_plain(p: GitPath)
    ensures
        is_plain(p) <==> git_path::is_canonical(p@),
{
    if let GitPath::UnixBytes { unix_bytes_hex } = p {
        let h = unix_bytes_hex@;
        if is_plain(p) {
            let raw = choose|raw: Seq<u8>| h == #[trigger] digest::hex_of(raw) && !valid_utf8(raw);
            digest::lemma_hex_of_is_lower(raw);
            digest::lemma_unhex_of_hex(raw);
        }
        if git_path::is_canonical(p@) {
            digest::lemma_hex_of_unhex(h);
            assert(h == digest::hex_of(digest::unhex(h)));
        }
    }
}

pub(crate) proof fn lemma_honest(e: Evidence)
    ensures
        is_honest(e) <==> store::is_coherent(e@),
{
    laws::lemma_shapes(e.patch_sha256@);
    if let Some(d) = e.output_sha256 {
        laws::lemma_shapes(d@);
    }
}

pub(crate) proof fn lemma_meets(
    records: Seq<Evidence>,
    patch_sha256: Seq<char>,
    successful: bool,
    current: bool,
    executed: bool,
)
    ensures
        meets(records, patch_sha256, successful, current, executed) <==> {
            let all = record::views(records);
            &&& successful ==> evidence::all_passed(all)
            &&& current ==> evidence::some_current(all, patch_sha256)
            &&& executed ==> evidence::some_executed(all, patch_sha256)
        },
{
    let all = record::views(records);
    assert(all.len() == records.len());
    assert forall|i: int| 0 <= i < records.len() implies all[i] == (#[trigger] records[i])@ by {}
    if evidence::all_passed(all) {
        assert forall|i: int| 0 <= i < records.len() implies (#[trigger] records[i]).exit_code
            == 0 by {
            assert(all[i].exit_code == 0);
        }
    }
    if records.len() > 0 && (forall|i: int|
        0 <= i < records.len() ==> (#[trigger] records[i]).exit_code == 0) {
        assert forall|i: int| 0 <= i < all.len() implies (#[trigger] all[i]).exit_code == 0 by {
            assert(records[i].exit_code == 0);
        }
    }
    if evidence::some_current(all, patch_sha256) {
        let i = choose|i: int|
            0 <= i < all.len() && evidence::passed_for(#[trigger] all[i], patch_sha256);
        assert(records[i].exit_code == 0);
    }
    if exists|i: int|
        0 <= i < records.len() && (#[trigger] records[i]).exit_code == 0 && records[i].patch_sha256@
            == patch_sha256 {
        let i = choose|i: int|
            0 <= i < records.len() && (#[trigger] records[i]).exit_code == 0
                && records[i].patch_sha256@ == patch_sha256;
        assert(evidence::passed_for(all[i], patch_sha256));
    }
    if evidence::some_executed(all, patch_sha256) {
        let i = choose|i: int|
            0 <= i < all.len() && (#[trigger] all[i]).executed && evidence::passed_for(
                all[i],
                patch_sha256,
            );
        assert(records[i].executed);
    }
    if exists|i: int|
        0 <= i < records.len() && (#[trigger] records[i]).executed && records[i].exit_code == 0
            && records[i].patch_sha256@ == patch_sha256 {
        let i = choose|i: int|
            0 <= i < records.len() && (#[trigger] records[i]).executed && records[i].exit_code == 0
                && records[i].patch_sha256@ == patch_sha256;
        assert(all[i].executed && evidence::passed_for(all[i], patch_sha256));
    }
}

proof fn lemma_two(b: ArtifactBundle)
    ensures
        b@.artifacts.len() == b.artifacts@.len(),
        b.artifacts@.len() == 2 ==> {
            let all = b.artifacts@;
            &&& all[0]@ == b@.artifacts[0] && all[1]@ == b@.artifacts[1]
            &&& verify::single_of(b@.artifacts, ArtifactKind::ResultManifest) is Ok
                <==> all[0].kind is ResultManifest != all[1].kind is ResultManifest
            &&& verify::single_of(b@.artifacts, ArtifactKind::ResultPatch) is Ok
                <==> all[0].kind is ResultPatch != all[1].kind is ResultPatch
            &&& all[0].kind is ResultManifest && all[1].kind is ResultPatch ==> verify::single_of(
                b@.artifacts,
                ArtifactKind::ResultManifest,
            )->Ok_0 == all[0]@ && verify::single_of(
                b@.artifacts,
                ArtifactKind::ResultPatch,
            )->Ok_0 == all[1]@
            &&& all[1].kind is ResultManifest && all[0].kind is ResultPatch ==> verify::single_of(
                b@.artifacts,
                ArtifactKind::ResultManifest,
            )->Ok_0 == all[1]@ && verify::single_of(
                b@.artifacts,
                ArtifactKind::ResultPatch,
            )->Ok_0 == all[0]@
        },
{
    let all = b@.artifacts;
    assert(all.len() == b.artifacts@.len());
    if all.len() == 2 {
        assert(all[0] == b.artifacts@[0]@ && all[1] == b.artifacts@[1]@);
        reveal(Seq::filter);
        let one = all.drop_last();
        let none = one.drop_last();
        assert(all.last() == all[1] && one.last() == all[0] && none.len() == 0);
        let manifest = |d: crate::model::DescriptorView| d.kind == ArtifactKind::ResultManifest;
        let sealed = |d: crate::model::DescriptorView| d.kind == ArtifactKind::ResultPatch;
        assert(none.filter(manifest).len() == 0 && none.filter(sealed).len() == 0);
        assert(one.filter(manifest) == if all[0].kind is ResultManifest {
            none.filter(manifest).push(all[0])
        } else {
            none.filter(manifest)
        });
        assert(one.filter(sealed) == if all[0].kind is ResultPatch {
            none.filter(sealed).push(all[0])
        } else {
            none.filter(sealed)
        });
        assert(all.filter(manifest) == if all[1].kind is ResultManifest {
            one.filter(manifest).push(all[1])
        } else {
            one.filter(manifest)
        });
        assert(all.filter(sealed) == if all[1].kind is ResultPatch {
            one.filter(sealed).push(all[1])
        } else {
            one.filter(sealed)
        });
    }
}

proof fn lemma_bundles(b: ArtifactBundle, content: Seq<u8>, patch: Seq<u8>)
    ensures
        bundles(b, content, patch) <==> verify::bundle_check(b@) is Ok && verify::descriptor_check(
            verify::single_of(b@.artifacts, ArtifactKind::ResultManifest)->Ok_0,
            content,
        ) is Ok && verify::descriptor_check(
            verify::single_of(b@.artifacts, ArtifactKind::ResultPatch)->Ok_0,
            patch,
        ) is Ok,
{
    laws::lemma_shapes(b.capsule_id@);
    lemma_two(b);
}

proof fn lemma_agrees(r: CapsuleResult, id: Seq<char>, patch: Seq<u8>)
    ensures
        agrees(r, id, patch) <==> verify::consistency_check(id, r@, patch) is Ok,
{
    laws::lemma_shapes(r.base_commit@);
    laws::lemma_shapes(r.head_commit@);
    laws::lemma_shapes(r.patch_sha256@);
    digest::lemma_hex_of_is_lower(digest::sha256_of(patch)@);
    laws::lemma_shapes(digest_of(patch));
    if let Some(d) = r.ignored_content_sha256 {
        laws::lemma_shapes(d@);
    }
    assert(r@.changed_paths.len() == r.changed_paths@.len());
    assert(r@.ignored_paths.len() == r.ignored_paths@.len());
    assert(r@.evidence.len() == r.evidence@.len());
    assert forall|i: int| 0 <= i < r.changed_paths@.len() implies r@.changed_paths[i] == (
    #[trigger] r.changed_paths@[i])@ && (is_plain(r.changed_paths@[i]) <==> git_path::is_canonical(
        r@.changed_paths[i],
    )) by {
        lemma_plain(r.changed_paths@[i]);
    }
    assert forall|i: int| 0 <= i < r.ignored_paths@.len() implies r@.ignored_paths[i] == (
    #[trigger] r.ignored_paths@[i])@ && (is_plain(r.ignored_paths@[i]) <==> git_path::is_canonical(
        r@.ignored_paths[i],
    )) by {
        lemma_plain(r.ignored_paths@[i]);
    }
    assert forall|i: int| 0 <= i < r.evidence@.len() implies r@.evidence[i] == (
    #[trigger] r.evidence@[i])@ && (is_honest(r.evidence@[i]) <==> store::is_coherent(
        r@.evidence[i],
    )) by {
        lemma_honest(r.evidence@[i]);
    }
    if verify::canonical_views(r@.changed_paths) {
        assert forall|i: int| 0 <= i < r.changed_paths@.len() implies is_plain(
            #[trigger] r.changed_paths@[i],
        ) by {
            assert(git_path::is_canonical(r@.changed_paths[i]));
        }
    }
    if verify::canonical_views(r@.ignored_paths) {
        assert forall|i: int| 0 <= i < r.ignored_paths@.len() implies is_plain(
            #[trigger] r.ignored_paths@[i],
        ) by {
            assert(git_path::is_canonical(r@.ignored_paths[i]));
        }
    }
    if evidence::coherent_views(r@.evidence) {
        assert forall|i: int| 0 <= i < r.evidence@.len() implies is_honest(
            #[trigger] r.evidence@[i],
        ) by {
            assert(store::is_coherent(r@.evidence[i]));
        }
    }
    if agrees(r, id, patch) {
        assert forall|i: int| 0 <= i < r@.changed_paths.len() implies git_path::is_canonical(
            #[trigger] r@.changed_paths[i],
        ) by {
            assert(is_plain(r.changed_paths@[i]));
        }
        assert forall|i: int| 0 <= i < r@.ignored_paths.len() implies git_path::is_canonical(
            #[trigger] r@.ignored_paths[i],
        ) by {
            assert(is_plain(r.ignored_paths@[i]));
        }
        assert forall|i: int| 0 <= i < r@.evidence.len() implies store::is_coherent(
            #[trigger] r@.evidence[i],
        ) by {
            assert(is_honest(r.evidence@[i]));
        }
        assert(verify::bound_views(r@.evidence));
    }
}

proof fn lemma_reproduces(r: CapsuleResult, patch: Seq<u8>, reads: RepositoryReads)
    ensures
        reproduces(r, patch, reads) <==> verify::repository_check(r@, patch, reads) is Ok,
{
    if let Ok(preview) = reads.preview {
        laws::lemma_same_paths(preview.changed_paths@, r.changed_paths@);
    }
}

/// A receipt verifies exactly where its three files belong together, its
/// records meet what is required of them, and, where a repository is given, the
/// patch reproduces the sealed change from the pinned base.
///
/// So every byte that was read is covered: each descriptor holds the digest and
/// the length of the bytes read for it, and the sealed result those of the
/// patch.
pub proof fn law_receipts_verify_exactly_where_sound(
    directory: NativePath,
    receipt: Receipt,
    options: VerifyOptions,
    reads: RepositoryReads,
    verified: std::result::Result<VerificationReport, Error>,
)
    requires
        call_ensures(verify::verify_bundle, (&directory, receipt, &options, &reads), verified),
    ensures
        verified is Ok <==> is_sound(receipt) && meets(
            receipt.result->Ok_0.evidence@,
            receipt.result->Ok_0.patch_sha256@,
            options.require_successful_evidence,
            options.require_current_successful_evidence,
            options.require_executed_evidence,
        ) && (options.repository is Some ==> reproduces(
            receipt.result->Ok_0,
            receipt.patch->Ok_0@,
            reads,
        )),
{
    if receipt.bundle is Ok && receipt.result_bytes is Ok && receipt.patch is Ok {
        lemma_bundles(
            receipt.bundle->Ok_0,
            receipt.result_bytes->Ok_0@,
            receipt.patch->Ok_0@,
        );
        if receipt.result is Ok {
            let r = receipt.result->Ok_0;
            lemma_agrees(r, receipt.bundle->Ok_0.capsule_id@, receipt.patch->Ok_0@);
            lemma_meets(
                r.evidence@,
                r.patch_sha256@,
                options.require_successful_evidence,
                options.require_current_successful_evidence,
                options.require_executed_evidence,
            );
            lemma_reproduces(r, receipt.patch->Ok_0@, reads);
        }
    }
}

/// The report of a verified receipt says what the sealed result says, counts
/// its records and the failed ones among them, and claims a repository check
/// only where one was made.
pub proof fn law_reports_say_what_was_sealed(
    directory: NativePath,
    receipt: Receipt,
    options: VerifyOptions,
    reads: RepositoryReads,
    report: VerificationReport,
)
    requires
        call_ensures(verify::verify_bundle, (&directory, receipt, &options, &reads), Ok(report)),
    ensures
        ({
            let r = receipt.result->Ok_0;
            &&& report.bundle_directory.bytes@ == directory.bytes@
            &&& report.capsule_id@ == r.capsule_id@
            &&& report.kind == r.kind
            &&& report.base_commit@ == r.base_commit@
            &&& report.head_commit@ == r.head_commit@
            &&& report.patch_bytes == receipt.patch->Ok_0@.len()
            &&& report.patch_sha256@ == digest_of(receipt.patch->Ok_0@)
            &&& report.changed_paths == r.changed_paths@.len()
            &&& report.evidence_total == r.evidence@.len()
            &&& report.evidence_failed == r.evidence@.filter(|e: Evidence| e.exit_code != 0).len()
            &&& report.repository_checked == (options.repository is Some)
            &&& !report.signature_authenticated
        }),
{
    let r = receipt.result->Ok_0;
    assert(r@.changed_paths.len() == r.changed_paths@.len());
    assert(r@.evidence.len() == r.evidence@.len());
    lemma_failed(r.evidence@);
    lemma_agrees(r, receipt.bundle->Ok_0.capsule_id@, receipt.patch->Ok_0@);
}

pub(crate) proof fn lemma_failed(records: Seq<Evidence>)
    ensures
        evidence::failed_of(record::views(records)) == records.filter(
            |e: Evidence| e.exit_code != 0,
        ).len(),
    decreases records.len(),
{
    reveal(Seq::filter);
    let all = record::views(records);
    if records.len() > 0 {
        lemma_failed(records.drop_last());
        assert(all.drop_last() =~= record::views(records.drop_last()));
        assert(all.last() == records.last()@);
    }
}

/// A receipt is authenticated exactly where the trusted key accepts the signature
/// of its exact bundle and the receipt verifies. The report then says so, and
/// says everything else as verifying alone does.
pub proof fn law_authenticated_receipts_are_signed_and_sound(
    directory: NativePath,
    receipt: Receipt,
    s: [u8; 64],
    key: [u8; 32],
    options: VerifyOptions,
    reads: RepositoryReads,
    r: std::result::Result<VerificationReport, Error>,
    plain: std::result::Result<VerificationReport, Error>,
)
    requires
        call_ensures(
            verify::verify_authenticated_bundle,
            (&directory, receipt, &s, &key, &options, &reads),
            r,
        ),
        call_ensures(verify::verify_bundle, (&directory, receipt, &options, &reads), plain),
    ensures
        r is Ok <==> plain is Ok && signing::is_vouched(receipt.bundle_bytes->Ok_0@, s@, key@),
        r matches Ok(report) ==> {
            let told = plain->Ok_0;
            &&& report.signature_authenticated
            &&& !told.signature_authenticated
            &&& report.bundle_directory.bytes@ == told.bundle_directory.bytes@
            &&& report.capsule_id@ == told.capsule_id@
            &&& report.kind == told.kind
            &&& report.base_commit@ == told.base_commit@
            &&& report.head_commit@ == told.head_commit@
            &&& report.patch_bytes == told.patch_bytes
            &&& report.patch_sha256@ == told.patch_sha256@
            &&& report.changed_paths == told.changed_paths
            &&& report.evidence_total == told.evidence_total
            &&& report.evidence_failed == told.evidence_failed
            &&& report.repository_checked == told.repository_checked
        },
{
}

/// What is asked of a receipt is what was chosen: nothing but integrity unless
/// something is required, and executed evidence with a repository where it is to
/// be strict.
pub proof fn law_requirements_are_what_was_chosen(
    repository: NativePath,
    integrity: VerifyOptions,
    strict: VerifyOptions,
    successful: bool,
    current: bool,
    executed: bool,
    requiring: VerifyOptions,
    with: VerifyOptions,
)
    requires
        call_ensures(VerifyOptions::integrity, (), integrity),
        call_ensures(VerifyOptions::strict, (repository,), strict),
        call_ensures(VerifyOptions::requiring, (successful, current, executed), requiring),
        call_ensures(VerifyOptions::with_repository, (requiring, repository), with),
    ensures
        !integrity.require_successful_evidence && !integrity.require_current_successful_evidence
            && !integrity.require_executed_evidence && integrity.repository is None,
        !strict.require_successful_evidence && !strict.require_current_successful_evidence
            && strict.require_executed_evidence && strict.repository == Some(repository),
        requiring.require_successful_evidence == successful,
        requiring.require_current_successful_evidence == current,
        requiring.require_executed_evidence == executed,
        requiring.repository is None,
        with.require_successful_evidence == successful,
        with.require_current_successful_evidence == current,
        with.require_executed_evidence == executed,
        with.repository == Some(repository),
{
}

/// A descriptor is accepted for exactly the bytes it describes.
pub proof fn law_descriptors_cover_every_byte(
    d: ArtifactDescriptor,
    content: &[u8],
    r: std::result::Result<(), Error>,
)
    requires
        call_ensures(verify::check_descriptor, (&d, content), r),
    ensures
        r is Ok <==> describes(d, d.name@, content@),
        r matches Err(e) ==> e is Verification,
{
}

/// A descriptor is found exactly where it is the only one of its kind.
pub proof fn law_descriptors_are_found_by_kind(
    b: ArtifactBundle,
    kind: ArtifactKind,
    r: std::result::Result<&ArtifactDescriptor, Error>,
    name: &'static str,
)
    requires
        call_ensures(verify::single_descriptor, (&b, kind), r),
        call_ensures(verify::kind_name, (kind,), name),
    ensures
        r is Ok <==> b.artifacts@.filter(|d: ArtifactDescriptor| d.kind == kind).len() == 1,
        r matches Ok(d) ==> d.kind == kind,
        r matches Err(e) ==> e is Verification,
        kind is ResultManifest ==> name@ == "ResultManifest"@,
        kind is ResultPatch ==> name@ == "ResultPatch"@,
{
    lemma_of_kind(b.artifacts@, kind);
    let all = b@.artifacts;
    let keep = |d: crate::model::DescriptorView| d.kind == kind;
    if r is Ok {
        all.lemma_filter_pred(keep, 0);
        assert(keep(all.filter(keep)[0]));
    }
}

proof fn lemma_of_kind(row: Seq<ArtifactDescriptor>, kind: ArtifactKind)
    ensures
        verify::of_kind(record::views(row), kind).len() == row.filter(
            |d: ArtifactDescriptor| d.kind == kind,
        ).len(),
    decreases row.len(),
{
    reveal(Seq::filter);
    if row.len() > 0 {
        lemma_of_kind(row.drop_last(), kind);
        assert(record::views(row).drop_last() =~= record::views(row.drop_last()));
        assert(record::views(row).last() == row.last()@);
    }
}

/// Each check of a receipt passes exactly where what it is about holds.
pub proof fn law_receipts_are_checked_piece_by_piece(
    b: ArtifactBundle,
    result: CapsuleResult,
    patch: &[u8],
    reads: RepositoryReads,
    options: VerifyOptions,
    consistent: std::result::Result<(), Error>,
    reproduced: std::result::Result<(), Error>,
    met: std::result::Result<(), Error>,
)
    requires
        call_ensures(verify::verify_result_consistency, (&b, &result, patch), consistent),
        call_ensures(verify::verify_against_repository, (&result, patch, &reads), reproduced),
        call_ensures(verify::check_evidence, (&options, &result), met),
    ensures
        consistent is Ok <==> agrees(result, b.capsule_id@, patch@),
        reproduced is Ok <==> reproduces(result, patch@, reads),
        met is Ok <==> meets(
            result.evidence@,
            result.patch_sha256@,
            options.require_successful_evidence,
            options.require_current_successful_evidence,
            options.require_executed_evidence,
        ),
        consistent matches Err(e) ==> e is Verification,
        met matches Err(e) ==> e is Verification,
{
    lemma_agrees(result, b.capsule_id@, patch@);
    lemma_reproduces(result, patch@, reads);
    lemma_meets(
        result.evidence@,
        result.patch_sha256@,
        options.require_successful_evidence,
        options.require_current_successful_evidence,
        options.require_executed_evidence,
    );
}

/// A sealed result is decoded exactly where its bytes declare the supported
/// version, and the decoder took them.
pub proof fn law_results_are_decoded_by_their_version(
    path: NativePath,
    content: &[u8],
    decoded: std::result::Result<CapsuleResult, String>,
    r: std::result::Result<CapsuleResult, Error>,
    declared: std::result::Result<Option<u32>, String>,
    version: std::result::Result<(), Error>,
)
    requires
        call_ensures(verify::decode_receipt_result, (&path, content, decoded), r),
        call_ensures(verify::receipt_version, (&path, declared), version),
    ensures
        r is Ok <==> store::json_number_of(content@, "schema_version"@) == Ok::<
            Option<u64>,
            Seq<char>,
        >(Some(5)) && decoded is Ok,
        r matches Ok(found) ==> decoded == Ok::<CapsuleResult, String>(found),
        version is Ok <==> (declared matches Ok(Some(v)) && v == 5),
{
}

/// A bundle is accepted exactly where it is of the supported version, names a
/// capsule, and describes the two artifacts under their names.
pub proof fn law_bundles_name_two_artifacts(b: ArtifactBundle, r: std::result::Result<(), Error>)
    requires
        call_ensures(verify::check_bundle, (&b,), r),
    ensures
        r is Ok <==> {
            let all = b.artifacts@;
            &&& b.schema_version == 1
            &&& laws::is_id(b.capsule_id@)
            &&& all.len() == 2
            &&& {
                ||| all[0].kind is ResultManifest && all[1].kind is ResultPatch && all[0].name@
                    == "result.json"@ && all[1].name@ == "result.patch"@
                ||| all[1].kind is ResultManifest && all[0].kind is ResultPatch && all[1].name@
                    == "result.json"@ && all[0].name@ == "result.patch"@
            }
        },
        r matches Err(e) ==> e is Verification,
{
    laws::lemma_shapes(b.capsule_id@);
    lemma_two(b);
}

} // verus!
