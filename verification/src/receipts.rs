//! What a receipt is for: a change that was closed and exported verifies
//! wherever the receipt is taken.

use vstd::prelude::*;
use vstd::string::*;

use crate::artifacts::{ArtifactSnapshot, StoredResult};
use crate::close::{CloseReads, PendingClose};
use crate::error::{Error, ErrorView};
use crate::git::Repository;
use crate::model::{
    ArtifactKind, Capsule, DescriptorView, ResultKind, VerificationReport, SCHEMA_VERSION,
};
use crate::options::{CloseOptions, IntegrateOptions};
use crate::query::DiffObservation;
use crate::verify::{Receipt, RepositoryReads, VerifyOptions};
use crate::worktree::WorktreeInspection;
use crate::{
    artifacts, cleanup, close, digest, evidence, git, git_path, integrate, manager, query, record,
    store, text, validate, verify,
};

verus! {

/// In a row of one descriptor of each kind, each is found as the single one of
/// its kind.
proof fn lemma_single_of_pair(a: DescriptorView, b: DescriptorView)
    requires
        a.kind is ResultManifest,
        b.kind is ResultPatch,
    ensures
        verify::single_of(seq![a, b], ArtifactKind::ResultManifest) == Ok::<
            DescriptorView,
            ErrorView,
        >(a),
        verify::single_of(seq![a, b], ArtifactKind::ResultPatch) == Ok::<
            DescriptorView,
            ErrorView,
        >(b),
{
    reveal(Seq::filter);
    let all = seq![a, b];
    let one = all.drop_last();
    let none = one.drop_last();
    assert(all.last() == b);
    assert(one.last() == a);
    assert(none.len() == 0);
    let manifest = |d: DescriptorView| d.kind == ArtifactKind::ResultManifest;
    let patch = |d: DescriptorView| d.kind == ArtifactKind::ResultPatch;
    assert(none.filter(manifest) =~= Seq::<DescriptorView>::empty());
    assert(none.filter(patch) =~= Seq::<DescriptorView>::empty());
    assert(one.filter(manifest) =~= seq![a]);
    assert(one.filter(patch) =~= Seq::<DescriptorView>::empty());
    assert(all.filter(manifest) =~= seq![a]);
    assert(all.filter(patch) =~= seq![b]);
}

/// Whether a workspace's reads are of the shape that Git and the walk of
/// ignored content give: `HEAD` is a commit, paths are canonically encoded,
/// the inventory has a digest, and a change is empty exactly if it has no
/// paths.
pub open spec fn reads_shaped(reads: CloseReads) -> bool {
    &&& reads.snapshot is Ok
    &&& reads.head is Ok
    &&& reads.ignored is Ok
    &&& validate::is_object_id(reads.head->Ok_0@)
    &&& verify::canonical_views(reads.snapshot->Ok_0@.changed_paths)
    &&& verify::canonical_views(reads.ignored->Ok_0@.paths)
    &&& validate::is_sha256(reads.ignored->Ok_0@.content_sha256)
    &&& reads.snapshot->Ok_0@.patch.len() == 0 <==> reads.snapshot->Ok_0@.changed_paths.len() == 0
}

/// What is read of a workspace has this shape by how it is read: the paths that
/// Git prints are taken in their one encoding, and an inventory's digest is one,
/// whatever the bytes are.
pub proof fn law_parsed_reads_are_shaped(printed: Seq<u8>, covered: Seq<u8>)
    ensures
        verify::canonical_views(
            git::fields_of(printed).map_values(|f: Seq<u8>| git_path::encoding_of(f)),
        ),
        validate::is_sha256(digest::sha256_hex_of(covered)),
{
    let all = git::fields_of(printed).map_values(|f: Seq<u8>| git_path::encoding_of(f));
    assert forall|i: int| 0 <= i < all.len() implies git_path::is_canonical(#[trigger] all[i]) by {
        git_path::law_one_encoding_per_path(all[i], git::fields_of(printed)[i]);
    }
    digest::lemma_hex_of_is_lower(digest::sha256_of(covered)@);
}

/// Whether a receipt holds an exported snapshot, and its `result.json` decodes
/// to the sealed result.
pub open spec fn is_receipt_of(
    receipt: Receipt,
    snapshot: ArtifactSnapshot,
    pending: PendingClose,
) -> bool {
    &&& receipt.bundle_bytes is Ok
    &&& receipt.bundle matches Ok(b) && b@ == artifacts::exported_of(snapshot.bundle@)
    &&& receipt.result_bytes matches Ok(content) && content@ == snapshot.content@
    &&& receipt.patch matches Ok(patch) && patch@ == snapshot.patch@
    &&& receipt.result matches Ok(r) && r@ == pending.result@
    &&& store::json_number_of(snapshot.content@, "schema_version"@) == Ok::<
        Option<u64>,
        Seq<char>,
    >(Some(SCHEMA_VERSION as u64))
}

/// Whether a repository still has the pinned base, and applying the sealed
/// patch to it gives the sealed change.
pub open spec fn reproduces(reads: RepositoryReads, pending: PendingClose) -> bool {
    &&& reads.repository is Ok
    &&& reads.resolved matches Ok(commit) && commit@ == pending.result@.base_commit
    &&& reads.scratch is Ok
    &&& reads.preview matches Ok(preview) && preview@.patch == pending.patch@
        && preview@.changed_paths == pending.result@.changed_paths
}

/// A capsule that was closed and exported verifies: whoever holds the receipt
/// finds it consistent, finds the evidence requirements met that the close
/// demanded, and, with a repository in which the patch reproduces, passes that
/// check too. The report is that of the sealed change: the capsule, the kind,
/// both commits, the patch, how many paths it changes and how many evidence
/// records there are.
///
/// The one thing asked of the producing host is a clock that did not run
/// backwards between creation and close.
pub proof fn law_closed_and_exported_capsules_verify(
    root: Seq<u8>,
    id: Seq<char>,
    options: CloseOptions,
    shown: std::result::Result<Capsule, Error>,
    stored: std::result::Result<Capsule, Error>,
    inspection: WorktreeInspection,
    reads: CloseReads,
    sealed_at: u64,
    pending: PendingClose,
    snapshot: ArtifactSnapshot,
    result_uri: Seq<char>,
    patch_uri: Seq<char>,
    directory: Seq<u8>,
    receipt: Receipt,
    verification: VerifyOptions,
    repository: RepositoryReads,
)
    requires
        close::close_check(root, id, options, shown, stored, inspection, reads) is Ok,
        reads_shaped(reads),
        stored->Ok_0.created_at_unix <= sealed_at,
        pending.patch == reads.snapshot->Ok_0.patch,
        pending.result@ == close::result_of(
            stored->Ok_0,
            reads.snapshot->Ok_0@,
            reads.head->Ok_0@,
            reads.clean->Ok_0,
            reads.ignored->Ok_0@,
            sealed_at,
        ),
        snapshot.patch@ == pending.patch@,
        snapshot.bundle@ == artifacts::bundle_of(
            id,
            result_uri,
            patch_uri,
            snapshot.content@,
            snapshot.patch@,
        ),
        is_receipt_of(receipt, snapshot, pending),
        verification.require_successful_evidence ==> options.require_successful_evidence,
        verification.require_current_successful_evidence
            ==> options.require_current_successful_evidence,
        verification.require_executed_evidence ==> options.require_executed_evidence,
        verification.repository is Some ==> reproduces(repository, pending),
    ensures
        verify::receipt_check(directory, receipt, verification, repository) is Ok,
        forall|report: VerificationReport, authenticated: bool| #[trigger]
            verify::reports(
                report,
                directory,
                receipt.result->Ok_0@,
                verification.repository is Some,
                authenticated,
            ) ==> {
                &&& report.capsule_id@ == id
                &&& report.kind == close::kind_of(pending.patch@, reads.clean->Ok_0)
                &&& report.base_commit@ == stored->Ok_0.base_commit@
                &&& report.head_commit@ == reads.head->Ok_0@
                &&& report.patch_bytes == pending.patch@.len()
                &&& report.patch_sha256@ == digest::sha256_hex_of(pending.patch@)
                &&& report.changed_paths == reads.snapshot->Ok_0@.changed_paths.len()
                &&& report.evidence_total == stored->Ok_0.evidence@.len()
                &&& report.repository_checked == verification.repository is Some
            },
{
    assert(snapshot.content.len() <= usize::MAX);
    let c = stored->Ok_0;
    let r = pending.result@;
    let patch = pending.patch@;
    let exported = artifacts::exported_of(snapshot.bundle@);
    let a = artifacts::descriptor_of(
        ArtifactKind::ResultManifest,
        "result.json"@,
        "application/json"@,
        "result.json"@,
        snapshot.content@,
    );
    let b = artifacts::descriptor_of(
        ArtifactKind::ResultPatch,
        "result.patch"@,
        "application/vnd.git.patch"@,
        "result.patch"@,
        patch,
    );
    assert(exported.artifacts =~= seq![a, b]);
    lemma_single_of_pair(a, b);
    assert(verify::bundle_check(exported) is Ok);
    assert(verify::descriptor_check(a, snapshot.content@) is Ok);
    assert(patch.len() <= crate::model::HARD_PATCH_BYTES);
    assert(verify::descriptor_check(b, patch) is Ok);
    digest::lemma_hex_of_is_lower(digest::sha256_of(patch)@);
    evidence::lemma_coherent_views(c.evidence@);
    assert(evidence::coherent_views(r.evidence));
    assert forall|i: int| 0 <= i < r.evidence.len() implies validate::is_sha256(
        (#[trigger] r.evidence[i]).patch_sha256,
    ) by {
        assert(store::is_coherent(r.evidence[i]));
    }
    assert(verify::bound_views(r.evidence));
    assert(verify::consistency_check(id, r, patch) is Ok);
    assert(verify::files_check(directory, receipt) is Ok);
    assert(verify::evidence_check(verification, r) is Ok);
}

/// A closed capsule reads back as it was sealed. Its record can be shown and is
/// closed, the stored result passes the check against the seal, and the diff is
/// the sealed patch. What was sealed is the complete change of the workspace at
/// its `HEAD`, from the pinned base, with the label, the links, the checkpoints
/// and the evidence of the record: no change exactly where the patch is empty, a
/// commit exactly where everything it changes was committed.
pub proof fn law_closed_capsules_read_back(
    root: Seq<u8>,
    id: Seq<char>,
    options: CloseOptions,
    shown: std::result::Result<Capsule, Error>,
    stored: std::result::Result<Capsule, Error>,
    inspection: WorktreeInspection,
    reads: CloseReads,
    sealed_at: u64,
    pending: PendingClose,
    encoded: Seq<u8>,
    closed: Capsule,
    kept: StoredResult,
    o: DiffObservation,
)
    requires
        close::close_check(root, id, options, shown, stored, inspection, reads) is Ok,
        reads_shaped(reads),
        pending.capsule == stored->Ok_0,
        pending.patch == reads.snapshot->Ok_0.patch,
        pending.result@ == close::result_of(
            stored->Ok_0,
            reads.snapshot->Ok_0@,
            reads.head->Ok_0@,
            reads.clean->Ok_0,
            reads.ignored->Ok_0@,
            sealed_at,
        ),
        close::is_sealed_from(closed, pending, encoded),
        kept.result@ == pending.result@,
        kept.encoded@ == encoded,
        o.stored == Ok::<StoredResult, Error>(kept),
        o.patch matches Ok(patch) && patch@ == pending.patch@,
    ensures
        manager::show_check(root, id, Ok(closed)) == Ok::<(), ErrorView>(()),
        artifacts::intact_check(closed, o.stored, o.patch) == Ok::<(), ErrorView>(()),
        query::diff_of(closed, o) == Ok::<Seq<u8>, ErrorView>(pending.patch@),
        closed.state is Closed,
        closed.closed_at_unix == Some(sealed_at),
        closed.checkpoints == stored->Ok_0.checkpoints,
        closed.evidence == stored->Ok_0.evidence,
        ({
            let r = kept.result@;
            let patch = reads.snapshot->Ok_0@.patch;
            &&& r.capsule_id == id
            &&& r.label == text::opt_view(stored->Ok_0.label)
            &&& r.links == stored->Ok_0.links@
            &&& r.checkpoints == record::views(stored->Ok_0.checkpoints@)
            &&& r.evidence == record::views(stored->Ok_0.evidence@)
            &&& r.created_at_unix == stored->Ok_0.created_at_unix
            &&& r.base_commit == stored->Ok_0.base_commit@
            &&& r.head_commit == reads.head->Ok_0@
            &&& r.patch_sha256 == digest::sha256_hex_of(patch)
            &&& r.patch_bytes == patch.len()
            &&& r.changed_paths == reads.snapshot->Ok_0@.changed_paths
            &&& r.ignored_paths == reads.ignored->Ok_0@.paths
            &&& r.sealed_at_unix == sealed_at
            &&& r.kind == ResultKind::NoChange <==> patch.len() == 0
            &&& r.kind == ResultKind::Commit <==> patch.len() > 0 && reads.clean->Ok_0
            &&& r.kind == ResultKind::Patch <==> patch.len() > 0 && !reads.clean->Ok_0
        }),
{
    let c = stored->Ok_0;
    let patch = pending.patch@;
    assert(patch.len() <= crate::model::HARD_PATCH_BYTES);
    assert(pending.result@.changed_paths.len() == pending.result.changed_paths@.len());
    digest::lemma_hex_of_is_lower(digest::sha256_of(patch)@);
    digest::lemma_hex_of_is_lower(digest::sha256_of(encoded)@);
    verify::lemma_canonical_views(kept.result.changed_paths@);
    verify::lemma_canonical_views(kept.result.ignored_paths@);
    evidence::lemma_coherent_views(c.evidence@);
    evidence::lemma_coherent_views(kept.result.evidence@);
    assert(kept.result@.evidence == record::views(kept.result.evidence@));
    assert(git_path::all_canonical(kept.result.changed_paths@));
    assert(store::result_shaped(kept.result));
}

/// A seal is not touched by what becomes of the capsule: the stored result
/// passes the check against it while an integration runs, once it is done or
/// given up, and during and after a drop, exactly where it passed before.
pub proof fn law_transitions_keep_the_seal(
    c: Capsule,
    next: Capsule,
    stored: std::result::Result<StoredResult, Error>,
    patch: std::result::Result<Vec<u8>, Error>,
    options: IntegrateOptions,
    target: Repository,
    head: Seq<char>,
    head_ref: Seq<char>,
    branch_head: Option<String>,
    require_sealed: bool,
    started_at: u64,
    at: u64,
)
    ensures
        integrate::is_started(next, c, options, target, head, head_ref, started_at) ==> (
        artifacts::intact_check(next, stored, patch) is Ok <==> artifacts::intact_check(
            c,
            stored,
            patch,
        ) is Ok),
        artifacts::intact_check(integrate::integrated(c, at), stored, patch) is Ok
            <==> artifacts::intact_check(c, stored, patch) is Ok,
        artifacts::intact_check(integrate::aborted(c, at), stored, patch) is Ok
            <==> artifacts::intact_check(c, stored, patch) is Ok,
        artifacts::intact_check(
            cleanup::dropping(c, branch_head, require_sealed, started_at),
            stored,
            patch,
        ) is Ok <==> artifacts::intact_check(c, stored, patch) is Ok,
        artifacts::intact_check(
            cleanup::dropped(cleanup::dropping(c, branch_head, require_sealed, started_at), at),
            stored,
            patch,
        ) is Ok <==> artifacts::intact_check(c, stored, patch) is Ok,
{
}

/// What was sealed can be read after integration and after a drop: the record
/// can be shown, the stored result passes the check against the seal, and the
/// diff is the sealed patch, whatever became of the workspace.
pub proof fn law_sealed_results_outlive_the_workspace(
    root: Seq<u8>,
    id: Seq<char>,
    c: Capsule,
    o: DiffObservation,
    branch_head: Option<String>,
    require_sealed: bool,
    started_at: u64,
    at: u64,
)
    requires
        manager::show_check(root, id, Ok(c)) is Ok,
        artifacts::intact_check(c, o.stored, o.patch) is Ok,
    ensures
        ({
            let done = integrate::integrated(c, at);
            &&& c.state is Integrating ==> manager::show_check(root, id, Ok(done)) == Ok::<
                (),
                ErrorView,
            >(())
            &&& artifacts::intact_check(done, o.stored, o.patch) == Ok::<(), ErrorView>(())
            &&& query::diff_of(done, o) == Ok::<Seq<u8>, ErrorView>(o.patch->Ok_0@)
        }),
        ({
            let gone = cleanup::dropped(
                cleanup::dropping(c, branch_head, require_sealed, started_at),
                at,
            );
            &&& manager::show_check(root, id, Ok(gone)) == Ok::<(), ErrorView>(())
            &&& artifacts::intact_check(gone, o.stored, o.patch) == Ok::<(), ErrorView>(())
            &&& query::diff_of(gone, o) == Ok::<Seq<u8>, ErrorView>(o.patch->Ok_0@)
        }),
{
    let gone = cleanup::dropped(cleanup::dropping(c, branch_head, require_sealed, started_at), at);
    assert(gone.result is Some);
}

} // verus!
