//! What a statement says of a sealed result.

use vstd::prelude::*;
use vstd::string::*;

use crate::attestation::{ProofBoundary, RecordedEvidence, ResourceDescriptor, Statement};
use crate::error::Error;
use crate::laws::verifying;
use crate::model::{CapsuleResult, Evidence};
use crate::paths::NativePath;
use crate::verify::{Receipt, RepositoryReads, VerifyOptions};
use crate::{attestation, evidence, git, laws, record, verify};

verus! {

/// Whether an attested record says what a sealed record says, and whether it is
/// for the sealed patch.
pub open spec fn attests(a: RecordedEvidence, e: Evidence, sealed: Seq<char>) -> bool {
    &&& a.command@ == e.command@
    &&& a.exit_code == e.exit_code
    &&& a.executed == e.executed
    &&& laws::opt(a.output_sha256) == laws::opt(e.output_sha256)
    &&& laws::opt(a.summary) == laws::opt(e.summary)
    &&& a.bound_patch_sha256@ == e.patch_sha256@
    &&& a.current_for_sealed_patch <==> e.patch_sha256@ == sealed
    &&& a.recorded_at_unix == e.recorded_at_unix
}

/// Whether a subject is named and carries exactly one digest.
pub open spec fn identifies(
    d: ResourceDescriptor,
    name: Seq<char>,
    algorithm: Seq<char>,
    value: Seq<char>,
) -> bool {
    &&& d.name@ == name
    &&& d.digest@.len() == 1
    &&& d.digest@[0].0 == algorithm
    &&& d.digest@[0].1 == value
}

/// Whether a row of texts is the one given.
pub open spec fn reads(row: Seq<String>, wanted: Seq<Seq<char>>) -> bool {
    row.len() == wanted.len() && forall|i: int| 0 <= i < row.len() ==> (#[trigger] row[i])@ == wanted[i]
}

/// Whether a boundary claims execution exactly where there was some, and never
/// claims authorship, approval, or that the host was uncompromised.
pub open spec fn bounds(b: ProofBoundary, executed: bool) -> bool {
    if executed {
        &&& reads(
            b.proves@,
            seq![
                "patch-bytes-match-sealed-digest"@,
                "patch-applies-to-pinned-base"@,
                "patch-reproduces-sealed-bytes-and-changed-paths"@,
                "result-internally-consistent"@,
                "executed-evidence-ran-in-capsule-workspace"@,
            ],
        )
        &&& reads(
            b.does_not_prove@,
            seq![
                "human-or-agent-authorship"@,
                "code-quality-or-review-approval"@,
                "producing-host-was-uncompromised"@,
            ],
        )
    } else {
        &&& reads(
            b.proves@,
            seq![
                "patch-bytes-match-sealed-digest"@,
                "patch-applies-to-pinned-base"@,
                "patch-reproduces-sealed-bytes-and-changed-paths"@,
                "result-internally-consistent"@,
            ],
        )
        &&& reads(
            b.does_not_prove@,
            seq![
                "human-or-agent-authorship"@,
                "code-quality-or-review-approval"@,
                "producing-host-was-uncompromised"@,
                "evidence-command-actually-ran"@,
                "evidence-output-is-truthful"@,
            ],
        )
    }
}

/// Whether a statement says exactly what a sealed result says: its subjects are
/// the sealed patch and the sealed `HEAD`, and every field and every record of
/// the result is in it.
pub open spec fn states(s: Statement, r: CapsuleResult) -> bool {
    let p = s.predicate;
    &&& s.statement_type@ == "https://in-toto.io/Statement/v1"@
    &&& s.predicate_type@
        == "https://github.com/SiliconState/change-capsule/attestation/change/v1"@
    &&& s.subject@.len() == 2
    &&& identifies(s.subject@[0], "result.patch"@, "sha256"@, r.patch_sha256@)
    &&& identifies(s.subject@[1], "head"@, "gitCommit"@, r.head_commit@)
    &&& p.result_schema_version == r.schema_version
    &&& p.capsule_id@ == r.capsule_id@
    &&& p.kind == r.kind
    &&& p.base_commit@ == r.base_commit@
    &&& p.head_commit@ == r.head_commit@
    &&& p.patch_bytes == r.patch_bytes
    &&& laws::same_paths(p.changed_paths@, r.changed_paths@)
    &&& laws::opt(p.ignored_content_sha256) == laws::opt(r.ignored_content_sha256)
    &&& laws::opt(p.label) == laws::opt(r.label)
    &&& p.links@ == r.links@
    &&& p.evidence@.len() == r.evidence@.len()
    &&& forall|i: int|
        0 <= i < r.evidence@.len() ==> attests(
            #[trigger] p.evidence@[i],
            r.evidence@[i],
            r.patch_sha256@,
        )
    &&& p.created_at_unix == r.created_at_unix
    &&& p.sealed_at_unix == r.sealed_at_unix
    &&& bounds(
        p.proof_boundary,
        exists|i: int|
            0 <= i < r.evidence@.len() && (#[trigger] r.evidence@[i]).executed
                && r.evidence@[i].exit_code == 0 && r.evidence@[i].patch_sha256@
                == r.patch_sha256@,
    )
}

proof fn lemma_reads(row: Seq<String>, wanted: Seq<Seq<char>>)
    requires
        git::texts(row) == wanted,
    ensures
        reads(row, wanted),
{
    let all = git::texts(row);
    assert(all.len() == row.len());
    assert forall|i: int| 0 <= i < row.len() implies (#[trigger] row[i])@ == wanted[i] by {
        assert(all[i] == row[i]@);
    }
}

proof fn lemma_bounds(b: ProofBoundary, executed: bool)
    requires
        b@ == attestation::boundary_of(executed),
    ensures
        bounds(b, executed),
{
    let w = attestation::boundary_of(executed);
    lemma_reads(b.proves@, w.proves);
    lemma_reads(b.does_not_prove@, w.does_not_prove);
    if executed {
        assert(w.proves =~= seq![
            "patch-bytes-match-sealed-digest"@,
            "patch-applies-to-pinned-base"@,
            "patch-reproduces-sealed-bytes-and-changed-paths"@,
            "result-internally-consistent"@,
            "executed-evidence-ran-in-capsule-workspace"@,
        ]);
    } else {
        assert(w.does_not_prove =~= seq![
            "human-or-agent-authorship"@,
            "code-quality-or-review-approval"@,
            "producing-host-was-uncompromised"@,
            "evidence-command-actually-ran"@,
            "evidence-output-is-truthful"@,
        ]);
    }
}

proof fn lemma_states(s: Statement, r: CapsuleResult)
    requires
        s@ == attestation::statement_of(r@),
    ensures
        states(s, r),
{
    let p = s.predicate;
    laws::lemma_views(s.subject@);
    laws::lemma_views(p.evidence@);
    laws::lemma_views(r.evidence@);
    assert(s@.subject[0] == s.subject@[0]@ && s@.subject[1] == s.subject@[1]@);
    laws::lemma_same_paths(p.changed_paths@, r.changed_paths@);
    let wanted = attestation::all_recorded(r@.evidence, r@.patch_sha256);
    assert(p@.evidence == wanted);
    assert(wanted.len() == r.evidence@.len());
    assert forall|i: int| 0 <= i < r.evidence@.len() implies attests(
        #[trigger] p.evidence@[i],
        r.evidence@[i],
        r.patch_sha256@,
    ) by {
        assert(p@.evidence[i] == p.evidence@[i]@);
        assert(wanted[i] == attestation::recorded_of(r.evidence@[i]@, r.patch_sha256@));
    }
    verifying::lemma_meets(r.evidence@, r.patch_sha256@, false, false, true);
    lemma_bounds(p.proof_boundary, evidence::some_executed(r@.evidence, r@.patch_sha256));
}

/// A statement says exactly what the sealed result says, record by record: what
/// failed is attested as failed, and what was only claimed as claimed.
pub proof fn law_statements_say_what_was_sealed(r: CapsuleResult, s: Statement)
    requires
        call_ensures(attestation::change_statement, (&r,), s),
    ensures
        states(s, r),
{
    lemma_states(s, r);
}

/// A statement is made of a receipt exactly where the receipt verifies, and then
/// says what its sealed result says.
pub proof fn law_only_verified_receipts_are_attested(
    directory: NativePath,
    receipt: Receipt,
    options: VerifyOptions,
    reads: RepositoryReads,
    attested: std::result::Result<Statement, Error>,
    verified: std::result::Result<crate::model::VerificationReport, Error>,
)
    requires
        call_ensures(attestation::attest_bundle, (&directory, receipt, &options, &reads), attested),
        call_ensures(verify::verify_bundle, (&directory, receipt, &options, &reads), verified),
    ensures
        attested is Ok <==> verified is Ok,
        attested matches Ok(s) ==> states(s, receipt.result->Ok_0),
        attested is Ok ==> verifying::is_sound(receipt),
{
    verifying::law_receipts_verify_exactly_where_sound(
        directory,
        receipt,
        options,
        reads,
        verified,
    );
    if let Ok(s) = attested {
        lemma_states(s, receipt.result->Ok_0);
    }
}

/// A boundary claims that evidence ran exactly where it was executed.
pub proof fn law_boundaries_claim_what_was_executed(executed: bool, b: ProofBoundary)
    requires
        call_ensures(ProofBoundary::for_receipt, (executed,), b),
    ensures
        bounds(b, executed),
{
    lemma_bounds(b, executed);
}

} // verus!
