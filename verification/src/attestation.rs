//! in-toto attestation view of a sealed result.
//!
//! A receipt is self-contained and verifies offline. This module projects the
//! same sealed result into an in-toto Statement, for tooling that already
//! speaks that format. The statement is a pure function of the sealed result,
//! so anyone who holds the receipt can regenerate it and compare.

use vstd::prelude::*;
use vstd::string::*;

use crate::error::Error;
use crate::git_path::{GitPath, GitPathView};
use crate::links::{LinkView, Links};
use crate::model::{CapsuleResult, Evidence, EvidenceView, ResultKind, ResultView};
use crate::paths::NativePath;
use crate::verify::{Receipt, RepositoryReads, VerifyOptions};
use crate::{evidence, git, record, text, verify};

verus! {

/// `_type` of an in-toto Statement v1.
pub const IN_TOTO_STATEMENT_TYPE: &'static str = "https://in-toto.io/Statement/v1";

/// `predicateType` identifying a change attestation.
pub const CHANGE_PREDICATE_TYPE: &'static str =
    "https://github.com/SiliconState/change-capsule/attestation/change/v1";

/// One in-toto `ResourceDescriptor`.
#[derive(Debug, PartialEq, Eq)]
pub struct ResourceDescriptor {
    /// Human-facing label distinguishing this subject from the others.
    pub name: String,
    /// Digest set, keyed by in-toto algorithm name, lowercase hex encoded.
    pub digest: Links,
}

/// What a [`ResourceDescriptor`] holds.
pub struct ResourceView {
    pub name: Seq<char>,
    pub digest: Seq<LinkView>,
}

impl View for ResourceDescriptor {
    type V = ResourceView;

    open spec fn view(&self) -> ResourceView {
        ResourceView { name: self.name@, digest: self.digest@ }
    }
}

/// What a receipt does and does not establish.
#[derive(Debug, PartialEq, Eq)]
pub struct ProofBoundary {
    /// Claims a verifier can re-derive from the receipt plus the repository.
    pub proves: Vec<String>,
    /// Claims the receipt deliberately does not establish.
    pub does_not_prove: Vec<String>,
}

/// What a [`ProofBoundary`] holds.
pub struct BoundaryView {
    pub proves: Seq<Seq<char>>,
    pub does_not_prove: Seq<Seq<char>>,
}

impl View for ProofBoundary {
    type V = BoundaryView;

    open spec fn view(&self) -> BoundaryView {
        BoundaryView {
            proves: git::texts(self.proves@),
            does_not_prove: git::texts(self.does_not_prove@),
        }
    }
}

/// The boundary of a receipt with or without executed evidence.
pub open spec fn boundary_of(has_executed_evidence: bool) -> BoundaryView {
    let always_proved = seq![
        "patch-bytes-match-sealed-digest"@,
        "patch-applies-to-pinned-base"@,
        "patch-reproduces-sealed-bytes-and-changed-paths"@,
        "result-internally-consistent"@,
    ];
    let never_proved = seq![
        "human-or-agent-authorship"@,
        "code-quality-or-review-approval"@,
        "producing-host-was-uncompromised"@,
    ];
    if has_executed_evidence {
        BoundaryView {
            proves: always_proved.push("executed-evidence-ran-in-capsule-workspace"@),
            does_not_prove: never_proved,
        }
    } else {
        BoundaryView {
            proves: always_proved,
            does_not_prove: never_proved.push("evidence-command-actually-ran"@).push(
                "evidence-output-is-truthful"@,
            ),
        }
    }
}

fn push_text(rows: &mut Vec<String>, entry: &str)
    ensures
        git::texts(final(rows)@) == git::texts(old(rows)@).push(entry@),
{
    rows.push(entry.to_owned());
    proof {
        assert(git::texts(rows@) =~= git::texts(old(rows)@).push(entry@));
    }
}

impl ProofBoundary {
    /// The boundary for a receipt, which depends on the evidence it carries.
    ///
    /// The first four entries hold for every receipt and need no trust: any
    /// holder recomputes them. Executed evidence adds one more, which says that
    /// the producing host ran the command and saw the result; that the host was
    /// uncompromised stays unproved either way.
    pub fn for_receipt(has_executed_evidence: bool) -> (r: ProofBoundary)
        ensures
            r@ == boundary_of(has_executed_evidence),
    {
        let mut proves: Vec<String> = Vec::new();
        push_text(&mut proves, "patch-bytes-match-sealed-digest");
        push_text(&mut proves, "patch-applies-to-pinned-base");
        push_text(&mut proves, "patch-reproduces-sealed-bytes-and-changed-paths");
        push_text(&mut proves, "result-internally-consistent");
        let mut does_not_prove: Vec<String> = Vec::new();
        push_text(&mut does_not_prove, "human-or-agent-authorship");
        push_text(&mut does_not_prove, "code-quality-or-review-approval");
        push_text(&mut does_not_prove, "producing-host-was-uncompromised");
        if has_executed_evidence {
            push_text(&mut proves, "executed-evidence-ran-in-capsule-workspace");
        } else {
            push_text(&mut does_not_prove, "evidence-command-actually-ran");
            push_text(&mut does_not_prove, "evidence-output-is-truthful");
        }
        proof {
            assert(git::texts(proves@) =~= boundary_of(has_executed_evidence).proves);
            assert(git::texts(does_not_prove@) =~= boundary_of(
                has_executed_evidence,
            ).does_not_prove);
        }
        ProofBoundary { proves, does_not_prove }
    }
}

/// One verification record, as carried in an attestation.
#[derive(Debug, PartialEq, Eq)]
pub struct RecordedEvidence {
    /// Exact command line.
    pub command: String,
    /// Exit status.
    pub exit_code: i32,
    /// Whether the command was executed rather than claimed.
    pub executed: bool,
    /// Digest of the captured output. Present only for executed records.
    pub output_sha256: Option<String>,
    /// Optional bounded summary.
    pub summary: Option<String>,
    /// Patch digest this record was bound to.
    pub bound_patch_sha256: String,
    /// Whether this record is bound to the exact patch in the subject.
    pub current_for_sealed_patch: bool,
    /// When the record was attached.
    pub recorded_at_unix: u64,
}

/// What a [`RecordedEvidence`] holds.
pub struct RecordedView {
    pub command: Seq<char>,
    pub exit_code: i32,
    pub executed: bool,
    pub output_sha256: Option<Seq<char>>,
    pub summary: Option<Seq<char>>,
    pub bound_patch_sha256: Seq<char>,
    pub current_for_sealed_patch: bool,
    pub recorded_at_unix: u64,
}

impl View for RecordedEvidence {
    type V = RecordedView;

    open spec fn view(&self) -> RecordedView {
        RecordedView {
            command: self.command@,
            exit_code: self.exit_code,
            executed: self.executed,
            output_sha256: text::opt_view(self.output_sha256),
            summary: text::opt_view(self.summary),
            bound_patch_sha256: self.bound_patch_sha256@,
            current_for_sealed_patch: self.current_for_sealed_patch,
            recorded_at_unix: self.recorded_at_unix,
        }
    }
}

/// A record as an attestation for a sealed patch carries it.
pub open spec fn recorded_of(e: EvidenceView, sealed: Seq<char>) -> RecordedView {
    RecordedView {
        command: e.command,
        exit_code: e.exit_code,
        executed: e.executed,
        output_sha256: e.output_sha256,
        summary: e.summary,
        bound_patch_sha256: e.patch_sha256,
        current_for_sealed_patch: e.patch_sha256 == sealed,
        recorded_at_unix: e.recorded_at_unix,
    }
}

/// Every record as an attestation for a sealed patch carries it, in order.
pub open spec fn all_recorded(records: Seq<EvidenceView>, sealed: Seq<char>) -> Seq<RecordedView> {
    records.map_values(|e: EvidenceView| recorded_of(e, sealed))
}

/// Change predicate, version 1.
///
/// Field values are exactly those of the sealed result, so a consumer can
/// compare them without normalisation.
#[derive(Debug, PartialEq, Eq)]
pub struct ChangePredicate {
    /// Schema version of the sealed result this statement projects.
    pub result_schema_version: u32,
    /// Capsule the result belongs to.
    pub capsule_id: String,
    /// Shape of the result relative to its base.
    pub kind: ResultKind,
    /// Immutable commit the attempt started from.
    pub base_commit: String,
    /// Workspace `HEAD` at seal time.
    pub head_commit: String,
    /// Size of the sealed patch in bytes.
    pub patch_bytes: u64,
    /// Complete inventory of paths the result changes.
    pub changed_paths: Vec<GitPath>,
    /// Structural digest of Git-ignored content observed at seal time.
    pub ignored_content_sha256: Option<String>,
    /// Label carried over from the capsule at seal time.
    pub label: Option<String>,
    /// Opaque caller links carried over at seal time.
    pub links: Links,
    /// Verification records.
    pub evidence: Vec<RecordedEvidence>,
    /// When the originating capsule was created.
    pub created_at_unix: u64,
    /// When the result was sealed.
    pub sealed_at_unix: u64,
    /// Machine-readable statement of this predicate's proof boundary.
    pub proof_boundary: ProofBoundary,
}

/// What a [`ChangePredicate`] holds.
pub struct PredicateView {
    pub result_schema_version: u32,
    pub capsule_id: Seq<char>,
    pub kind: ResultKind,
    pub base_commit: Seq<char>,
    pub head_commit: Seq<char>,
    pub patch_bytes: u64,
    pub changed_paths: Seq<GitPathView>,
    pub ignored_content_sha256: Option<Seq<char>>,
    pub label: Option<Seq<char>>,
    pub links: Seq<LinkView>,
    pub evidence: Seq<RecordedView>,
    pub created_at_unix: u64,
    pub sealed_at_unix: u64,
    pub proof_boundary: BoundaryView,
}

impl View for ChangePredicate {
    type V = PredicateView;

    open spec fn view(&self) -> PredicateView {
        PredicateView {
            result_schema_version: self.result_schema_version,
            capsule_id: self.capsule_id@,
            kind: self.kind,
            base_commit: self.base_commit@,
            head_commit: self.head_commit@,
            patch_bytes: self.patch_bytes,
            changed_paths: record::views(self.changed_paths@),
            ignored_content_sha256: text::opt_view(self.ignored_content_sha256),
            label: text::opt_view(self.label),
            links: self.links@,
            evidence: record::views(self.evidence@),
            created_at_unix: self.created_at_unix,
            sealed_at_unix: self.sealed_at_unix,
            proof_boundary: self.proof_boundary@,
        }
    }
}

/// An in-toto Statement v1 carrying a [`ChangePredicate`].
#[derive(Debug, PartialEq, Eq)]
pub struct Statement {
    /// Always [`IN_TOTO_STATEMENT_TYPE`].
    pub statement_type: String,
    /// Artifacts this statement is about, matched by digest.
    pub subject: Vec<ResourceDescriptor>,
    /// Always [`CHANGE_PREDICATE_TYPE`].
    pub predicate_type: String,
    /// The change predicate.
    pub predicate: ChangePredicate,
}

/// What a [`Statement`] holds.
pub struct StatementView {
    pub statement_type: Seq<char>,
    pub subject: Seq<ResourceView>,
    pub predicate_type: Seq<char>,
    pub predicate: PredicateView,
}

impl View for Statement {
    type V = StatementView;

    open spec fn view(&self) -> StatementView {
        StatementView {
            statement_type: self.statement_type@,
            subject: record::views(self.subject@),
            predicate_type: self.predicate_type@,
            predicate: self.predicate@,
        }
    }
}

/// The statement of a sealed result.
pub open spec fn statement_of(r: ResultView) -> StatementView {
    StatementView {
        statement_type: IN_TOTO_STATEMENT_TYPE@,
        subject: seq![
            ResourceView { name: "result.patch"@, digest: seq![("sha256"@, r.patch_sha256)] },
            ResourceView { name: "head"@, digest: seq![("gitCommit"@, r.head_commit)] },
        ],
        predicate_type: CHANGE_PREDICATE_TYPE@,
        predicate: PredicateView {
            result_schema_version: r.schema_version,
            capsule_id: r.capsule_id,
            kind: r.kind,
            base_commit: r.base_commit,
            head_commit: r.head_commit,
            patch_bytes: r.patch_bytes,
            changed_paths: r.changed_paths,
            ignored_content_sha256: r.ignored_content_sha256,
            label: r.label,
            links: r.links,
            evidence: all_recorded(r.evidence, r.patch_sha256),
            created_at_unix: r.created_at_unix,
            sealed_at_unix: r.sealed_at_unix,
            proof_boundary: boundary_of(evidence::some_executed(r.evidence, r.patch_sha256)),
        },
    }
}

fn record_evidence(records: &Vec<Evidence>, sealed: &str) -> (r: Vec<RecordedEvidence>)
    ensures
        record::views(r@) == all_recorded(record::views(records@), sealed@),
{
    let ghost wanted = all_recorded(record::views(records@), sealed@);
    let mut r: Vec<RecordedEvidence> = Vec::new();
    let mut i: usize = 0;
    proof {
        assert(record::views(r@) =~= wanted.take(0));
    }
    while i < records.len()
        invariant
            i <= records.len(),
            wanted == all_recorded(record::views(records@), sealed@),
            record::views(r@) == wanted.take(i as int),
        decreases records.len() - i,
    {
        let ghost before = r@;
        let item = &records[i];
        let entry = RecordedEvidence {
            command: item.command.clone(),
            exit_code: item.exit_code,
            executed: item.executed,
            output_sha256: text::copy_opt_text(&item.output_sha256),
            summary: text::copy_opt_text(&item.summary),
            bound_patch_sha256: item.patch_sha256.clone(),
            current_for_sealed_patch: text::same_text(item.patch_sha256.as_str(), sealed),
            recorded_at_unix: item.recorded_at_unix,
        };
        let ghost held = entry@;
        r.push(entry);
        proof {
            assert(held == recorded_of(records@[i as int]@, sealed@));
            assert(wanted[i as int] == recorded_of(records@[i as int]@, sealed@));
            assert(record::views(r@) =~= record::views(before).push(held));
            assert(wanted.take(i + 1) =~= wanted.take(i as int).push(wanted[i as int]));
        }
        i += 1;
    }
    proof {
        assert(wanted.take(wanted.len() as int) =~= wanted);
    }
    r
}

/// Project a sealed result into an in-toto Statement.
///
/// The subject carries the sealed patch by `sha256` and the result `HEAD` by
/// `gitCommit`, the two identities a merge gate binds.
pub fn change_statement(result: &CapsuleResult) -> (r: Statement)
    ensures
        r@ == statement_of(result@),
{
    let has_executed = evidence::any_executed(&result.evidence, result.patch_sha256.as_str());
    let mut subject: Vec<ResourceDescriptor> = Vec::new();
    subject.push(
        ResourceDescriptor {
            name: "result.patch".to_owned(),
            digest: Links::single("sha256", result.patch_sha256.as_str()),
        },
    );
    subject.push(
        ResourceDescriptor {
            name: "head".to_owned(),
            digest: Links::single("gitCommit", result.head_commit.as_str()),
        },
    );
    proof {
        assert(record::views(subject@) =~= statement_of(result@).subject);
    }
    Statement {
        statement_type: IN_TOTO_STATEMENT_TYPE.to_owned(),
        subject,
        predicate_type: CHANGE_PREDICATE_TYPE.to_owned(),
        predicate: ChangePredicate {
            result_schema_version: result.schema_version,
            capsule_id: result.capsule_id.clone(),
            kind: result.kind,
            base_commit: result.base_commit.clone(),
            head_commit: result.head_commit.clone(),
            patch_bytes: result.patch_bytes,
            changed_paths: record::copy_rows(&result.changed_paths),
            ignored_content_sha256: text::copy_opt_text(&result.ignored_content_sha256),
            label: text::copy_opt_text(&result.label),
            links: result.links.clone(),
            evidence: record_evidence(&result.evidence, result.patch_sha256.as_str()),
            created_at_unix: result.created_at_unix,
            sealed_at_unix: result.sealed_at_unix,
            proof_boundary: ProofBoundary::for_receipt(has_executed),
        },
    }
}

/// Verify a receipt, then project it into an in-toto Statement.
///
/// A statement is a claim other systems act on, so none is produced for a
/// receipt that does not verify.
pub fn attest_bundle(
    directory: &NativePath,
    receipt: Receipt,
    options: &VerifyOptions,
    reads: &RepositoryReads,
) -> (r: std::result::Result<Statement, Error>)
    ensures
        match verify::receipt_check(directory@, receipt, *options, *reads) {
            Ok(_) => r matches Ok(s) && s@ == statement_of(receipt.result->Ok_0@),
            Err(e) => r matches Err(found) && found@ == e,
        },
{
    match verify::verified_bundle_result(directory, receipt, options, reads) {
        Err(e) => Err(e),
        Ok((_, result)) => Ok(change_statement(&result)),
    }
}

/// The proof boundary widens only for executed, passing evidence bound to the
/// sealed patch: without such a record a statement disclaims that any command
/// ran.
pub proof fn law_boundary_widens_only_for_execution(r: ResultView)
    ensures
        evidence::some_executed(r.evidence, r.patch_sha256)
            <==> statement_of(r).predicate.proof_boundary == boundary_of(true),
        !evidence::some_executed(r.evidence, r.patch_sha256) ==> {
            &&& statement_of(r).predicate.proof_boundary.does_not_prove.contains(
                "evidence-command-actually-ran"@,
            )
            &&& statement_of(r).predicate.proof_boundary.proves == boundary_of(false).proves
        },
{
    let narrow = boundary_of(false);
    let wide = boundary_of(true);
    assert(wide.proves.len() == 5);
    assert(narrow.proves.len() == 4);
    assert(narrow.does_not_prove[3] == "evidence-command-actually-ran"@);
}

/// Whatever evidence a receipt carries, its statement never claims that the
/// producing host was uncompromised.
pub proof fn law_host_is_never_proved(r: ResultView)
    ensures
        statement_of(r).predicate.proof_boundary.does_not_prove.contains(
            "producing-host-was-uncompromised"@,
        ),
{
    let b = statement_of(r).predicate.proof_boundary;
    assert(b.does_not_prove[2] == "producing-host-was-uncompromised"@);
}

/// A statement carries what it projects: the sealed result can be compared with
/// it field by field, and two results with the same statement agree on
/// everything the statement is about.
pub proof fn law_statement_is_faithful(a: ResultView, b: ResultView)
    requires
        statement_of(a) == statement_of(b),
    ensures
        a.capsule_id == b.capsule_id,
        a.kind == b.kind,
        a.base_commit == b.base_commit,
        a.head_commit == b.head_commit,
        a.patch_sha256 == b.patch_sha256,
        a.patch_bytes == b.patch_bytes,
        a.changed_paths == b.changed_paths,
        a.ignored_content_sha256 == b.ignored_content_sha256,
        a.label == b.label,
        a.links == b.links,
        a.created_at_unix == b.created_at_unix,
        a.sealed_at_unix == b.sealed_at_unix,
{
    let s = statement_of(a);
    let t = statement_of(b);
    assert(s.subject[0].digest[0] == ("sha256"@, a.patch_sha256));
    assert(t.subject[0].digest[0] == ("sha256"@, b.patch_sha256));
}

} // verus!
