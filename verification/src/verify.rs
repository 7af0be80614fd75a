//! Offline verification of exported receipts.
//!
//! A receipt is a directory with `bundle.json`, `result.json`, and
//! `result.patch`. Verification needs no capsule state and no workspace: given
//! the bytes and what they decode to, it decides whether the change being
//! looked at is exactly the change that was sealed.

use vstd::prelude::*;
use vstd::string::*;
use vstd::utf8::*;

use crate::error::{Error, ErrorView};
use crate::git::{Repository, Snapshot};
use crate::model::{
    ArtifactBundle, ArtifactDescriptor, ArtifactKind, BundleView, CapsuleResult, DescriptorView,
    ResultKind, ResultView, VerificationReport, BUNDLE_SCHEMA_VERSION, SCHEMA_VERSION,
};
use crate::paths::NativePath;
use crate::{
    bytes, digest, error, evidence, git_path, paths, record, signature, store, text, validate,
};

verus! {

/// What a verification run should require beyond structural consistency.
#[derive(Debug, PartialEq, Eq)]
pub struct VerifyOptions {
    /// Reject receipts whose evidence is absent or contains a failure.
    pub require_successful_evidence: bool,
    /// Reject unless passing evidence is bound to the sealed patch.
    pub require_current_successful_evidence: bool,
    /// Reject unless executed, passing evidence is bound to the sealed patch.
    pub require_executed_evidence: bool,
    /// Additionally confirm against this repository that the pinned base
    /// exists and that the sealed patch applies to it, reproducing exactly the
    /// sealed bytes and changed paths.
    pub repository: Option<NativePath>,
}

impl VerifyOptions {
    /// Requirements on success and currency of evidence, with an optional
    /// repository to check against.
    pub fn new(
        require_successful_evidence: bool,
        require_current_successful_evidence: bool,
        repository: Option<NativePath>,
    ) -> (r: VerifyOptions)
        ensures
            r == (VerifyOptions {
                require_successful_evidence,
                require_current_successful_evidence,
                require_executed_evidence: false,
                repository,
            }),
    {
        VerifyOptions {
            require_successful_evidence,
            require_current_successful_evidence,
            require_executed_evidence: false,
            repository,
        }
    }

    /// Structural consistency alone.
    pub fn integrity() -> (r: VerifyOptions)
        ensures
            r == (VerifyOptions {
                require_successful_evidence: false,
                require_current_successful_evidence: false,
                require_executed_evidence: false,
                repository: None,
            }),
    {
        VerifyOptions::new(false, false, None)
    }

    /// What a gate should ask: executed evidence for the exact patch, and its
    /// reproduction from the pinned base.
    pub fn strict(repository: NativePath) -> (r: VerifyOptions)
        ensures
            r == (VerifyOptions {
                require_successful_evidence: false,
                require_current_successful_evidence: false,
                require_executed_evidence: true,
                repository: Some(repository),
            }),
    {
        VerifyOptions::requiring(false, false, true).with_repository(repository)
    }

    /// Three independent evidence requirements.
    pub fn requiring(successful: bool, current: bool, executed: bool) -> (r: VerifyOptions)
        ensures
            r == (VerifyOptions {
                require_successful_evidence: successful,
                require_current_successful_evidence: current,
                require_executed_evidence: executed,
                repository: None,
            }),
    {
        VerifyOptions {
            require_successful_evidence: successful,
            require_current_successful_evidence: current,
            require_executed_evidence: executed,
            repository: None,
        }
    }

    /// Additionally check against a repository.
    pub fn with_repository(self, repository: NativePath) -> (r: VerifyOptions)
        ensures
            r == (VerifyOptions { repository: Some(repository), ..self }),
    {
        VerifyOptions { repository: Some(repository), ..self }
    }
}

impl Default for VerifyOptions {
    /// Structural consistency alone; see [`VerifyOptions::integrity`].
    fn default() -> (r: VerifyOptions)
        ensures
            r == (VerifyOptions {
                require_successful_evidence: false,
                require_current_successful_evidence: false,
                require_executed_evidence: false,
                repository: None,
            }),
    {
        VerifyOptions::integrity()
    }
}

/// A receipt directory as it was read.
///
/// What could not be read carries the error that prevented it.
#[derive(Debug, PartialEq, Eq)]
pub struct Receipt {
    /// The bytes of `bundle.json`.
    pub bundle_bytes: Result<Vec<u8>, Error>,
    /// What those bytes decode to, or the decoder's message.
    pub bundle: Result<ArtifactBundle, String>,
    /// The bytes of `result.json`.
    pub result_bytes: Result<Vec<u8>, Error>,
    /// The bytes of `result.patch`.
    pub patch: Result<Vec<u8>, Error>,
    /// What the bytes of `result.json` decode to, or the decoder's message.
    pub result: Result<CapsuleResult, String>,
}

/// What was read of a repository that a receipt is checked against.
///
/// What could not be read carries the error that prevented it.
#[derive(Debug, PartialEq, Eq)]
pub struct RepositoryReads {
    /// The repository.
    pub repository: Result<Repository, Error>,
    /// What the pinned base resolves to there.
    pub resolved: Result<String, Error>,
    /// Whether a private index could be set up.
    pub scratch: Result<(), Error>,
    /// The change that applying the sealed patch to the pinned base gives.
    pub preview: Result<Snapshot, Error>,
}

/// A refusal with the given message.
pub open spec fn refused(message: Seq<char>) -> std::result::Result<(), ErrorView> {
    Err(ErrorView::Verification(message))
}

fn fail(message: &str) -> (r: Error)
    ensures
        r@ == ErrorView::Verification(message@),
{
    Error::Verification(message.to_owned())
}

fn fail_with(message: &str, e: &Error) -> (r: Error)
    ensures
        r@ == ErrorView::Verification(message@ + error::message_of(e@)),
{
    Error::Verification(text::cat2(message, e.message().as_str()))
}

/// The name of an artifact kind.
pub open spec fn kind_name_of(kind: ArtifactKind) -> Seq<char> {
    match kind {
        ArtifactKind::ResultManifest => "ResultManifest"@,
        ArtifactKind::ResultPatch => "ResultPatch"@,
    }
}

/// The name of an artifact kind.
pub fn kind_name(kind: ArtifactKind) -> (r: &'static str)
    ensures
        r@ == kind_name_of(kind),
{
    match kind {
        ArtifactKind::ResultManifest => "ResultManifest",
        ArtifactKind::ResultPatch => "ResultPatch",
    }
}

/// The descriptors of one kind.
pub open spec fn of_kind(artifacts: Seq<DescriptorView>, kind: ArtifactKind) -> Seq<
    DescriptorView,
> {
    artifacts.filter(|d: DescriptorView| d.kind == kind)
}

/// The one descriptor of a kind, where there is exactly one.
pub open spec fn single_of(artifacts: Seq<DescriptorView>, kind: ArtifactKind) -> std::result::Result<
    DescriptorView,
    ErrorView,
> {
    let found = of_kind(artifacts, kind);
    if found.len() == 0 {
        Err(
            ErrorView::Verification(
                "bundle is missing a "@ + kind_name_of(kind) + " artifact"@,
            ),
        )
    } else if found.len() > 1 {
        Err(
            ErrorView::Verification(
                "bundle has duplicate "@ + kind_name_of(kind) + " artifacts"@,
            ),
        )
    } else {
        Ok(found[0])
    }
}

fn find_kind(artifacts: &Vec<ArtifactDescriptor>, kind: ArtifactKind) -> (r: (usize, usize))
    ensures
        r.0 == of_kind(record::views(artifacts@), kind).len(),
        r.0 > 0 ==> r.1 < artifacts@.len() && artifacts@[r.1 as int]@ == of_kind(
            record::views(artifacts@),
            kind,
        )[0],
{
    let ghost all = record::views(artifacts@);
    let keep = Ghost(|d: DescriptorView| d.kind == kind);
    let mut n: usize = 0;
    let mut first: usize = 0;
    let mut i: usize = 0;
    proof {
        reveal(Seq::filter);
        assert(all.take(0).filter(keep@) =~= Seq::<DescriptorView>::empty());
    }
    while i < artifacts.len()
        invariant
            i <= artifacts.len(),
            n <= i,
            all == record::views(artifacts@),
            keep@ == (|d: DescriptorView| d.kind == kind),
            n == all.take(i as int).filter(keep@).len(),
            n > 0 ==> first < artifacts@.len() && artifacts@[first as int]@ == all.take(
                i as int,
            ).filter(keep@)[0],
        decreases artifacts.len() - i,
    {
        proof {
            reveal(Seq::filter);
            assert(all.take(i + 1).drop_last() =~= all.take(i as int));
            assert(all.take(i + 1).last() == artifacts@[i as int]@);
        }
        if artifacts[i].kind == kind {
            if n == 0 {
                first = i;
            }
            n += 1;
        }
        i += 1;
    }
    proof {
        assert(all.take(all.len() as int) =~= all);
    }
    (n, first)
}

/// Find the one descriptor of a kind; see [`single_of`].
pub fn single_descriptor(bundle: &ArtifactBundle, kind: ArtifactKind) -> (r: std::result::Result<
    &ArtifactDescriptor,
    Error,
>)
    ensures
        match single_of(bundle@.artifacts, kind) {
            Ok(d) => r matches Ok(found) && found@ == d,
            Err(e) => r matches Err(found) && found@ == e,
        },
{
    let (n, first) = find_kind(&bundle.artifacts, kind);
    if n == 0 {
        return Err(
            Error::Verification(
                text::cat3("bundle is missing a ", kind_name(kind), " artifact"),
            ),
        );
    }
    if n > 1 {
        return Err(
            Error::Verification(
                text::cat3("bundle has duplicate ", kind_name(kind), " artifacts"),
            ),
        );
    }
    Ok(&bundle.artifacts[first])
}

/// What comparing a descriptor with bytes says.
pub open spec fn descriptor_check(d: DescriptorView, content: Seq<u8>) -> std::result::Result<
    (),
    ErrorView,
> {
    if d.bytes != content.len() {
        refused(
            d.name + " is "@ + text::decimal(content.len()) + " bytes but its descriptor records "@
                + text::decimal(d.bytes as nat),
        )
    } else if d.sha256 != digest::sha256_hex_of(content) {
        refused(d.name + " does not match its descriptor digest"@)
    } else if d.content_address != "sha256:"@ + digest::sha256_hex_of(content) {
        refused(d.name + " content address does not match its bytes"@)
    } else {
        Ok(())
    }
}

/// Refuse bytes that are not those a descriptor describes.
pub fn check_descriptor(descriptor: &ArtifactDescriptor, content: &[u8]) -> (r: std::result::Result<
    (),
    Error,
>)
    ensures
        error::outcome(r) == descriptor_check(descriptor@, content@),
{
    let found = digest::sha256_hex(content);
    if descriptor.bytes != content.len() as u64 {
        return Err(
            Error::Verification(
                text::cat5(
                    descriptor.name.as_str(),
                    " is ",
                    text::decimal_text(content.len() as u64).as_str(),
                    " bytes but its descriptor records ",
                    text::decimal_text(descriptor.bytes).as_str(),
                ),
            ),
        );
    }
    if !text::same_text(descriptor.sha256.as_str(), found.as_str()) {
        return Err(
            Error::Verification(
                text::cat2(descriptor.name.as_str(), " does not match its descriptor digest"),
            ),
        );
    }
    if !text::same_text(
        descriptor.content_address.as_str(),
        text::cat2("sha256:", found.as_str()).as_str(),
    ) {
        return Err(
            Error::Verification(
                text::cat2(
                    descriptor.name.as_str(),
                    " content address does not match its bytes",
                ),
            ),
        );
    }
    Ok(())
}

/// Whether every path of an inventory is in its one encoding, over what the
/// paths hold.
pub open spec fn canonical_views(inventory: Seq<git_path::GitPathView>) -> bool {
    forall|i: int| 0 <= i < inventory.len() ==> git_path::is_canonical(#[trigger] inventory[i])
}

/// Canonicity of an inventory is canonicity of what its paths hold.
pub proof fn lemma_canonical_views(inventory: Seq<git_path::GitPath>)
    ensures
        git_path::all_canonical(inventory) == canonical_views(record::views(inventory)),
{
    let all = record::views(inventory);
    if git_path::all_canonical(inventory) {
        assert forall|i: int| 0 <= i < all.len() implies git_path::is_canonical(
            #[trigger] all[i],
        ) by {
            assert(all[i] == inventory[i]@);
        }
    }
    if canonical_views(all) {
        assert forall|i: int| 0 <= i < inventory.len() implies git_path::is_canonical(
            (#[trigger] inventory[i])@,
        ) by {
            assert(all[i] == inventory[i]@);
        }
    }
}

/// Whether every record of a row is bound to a well-formed patch digest.
pub open spec fn bound_views(records: Seq<crate::model::EvidenceView>) -> bool {
    forall|i: int|
        0 <= i < records.len() ==> validate::is_sha256((#[trigger] records[i]).patch_sha256)
}

fn all_bound(records: &Vec<crate::model::Evidence>) -> (r: bool)
    ensures
        r == bound_views(record::views(records@)),
{
    let ghost all = record::views(records@);
    let mut i: usize = 0;
    while i < records.len()
        invariant
            i <= records.len(),
            all == record::views(records@),
            forall|j: int|
                0 <= j < i ==> validate::is_sha256((#[trigger] all[j]).patch_sha256),
        decreases records.len() - i,
    {
        assert(all[i as int] == records@[i as int]@);
        if !validate::valid_sha256(records[i].patch_sha256.as_str()) {
            return false;
        }
        i += 1;
    }
    true
}

/// Whether the digests of a result are well-formed.
pub open spec fn digests_shaped(r: ResultView) -> bool {
    validate::is_sha256(r.patch_sha256) && (r.ignored_content_sha256 matches Some(d)
        ==> validate::is_sha256(d))
}

/// What the consistency check of a sealed result with its bundle and patch
/// says: the first of its demands that fails.
pub open spec fn consistency_check(capsule_id: Seq<char>, r: ResultView, patch: Seq<u8>) -> std::result::Result<
    (),
    ErrorView,
> {
    if r.schema_version != SCHEMA_VERSION {
        refused("result schema version is unsupported"@)
    } else if r.capsule_id != capsule_id {
        refused(
            "result capsule id "@ + r.capsule_id + " does not match bundle capsule id "@
                + capsule_id,
        )
    } else if !validate::is_object_id(r.base_commit) || !validate::is_object_id(r.head_commit) {
        refused("result base or head commit is malformed"@)
    } else if !digests_shaped(r) {
        refused("result digests are malformed"@)
    } else if r.patch_sha256 != digest::sha256_hex_of(patch) {
        refused("result.patch does not match the sealed patch digest"@)
    } else if r.patch_bytes != patch.len() {
        refused("result.patch does not match the sealed byte count"@)
    } else if r.created_at_unix > r.sealed_at_unix {
        refused("result was sealed before it was created"@)
    } else if r.ignored_content_sha256 is None {
        refused("current result is missing its ignored-content structural digest"@)
    } else if !canonical_views(r.changed_paths) || !canonical_views(r.ignored_paths) {
        refused("result contains a non-canonical path encoding"@)
    } else if !bound_views(r.evidence) {
        refused("evidence patch digest is malformed"@)
    } else if !evidence::coherent_views(r.evidence) {
        refused(
            "evidence execution flag does not agree with its captured-output digest and byte count"@,
        )
    } else if (r.kind is NoChange) != (patch.len() == 0) {
        refused("result kind does not agree with whether the sealed patch is empty"@)
    } else if patch.len() == 0 && r.changed_paths.len() > 0 {
        refused("empty result lists changed paths"@)
    } else if patch.len() > 0 && r.changed_paths.len() == 0 {
        refused("non-empty result lists no changed paths"@)
    } else {
        Ok(())
    }
}

fn digests_well_formed(result: &CapsuleResult) -> (r: bool)
    ensures
        r == digests_shaped(result@),
{
    let ignored_shaped = match &result.ignored_content_sha256 {
        Some(d) => validate::valid_sha256(d.as_str()),
        None => true,
    };
    validate::valid_sha256(result.patch_sha256.as_str()) && ignored_shaped
}

fn verify_content(result: &CapsuleResult, patch: &[u8]) -> (r: std::result::Result<(), Error>)
    requires
        result@.schema_version == SCHEMA_VERSION,
        validate::is_object_id(result@.base_commit),
        validate::is_object_id(result@.head_commit),
        digests_shaped(result@),
    ensures
        error::outcome(r) == consistency_check(result@.capsule_id, result@, patch@),
{
    proof {
        lemma_canonical_views(result.changed_paths@);
        lemma_canonical_views(result.ignored_paths@);
        evidence::lemma_coherent_views(result.evidence@);
        assert(result@.changed_paths.len() == result.changed_paths@.len());
    }
    if !text::same_text(result.patch_sha256.as_str(), digest::sha256_hex(patch).as_str()) {
        return Err(fail("result.patch does not match the sealed patch digest"));
    }
    if result.patch_bytes != patch.len() as u64 {
        return Err(fail("result.patch does not match the sealed byte count"));
    }
    if result.created_at_unix > result.sealed_at_unix {
        return Err(fail("result was sealed before it was created"));
    }
    if result.ignored_content_sha256.is_none() {
        return Err(fail("current result is missing its ignored-content structural digest"));
    }
    if !git_path::inventory_canonical(&result.changed_paths) || !git_path::inventory_canonical(
        &result.ignored_paths,
    ) {
        return Err(fail("result contains a non-canonical path encoding"));
    }
    if !all_bound(&result.evidence) {
        return Err(fail("evidence patch digest is malformed"));
    }
    if !store::evidence_coherent(&result.evidence) {
        return Err(
            fail(
                "evidence execution flag does not agree with its captured-output digest and byte count",
            ),
        );
    }
    let empty = patch.len() == 0;
    if (result.kind == ResultKind::NoChange) != empty {
        return Err(fail("result kind does not agree with whether the sealed patch is empty"));
    }
    if empty && result.changed_paths.len() > 0 {
        return Err(fail("empty result lists changed paths"));
    }
    if !empty && result.changed_paths.len() == 0 {
        return Err(fail("non-empty result lists no changed paths"));
    }
    Ok(())
}

/// Refuse a sealed result that does not agree with its bundle, its patch, or
/// itself; see [`consistency_check`].
pub fn verify_result_consistency(bundle: &ArtifactBundle, result: &CapsuleResult, patch: &[u8]) -> (r:
    std::result::Result<(), Error>)
    ensures
        error::outcome(r) == consistency_check(bundle@.capsule_id, result@, patch@),
{
    if result.schema_version != SCHEMA_VERSION {
        return Err(fail("result schema version is unsupported"));
    }
    if !text::same_text(result.capsule_id.as_str(), bundle.capsule_id.as_str()) {
        return Err(
            Error::Verification(
                text::cat4(
                    "result capsule id ",
                    result.capsule_id.as_str(),
                    " does not match bundle capsule id ",
                    bundle.capsule_id.as_str(),
                ),
            ),
        );
    }
    if !validate::valid_object_id(result.base_commit.as_str()) || !validate::valid_object_id(
        result.head_commit.as_str(),
    ) {
        return Err(fail("result base or head commit is malformed"));
    }
    if !digests_well_formed(result) {
        return Err(fail("result digests are malformed"));
    }
    verify_content(result, patch)
}

/// What decoding `result.json` says, given its bytes and what the decoder
/// made of them.
pub open spec fn decode_check(
    path: Seq<u8>,
    content: Seq<u8>,
    decoded: std::result::Result<CapsuleResult, String>,
) -> std::result::Result<(), ErrorView> {
    match store::json_number_of(content, "schema_version"@) {
        Err(m) => Err(ErrorView::Json { path, detail: m }),
        Ok(n) => match store::version_of(n) {
            None => refused("result has no valid schema version"@),
            Some(v) => if v != SCHEMA_VERSION {
                refused("unsupported result schema version "@ + text::decimal(v as nat))
            } else {
                match decoded {
                    Err(m) => Err(ErrorView::Json { path, detail: m@ }),
                    Ok(_) => Ok(()),
                }
            },
        },
    }
}

/// What the declared version of `result.json` says of it.
pub fn receipt_version(path: &NativePath, declared: std::result::Result<Option<u32>, String>) -> (r:
    std::result::Result<(), Error>)
    ensures
        error::outcome(r) == match declared {
            Err(m) => Err(ErrorView::Json { path: path@, detail: m@ }),
            Ok(None) => refused("result has no valid schema version"@),
            Ok(Some(v)) => if v != SCHEMA_VERSION {
                refused("unsupported result schema version "@ + text::decimal(v as nat))
            } else {
                Ok(())
            },
        },
{
    match declared {
        Err(m) => Err(Error::Json { path: path.clone(), detail: m }),
        Ok(None) => Err(fail("result has no valid schema version")),
        Ok(Some(v)) => if v != SCHEMA_VERSION {
            Err(
                Error::Verification(
                    text::cat2(
                        "unsupported result schema version ",
                        text::decimal_text(v as u64).as_str(),
                    ),
                ),
            )
        } else {
            Ok(())
        },
    }
}

/// Accept the decoded `result.json` of a receipt only if its bytes declare a
/// supported schema version.
pub fn decode_receipt_result(
    path: &NativePath,
    content: &[u8],
    decoded: std::result::Result<CapsuleResult, String>,
) -> (r: std::result::Result<CapsuleResult, Error>)
    ensures
        match decode_check(path@, content@, decoded) {
            Ok(_) => r matches Ok(found) && decoded matches Ok(d) && found == d,
            Err(e) => r matches Err(found) && found@ == e,
        },
{
    match receipt_version(path, store::declared_version(content)) {
        Err(e) => {
            return Err(e);
        },
        Ok(_) => {},
    }
    match decoded {
        Err(m) => Err(Error::Json { path: path.clone(), detail: m }),
        Ok(d) => Ok(d),
    }
}

/// What checking a receipt against a repository says.
pub open spec fn repository_check(r: ResultView, patch: Seq<u8>, reads: RepositoryReads) -> std::result::Result<
    (),
    ErrorView,
> {
    if reads.repository is Err {
        Err(reads.repository->Err_0@)
    } else if reads.resolved is Err {
        refused(
            "pinned base "@ + r.base_commit + " is not available in the repository: "@
                + error::message_of(reads.resolved->Err_0@),
        )
    } else if reads.resolved->Ok_0@ != r.base_commit {
        refused("pinned base resolved to a different commit: "@ + reads.resolved->Ok_0@)
    } else if r.kind is NoChange {
        Ok(())
    } else if reads.scratch is Err {
        Err(reads.scratch->Err_0@)
    } else if reads.preview is Err {
        refused(
            "sealed patch does not apply to the base: "@ + error::message_of(
                reads.preview->Err_0@,
            ),
        )
    } else if reads.preview->Ok_0@.patch != patch {
        refused("applying the sealed patch does not reproduce its exact bytes"@)
    } else if reads.preview->Ok_0@.changed_paths != r.changed_paths {
        refused("applying the sealed patch does not reproduce the sealed changed paths"@)
    } else {
        Ok(())
    }
}

/// Refuse a receipt whose patch does not reproduce itself from the pinned base
/// in a repository.
pub fn verify_against_repository(
    result: &CapsuleResult,
    patch: &[u8],
    reads: &RepositoryReads,
) -> (r: std::result::Result<(), Error>)
    ensures
        error::outcome(r) == repository_check(result@, patch@, *reads),
{
    match &reads.repository {
        Err(e) => {
            return Err(e.clone());
        },
        Ok(_) => {},
    }
    match &reads.resolved {
        Err(e) => {
            return Err(
                Error::Verification(
                    text::cat4(
                        "pinned base ",
                        result.base_commit.as_str(),
                        " is not available in the repository: ",
                        e.message().as_str(),
                    ),
                ),
            );
        },
        Ok(commit) => {
            if !text::same_text(commit.as_str(), result.base_commit.as_str()) {
                return Err(
                    Error::Verification(
                        text::cat2(
                            "pinned base resolved to a different commit: ",
                            commit.as_str(),
                        ),
                    ),
                );
            }
        },
    }
    if result.kind == ResultKind::NoChange {
        return Ok(());
    }
    match &reads.scratch {
        Err(e) => {
            return Err(e.clone());
        },
        Ok(_) => {},
    }
    match &reads.preview {
        Err(e) => Err(fail_with("sealed patch does not apply to the base: ", e)),
        Ok(preview) => {
            if !bytes::same_bytes(preview.patch.as_slice(), patch) {
                return Err(fail("applying the sealed patch does not reproduce its exact bytes"));
            }
            if !record::same_rows(&preview.changed_paths, &result.changed_paths) {
                return Err(
                    fail(
                        "applying the sealed patch does not reproduce the sealed changed paths",
                    ),
                );
            }
            Ok(())
        },
    }
}

/// What the evidence requirements of a verification say.
pub open spec fn evidence_check(options: VerifyOptions, r: ResultView) -> std::result::Result<
    (),
    ErrorView,
> {
    if options.require_successful_evidence && !evidence::all_passed(r.evidence) {
        refused("successful evidence is required, but evidence is absent or contains failures"@)
    } else if options.require_current_successful_evidence && !evidence::some_current(
        r.evidence,
        r.patch_sha256,
    ) {
        refused(
            "current successful evidence is required, but no successful evidence is bound to the sealed patch"@,
        )
    } else if options.require_executed_evidence && !evidence::some_executed(
        r.evidence,
        r.patch_sha256,
    ) {
        refused(
            "executed evidence is required, but no passing command that was run is bound to the sealed patch"@,
        )
    } else {
        Ok(())
    }
}

/// Refuse a receipt whose evidence does not meet the requirements.
pub fn check_evidence(options: &VerifyOptions, result: &CapsuleResult) -> (r: std::result::Result<
    (),
    Error,
>)
    ensures
        error::outcome(r) == evidence_check(*options, result@),
{
    if options.require_successful_evidence && !evidence::every_passed(&result.evidence) {
        return Err(
            fail("successful evidence is required, but evidence is absent or contains failures"),
        );
    }
    if options.require_current_successful_evidence && !evidence::any_current(
        &result.evidence,
        result.patch_sha256.as_str(),
    ) {
        return Err(
            fail(
                "current successful evidence is required, but no successful evidence is bound to the sealed patch",
            ),
        );
    }
    if options.require_executed_evidence && !evidence::any_executed(
        &result.evidence,
        result.patch_sha256.as_str(),
    ) {
        return Err(
            fail(
                "executed evidence is required, but no passing command that was run is bound to the sealed patch",
            ),
        );
    }
    Ok(())
}

/// What a check of a decoded bundle on its own says.
pub open spec fn bundle_check(b: BundleView) -> std::result::Result<(), ErrorView> {
    if b.schema_version != BUNDLE_SCHEMA_VERSION {
        refused(
            "bundle schema version "@ + text::decimal(b.schema_version as nat)
                + " is not the supported version "@ + text::decimal(BUNDLE_SCHEMA_VERSION as nat),
        )
    } else if !validate::is_capsule_id(b.capsule_id) {
        refused("invalid bundle capsule id: "@ + b.capsule_id)
    } else {
        match single_of(b.artifacts, ArtifactKind::ResultManifest) {
            Err(e) => Err(e),
            Ok(manifest) => match single_of(b.artifacts, ArtifactKind::ResultPatch) {
                Err(e) => Err(e),
                Ok(patch) => if b.artifacts.len() != 2 {
                    refused("bundle must describe exactly two artifacts"@)
                } else if manifest.name != "result.json"@ || patch.name != "result.patch"@ {
                    refused("bundle artifact names must be result.json and result.patch"@)
                } else {
                    Ok(())
                },
            },
        }
    }
}

/// Refuse a bundle that does not name exactly the two expected artifacts.
pub fn check_bundle(bundle: &ArtifactBundle) -> (r: std::result::Result<(), Error>)
    ensures
        error::outcome(r) == bundle_check(bundle@),
{
    if bundle.schema_version != BUNDLE_SCHEMA_VERSION {
        return Err(
            Error::Verification(
                text::cat4(
                    "bundle schema version ",
                    text::decimal_text(bundle.schema_version as u64).as_str(),
                    " is not the supported version ",
                    text::decimal_text(BUNDLE_SCHEMA_VERSION as u64).as_str(),
                ),
            ),
        );
    }
    if !validate::valid_capsule_id(bundle.capsule_id.as_str()) {
        return Err(
            Error::Verification(
                text::cat2("invalid bundle capsule id: ", bundle.capsule_id.as_str()),
            ),
        );
    }
    let manifest = match single_descriptor(bundle, ArtifactKind::ResultManifest) {
        Err(e) => {
            return Err(e);
        },
        Ok(d) => d,
    };
    let patch = match single_descriptor(bundle, ArtifactKind::ResultPatch) {
        Err(e) => {
            return Err(e);
        },
        Ok(d) => d,
    };
    proof {
        assert(bundle@.artifacts.len() == bundle.artifacts@.len());
    }
    if bundle.artifacts.len() != 2 {
        return Err(fail("bundle must describe exactly two artifacts"));
    }
    if !text::same_text(manifest.name.as_str(), "result.json") || !text::same_text(
        patch.name.as_str(),
        "result.patch",
    ) {
        return Err(fail("bundle artifact names must be result.json and result.patch"));
    }
    Ok(())
}

/// What checking the three files of a receipt says, once `bundle.json` is read:
/// the first check that fails, in order.
pub open spec fn files_check(directory: Seq<u8>, receipt: Receipt) -> std::result::Result<
    (),
    ErrorView,
> {
    if receipt.bundle is Err {
        refused("bundle.json is not a valid bundle: "@ + receipt.bundle->Err_0@)
    } else {
        let b = receipt.bundle->Ok_0@;
        if bundle_check(b) is Err {
            bundle_check(b)
        } else if receipt.result_bytes is Err {
            refused(
                "cannot read result.json: "@ + error::message_of(receipt.result_bytes->Err_0@),
            )
        } else if receipt.patch is Err {
            refused("cannot read result.patch: "@ + error::message_of(receipt.patch->Err_0@))
        } else {
            let content = receipt.result_bytes->Ok_0@;
            let patch = receipt.patch->Ok_0@;
            let manifest_ok = descriptor_check(
                single_of(b.artifacts, ArtifactKind::ResultManifest)->Ok_0,
                content,
            );
            let patch_ok = descriptor_check(
                single_of(b.artifacts, ArtifactKind::ResultPatch)->Ok_0,
                patch,
            );
            let decoded = decode_check(
                store::below(directory, "result.json"@),
                content,
                receipt.result,
            );
            if manifest_ok is Err {
                manifest_ok
            } else if patch_ok is Err {
                patch_ok
            } else if decoded is Err {
                refused(
                    "result.json is not a valid sealed result: "@ + error::message_of(
                        decoded->Err_0,
                    ),
                )
            } else {
                consistency_check(b.capsule_id, receipt.result->Ok_0@, patch)
            }
        }
    }
}

/// What verifying a receipt says, once `bundle.json` is read.
pub open spec fn snapshot_check(
    directory: Seq<u8>,
    receipt: Receipt,
    options: VerifyOptions,
    reads: RepositoryReads,
) -> std::result::Result<(), ErrorView> {
    if files_check(directory, receipt) is Err {
        files_check(directory, receipt)
    } else {
        let r = receipt.result->Ok_0@;
        if evidence_check(options, r) is Err {
            evidence_check(options, r)
        } else if options.repository is Some {
            repository_check(r, receipt.patch->Ok_0@, reads)
        } else {
            Ok(())
        }
    }
}

/// What verifying a receipt says.
pub open spec fn receipt_check(
    directory: Seq<u8>,
    receipt: Receipt,
    options: VerifyOptions,
    reads: RepositoryReads,
) -> std::result::Result<(), ErrorView> {
    if receipt.bundle_bytes is Err {
        refused("cannot read bundle.json: "@ + error::message_of(receipt.bundle_bytes->Err_0@))
    } else {
        snapshot_check(directory, receipt, options, reads)
    }
}

/// Whether a report describes a verified result.
pub open spec fn reports(
    report: VerificationReport,
    directory: Seq<u8>,
    r: ResultView,
    repository_checked: bool,
    signature_authenticated: bool,
) -> bool {
    &&& report.bundle_directory@ == directory
    &&& report.capsule_id@ == r.capsule_id
    &&& report.kind == r.kind
    &&& report.base_commit@ == r.base_commit
    &&& report.head_commit@ == r.head_commit
    &&& report.patch_bytes == r.patch_bytes
    &&& report.patch_sha256@ == r.patch_sha256
    &&& report.changed_paths == r.changed_paths.len()
    &&& report.evidence_total == r.evidence.len()
    &&& report.evidence_failed == evidence::failed_of(r.evidence)
    &&& report.repository_checked == repository_checked
    &&& report.signature_authenticated == signature_authenticated
}

fn report_of(directory: &NativePath, result: &CapsuleResult, repository_checked: bool) -> (r:
    VerificationReport)
    ensures
        reports(r, directory@, result@, repository_checked, false),
{
    proof {
        assert(result@.changed_paths.len() == result.changed_paths@.len());
        assert(result@.evidence.len() == result.evidence@.len());
    }
    VerificationReport {
        bundle_directory: directory.clone(),
        capsule_id: result.capsule_id.clone(),
        kind: result.kind,
        base_commit: result.base_commit.clone(),
        head_commit: result.head_commit.clone(),
        patch_bytes: result.patch_bytes,
        patch_sha256: result.patch_sha256.clone(),
        changed_paths: result.changed_paths.len(),
        evidence_total: result.evidence.len(),
        evidence_failed: evidence::count_failed(&result.evidence),
        repository_checked,
        signature_authenticated: false,
    }
}

/// Verify a receipt and hand back the validated result alongside its report.
///
/// An attestation needs the decoded result, and must never be able to describe
/// a receipt that did not verify, so both come from this one checked path.
pub fn verify_bundle_snapshot_full(
    directory: &NativePath,
    receipt: Receipt,
    options: &VerifyOptions,
    reads: &RepositoryReads,
) -> (r: std::result::Result<(VerificationReport, CapsuleResult), Error>)
    ensures
        match snapshot_check(directory@, receipt, *options, *reads) {
            Ok(_) => r matches Ok(done) && receipt.result == Ok::<CapsuleResult, String>(done.1)
                && reports(done.0, directory@, done.1@, options.repository is Some, false),
            Err(e) => r matches Err(found) && found@ == e,
        },
{
    let bundle = match receipt.bundle {
        Err(m) => {
            return Err(
                Error::Verification(
                    text::cat2("bundle.json is not a valid bundle: ", m.as_str()),
                ),
            );
        },
        Ok(b) => b,
    };
    match check_bundle(&bundle) {
        Err(e) => {
            return Err(e);
        },
        Ok(_) => {},
    }
    let content = match receipt.result_bytes {
        Err(e) => {
            return Err(fail_with("cannot read result.json: ", &e));
        },
        Ok(b) => b,
    };
    let patch = match receipt.patch {
        Err(e) => {
            return Err(fail_with("cannot read result.patch: ", &e));
        },
        Ok(p) => p,
    };
    match single_descriptor(&bundle, ArtifactKind::ResultManifest) {
        Err(e) => {
            return Err(e);
        },
        Ok(d) => match check_descriptor(d, content.as_slice()) {
            Err(e) => {
                return Err(e);
            },
            Ok(_) => {},
        },
    }
    match single_descriptor(&bundle, ArtifactKind::ResultPatch) {
        Err(e) => {
            return Err(e);
        },
        Ok(d) => match check_descriptor(d, patch.as_slice()) {
            Err(e) => {
                return Err(e);
            },
            Ok(_) => {},
        },
    }
    let result = match decode_receipt_result(
        &directory.join("result.json"),
        content.as_slice(),
        receipt.result,
    ) {
        Err(e) => {
            return Err(fail_with("result.json is not a valid sealed result: ", &e));
        },
        Ok(r) => r,
    };
    match verify_result_consistency(&bundle, &result, patch.as_slice()) {
        Err(e) => {
            return Err(e);
        },
        Ok(_) => {},
    }
    match check_evidence(options, &result) {
        Err(e) => {
            return Err(e);
        },
        Ok(_) => {},
    }
    let repository_checked = options.repository.is_some();
    if repository_checked {
        match verify_against_repository(&result, patch.as_slice(), reads) {
            Err(e) => {
                return Err(e);
            },
            Ok(_) => {},
        }
    }
    let report = report_of(directory, &result, repository_checked);
    Ok((report, result))
}

/// Verify a receipt and return its validated sealed result.
pub fn verified_bundle_result(
    directory: &NativePath,
    receipt: Receipt,
    options: &VerifyOptions,
    reads: &RepositoryReads,
) -> (r: std::result::Result<(VerificationReport, CapsuleResult), Error>)
    ensures
        match receipt_check(directory@, receipt, *options, *reads) {
            Ok(_) => r matches Ok(done) && receipt.result == Ok::<CapsuleResult, String>(done.1)
                && reports(done.0, directory@, done.1@, options.repository is Some, false),
            Err(e) => r matches Err(found) && found@ == e,
        },
{
    match &receipt.bundle_bytes {
        Err(e) => {
            return Err(fail_with("cannot read bundle.json: ", e));
        },
        Ok(_) => {},
    }
    verify_bundle_snapshot_full(directory, receipt, options, reads)
}

/// Verify a receipt directory.
///
/// Checks, in order: that `bundle.json` is a supported bundle naming exactly
/// the two expected artifacts; that `result.json` and `result.patch` match
/// their descriptors' digests and byte counts; and that the sealed result is
/// consistent with itself and with the patch bytes. Then the evidence
/// requirements, and the repository where one is given.
pub fn verify_bundle(
    directory: &NativePath,
    receipt: Receipt,
    options: &VerifyOptions,
    reads: &RepositoryReads,
) -> (r: std::result::Result<VerificationReport, Error>)
    ensures
        match receipt_check(directory@, receipt, *options, *reads) {
            Ok(_) => r matches Ok(report) && reports(
                report,
                directory@,
                receipt.result->Ok_0@,
                options.repository is Some,
                false,
            ),
            Err(e) => r matches Err(found) && found@ == e,
        },
{
    match verified_bundle_result(directory, receipt, options, reads) {
        Err(e) => Err(e),
        Ok((report, _)) => Ok(report),
    }
}

/// What authenticating and verifying a receipt says: the signature of the
/// exact bundle bytes is checked before anything they say is looked at.
pub open spec fn authenticated_check(
    directory: Seq<u8>,
    receipt: Receipt,
    signature: Seq<u8>,
    trusted_public_key: Seq<u8>,
    options: VerifyOptions,
    reads: RepositoryReads,
) -> std::result::Result<(), ErrorView> {
    if receipt.bundle_bytes is Err {
        refused("cannot read bundle.json: "@ + error::message_of(receipt.bundle_bytes->Err_0@))
    } else if signature::signature_check(
        receipt.bundle_bytes->Ok_0@,
        signature,
        trusted_public_key,
    ) is Err {
        signature::signature_check(receipt.bundle_bytes->Ok_0@, signature, trusted_public_key)
    } else {
        snapshot_check(directory, receipt, options, reads)
    }
}

/// Authenticate one exact `bundle.json` byte snapshot, then verify its receipt.
///
/// The trusted public key is supplied out of band; key material inside a
/// receipt is never consulted.
pub fn verify_authenticated_bundle(
    directory: &NativePath,
    receipt: Receipt,
    signature: &[u8; 64],
    trusted_public_key: &[u8; 32],
    options: &VerifyOptions,
    reads: &RepositoryReads,
) -> (r: std::result::Result<VerificationReport, Error>)
    ensures
        match authenticated_check(
            directory@,
            receipt,
            signature@,
            trusted_public_key@,
            *options,
            *reads,
        ) {
            Ok(_) => r matches Ok(report) && reports(
                report,
                directory@,
                receipt.result->Ok_0@,
                options.repository is Some,
                true,
            ),
            Err(e) => r matches Err(found) && found@ == e,
        },
{
    match &receipt.bundle_bytes {
        Err(e) => {
            return Err(fail_with("cannot read bundle.json: ", e));
        },
        Ok(b) => match signature::verify_bundle_signature_bytes(
            b.as_slice(),
            signature,
            trusted_public_key,
        ) {
            Err(e) => {
                return Err(e);
            },
            Ok(_) => {},
        },
    }
    match verify_bundle_snapshot_full(directory, receipt, options, reads) {
        Err(e) => Err(e),
        Ok((report, _)) => {
            let mut authenticated = report;
            authenticated.signature_authenticated = true;
            Ok(authenticated)
        },
    }
}

/// A receipt that passes with executed evidence required holds a record of a
/// command that was run, passed, has a captured-output digest, and is bound to
/// the exact patch bytes in the receipt.
pub proof fn law_executed_gate_means_execution(
    directory: Seq<u8>,
    receipt: Receipt,
    options: VerifyOptions,
    reads: RepositoryReads,
)
    requires
        receipt_check(directory, receipt, options, reads) is Ok,
        options.require_executed_evidence,
    ensures
        exists|i: int|
            0 <= i < receipt.result->Ok_0@.evidence.len() && (
            #[trigger] receipt.result->Ok_0@.evidence[i]).executed
                && receipt.result->Ok_0@.evidence[i].exit_code == 0
                && receipt.result->Ok_0@.evidence[i].output_sha256 is Some
                && receipt.result->Ok_0@.evidence[i].patch_sha256 == digest::sha256_hex_of(
                receipt.patch->Ok_0@,
            ),
{
    let all = receipt.result->Ok_0@.evidence;
    let i = choose|i: int|
        0 <= i < all.len() && (#[trigger] all[i]).executed && evidence::passed_for(
            all[i],
            receipt.result->Ok_0@.patch_sha256,
        );
    assert(store::is_coherent(all[i]));
}

/// A receipt that passes binds its exact patch: the patch bytes have the sealed
/// digest and length, and both artifact descriptors match the bytes read.
pub proof fn law_verified_receipts_bind_their_bytes(
    directory: Seq<u8>,
    receipt: Receipt,
    options: VerifyOptions,
    reads: RepositoryReads,
)
    requires
        receipt_check(directory, receipt, options, reads) is Ok,
    ensures
        receipt.result->Ok_0@.patch_sha256 == digest::sha256_hex_of(receipt.patch->Ok_0@),
        receipt.result->Ok_0@.patch_bytes == receipt.patch->Ok_0@.len(),
        receipt.result->Ok_0@.capsule_id == receipt.bundle->Ok_0@.capsule_id,
        descriptor_check(
            single_of(
                receipt.bundle->Ok_0@.artifacts,
                ArtifactKind::ResultManifest,
            )->Ok_0,
            receipt.result_bytes->Ok_0@,
        ) is Ok,
        descriptor_check(
            single_of(receipt.bundle->Ok_0@.artifacts, ArtifactKind::ResultPatch)->Ok_0,
            receipt.patch->Ok_0@,
        ) is Ok,
{
}

/// Checking against a repository never accepts what plain verification
/// refuses, and what it accepts reproduces the sealed bytes and paths exactly.
pub proof fn law_repository_check_only_adds(
    directory: Seq<u8>,
    receipt: Receipt,
    options: VerifyOptions,
    reads: RepositoryReads,
)
    requires
        receipt_check(directory, receipt, options, reads) is Ok,
    ensures
        receipt_check(
            directory,
            receipt,
            (VerifyOptions { repository: None, ..options }),
            reads,
        ) is Ok,
        options.repository is Some && !(receipt.result->Ok_0@.kind is NoChange) ==> (
        reads.preview matches Ok(preview) && preview@.patch == receipt.patch->Ok_0@
            && preview@.changed_paths == receipt.result->Ok_0@.changed_paths),
        options.repository is Some ==> (reads.resolved matches Ok(commit) && commit@
            == receipt.result->Ok_0@.base_commit),
{
}

/// A forged execution flag fails every verification, not only a strict one: a
/// record marked executed without what execution yields is never accepted.
pub proof fn law_forged_execution_never_verifies(
    directory: Seq<u8>,
    receipt: Receipt,
    options: VerifyOptions,
    reads: RepositoryReads,
    i: int,
)
    requires
        receipt.result is Ok,
        0 <= i < receipt.result->Ok_0@.evidence.len(),
        receipt.result->Ok_0@.evidence[i].executed,
        receipt.result->Ok_0@.evidence[i].output_sha256 is None
            || receipt.result->Ok_0@.evidence[i].output_bytes is None,
    ensures
        receipt_check(directory, receipt, options, reads) is Err,
{
    assert(!store::is_coherent(receipt.result->Ok_0@.evidence[i]));
}

} // verus!
