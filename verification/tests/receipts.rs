//! Receipts: export, offline verification, signatures, and attestations.

use change_capsule::artifacts::{accept_answer, ArtifactSnapshot, StoredResult};
use change_capsule::attestation::ProofBoundary;
use change_capsule::close::{seal, CloseReads};
use change_capsule::execution::Execution;
use change_capsule::files::overwrite_error;
use change_capsule::git::{Repository, Snapshot, WorktreeRecord};
use change_capsule::inventory::InventoryRun;
use change_capsule::signature::{private_key_error, signature_from, signature_write_error};
use change_capsule::validate::project_key;
use change_capsule::verify::{Receipt, RepositoryReads};
use change_capsule::worktree::WorktreeInspection;
use change_capsule::{
    attest_bundle, bundle_signature_commitment, derive_public_key, generate_keypair, sign_bundle,
    sign_bundle_bytes, verify_authenticated_bundle, verify_bundle, verify_bundle_signature,
    verify_bundle_signature_bytes, ArtifactBundle, ArtifactDescriptor, ArtifactKind,
    ArtifactReader, ArtifactSink, Capsule, CapsuleManager, CapsuleResult, CapsuleState,
    CloseOptions, Error, EvidenceInput, GitPath, IoFault, Links, NativePath, ResultKind,
    VerifyOptions,
    CHANGE_PREDICATE_TYPE, IN_TOTO_STATEMENT_TYPE,
};
use sha2::{Digest, Sha256};

const BASE: &str = "1111111111111111111111111111111111111111";
const HEAD: &str = "2222222222222222222222222222222222222222";
const ID: &str = "cap-01hzy3v7q8r9s0t1u2v3w4x5y6";

fn path(text: &str) -> NativePath {
    NativePath::new(text)
}

fn manager() -> CapsuleManager {
    CapsuleManager::open(path("/state"))
}

fn repository() -> Repository {
    Repository {
        worktree: path("/repo"),
        common_dir: path("/repo/.git"),
        git_dir: path("/repo/.git"),
    }
}

fn io(fault: IoFault) -> Error {
    Error::Io { path: path("/somewhere"), fault, detail: "refused".to_owned() }
}

/// A capsule that is active in its own workspace.
fn active(id: &str) -> Capsule {
    let key = project_key(&path("/repo/.git")).expect("project key");
    let mut c = manager()
        .initial_capsule(
            id.to_owned(),
            Some("attempt".to_owned()),
            Links::single("task", "issue-42"),
            &repository(),
            key,
            BASE.to_owned(),
            10,
        )
        .expect("initial capsule");
    c.state = CapsuleState::Active;
    c.workspace_git_dir = Some(path("/repo/.git/worktrees/attempt"));
    c
}

/// What proves that a capsule owns its workspace at `head`.
fn owned(c: &Capsule, head: &str) -> WorktreeInspection {
    WorktreeInspection {
        repository: Ok(Repository {
            worktree: c.workspace_path.clone(),
            common_dir: path("/repo/.git"),
            git_dir: path("/repo/.git/worktrees/attempt"),
        }),
        canonical_workspace: Ok(c.workspace_path.clone()),
        branch: Ok(c.branch.clone()),
        registered: Ok(Some(WorktreeRecord {
            path: c.workspace_path.clone(),
            branch: Some(c.branch.clone()),
            head: Some(head.to_owned()),
            bare: false,
        })),
        head: Ok(head.to_owned()),
    }
}

fn change(patch: &[u8], paths: &[&str]) -> Snapshot {
    Snapshot {
        patch: patch.to_vec(),
        changed_paths: paths.iter().map(|p| GitPath::Utf8((*p).to_owned())).collect(),
    }
}

const RESULT_JSON: &[u8] = b"{\"schema_version\":5}";
const PATCH: &[u8] = b"diff --git a/tracked.txt b/tracked.txt\n";

/// An active capsule with one record: executed or claimed.
fn recorded(executed: bool, code: i32) -> Capsule {
    let c = active(ID);
    let inspection = owned(&c, HEAD);
    let (input, execution) = if executed {
        (
            EvidenceInput::run(vec!["cargo".to_owned(), "test".to_owned()]),
            Some(Execution::observe(b"out\n", b"err\n", Some(code), None).expect("observe")),
        )
    } else {
        (EvidenceInput::claim("cargo test", code).with_summary("all green"), None)
    };
    manager()
        .add_evidence(
            ID,
            input,
            execution,
            Ok(active(ID)),
            Ok(c),
            &inspection,
            Ok(change(PATCH, &["tracked.txt"])),
            30,
        )
        .expect("evidence")
        .capsule
}

fn sealed(executed: bool, code: i32) -> (Capsule, CapsuleResult) {
    let c = recorded(executed, code);
    let inspection = owned(&c, HEAD);
    let inventory = || InventoryRun::start(Vec::new()).finish();
    let pending = manager()
        .close(
            ID,
            CloseOptions::default(),
            Ok(recorded(executed, code)),
            Ok(c),
            &inspection,
            CloseReads {
                initial_ignored: Ok(inventory()),
                initial_snapshot: Ok(change(PATCH, &["tracked.txt"])),
                initial_head: Ok(HEAD.to_owned()),
                initial_clean: Ok(false),
                snapshot: Ok(change(PATCH, &["tracked.txt"])),
                head: Ok(HEAD.to_owned()),
                clean: Ok(false),
                ignored: Ok(inventory()),
            },
            50,
        )
        .expect("close");
    seal(pending, RESULT_JSON)
}

fn stored(executed: bool, code: i32) -> StoredResult {
    StoredResult {
        result: sealed(executed, code).1,
        content: RESULT_JSON.to_vec(),
        encoded: RESULT_JSON.to_vec(),
    }
}

fn snapshot(executed: bool, code: i32) -> Result<ArtifactSnapshot, Error> {
    manager().artifact_snapshot(
        ID,
        Ok(sealed(executed, code).0),
        Ok(stored(executed, code)),
        Ok(PATCH.to_vec()),
        &Ok(path("/")),
    )
}

fn exported(executed: bool, code: i32) -> ArtifactBundle {
    manager()
        .export_artifacts(
            snapshot(executed, code),
            &path("/receipt"),
            Ok(Some(path("/receipt"))),
        )
        .expect("export")
        .report
        .bundle
}

fn receipt(executed: bool, code: i32) -> Receipt {
    Receipt {
        bundle_bytes: Ok(b"{\"schema_version\":1}".to_vec()),
        bundle: Ok(exported(executed, code)),
        result_bytes: Ok(RESULT_JSON.to_vec()),
        patch: Ok(PATCH.to_vec()),
        result: Ok(sealed(executed, code).1),
    }
}

fn reproduces() -> RepositoryReads {
    RepositoryReads {
        repository: Ok(repository()),
        resolved: Ok(BASE.to_owned()),
        scratch: Ok(()),
        preview: Ok(change(PATCH, &["tracked.txt"])),
    }
}

fn verify(receipt: Receipt, options: &VerifyOptions) -> Result<change_capsule::VerificationReport, Error> {
    verify_bundle(&path("/receipt"), receipt, options, &reproduces())
}

#[test]
fn exported_bundles_verify_offline_and_detect_tampering() {
    let report = verify(receipt(true, 0), &VerifyOptions::integrity()).expect("verify");
    assert_eq!(report.capsule_id, ID);
    assert_eq!(report.patch_bytes, PATCH.len() as u64);
    assert_eq!(report.changed_paths, 1);
    assert_eq!(report.evidence_total, 1);
    assert_eq!(report.evidence_failed, 0);
    assert!(!report.repository_checked);
    assert!(!report.signature_authenticated);

    let mut patched = receipt(true, 0);
    patched.patch = Ok(b"forged".to_vec());
    assert!(matches!(
        verify(patched, &VerifyOptions::integrity()),
        Err(Error::Verification(_))
    ));
    let mut rewritten = receipt(true, 0);
    rewritten.result_bytes = Ok(b"{\"schema_version\":5,\"x\":1}".to_vec());
    assert!(matches!(
        verify(rewritten, &VerifyOptions::integrity()),
        Err(Error::Verification(_))
    ));
    let mut renamed = receipt(true, 0);
    if let Ok(bundle) = renamed.bundle.as_mut() {
        bundle.capsule_id = "cap-01hzy3v7q8r9s0t1u2v3w4x5y7".to_owned();
    }
    assert!(matches!(
        verify(renamed, &VerifyOptions::integrity()),
        Err(Error::Verification(_))
    ));
    let mut undecodable = receipt(true, 0);
    undecodable.bundle = Err("expected value".to_owned());
    assert!(verify(undecodable, &VerifyOptions::integrity()).is_err());
}

#[test]
fn verification_confirms_the_patch_reproduces_exactly_against_the_base() {
    let options = VerifyOptions::integrity().with_repository(path("/repo"));
    let report = verify(receipt(true, 0), &options).expect("verify");
    assert!(report.repository_checked);
    let mut other = reproduces();
    other.preview = Ok(change(b"another patch", &["tracked.txt"]));
    assert!(matches!(
        verify_bundle(&path("/receipt"), receipt(true, 0), &options, &other),
        Err(Error::Verification(_))
    ));
    let mut elsewhere = reproduces();
    elsewhere.resolved = Err(Error::InvalidInput("unknown revision".to_owned()));
    assert!(verify_bundle(&path("/receipt"), receipt(true, 0), &options, &elsewhere).is_err());
}

#[test]
fn exported_receipts_carry_no_trace_of_the_exporting_machine() {
    let bundle = exported(true, 0);
    for descriptor in &bundle.artifacts {
        assert_eq!(descriptor.uri, descriptor.name);
        assert!(!descriptor.uri.contains('/'));
    }
    let local = snapshot(true, 0).expect("snapshot").bundle;
    assert!(local.artifacts.iter().all(|d| d.uri.starts_with("file:///state/capsules/")));
    assert_eq!(local.artifacts[0].name, "result.json");
    assert_eq!(local.artifacts[1].name, "result.patch");
    assert_eq!(
        local.artifacts[1].content_address,
        format!("sha256:{}", change_capsule::digest::sha256_hex(PATCH))
    );
}

#[test]
fn exports_stay_outside_managed_state() {
    assert!(matches!(
        manager().export_artifacts(
            snapshot(true, 0),
            &path("/state/capsules/x"),
            Ok(Some(path("/state/capsules/x")))
        ),
        Err(Error::InvalidInput(message)) if message.contains("outside managed state")
    ));
    assert!(matches!(
        manager().export_artifacts(snapshot(true, 0), &path("/"), Ok(None)),
        Err(Error::InvalidInput(message)) if message.contains("must name a new directory")
    ));
    assert!(matches!(
        manager().artifact_snapshot(
            ID,
            Ok(active(ID)),
            Ok(stored(true, 0)),
            Ok(PATCH.to_vec()),
            &Ok(path("/"))
        ),
        Err(Error::InvalidState { .. })
    ));
}

struct Memory {
    kept: Vec<(String, Vec<u8>)>,
    refuse: bool,
}

impl ArtifactSink for Memory {
    fn put(
        &mut self,
        descriptor: &ArtifactDescriptor,
        source: &mut ArtifactReader,
    ) -> Result<String, Error> {
        if self.refuse {
            return Err(Error::InvalidInput("sink is closed".to_owned()));
        }
        let mut all = Vec::new();
        loop {
            let chunk = source.read(7);
            if chunk.is_empty() {
                break;
            }
            all.extend_from_slice(&chunk);
        }
        self.kept.push((descriptor.name.clone(), all));
        Ok(format!("memory:{}", descriptor.name))
    }
}

#[test]
fn sealed_artifacts_support_discovery_streaming_publication_and_export() {
    let bundle = manager()
        .artifacts(
            ID,
            Ok(sealed(true, 0).0),
            Ok(stored(true, 0)),
            Ok(PATCH.to_vec()),
            &Ok(path("/")),
        )
        .expect("artifacts");
    assert_eq!(bundle.artifacts.len(), 2);
    let mut reader = manager()
        .open_artifact(snapshot(true, 0), ArtifactKind::ResultPatch)
        .expect("open");
    assert_eq!(reader.read(4096), PATCH.to_vec());
    assert!(reader.read(1).is_empty());

    let mut sink = Memory { kept: Vec::new(), refuse: false };
    let published = manager()
        .publish_artifacts(snapshot(true, 0), &mut sink)
        .expect("publish");
    assert_eq!(published.len(), 2);
    assert_eq!(published[0].uri, "memory:result.json");
    assert_eq!(published[1].uri, "memory:result.patch");
    assert_eq!(sink.kept[0].1, RESULT_JSON.to_vec());
    assert_eq!(sink.kept[1].1, PATCH.to_vec());

    let mut closed = Memory { kept: Vec::new(), refuse: true };
    assert!(manager().publish_artifacts(snapshot(true, 0), &mut closed).is_err());
}

#[test]
fn receipts_carry_the_execution_distinction_to_an_offline_verifier() {
    let weaker = VerifyOptions::requiring(true, true, false).with_repository(path("/repo"));
    verify(receipt(false, 0), &weaker).expect("claimed receipt at the weaker level");
    verify(receipt(true, 0), &weaker).expect("executed receipt at the weaker level");

    let strict = VerifyOptions::strict(path("/repo"));
    let error = verify(receipt(false, 0), &strict).expect_err("claim-only");
    assert!(
        matches!(&error, Error::Verification(message) if message.contains("executed evidence")),
        "{error:?}"
    );
    verify(receipt(true, 0), &strict).expect("an executed receipt passes a strict gate");
    assert!(verify(receipt(true, 2), &strict).is_err(), "a failing run is no proof");
}

#[test]
fn a_forged_executed_flag_cannot_pass_a_strict_gate() {
    let mut forged = receipt(false, 0);
    if let Ok(result) = forged.result.as_mut() {
        for record in result.evidence.iter_mut() {
            record.executed = true;
        }
    }
    let error = verify(forged, &VerifyOptions::strict(path("/repo"))).expect_err("forged");
    assert!(
        matches!(&error, Error::Verification(message) if message.contains("captured-output digest")),
        "{error:?}"
    );
    let mut again = receipt(false, 0);
    if let Ok(result) = again.result.as_mut() {
        result.evidence[0].executed = true;
    }
    verify(again, &VerifyOptions::integrity()).expect_err("incoherent at any level");
}

#[test]
fn current_result_requires_ignored_digest_and_canonical_lowercase_hashes() {
    let mut absent = receipt(true, 0);
    if let Ok(result) = absent.result.as_mut() {
        result.ignored_content_sha256 = None;
    }
    assert!(verify(absent, &VerifyOptions::integrity()).is_err());
    let mut upper = receipt(true, 0);
    if let Ok(result) = upper.result.as_mut() {
        result.patch_sha256 = result.patch_sha256.to_uppercase();
    }
    assert!(verify(upper, &VerifyOptions::integrity()).is_err());
}

fn lowercase_hex(value: &str) -> bool {
    !value.is_empty() && value.chars().all(|c| c.is_ascii_digit() || ('a'..='f').contains(&c))
}

#[test]
fn statement_conforms_to_in_toto_v1() {
    let statement = attest_bundle(
        &path("/receipt"),
        receipt(false, 0),
        &VerifyOptions::requiring(false, false, false),
        &reproduces(),
    )
    .expect("attest");
    assert_eq!(statement.statement_type, IN_TOTO_STATEMENT_TYPE);
    assert_eq!(statement.statement_type, "https://in-toto.io/Statement/v1");
    assert_eq!(statement.predicate_type, CHANGE_PREDICATE_TYPE);
    assert!(!statement.subject.is_empty());
    for entry in &statement.subject {
        assert!(entry.digest.len() > 0, "each subject MUST set digest");
        for i in 0..entry.digest.len() {
            let encoded = entry.digest.value(i);
            assert!(lowercase_hex(encoded), "{} must be lowercase hex", entry.digest.key(i));
            match entry.digest.key(i) {
                "sha256" => assert_eq!(encoded.len(), 64),
                "gitCommit" => assert!(matches!(encoded.len(), 40 | 64)),
                other => panic!("unexpected digest algorithm {other}"),
            }
        }
    }
}

#[test]
fn statement_is_deterministic_and_regenerable_from_the_receipt_alone() {
    let attest = || {
        attest_bundle(
            &path("/receipt"),
            receipt(false, 0),
            &VerifyOptions::requiring(false, false, false),
            &reproduces(),
        )
        .expect("attest")
    };
    assert_eq!(attest(), attest(), "attestation must be a pure function of the receipt");
}

#[test]
fn attestation_refuses_to_launder_a_tampered_receipt() {
    let mut tampered = receipt(false, 0);
    tampered.patch = Ok([PATCH, b"\n# injected\n"].concat());
    assert!(attest_bundle(
        &path("/receipt"),
        tampered,
        &VerifyOptions::requiring(false, false, false),
        &reproduces(),
    )
    .is_err());
}

#[test]
fn evidence_is_labelled_as_unexecuted_and_bound_only_when_it_really_is() {
    let statement = attest_bundle(
        &path("/receipt"),
        receipt(false, 0),
        &VerifyOptions::requiring(false, false, false),
        &reproduces(),
    )
    .expect("attest");
    let claims = &statement.predicate.evidence;
    assert_eq!(claims.len(), 1);
    let claim = &claims[0];
    assert_eq!(claim.command, "cargo test");
    assert_eq!(claim.exit_code, 0);
    assert!(!claim.executed);
    assert!(claim.output_sha256.is_none());
    assert!(claim.current_for_sealed_patch);
    assert_eq!(
        Some(claim.bound_patch_sha256.as_str()),
        statement.subject[0].digest.get("sha256")
    );
    let boundary = &statement.predicate.proof_boundary;
    assert!(boundary.proves.iter().any(|p| p == "patch-applies-to-pinned-base"));
    assert!(boundary.does_not_prove.iter().any(|p| p == "evidence-command-actually-ran"));
    assert!(boundary.does_not_prove.iter().any(|p| p == "human-or-agent-authorship"));
}

#[test]
fn repository_bound_attestation_matches_the_verified_base() {
    let options =
        VerifyOptions::requiring(false, false, false).with_repository(path("/repo"));
    let statement =
        attest_bundle(&path("/receipt"), receipt(false, 0), &options, &reproduces())
            .expect("attest against repository");
    assert_eq!(statement.predicate.base_commit, BASE);
}

#[test]
fn attestation_widens_its_proof_boundary_only_for_executed_evidence() {
    let statement = attest_bundle(
        &path("/receipt"),
        receipt(true, 0),
        &VerifyOptions::strict(path("/repo")),
        &reproduces(),
    )
    .expect("attest");
    let boundary = &statement.predicate.proof_boundary;
    assert!(boundary.proves.iter().any(|p| p == "executed-evidence-ran-in-capsule-workspace"));
    assert!(!boundary.does_not_prove.iter().any(|p| p == "evidence-command-actually-ran"));
    assert!(boundary.does_not_prove.iter().any(|p| p == "producing-host-was-uncompromised"));
    assert!(statement.predicate.evidence.iter().all(|item| item.executed));
    assert_eq!(ProofBoundary::for_receipt(false).does_not_prove.len(), 5);
}

#[test]
fn detached_signature_covers_exact_bundle_bytes_and_requires_trusted_key() {
    let seed = [7_u8; 32];
    let public = derive_public_key(&seed);
    assert_ne!(public, seed);
    let bundle = b"{\"schema_version\":1}".to_vec();
    let signature = sign_bundle(Ok(bundle.clone()), &seed).expect("sign");
    assert!(verify_bundle_signature(Ok(bundle.clone()), Ok(signature.to_vec()), &public).is_ok());
    assert!(matches!(
        verify_bundle_signature(Ok(b"{\"schema_version\":1} ".to_vec()), Ok(signature.to_vec()), &public),
        Err(Error::Verification(message)) if message == "bundle signature is invalid"
    ));
    let other = derive_public_key(&[8_u8; 32]);
    assert!(matches!(
        verify_bundle_signature(Ok(bundle.clone()), Ok(signature.to_vec()), &other),
        Err(Error::Verification(message)) if message == "bundle signature is invalid"
    ));
    assert!(matches!(
        verify_bundle_signature(Ok(bundle.clone()), Ok(signature[..63].to_vec()), &public),
        Err(Error::Verification(message)) if message.contains("exactly 64 raw bytes")
    ));
    assert!(matches!(
        verify_bundle_signature(Ok(bundle), Err(io(IoFault::NotFound)), &public),
        Err(Error::Verification(message)) if message.starts_with("cannot read signature: ")
    ));
    let no_point = {
        let mut key = [0xff_u8; 32];
        key[0] = 0xee;
        key
    };
    assert!(matches!(
        verify_bundle_signature_bytes(b"x", &signature, &no_point),
        Err(Error::Verification(_))
    ));
}

#[test]
fn signatures_match_the_published_test_vector() {
    // RFC 8032, section 7.1, TEST 1: the key of the all-known seed.
    let seed: [u8; 32] = hex::decode(
        "9d61b19deffd5a60ba844af492ec2cc44449c5697b326919703bac031cae7f60",
    )
    .expect("hex")
    .try_into()
    .expect("32 bytes");
    assert_eq!(
        hex::encode(derive_public_key(&seed)),
        "d75a980182b10ab7d54bfed3c964073a0ee172f3daa62325af021a68f707511a"
    );
    let signed = sign_bundle_bytes(b"bundle", &seed);
    assert_eq!(signature_from(&signed.to_vec()), Some(signed));
    assert_ne!(bundle_signature_commitment(b"bundle"), bundle_signature_commitment(b"bundle\n"));
    assert!(verify_bundle_signature_bytes(b"bundle", &signed, &derive_public_key(&seed)).is_ok());
}

#[test]
fn generated_keys_match_and_are_fresh() {
    let first = generate_keypair().expect("first");
    let second = generate_keypair().expect("second");
    assert_eq!(derive_public_key(first.private_seed()), first.public_key());
    assert_ne!(first.private_seed(), second.private_seed());
    let mut third = generate_keypair().expect("third");
    third.erase();
    assert_eq!(third.private_seed(), &[0_u8; 32]);
    assert!(matches!(
        change_capsule::signature::keypair_from(Err("no entropy".to_owned())),
        Err(_)
    ));
}

#[test]
fn authenticated_verification_cannot_combine_different_bundle_snapshots() {
    let seed = [7_u8; 32];
    let public = derive_public_key(&seed);
    let signature = sign_bundle_bytes(b"{\"schema_version\":1}", &seed);
    let report = verify_authenticated_bundle(
        &path("/receipt"),
        receipt(true, 0),
        &signature,
        &public,
        &VerifyOptions::integrity(),
        &reproduces(),
    )
    .expect("authenticated");
    assert!(report.signature_authenticated);
    let mut swapped = receipt(true, 0);
    swapped.bundle_bytes = Ok(b"{\"schema_version\":1}\n".to_vec());
    assert!(matches!(
        verify_authenticated_bundle(
            &path("/receipt"),
            swapped,
            &signature,
            &public,
            &VerifyOptions::integrity(),
            &reproduces(),
        ),
        Err(Error::Verification(_))
    ));
}

#[test]
fn artifact_publication_uses_one_validated_byte_snapshot() {
    let mut sink = Memory { kept: Vec::new(), refuse: false };
    let published = manager()
        .publish_artifacts(snapshot(true, 0), &mut sink)
        .expect("publish validated snapshot");
    assert_eq!(published.len(), sink.kept.len());
    for (published, (name, bytes)) in published.iter().zip(&sink.kept) {
        assert_eq!(&published.descriptor.name, name);
        assert_eq!(published.descriptor.bytes, bytes.len() as u64);
        assert_eq!(published.descriptor.sha256, hex::encode(Sha256::digest(bytes)));
    }
    // The files changed afterwards: what was published did not, and the capsule
    // reports the drift.
    assert!(matches!(
        manager().result(
            ID,
            Ok(sealed(true, 0).0),
            Ok(stored(true, 0)),
            Ok(b"mutated after snapshot".to_vec())
        ),
        Err(Error::ResultDrift(id)) if id == ID
    ));
}

#[test]
fn keygen_reports_partial_publication_and_sign_never_overwrites() {
    let taken = Error::Io {
        path: path("/keys/existing.seed"),
        fault: IoFault::AlreadyExists,
        detail: "file exists".to_owned(),
    };
    let refused = overwrite_error(&path("/keys/existing.seed"), "key", taken.clone());
    let reported =
        private_key_error(&path("/keys/published.key"), &path("/keys/existing.seed"), &refused);
    assert!(reported.message().contains("/keys/published.key"), "{reported:?}");
    assert_eq!(
        signature_write_error(&path("/existing.sig"), taken),
        Error::InvalidInput("refusing to overwrite signature file: /existing.sig".to_owned())
    );
    assert_eq!(
        signature_write_error(&path("/existing.sig"), io(IoFault::Other)),
        io(IoFault::Other)
    );
}

/// A sink that takes a number of artifacts and refuses every later one.
struct Limited {
    left: usize,
    calls: usize,
}

impl ArtifactSink for Limited {
    fn put(
        &mut self,
        descriptor: &ArtifactDescriptor,
        _source: &mut ArtifactReader,
    ) -> Result<String, Error> {
        self.calls += 1;
        if self.left == 0 {
            return Err(Error::InvalidInput(format!("no room for {}", descriptor.name)));
        }
        self.left -= 1;
        Ok(format!("limited:{}", self.calls))
    }
}

#[test]
fn publication_stops_at_the_first_refusal() {
    let mut none = Limited { left: 0, calls: 0 };
    assert_eq!(
        manager().publish_artifacts(snapshot(true, 0), &mut none),
        Err(Error::InvalidInput("no room for result.json".to_owned()))
    );
    assert_eq!(none.calls, 1);
    let mut one = Limited { left: 1, calls: 0 };
    assert_eq!(
        manager().publish_artifacts(snapshot(true, 0), &mut one),
        Err(Error::InvalidInput("no room for result.patch".to_owned()))
    );
    assert_eq!(one.calls, 2);
    let mut both = Limited { left: 2, calls: 0 };
    let published = manager().publish_artifacts(snapshot(true, 0), &mut both).expect("publish");
    assert_eq!(published[0].uri, "limited:1");
    assert_eq!(published[1].uri, "limited:2");
    assert_eq!(both.calls, 2);
    let mut unused = Limited { left: 2, calls: 0 };
    assert_eq!(
        manager().publish_artifacts(Err(io(IoFault::Other)), &mut unused),
        Err(io(IoFault::Other))
    );
    assert_eq!(unused.calls, 0);
}

#[test]
fn a_sink_answers_for_one_artifact_at_a_time() {
    let first = || exported(true, 0).artifacts.remove(0);
    let kept = accept_answer(Vec::new(), first(), Ok("memory:1".to_owned())).expect("accepted");
    assert_eq!(kept.len(), 1);
    assert_eq!(kept[0].uri, "memory:1");
    assert_eq!(kept[0].descriptor, first());
    assert_eq!(
        accept_answer(kept, first(), Err(Error::InvalidInput("full".to_owned()))),
        Err(Error::InvalidInput("full".to_owned()))
    );
}

#[test]
fn verification_asks_for_integrity_alone_by_default() {
    assert_eq!(VerifyOptions::default(), VerifyOptions::integrity());
    let report = verify(receipt(true, 0), &VerifyOptions::default()).expect("verify");
    assert_eq!(report.capsule_id, ID);
    assert_eq!(report.kind, ResultKind::Patch);
    assert_eq!(report.base_commit, BASE);
    assert_eq!(report.head_commit, HEAD);
    assert_eq!(report.patch_bytes, PATCH.len() as u64);
    assert_eq!(report.patch_sha256, hex::encode(Sha256::digest(PATCH)));
    assert_eq!(report.changed_paths, 1);
    assert_eq!(report.evidence_total, 1);
    assert!(!report.repository_checked);
}

#[test]
fn signatures_of_another_length_are_refused() {
    let seed = [9_u8; 32];
    let bundle = b"{\"schema_version\":1}".to_vec();
    let mut raw = sign_bundle(Ok(bundle.clone()), &seed).expect("sign").to_vec();
    assert!(verify_bundle_signature(Ok(bundle.clone()), Ok(raw.clone()), &derive_public_key(&seed))
        .is_ok());
    raw.push(0);
    for wrong in [raw, Vec::new()] {
        assert_eq!(
            verify_bundle_signature(Ok(bundle.clone()), Ok(wrong), &derive_public_key(&seed)),
            Err(Error::Verification(
                "signature file must contain exactly 64 raw bytes".to_owned()
            ))
        );
    }
}
