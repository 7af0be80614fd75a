//! The layout of durable state and the checks every stored record must pass.

use vstd::prelude::*;
use vstd::string::*;
use vstd::utf8::*;

use crate::error::{Error, ErrorView};
use crate::model::{
    Capsule, CapsuleResult, CapsuleState, Evidence, EvidenceView, ResultRef, SCHEMA_VERSION,
};
use crate::order::Ordered;
use crate::paths::NativePath;
use crate::{bytes, error, git_path, idempotency, paths, text, validate};

verus! {

/// Largest stored JSON document in bytes.
pub const JSON_CAP: u64 = 1048576;

/// Largest stored patch in bytes.
pub const PATCH_CAP: u64 = 67108864;

/// The number under a field of a JSON document, where the document is one;
/// otherwise why it is not.
pub uninterp spec fn json_number_of(document: Seq<u8>, field: Seq<char>) -> std::result::Result<
    Option<u64>,
    Seq<char>,
>;

/// `serde_json::from_slice` into a `serde_json::Value`, with the unsigned
/// number that its `get` and `as_u64` find under `field`; where the bytes are
/// not JSON, the decoder's message. A function of the bytes and the field name.
#[verifier::external_body]
pub(crate) fn json_number(document: &[u8], field: &str) -> (r: std::result::Result<
    Option<u64>,
    String,
>)
    ensures
        match json_number_of(document@, field@) {
            Ok(n) => r == Ok::<Option<u64>, String>(n),
            Err(m) => r matches Err(found) && found@ == m,
        },
{
    match serde_json::from_slice::<serde_json::Value>(document) {
        Ok(value) => Ok(value.get(field).and_then(serde_json::Value::as_u64)),
        Err(error) => Err(error.to_string()),
    }
}

/// The text under a field of a JSON document, where the document is one and
/// holds a text there.
pub uninterp spec fn json_text_of(document: Seq<u8>, field: Seq<char>) -> Option<Seq<char>>;

/// `serde_json::from_slice` into a `serde_json::Value`, with the text that its
/// `get` and `as_str` find under `field`. A function of the bytes and the field
/// name.
#[verifier::external_body]
pub(crate) fn json_text(document: &[u8], field: &str) -> (r: Option<String>)
    ensures
        text::opt_view(r) == json_text_of(document@, field@),
{
    match serde_json::from_slice::<serde_json::Value>(document) {
        Ok(value) => value.get(field).and_then(serde_json::Value::as_str).map(str::to_owned),
        Err(_) => None,
    }
}

/// A version number, where it fits 32 bits.
pub open spec fn version_of(n: Option<u64>) -> Option<u32> {
    match n {
        Some(v) => if v <= u32::MAX {
            Some(v as u32)
        } else {
            None
        },
        None => None,
    }
}

fn version(n: Option<u64>) -> (r: Option<u32>)
    ensures
        r == version_of(n),
{
    match n {
        Some(v) => if v <= u32::MAX as u64 {
            Some(v as u32)
        } else {
            None
        },
        None => None,
    }
}

/// The schema version that a JSON document declares, where the document is
/// JSON and declares one that fits; otherwise why it is not JSON.
pub fn declared_version(document: &[u8]) -> (r: std::result::Result<Option<u32>, String>)
    ensures
        match json_number_of(document@, "schema_version"@) {
            Ok(n) => r == Ok::<Option<u32>, String>(version_of(n)),
            Err(m) => r matches Err(found) && found@ == m,
        },
{
    match json_number(document, "schema_version") {
        Ok(n) => Ok(version(n)),
        Err(m) => Err(m),
    }
}

/// What the version check of a stored document says, given what was declared.
pub open spec fn versioned_check(
    path: Seq<u8>,
    declared: std::result::Result<Option<u32>, Seq<char>>,
) -> std::result::Result<(), ErrorView> {
    match declared {
        Err(m) => Err(ErrorView::Json { path, detail: m }),
        Ok(None) => Err(
            ErrorView::UnsafeState(
                "state JSON has no valid schema_version: "@ + paths::display_of(path),
            ),
        ),
        Ok(Some(found)) => if found == SCHEMA_VERSION {
            Ok(())
        } else {
            Err(ErrorView::SchemaVersion { found, supported: SCHEMA_VERSION })
        },
    }
}

/// Decide on a stored document by the schema version it declared.
pub fn check_declared_version(
    path: &NativePath,
    declared: std::result::Result<Option<u32>, String>,
) -> (r: std::result::Result<(), Error>)
    ensures
        error::outcome(r) == versioned_check(
            path@,
            match declared {
                Ok(v) => Ok(v),
                Err(m) => Err(m@),
            },
        ),
{
    match declared {
        Err(m) => Err(Error::Json { path: path.clone(), detail: m }),
        Ok(None) => Err(
            Error::UnsafeState(
                text::cat2(
                    "state JSON has no valid schema_version: ",
                    path.display().as_str(),
                ),
            ),
        ),
        Ok(Some(found)) => if found == SCHEMA_VERSION {
            Ok(())
        } else {
            Err(Error::SchemaVersion { found, supported: SCHEMA_VERSION })
        },
    }
}

/// Accept a stored document only if it is JSON that declares the supported
/// schema version; its content is decoded afterwards.
pub fn decode_versioned_json(path: &NativePath, document: &[u8]) -> (r: std::result::Result<
    (),
    Error,
>)
    ensures
        error::outcome(r) == versioned_check(
            path@,
            match json_number_of(document@, "schema_version"@) {
                Ok(n) => Ok(version_of(n)),
                Err(m) => Err(m),
            },
        ),
{
    check_declared_version(path, declared_version(document))
}

/// Whether one evidence record is coherent: running a command is what yields
/// an output digest and byte count, so exactly the executed records have them.
pub open spec fn is_coherent(e: EvidenceView) -> bool {
    &&& validate::is_sha256(e.patch_sha256)
    &&& e.output_sha256 matches Some(d) ==> validate::is_sha256(d)
    &&& e.executed ==> e.output_sha256 is Some && e.output_bytes is Some
    &&& !e.executed ==> e.output_sha256 is None && e.output_bytes is None
}

/// Test for the opposite of [`is_coherent`].
pub fn invalid_evidence(evidence: &Evidence) -> (r: bool)
    ensures
        r == !is_coherent(evidence@),
{
    let digest_shaped = match &evidence.output_sha256 {
        Some(d) => validate::valid_sha256(d.as_str()),
        None => true,
    };
    !validate::valid_sha256(evidence.patch_sha256.as_str()) || !digest_shaped || (
    evidence.executed && (evidence.output_sha256.is_none() || evidence.output_bytes.is_none())) || (
    !evidence.executed && (evidence.output_sha256.is_some() || evidence.output_bytes.is_some()))
}

/// Whether every evidence record of a row is coherent.
pub open spec fn all_coherent(evidence: Seq<Evidence>) -> bool {
    forall|i: int| 0 <= i < evidence.len() ==> is_coherent((#[trigger] evidence[i])@)
}

/// Test for [`all_coherent`].
pub fn evidence_coherent(evidence: &Vec<Evidence>) -> (r: bool)
    ensures
        r == all_coherent(evidence@),
{
    let mut i: usize = 0;
    while i < evidence.len()
        invariant
            i <= evidence.len(),
            forall|j: int| 0 <= j < i ==> is_coherent((#[trigger] evidence@[j])@),
        decreases evidence.len() - i,
    {
        if invalid_evidence(&evidence[i]) {
            return false;
        }
        i += 1;
    }
    true
}

/// A record that claims execution without the output digest or byte count
/// that execution yields is never accepted.
pub proof fn law_forged_execution_is_incoherent(e: EvidenceView)
    requires
        e.executed,
        e.output_sha256 is None || e.output_bytes is None,
    ensures
        !is_coherent(e),
{
}

/// Whether a seal is well-formed.
pub open spec fn is_result_ref(r: ResultRef) -> bool {
    &&& validate::is_object_id(r.head_commit@)
    &&& validate::is_sha256(r.patch_sha256@)
    &&& validate::is_sha256(r.result_sha256@)
    &&& r.patch_bytes <= PATCH_CAP
}

/// Test for [`is_result_ref`].
pub fn valid_result_ref(r: &ResultRef) -> (ok: bool)
    ensures
        ok == is_result_ref(*r),
{
    validate::valid_object_id(r.head_commit.as_str()) && validate::valid_sha256(
        r.patch_sha256.as_str(),
    ) && validate::valid_sha256(r.result_sha256.as_str()) && r.patch_bytes <= PATCH_CAP
}

/// Whether a state implies that the workspace's Git directory is known.
pub open spec fn needs_git_dir(state: CapsuleState) -> bool {
    state is Active || state is Checkpointing || state is Closed || state is Integrating
        || state is Integrated
}

/// Whether the journals of a capsule agree with its state.
pub open spec fn journals_consistent(c: Capsule) -> bool {
    &&& if c.checkpoint is Some {
        c.state is Checkpointing || c.state is Dropping
    } else {
        !(c.state is Checkpointing)
    }
    &&& if c.integration is Some {
        c.state is Integrating || c.state is Integrated || c.state is Dropping || c.state is Dropped
    } else {
        !(c.state is Integrating) && !(c.state is Integrated)
    }
    &&& c.state is Dropping <==> c.cleanup is Some
}

/// Test for [`journals_consistent`].
pub fn lifecycle_journals_consistent(c: &Capsule) -> (r: bool)
    ensures
        r == journals_consistent(*c),
{
    let checkpoint_consistent = if c.checkpoint.is_some() {
        c.state == CapsuleState::Checkpointing || c.state == CapsuleState::Dropping
    } else {
        c.state != CapsuleState::Checkpointing
    };
    let integration_consistent = if c.integration.is_some() {
        c.state == CapsuleState::Integrating || c.state == CapsuleState::Integrated || c.state
            == CapsuleState::Dropping || c.state == CapsuleState::Dropped
    } else {
        c.state != CapsuleState::Integrating && c.state != CapsuleState::Integrated
    };
    let cleanup_consistent = (c.state == CapsuleState::Dropping) == c.cleanup.is_some();
    checkpoint_consistent && integration_consistent && cleanup_consistent
}

/// Whether the integration journal of a capsule is well-formed.
pub open spec fn integration_shaped(c: Capsule) -> bool {
    c.integration matches Some(i) ==> {
        &&& paths::is_absolute(i.target_worktree@)
        &&& paths::is_absolute(i.target_git_dir@)
        &&& validate::is_head_ref(i.target_head_ref@)
        &&& validate::is_object_id(i.target_head_before@)
        &&& i.target_head_after matches Some(h) ==> validate::is_object_id(h@)
    }
}

/// Whether the checkpoint journal of a capsule is well-formed.
pub open spec fn checkpoint_shaped(c: Capsule) -> bool {
    c.checkpoint matches Some(j) ==> {
        &&& validate::is_object_id(j.head_before@)
        &&& validate::is_object_id(j.head_after@)
        &&& validate::is_sha256(j.patch_sha256@)
    }
}

/// Whether the identity fields of a capsule are well-formed and are those its
/// record must have.
pub open spec fn identity_shaped(c: Capsule, workspace: Seq<u8>, branch: Seq<char>) -> bool {
    &&& paths::same(c.workspace_path@, workspace)
    &&& c.branch@ == branch
    &&& paths::is_absolute(c.source_worktree@)
    &&& paths::is_absolute(c.repository_common_dir@)
    &&& c.workspace_git_dir matches Some(p) ==> paths::is_absolute(p@)
    &&& needs_git_dir(c.state) ==> c.workspace_git_dir is Some
    &&& validate::is_object_id(c.base_commit@)
    &&& forall|i: int|
        0 <= i < c.checkpoints@.len() ==> validate::is_object_id(
            (#[trigger] c.checkpoints@[i]).commit@,
        )
    &&& c.result matches Some(r) ==> is_result_ref(r)
    &&& checkpoint_shaped(c)
    &&& integration_shaped(c)
    &&& c.cleanup matches Some(k) ==> (k.branch_head matches Some(h) ==> validate::is_object_id(
        h@,
    ))
    &&& all_coherent(c.evidence@)
}

fn checkpoints_shaped(c: &Capsule) -> (r: bool)
    ensures
        r == (forall|i: int|
            0 <= i < c.checkpoints@.len() ==> validate::is_object_id(
                (#[trigger] c.checkpoints@[i]).commit@,
            )),
{
    let mut i: usize = 0;
    while i < c.checkpoints.len()
        invariant
            i <= c.checkpoints.len(),
            forall|j: int|
                0 <= j < i ==> validate::is_object_id((#[trigger] c.checkpoints@[j]).commit@),
        decreases c.checkpoints.len() - i,
    {
        if !validate::valid_object_id(c.checkpoints[i].commit.as_str()) {
            return false;
        }
        i += 1;
    }
    true
}

fn valid_integration(c: &Capsule) -> (r: bool)
    ensures
        r == integration_shaped(*c),
{
    match &c.integration {
        Some(i) => {
            let after_shaped = match &i.target_head_after {
                Some(h) => validate::valid_object_id(h.as_str()),
                None => true,
            };
            i.target_worktree.is_absolute() && i.target_git_dir.is_absolute()
                && validate::valid_head_ref(i.target_head_ref.as_str())
                && validate::valid_object_id(i.target_head_before.as_str()) && after_shaped
        },
        None => true,
    }
}

fn valid_checkpoint_journal(c: &Capsule) -> (r: bool)
    ensures
        r == checkpoint_shaped(*c),
{
    match &c.checkpoint {
        Some(j) => validate::valid_object_id(j.head_before.as_str()) && validate::valid_object_id(
            j.head_after.as_str(),
        ) && validate::valid_sha256(j.patch_sha256.as_str()),
        None => true,
    }
}

/// Test for the opposite of [`identity_shaped`].
pub fn malformed_capsule_identity(
    c: &Capsule,
    expected_workspace: &NativePath,
    expected_branch: &str,
) -> (r: bool)
    ensures
        r == !identity_shaped(*c, expected_workspace@, expected_branch@),
{
    let git_dir_shaped = match &c.workspace_git_dir {
        Some(p) => p.is_absolute(),
        None => c.state != CapsuleState::Active && c.state != CapsuleState::Checkpointing && c.state
            != CapsuleState::Closed && c.state != CapsuleState::Integrating && c.state
            != CapsuleState::Integrated,
    };
    let seal_shaped = match &c.result {
        Some(r) => valid_result_ref(r),
        None => true,
    };
    let cleanup_shaped = match &c.cleanup {
        Some(k) => match &k.branch_head {
            Some(h) => validate::valid_object_id(h.as_str()),
            None => true,
        },
        None => true,
    };
    !(c.workspace_path.same_path(expected_workspace) && text::same_text(
        c.branch.as_str(),
        expected_branch,
    ) && c.source_worktree.is_absolute() && c.repository_common_dir.is_absolute() && git_dir_shaped
        && validate::valid_object_id(c.base_commit.as_str()) && checkpoints_shaped(c) && seal_shaped
        && valid_checkpoint_journal(c) && valid_integration(c) && cleanup_shaped
        && evidence_coherent(&c.evidence))
}

/// The branch that belongs to a capsule ID.
pub open spec fn branch_of(id: Seq<char>) -> Seq<char> {
    "capsule/"@ + id.skip(4)
}

/// The branch that belongs to a capsule ID.
pub fn branch_name(id: &str) -> (r: String)
    requires
        id@.len() >= 4,
    ensures
        r@ == branch_of(id@),
{
    let chars = text::text_chars(id);
    let tail = text::text_of(vstd::slice::slice_subrange(chars.as_slice(), 4, chars.len()));
    proof {
        assert(tail@ =~= id@.skip(4));
    }
    text::cat2("capsule/", tail.as_str())
}

/// Durable state below one root directory.
#[derive(Debug, PartialEq, Eq)]
pub struct StateStore {
    /// The canonical root directory.
    pub root: NativePath,
}

/// A directory of the state root.
pub open spec fn below(root: Seq<u8>, name: Seq<char>) -> Seq<u8> {
    paths::join_of(root, encode_utf8(name))
}

/// The directory of one capsule's record.
pub open spec fn capsule_dir_of(root: Seq<u8>, id: Seq<char>) -> Seq<u8> {
    below(below(root, "capsules"@), id)
}

/// The workspace of one capsule.
pub open spec fn workspace_path_of(root: Seq<u8>, project_key: Seq<char>, id: Seq<char>) -> Seq<
    u8,
> {
    below(below(below(root, "workspaces"@), project_key), id)
}

/// What a check of a stored manifest says.
pub open spec fn manifest_check(root: Seq<u8>, c: Capsule, id: Seq<char>) -> std::result::Result<
    (),
    ErrorView,
> {
    if validate::project_key_check(c.project_key@) is Err {
        validate::project_key_check(c.project_key@)
    } else if validate::id_check(id) is Err {
        validate::id_check(id)
    } else if !identity_shaped(c, workspace_path_of(root, c.project_key@, id), branch_of(id)) {
        Err(
            ErrorView::UnsafeState(
                "capsule "@ + id + " contains inconsistent or malformed identity data"@,
            ),
        )
    } else if !journals_consistent(c) {
        Err(
            ErrorView::UnsafeState(
                "capsule "@ + id + " contains an inconsistent lifecycle journal"@,
            ),
        )
    } else {
        match validate::project_key_of(c.repository_common_dir@) {
            Err(e) => Err(e),
            Ok(key) => if key != c.project_key@ {
                Err(
                    ErrorView::UnsafeState(
                        "capsule "@ + id + " contains an inconsistent repository identity"@,
                    ),
                )
            } else {
                Ok(())
            },
        }
    }
}

/// What reading a record decoded as `c` from the directory `id` says.
pub open spec fn record_check(root: Seq<u8>, c: Capsule, id: Seq<char>) -> std::result::Result<
    (),
    ErrorView,
> {
    if c.id@ != id {
        Err(
            ErrorView::UnsafeState(
                "manifest id "@ + c.id@ + " does not match directory "@ + id,
            ),
        )
    } else if c.schema_version != SCHEMA_VERSION {
        Err(ErrorView::SchemaVersion { found: c.schema_version, supported: SCHEMA_VERSION })
    } else {
        manifest_check(root, c, id)
    }
}

/// What reading a capsule says, given what decoding its manifest gave.
pub open spec fn read_check(
    root: Seq<u8>,
    id: Seq<char>,
    stored: std::result::Result<Capsule, Error>,
) -> std::result::Result<(), ErrorView> {
    if validate::id_check(id) is Err {
        validate::id_check(id)
    } else {
        match stored {
            Err(e) => Err(e@),
            Ok(c) => record_check(root, c, id),
        }
    }
}

/// What a check of a decoded result says.
pub open spec fn result_shaped(r: CapsuleResult) -> bool {
    &&& validate::is_object_id(r.base_commit@)
    &&& validate::is_object_id(r.head_commit@)
    &&& validate::is_sha256(r.patch_sha256@)
    &&& r.ignored_content_sha256 is Some
    &&& validate::is_sha256(r.ignored_content_sha256->0@)
    &&& r.patch_bytes <= PATCH_CAP
    &&& git_path::all_canonical(r.changed_paths@)
    &&& git_path::all_canonical(r.ignored_paths@)
    &&& all_coherent(r.evidence@)
}

fn valid_result(r: &CapsuleResult) -> (ok: bool)
    ensures
        ok == result_shaped(*r),
{
    let ignored_shaped = match &r.ignored_content_sha256 {
        Some(d) => validate::valid_sha256(d.as_str()),
        None => false,
    };
    validate::valid_object_id(r.base_commit.as_str()) && validate::valid_object_id(
        r.head_commit.as_str(),
    ) && validate::valid_sha256(r.patch_sha256.as_str()) && ignored_shaped && r.patch_bytes
        <= PATCH_CAP && git_path::inventory_canonical(&r.changed_paths)
        && git_path::inventory_canonical(&r.ignored_paths) && evidence_coherent(&r.evidence)
}

/// What reading a result decoded as `r` for the capsule `id` says.
pub open spec fn result_check(id: Seq<char>, r: CapsuleResult) -> std::result::Result<
    (),
    ErrorView,
> {
    if r.capsule_id@ != id {
        Err(
            ErrorView::UnsafeState(
                "result id "@ + r.capsule_id@ + " does not match capsule "@ + id,
            ),
        )
    } else if !result_shaped(r) {
        Err(
            ErrorView::UnsafeState(
                "result for capsule "@ + id + " contains malformed identity or size data"@,
            ),
        )
    } else {
        Ok(())
    }
}

impl StateStore {
    /// State below `root`.
    pub fn new(root: NativePath) -> (r: StateStore)
        ensures
            r.root == root,
    {
        StateStore { root }
    }

    /// Directory that holds one subdirectory per capsule record.
    pub fn capsules_dir(&self) -> (r: NativePath)
        ensures
            r@ == below(self.root@, "capsules"@),
    {
        self.root.join("capsules")
    }

    /// Directory that holds the workspaces, grouped by project.
    pub fn workspaces_dir(&self) -> (r: NativePath)
        ensures
            r@ == below(self.root@, "workspaces"@),
    {
        self.root.join("workspaces")
    }

    /// Directory that holds the idempotency reservations.
    pub fn idempotency_dir(&self) -> (r: NativePath)
        ensures
            r@ == below(self.root@, "idempotency"@),
    {
        self.root.join("idempotency")
    }

    /// Directory that holds the lock files.
    pub fn locks_dir(&self) -> (r: NativePath)
        ensures
            r@ == below(self.root@, "locks"@),
    {
        self.root.join("locks")
    }

    /// Lock file of one project.
    pub fn project_lock_path(&self, project_key: &str) -> (r: std::result::Result<
        NativePath,
        Error,
    >)
        ensures
            match validate::project_key_check(project_key@) {
                Ok(_) => r matches Ok(p) && p@ == below(
                    below(self.root@, "locks"@),
                    "project-"@ + project_key@ + ".lock"@,
                ),
                Err(e) => r matches Err(found) && found@ == e,
            },
    {
        match validate::validate_project_key(project_key) {
            Err(e) => Err(e),
            Ok(_) => Ok(
                self.locks_dir().join(text::cat3("project-", project_key, ".lock").as_str()),
            ),
        }
    }

    /// Directory of one capsule's record.
    pub fn capsule_dir(&self, id: &str) -> (r: std::result::Result<NativePath, Error>)
        ensures
            match validate::id_check(id@) {
                Ok(_) => r matches Ok(p) && p@ == capsule_dir_of(self.root@, id@),
                Err(e) => r matches Err(found) && found@ == e,
            },
    {
        match validate::validate_id(id) {
            Err(e) => Err(e),
            Ok(_) => Ok(self.capsules_dir().join(id)),
        }
    }

    /// Workspace of one capsule.
    pub fn workspace_path(&self, project_key: &str, id: &str) -> (r: std::result::Result<
        NativePath,
        Error,
    >)
        ensures
            if validate::project_key_check(project_key@) is Err {
                r matches Err(found) && Err::<(), ErrorView>(found@)
                    == validate::project_key_check(project_key@)
            } else if validate::id_check(id@) is Err {
                r matches Err(found) && Err::<(), ErrorView>(found@) == validate::id_check(id@)
            } else {
                r matches Ok(p) && p@ == workspace_path_of(self.root@, project_key@, id@)
            },
    {
        match validate::validate_project_key(project_key) {
            Err(e) => {
                return Err(e);
            },
            Ok(_) => {},
        }
        match validate::validate_id(id) {
            Err(e) => {
                return Err(e);
            },
            Ok(_) => {},
        }
        Ok(self.workspaces_dir().join(project_key).join(id))
    }

    /// File of one reservation.
    pub fn idempotency_record_path(&self, key_digest: &str) -> (r: std::result::Result<
        NativePath,
        Error,
    >)
        ensures
            match validate::sha256_check(key_digest@, "idempotency key digest"@) {
                Ok(_) => r matches Ok(p) && p@ == below(
                    below(self.root@, "idempotency"@),
                    key_digest@ + ".json"@,
                ),
                Err(e) => r matches Err(found) && found@ == e,
            },
    {
        match validate::validate_sha256(key_digest, "idempotency key digest") {
            Err(e) => Err(e),
            Ok(_) => Ok(self.idempotency_dir().join(text::cat2(key_digest, ".json").as_str())),
        }
    }

    /// Refuse a manifest whose identity, journals, or repository do not agree
    /// with each other or with where it is stored.
    pub fn validate_capsule_manifest(&self, capsule: &Capsule, id: &str) -> (r: std::result::Result<
        (),
        Error,
    >)
        ensures
            error::outcome(r) == manifest_check(self.root@, *capsule, id@),
    {
        match validate::validate_project_key(capsule.project_key.as_str()) {
            Err(e) => {
                return Err(e);
            },
            Ok(_) => {},
        }
        let expected_workspace = match self.workspace_path(capsule.project_key.as_str(), id) {
            Err(e) => {
                return Err(e);
            },
            Ok(p) => p,
        };
        let expected_branch = branch_name(id);
        if malformed_capsule_identity(capsule, &expected_workspace, expected_branch.as_str()) {
            return Err(
                Error::UnsafeState(
                    text::cat3(
                        "capsule ",
                        id,
                        " contains inconsistent or malformed identity data",
                    ),
                ),
            );
        }
        if !lifecycle_journals_consistent(capsule) {
            return Err(
                Error::UnsafeState(
                    text::cat3("capsule ", id, " contains an inconsistent lifecycle journal"),
                ),
            );
        }
        match validate::project_key(&capsule.repository_common_dir) {
            Err(e) => Err(e),
            Ok(key) => if text::same_text(key.as_str(), capsule.project_key.as_str()) {
                Ok(())
            } else {
                Err(
                    Error::UnsafeState(
                        text::cat3(
                            "capsule ",
                            id,
                            " contains an inconsistent repository identity",
                        ),
                    ),
                )
            },
        }
    }

    /// Accept the manifest decoded from the directory `id`, or say why not.
    pub fn read_capsule(&self, id: &str, stored: std::result::Result<Capsule, Error>) -> (r:
        std::result::Result<Capsule, Error>)
        ensures
            match read_check(self.root@, id@, stored) {
                Ok(_) => r == stored,
                Err(e) => r matches Err(found) && found@ == e,
            },
    {
        match validate::validate_id(id) {
            Err(e) => {
                return Err(e);
            },
            Ok(_) => {},
        }
        let capsule = match stored {
            Err(e) => {
                return Err(e);
            },
            Ok(c) => c,
        };
        if !text::same_text(capsule.id.as_str(), id) {
            return Err(
                Error::UnsafeState(
                    text::cat4(
                        "manifest id ",
                        capsule.id.as_str(),
                        " does not match directory ",
                        id,
                    ),
                ),
            );
        }
        if capsule.schema_version != SCHEMA_VERSION {
            return Err(
                Error::SchemaVersion { found: capsule.schema_version, supported: SCHEMA_VERSION },
            );
        }
        match self.validate_capsule_manifest(&capsule, id) {
            Err(e) => Err(e),
            Ok(_) => Ok(capsule),
        }
    }

    /// Accept the result decoded for the capsule `id`, or say why not.
    pub fn read_result_artifact(&self, id: &str, stored: std::result::Result<
        CapsuleResult,
        Error,
    >) -> (r: std::result::Result<CapsuleResult, Error>)
        ensures
            if validate::id_check(id@) is Err {
                r matches Err(found) && Err::<(), ErrorView>(found@) == validate::id_check(id@)
            } else {
                match stored {
                    Err(e) => r matches Err(found) && found@ == e@,
                    Ok(result) => match result_check(id@, result) {
                        Ok(_) => r == stored,
                        Err(e) => r matches Err(found) && found@ == e,
                    },
                }
            },
    {
        match validate::validate_id(id) {
            Err(e) => {
                return Err(e);
            },
            Ok(_) => {},
        }
        let result = match stored {
            Err(e) => {
                return Err(e);
            },
            Ok(r) => r,
        };
        if !text::same_text(result.capsule_id.as_str(), id) {
            return Err(
                Error::UnsafeState(
                    text::cat4(
                        "result id ",
                        result.capsule_id.as_str(),
                        " does not match capsule ",
                        id,
                    ),
                ),
            );
        }
        if !valid_result(&result) {
            return Err(
                Error::UnsafeState(
                    text::cat3(
                        "result for capsule ",
                        id,
                        " contains malformed identity or size data",
                    ),
                ),
            );
        }
        Ok(result)
    }

    /// Refuse to write a manifest of another schema version.
    pub fn write_capsule(&self, capsule: &Capsule) -> (r: std::result::Result<NativePath, Error>)
        ensures
            if capsule.schema_version != SCHEMA_VERSION {
                r matches Err(found) && found@ == (ErrorView::SchemaVersion {
                    found: capsule.schema_version,
                    supported: SCHEMA_VERSION,
                })
            } else {
                match validate::id_check(capsule.id@) {
                    Ok(_) => r matches Ok(p) && p@ == below(
                        capsule_dir_of(self.root@, capsule.id@),
                        "capsule.json"@,
                    ),
                    Err(e) => r matches Err(found) && found@ == e,
                }
            },
    {
        if capsule.schema_version != SCHEMA_VERSION {
            return Err(
                Error::SchemaVersion { found: capsule.schema_version, supported: SCHEMA_VERSION },
            );
        }
        match self.capsule_dir(capsule.id.as_str()) {
            Err(e) => Err(e),
            Ok(dir) => Ok(dir.join("capsule.json")),
        }
    }

    /// Refuse to write a result of another schema version or another capsule.
    pub fn write_result(&self, id: &str, result: &CapsuleResult) -> (r: std::result::Result<
        NativePath,
        Error,
    >)
        ensures
            if result.schema_version != SCHEMA_VERSION {
                r matches Err(found) && found@ == (ErrorView::SchemaVersion {
                    found: result.schema_version,
                    supported: SCHEMA_VERSION,
                })
            } else if result.capsule_id@ != id@ {
                r matches Err(found) && found@ == ErrorView::UnsafeState(
                    "result id "@ + result.capsule_id@ + " does not match capsule "@ + id@,
                )
            } else {
                match validate::id_check(id@) {
                    Ok(_) => r matches Ok(p) && p@ == below(
                        capsule_dir_of(self.root@, id@),
                        "result.json"@,
                    ),
                    Err(e) => r matches Err(found) && found@ == e,
                }
            },
    {
        if result.schema_version != SCHEMA_VERSION {
            return Err(
                Error::SchemaVersion { found: result.schema_version, supported: SCHEMA_VERSION },
            );
        }
        if !text::same_text(result.capsule_id.as_str(), id) {
            return Err(
                Error::UnsafeState(
                    text::cat4(
                        "result id ",
                        result.capsule_id.as_str(),
                        " does not match capsule ",
                        id,
                    ),
                ),
            );
        }
        match self.capsule_dir(id) {
            Err(e) => Err(e),
            Ok(dir) => Ok(dir.join("result.json")),
        }
    }

    /// Refuse to write a patch past the storage bound.
    pub fn write_patch(&self, id: &str, patch: &[u8]) -> (r: std::result::Result<
        NativePath,
        Error,
    >)
        ensures
            if patch@.len() > PATCH_CAP {
                r matches Err(found) && found@ == ErrorView::InvalidInput(
                    "result patch exceeds the "@ + text::decimal(PATCH_CAP as nat)
                        + "-byte limit"@,
                )
            } else {
                match validate::id_check(id@) {
                    Ok(_) => r matches Ok(p) && p@ == below(
                        capsule_dir_of(self.root@, id@),
                        "result.patch"@,
                    ),
                    Err(e) => r matches Err(found) && found@ == e,
                }
            },
    {
        if patch.len() as u64 > PATCH_CAP {
            return Err(
                Error::InvalidInput(
                    text::cat3(
                        "result patch exceeds the ",
                        text::decimal_text(PATCH_CAP).as_str(),
                        "-byte limit",
                    ),
                ),
            );
        }
        match self.capsule_dir(id) {
            Err(e) => Err(e),
            Ok(dir) => Ok(dir.join("result.patch")),
        }
    }

    /// Refuse an export destination inside managed state.
    ///
    /// `requested` is the path as the caller gave it, for the message;
    /// `normalized` is its canonical parent joined with its name, or absent
    /// where the path names no new directory.
    pub fn external_destination(
        &self,
        requested: &NativePath,
        normalized: Option<NativePath>,
    ) -> (r: std::result::Result<NativePath, Error>)
        ensures
            match normalized {
                None => r matches Err(found) && found@ == ErrorView::InvalidInput(
                    "destination must name a new directory: "@ + paths::display_of(requested@),
                ),
                Some(p) => if paths::is_within(p@, self.root@) {
                    r matches Err(found) && found@ == ErrorView::InvalidInput(
                        "destination must be outside managed state: "@ + paths::display_of(
                            requested@,
                        ),
                    )
                } else {
                    r matches Ok(found) && found == p
                },
            },
    {
        match normalized {
            None => Err(
                Error::InvalidInput(
                    text::cat2(
                        "destination must name a new directory: ",
                        requested.display().as_str(),
                    ),
                ),
            ),
            Some(p) => if p.is_within(&self.root) {
                Err(
                    Error::InvalidInput(
                        text::cat2(
                            "destination must be outside managed state: ",
                            requested.display().as_str(),
                        ),
                    ),
                )
            } else {
                Ok(p)
            },
        }
    }
}

/// What the capacity check of a manifest says.
pub open spec fn capacity_check(encoded: nat) -> std::result::Result<(), ErrorView> {
    if encoded > JSON_CAP {
        Err(
            ErrorView::InvalidInput(
                "this operation would grow the capsule manifest to "@ + text::decimal(encoded)
                    + " bytes, past the "@ + text::decimal(JSON_CAP as nat)
                    + "-byte limit; close this capsule and start another"@,
            ),
        )
    } else {
        Ok(())
    }
}

/// Refuse a manifest whose encoding would not fit the storage bound.
///
/// This is asked of the exact manifest a transition intends to persist, before
/// the transition has an irreversible effect.
pub fn ensure_manifest_capacity(encoded: u64) -> (r: std::result::Result<(), Error>)
    ensures
        error::outcome(r) == capacity_check(encoded as nat),
{
    if encoded > JSON_CAP {
        return Err(
            Error::InvalidInput(
                text::cat5(
                    "this operation would grow the capsule manifest to ",
                    text::decimal_text(encoded).as_str(),
                    " bytes, past the ",
                    text::decimal_text(JSON_CAP).as_str(),
                    "-byte limit; close this capsule and start another",
                ),
            ),
        );
    }
    Ok(())
}

/// What becomes of bytes read under a bound.
pub open spec fn bounded_read_check(
    path: Seq<u8>,
    regular: bool,
    size: nat,
    read: nat,
    cap: nat,
) -> std::result::Result<(), ErrorView> {
    if !regular || size > cap {
        Err(
            ErrorView::UnsafeState(
                "state file is unsafe or exceeds "@ + text::decimal(cap) + " bytes: "@
                    + paths::display_of(path),
            ),
        )
    } else if read > cap {
        Err(
            ErrorView::UnsafeState(
                "state file exceeds "@ + text::decimal(cap) + " bytes: "@ + paths::display_of(
                    path,
                ),
            ),
        )
    } else {
        Ok(())
    }
}

/// Accept bytes read from a file only if the file is regular and neither its
/// recorded size nor what was read passes `cap`.
pub fn check_bounded_read(path: &NativePath, regular: bool, size: u64, read: u64, cap: u64) -> (r:
    std::result::Result<(), Error>)
    ensures
        error::outcome(r) == bounded_read_check(
            path@,
            regular,
            size as nat,
            read as nat,
            cap as nat,
        ),
{
    if !regular || size > cap {
        return Err(
            Error::UnsafeState(
                text::cat4(
                    "state file is unsafe or exceeds ",
                    text::decimal_text(cap).as_str(),
                    " bytes: ",
                    path.display().as_str(),
                ),
            ),
        );
    }
    if read > cap {
        return Err(
            Error::UnsafeState(
                text::cat4(
                    "state file exceeds ",
                    text::decimal_text(cap).as_str(),
                    " bytes: ",
                    path.display().as_str(),
                ),
            ),
        );
    }
    Ok(())
}

/// A value of the environment, where it is set and not empty.
pub open spec fn set_value(value: Option<NativePath>) -> Option<Seq<u8>> {
    match value {
        Some(p) => if p@.len() > 0 {
            Some(p@)
        } else {
            None
        },
        None => None,
    }
}

/// Where state lives by default, given what the environment says.
pub open spec fn default_root_of(
    capsule_home: Option<Seq<u8>>,
    xdg_state_home: Option<Seq<u8>>,
    home: Option<Seq<u8>>,
) -> std::result::Result<Seq<u8>, ErrorView> {
    if capsule_home is Some {
        Ok(capsule_home->0)
    } else if xdg_state_home is Some {
        Ok(below(xdg_state_home->0, "change-capsule"@))
    } else if home is Some {
        Ok(below(below(below(home->0, ".local"@), "state"@), "change-capsule"@))
    } else {
        Err(
            ErrorView::InvalidInput(
                "cannot determine state directory; set CAPSULE_HOME"@,
            ),
        )
    }
}

fn taken(value: Option<NativePath>) -> (r: Option<NativePath>)
    ensures
        match set_value(value) {
            Some(p) => r matches Some(found) && found@ == p,
            None => r is None,
        },
{
    match value {
        Some(p) => if p.bytes.len() > 0 {
            Some(p)
        } else {
            None
        },
        None => None,
    }
}

/// The default state directory: `CAPSULE_HOME` first, then `XDG_STATE_HOME`,
/// then `HOME`, each only where it is set and not empty.
pub fn default_state_root(
    capsule_home: Option<NativePath>,
    xdg_state_home: Option<NativePath>,
    home: Option<NativePath>,
) -> (r: std::result::Result<NativePath, Error>)
    ensures
        match default_root_of(set_value(capsule_home), set_value(xdg_state_home), set_value(home)) {
            Ok(p) => r matches Ok(found) && found@ == p,
            Err(e) => r matches Err(found) && found@ == e,
        },
{
    match taken(capsule_home) {
        Some(p) => {
            return Ok(p);
        },
        None => {},
    }
    match taken(xdg_state_home) {
        Some(p) => {
            return Ok(p.join("change-capsule"));
        },
        None => {},
    }
    match taken(home) {
        Some(p) => Ok(p.join(".local").join("state").join("change-capsule")),
        None => Err(
            Error::InvalidInput("cannot determine state directory; set CAPSULE_HOME".to_owned()),
        ),
    }
}

impl Ordered for Capsule {
    open spec fn precedes(self, other: Self) -> bool {
        bytes::bytes_before(encode_utf8(self.id@), encode_utf8(other.id@))
    }

    fn before(&self, other: &Self) -> (r: bool) {
        bytes::before(self.id.as_str().as_bytes(), other.id.as_str().as_bytes())
    }
}

} // verus!
