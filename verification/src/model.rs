//! Durable data types for capsules, sealed results, artifacts, and audit
//! records.
//!
//! Timestamps are seconds since the Unix epoch. Commit fields hold full
//! lowercase hexadecimal Git object IDs, and digest fields hold lowercase
//! hexadecimal SHA-256.

use vstd::prelude::*;
use vstd::string::*;

use crate::git_path::{GitPath, GitPathView};
use crate::links::{LinkView, Links};
use crate::paths::NativePath;
use crate::record::Record;
use crate::{record, text};

verus! {

/// Schema version of the durable capsule manifest and sealed result.
///
/// State written by a different version fails closed.
pub const SCHEMA_VERSION: u32 = 5;

/// Schema version of the exported artifact bundle (`bundle.json`).
pub const BUNDLE_SCHEMA_VERSION: u32 = 1;

/// Schema version of individual [`AuditEvent`] records.
pub const AUDIT_SCHEMA_VERSION: u32 = 1;

/// Maximum number of audit events retained in one capsule manifest.
pub const AUDIT_EVENT_CAP: usize = 128;

/// Hard bound on the bytes of a patch.
pub const HARD_PATCH_BYTES: u64 = 67108864;

/// Lifecycle position of a capsule.
///
/// `Creating`, `Checkpointing`, `Integrating`, and `Dropping` are journal
/// states: a crash can leave a capsule in one of them, and recovery completes
/// only those transitions it can prove safe to finish.
#[derive(Debug, Clone, Copy, PartialEq, Eq, Structural)]
pub enum CapsuleState {
    /// The workspace is being created and is not yet usable.
    Creating,
    /// A checkpoint commit is being prepared and journaled.
    Checkpointing,
    /// The capsule is usable and its workspace may be modified.
    Active,
    /// The result is sealed and the workspace should be treated as read-only.
    Closed,
    /// A sealed result is being applied to an integration target.
    Integrating,
    /// A sealed result was explicitly applied to a target worktree.
    Integrated,
    /// Cleanup has begun and is journaled.
    Dropping,
    /// Ownership of the workspace could not be proven; awaiting inspection.
    Orphaned,
    /// The owned worktree and branch are gone; the durable record remains.
    Dropped,
}

/// The lowercase name of a state.
pub open spec fn state_name_of(state: CapsuleState) -> Seq<char> {
    match state {
        CapsuleState::Creating => "creating"@,
        CapsuleState::Checkpointing => "checkpointing"@,
        CapsuleState::Active => "active"@,
        CapsuleState::Closed => "closed"@,
        CapsuleState::Integrating => "integrating"@,
        CapsuleState::Integrated => "integrated"@,
        CapsuleState::Dropping => "dropping"@,
        CapsuleState::Orphaned => "orphaned"@,
        CapsuleState::Dropped => "dropped"@,
    }
}

/// The lowercase name of a state.
pub fn state_name(state: CapsuleState) -> (r: &'static str)
    ensures
        r@ == state_name_of(state),
{
    match state {
        CapsuleState::Creating => "creating",
        CapsuleState::Checkpointing => "checkpointing",
        CapsuleState::Active => "active",
        CapsuleState::Closed => "closed",
        CapsuleState::Integrating => "integrating",
        CapsuleState::Integrated => "integrated",
        CapsuleState::Dropping => "dropping",
        CapsuleState::Orphaned => "orphaned",
        CapsuleState::Dropped => "dropped",
    }
}

/// A commit created inside the capsule during the attempt.
#[derive(Debug, PartialEq, Eq)]
pub struct Checkpoint {
    /// Git object ID of the checkpoint commit.
    pub commit: String,
    /// Commit message supplied by the caller.
    pub message: String,
    /// Author name recorded on the commit.
    pub author_name: String,
    /// Author email recorded on the commit.
    pub author_email: String,
    /// When the checkpoint was started.
    pub created_at_unix: u64,
}

/// What a [`Checkpoint`] holds.
pub struct CheckpointView {
    pub commit: Seq<char>,
    pub message: Seq<char>,
    pub author_name: Seq<char>,
    pub author_email: Seq<char>,
    pub created_at_unix: u64,
}

impl View for Checkpoint {
    type V = CheckpointView;

    open spec fn view(&self) -> CheckpointView {
        CheckpointView {
            commit: self.commit@,
            message: self.message@,
            author_name: self.author_name@,
            author_email: self.author_email@,
            created_at_unix: self.created_at_unix,
        }
    }
}

impl Record for Checkpoint {
    fn same(&self, other: &Self) -> (r: bool) {
        text::same_text(self.commit.as_str(), other.commit.as_str()) && text::same_text(
            self.message.as_str(),
            other.message.as_str(),
        ) && text::same_text(self.author_name.as_str(), other.author_name.as_str())
            && text::same_text(self.author_email.as_str(), other.author_email.as_str())
            && self.created_at_unix == other.created_at_unix
    }

    fn copy(&self) -> (r: Self) {
        Checkpoint {
            commit: self.commit.clone(),
            message: self.message.clone(),
            author_name: self.author_name.clone(),
            author_email: self.author_email.clone(),
            created_at_unix: self.created_at_unix,
        }
    }
}

/// One verification record.
///
/// Where `executed` is true, the command was run in the capsule workspace and
/// its exit code and output were observed. Where it is false, the record is a
/// caller's claim and nothing is vouched for.
#[derive(Debug, PartialEq, Eq)]
pub struct Evidence {
    /// Command line the record is about.
    pub command: String,
    /// Exit status.
    pub exit_code: i32,
    /// Whether the command was executed rather than claimed.
    pub executed: bool,
    /// Digest of the captured output; present exactly for executed records.
    pub output_sha256: Option<String>,
    /// Bytes of captured output; present exactly for executed records.
    pub output_bytes: Option<u64>,
    /// Optional bounded summary.
    pub summary: Option<String>,
    /// Digest of the complete patch the record is bound to.
    pub patch_sha256: String,
    /// When the record was attached to the capsule.
    pub recorded_at_unix: u64,
}

/// What an [`Evidence`] record holds.
pub struct EvidenceView {
    pub command: Seq<char>,
    pub exit_code: i32,
    pub executed: bool,
    pub output_sha256: Option<Seq<char>>,
    pub output_bytes: Option<u64>,
    pub summary: Option<Seq<char>>,
    pub patch_sha256: Seq<char>,
    pub recorded_at_unix: u64,
}

impl View for Evidence {
    type V = EvidenceView;

    open spec fn view(&self) -> EvidenceView {
        EvidenceView {
            command: self.command@,
            exit_code: self.exit_code,
            executed: self.executed,
            output_sha256: text::opt_view(self.output_sha256),
            output_bytes: self.output_bytes,
            summary: text::opt_view(self.summary),
            patch_sha256: self.patch_sha256@,
            recorded_at_unix: self.recorded_at_unix,
        }
    }
}

impl Record for Evidence {
    fn same(&self, other: &Self) -> (r: bool) {
        let counts_agree = match (self.output_bytes, other.output_bytes) {
            (Some(l), Some(r)) => l == r,
            (None, None) => true,
            _ => false,
        };
        text::same_text(self.command.as_str(), other.command.as_str()) && self.exit_code
            == other.exit_code && self.executed == other.executed && text::same_opt_text(
            &self.output_sha256,
            &other.output_sha256,
        ) && counts_agree && text::same_opt_text(&self.summary, &other.summary) && text::same_text(
            self.patch_sha256.as_str(),
            other.patch_sha256.as_str(),
        ) && self.recorded_at_unix == other.recorded_at_unix
    }

    fn copy(&self) -> (r: Self) {
        Evidence {
            command: self.command.clone(),
            exit_code: self.exit_code,
            executed: self.executed,
            output_sha256: text::copy_opt_text(&self.output_sha256),
            output_bytes: self.output_bytes,
            summary: text::copy_opt_text(&self.summary),
            patch_sha256: self.patch_sha256.clone(),
            recorded_at_unix: self.recorded_at_unix,
        }
    }
}

/// Shape of a sealed result relative to its pinned base.
#[derive(Debug, Clone, Copy, PartialEq, Eq, Structural)]
pub enum ResultKind {
    /// The workspace matched the base exactly; the patch is empty.
    NoChange,
    /// The workspace was clean and every change was committed.
    Commit,
    /// Uncommitted work was included in the sealed patch.
    Patch,
}

/// Seal recorded in the capsule manifest that binds it to its sealed result.
#[derive(Debug, PartialEq, Eq)]
pub struct ResultRef {
    /// Shape of the sealed result.
    pub kind: ResultKind,
    /// Workspace `HEAD` at the moment of sealing.
    pub head_commit: String,
    /// SHA-256 of the sealed patch bytes.
    pub patch_sha256: String,
    /// SHA-256 of the serialized sealed result.
    pub result_sha256: String,
    /// Size of the sealed patch in bytes.
    pub patch_bytes: u64,
    /// Number of paths the sealed result changes.
    pub changed_paths: usize,
    /// When the result was sealed.
    pub sealed_at_unix: u64,
}

/// Journal describing an explicit integration of a sealed result.
#[derive(Debug, PartialEq, Eq)]
pub struct Integration {
    /// Worktree the result is applied to.
    pub target_worktree: NativePath,
    /// Git administration directory of that worktree, captured before any change.
    pub target_git_dir: NativePath,
    /// Symbolic `HEAD` of the target, such as `refs/heads/main` or `HEAD`.
    pub target_head_ref: String,
    /// Target `HEAD` before integration; always the capsule's pinned base.
    pub target_head_before: String,
    /// Commit the target was advanced to, once one has been prepared.
    pub target_head_after: Option<String>,
    /// Message used for the integration commit.
    pub commit_message: String,
    /// Author name recorded on the integration commit.
    pub author_name: String,
    /// Author email recorded on the integration commit.
    pub author_email: String,
    /// When integration began.
    pub started_at_unix: u64,
    /// When integration completed, if it did.
    pub integrated_at_unix: Option<u64>,
}

/// Journal written before a checkpoint commit becomes reachable.
#[derive(Debug, PartialEq, Eq)]
pub struct CheckpointJournal {
    /// Workspace `HEAD` before the checkpoint.
    pub head_before: String,
    /// Prepared checkpoint commit.
    pub head_after: String,
    /// SHA-256 of the patch the prepared commit must reproduce.
    pub patch_sha256: String,
    /// Message for the checkpoint commit.
    pub message: String,
    /// Author name for the checkpoint commit.
    pub author_name: String,
    /// Author email for the checkpoint commit.
    pub author_email: String,
    /// When the checkpoint was started.
    pub started_at_unix: u64,
}

/// Journal written before destructive cleanup begins.
#[derive(Debug, PartialEq, Eq)]
pub struct Cleanup {
    /// Capsule branch tip observed when cleanup started, if the branch existed.
    pub branch_head: Option<String>,
    /// Whether cleanup must still prove the result seal before removing anything.
    pub require_sealed: bool,
    /// When cleanup began.
    pub started_at_unix: u64,
}

/// Lifecycle transition an [`AuditEvent`] records.
#[derive(Debug, Clone, Copy, PartialEq, Eq, Structural)]
pub enum AuditEventKind {
    /// A capsule and its workspace were created.
    Created,
    /// A checkpoint commit was completed.
    Checkpointed,
    /// Verification evidence was attached.
    EvidenceAdded,
    /// The result was sealed.
    Closed,
    /// Integration began and was journaled.
    IntegrationStarted,
    /// Integration failed before changing the target and was rolled back.
    IntegrationAborted,
    /// A sealed result was applied to a target worktree.
    Integrated,
    /// Cleanup began and was journaled.
    CleanupStarted,
    /// The owned worktree and branch were removed.
    Dropped,
    /// Recovery completed an interrupted transition.
    Recovered,
}

/// One structured record of a successful lifecycle transition.
#[derive(Debug, PartialEq, Eq)]
pub struct AuditEvent {
    /// Schema version of this event; always [`AUDIT_SCHEMA_VERSION`] when written.
    pub schema_version: u32,
    /// Unique event identifier, formatted as `evt-<ulid>`.
    pub event_id: String,
    /// When the transition occurred.
    pub occurred_at_unix: u64,
    /// Which transition this records.
    pub kind: AuditEventKind,
    /// Capsule the event belongs to.
    pub capsule_id: Option<String>,
    /// Repository grouping key of that capsule.
    pub project_key: Option<String>,
    /// State the capsule left, when the transition had a distinct origin.
    pub previous_state: Option<CapsuleState>,
    /// State the capsule entered.
    pub state: Option<CapsuleState>,
    /// Bounded transition details, such as a commit ID or patch digest.
    pub attributes: Links,
}

/// The durable record of one change attempt, persisted as `capsule.json`.
#[derive(Debug, PartialEq, Eq)]
pub struct Capsule {
    /// Schema version of this record; always [`SCHEMA_VERSION`] when written.
    pub schema_version: u32,
    /// Collision-resistant identifier, formatted as `cap-<ulid>`.
    pub id: String,
    /// Optional human-facing description of the attempt.
    pub label: Option<String>,
    /// Opaque caller metadata, such as `task=issue-42`. No key is privileged.
    pub links: Links,
    /// Current lifecycle position.
    pub state: CapsuleState,
    /// Worktree the capsule was created from.
    pub source_worktree: NativePath,
    /// Canonical Git common directory shared by the repository's worktrees.
    pub repository_common_dir: NativePath,
    /// Git administration directory of the capsule's own worktree, once created.
    pub workspace_git_dir: Option<NativePath>,
    /// Ordinary filesystem directory the attempt works in.
    pub workspace_path: NativePath,
    /// Truncated digest of the repository identity, used to group state.
    pub project_key: String,
    /// Branch checked out in the capsule workspace, formatted as `capsule/<ulid>`.
    pub branch: String,
    /// Immutable commit the attempt started from.
    pub base_commit: String,
    /// When the capsule was created.
    pub created_at_unix: u64,
    /// When the capsule was last mutated.
    pub updated_at_unix: u64,
    /// Checkpoint commits made during the attempt, oldest first.
    pub checkpoints: Vec<Checkpoint>,
    /// Journal for a checkpoint that has not finished transitioning.
    pub checkpoint: Option<CheckpointJournal>,
    /// Verification records, oldest first.
    pub evidence: Vec<Evidence>,
    /// Retained lifecycle events, newest last, at most [`AUDIT_EVENT_CAP`].
    pub audit_events: Vec<AuditEvent>,
    /// Count of audit events that rolled off the retained window.
    pub audit_events_dropped: u64,
    /// Seal binding this capsule to its result artifacts, once closed.
    pub result: Option<ResultRef>,
    /// Journal describing an integration that started, if any.
    pub integration: Option<Integration>,
    /// Journal describing cleanup that started, if any.
    pub cleanup: Option<Cleanup>,
    /// When the result was sealed.
    pub closed_at_unix: Option<u64>,
    /// When the owned worktree and branch were removed.
    pub dropped_at_unix: Option<u64>,
}

/// An immutable sealed result, persisted as `result.json`.
///
/// The patch is always computed against the pinned base, so it captures
/// committed, staged, unstaged, deleted, and non-ignored untracked content as
/// one complete change.
#[derive(Debug, PartialEq, Eq)]
pub struct CapsuleResult {
    /// Schema version of this record; always [`SCHEMA_VERSION`] when written.
    pub schema_version: u32,
    /// Capsule this result belongs to.
    pub capsule_id: String,
    /// Label carried over from the capsule at seal time.
    pub label: Option<String>,
    /// Opaque links carried over from the capsule at seal time.
    pub links: Links,
    /// Shape of the result relative to its base.
    pub kind: ResultKind,
    /// Immutable commit the attempt started from.
    pub base_commit: String,
    /// Workspace `HEAD` at seal time.
    pub head_commit: String,
    /// SHA-256 of the sealed patch bytes.
    pub patch_sha256: String,
    /// Size of the sealed patch in bytes.
    pub patch_bytes: u64,
    /// Complete inventory of paths the result changes.
    pub changed_paths: Vec<GitPath>,
    /// Total bytes of Git-ignored content present at seal time.
    pub ignored_bytes: u64,
    /// Structural digest of ignored content observed at seal time.
    pub ignored_content_sha256: Option<String>,
    /// Ignored paths excluded from the patch, as reported by Git.
    pub ignored_paths: Vec<GitPath>,
    /// Checkpoints made during the attempt.
    pub checkpoints: Vec<Checkpoint>,
    /// Evidence present when the result was sealed.
    pub evidence: Vec<Evidence>,
    /// When the originating capsule was created.
    pub created_at_unix: u64,
    /// When the result was sealed.
    pub sealed_at_unix: u64,
}

/// What a [`CapsuleResult`] holds.
pub struct ResultView {
    pub schema_version: u32,
    pub capsule_id: Seq<char>,
    pub label: Option<Seq<char>>,
    pub links: Seq<LinkView>,
    pub kind: ResultKind,
    pub base_commit: Seq<char>,
    pub head_commit: Seq<char>,
    pub patch_sha256: Seq<char>,
    pub patch_bytes: u64,
    pub changed_paths: Seq<GitPathView>,
    pub ignored_bytes: u64,
    pub ignored_content_sha256: Option<Seq<char>>,
    pub ignored_paths: Seq<GitPathView>,
    pub checkpoints: Seq<CheckpointView>,
    pub evidence: Seq<EvidenceView>,
    pub created_at_unix: u64,
    pub sealed_at_unix: u64,
}

impl View for CapsuleResult {
    type V = ResultView;

    open spec fn view(&self) -> ResultView {
        ResultView {
            schema_version: self.schema_version,
            capsule_id: self.capsule_id@,
            label: text::opt_view(self.label),
            links: self.links@,
            kind: self.kind,
            base_commit: self.base_commit@,
            head_commit: self.head_commit@,
            patch_sha256: self.patch_sha256@,
            patch_bytes: self.patch_bytes,
            changed_paths: record::views(self.changed_paths@),
            ignored_bytes: self.ignored_bytes,
            ignored_content_sha256: text::opt_view(self.ignored_content_sha256),
            ignored_paths: record::views(self.ignored_paths@),
            checkpoints: record::views(self.checkpoints@),
            evidence: record::views(self.evidence@),
            created_at_unix: self.created_at_unix,
            sealed_at_unix: self.sealed_at_unix,
        }
    }
}

/// Observed condition of a capsule's workspace relative to its record.
#[derive(Debug, Clone, Copy, PartialEq, Eq, Structural)]
pub enum CapsuleHealth {
    /// The workspace is present, owned, and consistent with its record.
    Healthy,
    /// The recorded workspace path no longer exists.
    MissingWorktree,
    /// Something else now occupies the workspace path.
    ForeignWorktree,
    /// Tracked content changed after the result was sealed.
    DriftedAfterClose,
    /// Creation was interrupted before the workspace became usable.
    IncompleteCreation,
    /// A checkpoint transition was interrupted.
    IncompleteCheckpoint,
    /// The workspace was intentionally removed by cleanup.
    Dropped,
}

/// A point-in-time inspection of one capsule.
#[derive(Debug, PartialEq, Eq)]
pub struct CapsuleStatus {
    /// The durable record as stored.
    pub capsule: Capsule,
    /// Condition of the workspace relative to that record.
    pub health: CapsuleHealth,
    /// Current workspace `HEAD`, when it can be read.
    pub head_commit: Option<String>,
    /// Whether the workspace has uncommitted changes.
    pub dirty: Option<bool>,
    /// Non-ignored paths changed from the pinned base.
    pub changed_paths: Vec<GitPath>,
    /// Ignored untracked paths excluded from any result patch.
    pub ignored_paths: Vec<GitPath>,
    /// Commits reachable from `HEAD` but not from the base.
    pub commits_ahead: Option<u64>,
    /// After close, whether tracked content still matches the sealed result.
    pub sealed: Option<bool>,
}

/// Compact listing entry for a capsule.
#[derive(Debug, PartialEq, Eq)]
pub struct CapsuleSummary {
    /// Capsule identifier.
    pub id: String,
    /// Optional human-facing label.
    pub label: Option<String>,
    /// Current lifecycle position.
    pub state: CapsuleState,
    /// Ordinary filesystem directory the attempt works in.
    pub workspace_path: NativePath,
    /// Immutable commit the attempt started from.
    pub base_commit: String,
    /// When the capsule was last mutated.
    pub updated_at_unix: u64,
}

impl CapsuleSummary {
    /// Whether this entry summarizes `capsule`.
    pub open spec fn summarizes(self, capsule: Capsule) -> bool {
        &&& self.id == capsule.id
        &&& self.label == capsule.label
        &&& self.state == capsule.state
        &&& self.workspace_path@ == capsule.workspace_path@
        &&& self.base_commit == capsule.base_commit
        &&& self.updated_at_unix == capsule.updated_at_unix
    }

    /// The listing entry for `capsule`.
    pub fn of(capsule: &Capsule) -> (r: CapsuleSummary)
        ensures
            r.summarizes(*capsule),
    {
        CapsuleSummary {
            id: capsule.id.clone(),
            label: text::copy_opt_text(&capsule.label),
            state: capsule.state,
            workspace_path: capsule.workspace_path.clone(),
            base_commit: capsule.base_commit.clone(),
            updated_at_unix: capsule.updated_at_unix,
        }
    }
}

/// A stored record that could not be read.
#[derive(Debug, PartialEq, Eq)]
pub struct UnreadableRecord {
    /// Directory name of the record.
    pub id: String,
    /// Why it could not be read.
    pub error: String,
}

/// Every record that reads, with a description of every one that does not.
#[derive(Debug, PartialEq, Eq)]
pub struct CapsuleListing {
    /// Records that could be read, ordered by identifier.
    pub capsules: Vec<CapsuleSummary>,
    /// Records that could not, ordered by identifier.
    pub unreadable: Vec<UnreadableRecord>,
}

/// One interrupted transition that recovery was able to resolve.
#[derive(Debug, PartialEq, Eq)]
pub struct RecoveryAction {
    /// Capsule that was reconciled.
    pub capsule_id: String,
    /// State the capsule was found in.
    pub previous_state: CapsuleState,
    /// State it was moved to.
    pub state: CapsuleState,
    /// Human-readable description of what recovery did.
    pub action: String,
}

/// Which sealed artifact a descriptor refers to.
#[derive(Debug, Clone, Copy, PartialEq, Eq, Structural)]
pub enum ArtifactKind {
    /// The sealed result manifest, `result.json`.
    ResultManifest,
    /// The complete binary-capable patch, `result.patch`.
    ResultPatch,
}

/// Location, size, and content address of one sealed artifact.
#[derive(Debug, PartialEq, Eq)]
pub struct ArtifactDescriptor {
    /// Which artifact this describes.
    pub kind: ArtifactKind,
    /// File name within a bundle, such as `result.patch`.
    pub name: String,
    /// IANA-style media type of the bytes.
    pub media_type: String,
    /// Percent-encoded `file://` URI of the artifact's current location, or
    /// its name within an exported bundle.
    pub uri: String,
    /// Content address, formatted as `sha256:<digest>`.
    pub content_address: String,
    /// SHA-256 digest of the artifact bytes.
    pub sha256: String,
    /// Size of the artifact in bytes.
    pub bytes: u64,
}

/// What an [`ArtifactDescriptor`] holds.
pub struct DescriptorView {
    pub kind: ArtifactKind,
    pub name: Seq<char>,
    pub media_type: Seq<char>,
    pub uri: Seq<char>,
    pub content_address: Seq<char>,
    pub sha256: Seq<char>,
    pub bytes: u64,
}

impl View for ArtifactDescriptor {
    type V = DescriptorView;

    open spec fn view(&self) -> DescriptorView {
        DescriptorView {
            kind: self.kind,
            name: self.name@,
            media_type: self.media_type@,
            uri: self.uri@,
            content_address: self.content_address@,
            sha256: self.sha256@,
            bytes: self.bytes,
        }
    }
}

/// The set of artifacts belonging to one sealed result, written as
/// `bundle.json`.
#[derive(Debug, PartialEq, Eq)]
pub struct ArtifactBundle {
    /// Schema version of this bundle; always [`BUNDLE_SCHEMA_VERSION`] when written.
    pub schema_version: u32,
    /// Capsule whose result these artifacts belong to.
    pub capsule_id: String,
    /// Descriptors for every artifact in the bundle.
    pub artifacts: Vec<ArtifactDescriptor>,
}

/// What an [`ArtifactBundle`] holds.
pub struct BundleView {
    pub schema_version: u32,
    pub capsule_id: Seq<char>,
    pub artifacts: Seq<DescriptorView>,
}

impl View for ArtifactBundle {
    type V = BundleView;

    open spec fn view(&self) -> BundleView {
        BundleView {
            schema_version: self.schema_version,
            capsule_id: self.capsule_id@,
            artifacts: record::views(self.artifacts@),
        }
    }
}

/// Outcome of exporting a sealed result to a new directory.
#[derive(Debug, PartialEq, Eq)]
pub struct ExportReport {
    /// Bundle as written.
    pub bundle: ArtifactBundle,
    /// Directory the artifacts were written to.
    pub output_directory: NativePath,
}

/// Summary of one stored record, readable even when its schema is unsupported.
#[derive(Debug, PartialEq, Eq)]
pub struct StateRecordInspection {
    /// Directory name of the record.
    pub id: String,
    /// Declared schema version, when the manifest could be parsed.
    pub schema_version: Option<u32>,
    /// Declared lifecycle state as raw text, without interpreting it.
    pub state: Option<String>,
    /// Whether a `result.json` is present alongside the manifest.
    pub has_result: bool,
    /// Why the record could not be summarized, when it could not be.
    pub error: Option<String>,
}

/// Inventory of a state directory, independent of schema compatibility.
#[derive(Debug, PartialEq, Eq)]
pub struct StateInspection {
    /// Root directory that was inspected.
    pub state_root: NativePath,
    /// Schema version this build can operate on.
    pub supported_schema_version: u32,
    /// Bytes of durable state, excluding workspaces and locks.
    pub state_bytes: u64,
    /// One entry per stored record, ordered by identifier.
    pub records: Vec<StateRecordInspection>,
}

/// How many capsules are in one state.
#[derive(Debug, PartialEq, Eq)]
pub struct StateCount {
    /// The state.
    pub state: CapsuleState,
    /// How many capsules are in it.
    pub count: u64,
}

/// Instantaneous aggregate counters across all capsules.
#[derive(Debug, PartialEq, Eq)]
pub struct MetricsSnapshot {
    /// When the snapshot was taken.
    pub observed_at_unix: u64,
    /// Total durable capsule records.
    pub capsules: u64,
    /// Records not yet dropped.
    pub live_capsules: u64,
    /// Records carrying a sealed result.
    pub sealed_results: u64,
    /// Sum of sealed patch sizes in bytes.
    pub result_patch_bytes: u64,
    /// Bytes of durable state, excluding workspaces and locks.
    pub state_bytes: u64,
    /// Bytes occupied by live capsule workspaces.
    pub workspace_bytes: u64,
    /// Audit events currently retained.
    pub audit_events: u64,
    /// Audit events that rolled off retention.
    pub audit_events_dropped: u64,
    /// Capsule counts for every state that occurs, in order of state name.
    pub states: Vec<StateCount>,
}

/// Outcome of copying durable state to a new directory.
#[derive(Debug, PartialEq, Eq)]
pub struct BackupReport {
    /// State root that was copied.
    pub source: NativePath,
    /// Directory the copy was written to.
    pub destination: NativePath,
    /// Number of files copied.
    pub files: u64,
    /// Total bytes copied.
    pub bytes: u64,
}

/// Outcome of verifying an exported receipt.
///
/// Its presence means every requested check passed.
#[derive(Debug, PartialEq, Eq)]
pub struct VerificationReport {
    /// Directory that was verified.
    pub bundle_directory: NativePath,
    /// Capsule the receipt belongs to.
    pub capsule_id: String,
    /// Shape of the sealed result.
    pub kind: ResultKind,
    /// Commit the result is pinned to.
    pub base_commit: String,
    /// Workspace `HEAD` recorded at seal time.
    pub head_commit: String,
    /// Size of the sealed patch in bytes.
    pub patch_bytes: u64,
    /// SHA-256 of the sealed patch.
    pub patch_sha256: String,
    /// Number of paths the result changes.
    pub changed_paths: usize,
    /// Evidence records present in the receipt.
    pub evidence_total: usize,
    /// Evidence records with a non-zero exit code.
    pub evidence_failed: usize,
    /// Whether the patch was additionally checked against a repository.
    pub repository_checked: bool,
    /// Whether a trusted key authenticated the exact bundle bytes.
    pub signature_authenticated: bool,
}

} // verus!
