//! The error type shared by every operation.

use vstd::prelude::*;
use vstd::string::*;

use crate::paths::NativePath;
use crate::{digest, paths, text};

verus! {

/// How a file-system operation failed, as far as any decision depends on it.
#[derive(Debug, Clone, Copy, PartialEq, Eq, Structural)]
pub enum IoFault {
    /// Nothing exists at the path.
    NotFound,
    /// Something already exists at the path.
    AlreadyExists,
    /// Any other failure.
    Other,
}

/// Everything that can go wrong in a capsule operation.
///
/// Variants are specific so that callers can branch on a failure without
/// reading its message.
#[derive(Debug, PartialEq, Eq)]
pub enum Error {
    /// The given path is not inside a Git repository.
    NotRepository(NativePath),
    /// No capsule with this identifier exists.
    NotFound(String),
    /// The identifier is not a well-formed capsule ID.
    InvalidId(String),
    /// Caller input was missing, malformed, or out of bounds.
    InvalidInput(String),
    /// An existing key is bound to a materially different creation request.
    IdempotencyConflict,
    /// No reservation exists for the requested idempotency key.
    IdempotencyNotFound,
    /// The operation is not allowed from the capsule's current state.
    InvalidState {
        /// Capsule the operation targeted.
        id: String,
        /// State it was actually in.
        state: String,
        /// State or states the operation requires.
        expected: String,
    },
    /// Stored state is inconsistent, unsafely shaped, or self-contradictory.
    UnsafeState(String),
    /// A path no longer proves it is the worktree the capsule created.
    ForeignWorktree(NativePath),
    /// Cleanup was requested for a capsule whose work is not sealed.
    UnsealedChanges(String),
    /// Tracked content or result artifacts changed after sealing.
    ResultDrift(String),
    /// The integration target has uncommitted changes.
    DirtyIntegrationTarget(NativePath),
    /// A Git subprocess exited unsuccessfully.
    Git {
        /// Command that was run.
        command: String,
        /// Exit status it returned.
        status: i32,
        /// Captured standard error, bounded in size.
        stderr: String,
    },
    /// A Git subprocess produced more output than its bound allows.
    GitOutputTooLarge {
        /// Command that produced the output.
        command: String,
        /// Bound that was exceeded, in bytes.
        cap: u64,
    },
    /// A path cannot be represented as text.
    NonUtf8Path(NativePath),
    /// Stored state was written by an incompatible schema version.
    SchemaVersion {
        /// Version found on disk.
        found: u32,
        /// Version this build supports.
        supported: u32,
    },
    /// The requested artifact is not part of this capsule's sealed result.
    ArtifactNotFound(String),
    /// The operation would exceed the installed policy.
    PolicyViolation(String),
    /// An exported receipt failed verification.
    Verification(String),
    /// A file-system operation failed.
    Io {
        /// Path being operated on.
        path: NativePath,
        /// How it failed.
        fault: IoFault,
        /// The operating system's description.
        detail: String,
    },
    /// Stored or supplied JSON could not be decoded or encoded.
    Json {
        /// Path the JSON came from.
        path: NativePath,
        /// The decoder's description.
        detail: String,
    },
    /// An internal worker draining output failed.
    CaptureWorker,
}

/// What an [`Error`] says, over characters and bytes.
pub enum ErrorView {
    NotRepository(Seq<u8>),
    NotFound(Seq<char>),
    InvalidId(Seq<char>),
    InvalidInput(Seq<char>),
    IdempotencyConflict,
    IdempotencyNotFound,
    InvalidState { id: Seq<char>, state: Seq<char>, expected: Seq<char> },
    UnsafeState(Seq<char>),
    ForeignWorktree(Seq<u8>),
    UnsealedChanges(Seq<char>),
    ResultDrift(Seq<char>),
    DirtyIntegrationTarget(Seq<u8>),
    Git { command: Seq<char>, status: i32, stderr: Seq<char> },
    GitOutputTooLarge { command: Seq<char>, cap: u64 },
    NonUtf8Path(Seq<u8>),
    SchemaVersion { found: u32, supported: u32 },
    ArtifactNotFound(Seq<char>),
    PolicyViolation(Seq<char>),
    Verification(Seq<char>),
    Io { path: Seq<u8>, fault: IoFault, detail: Seq<char> },
    Json { path: Seq<u8>, detail: Seq<char> },
    CaptureWorker,
}

impl View for Error {
    type V = ErrorView;

    open spec fn view(&self) -> ErrorView {
        match *self {
            Error::NotRepository(p) => ErrorView::NotRepository(p@),
            Error::NotFound(t) => ErrorView::NotFound(t@),
            Error::InvalidId(t) => ErrorView::InvalidId(t@),
            Error::InvalidInput(t) => ErrorView::InvalidInput(t@),
            Error::IdempotencyConflict => ErrorView::IdempotencyConflict,
            Error::IdempotencyNotFound => ErrorView::IdempotencyNotFound,
            Error::InvalidState { id, state, expected } => ErrorView::InvalidState {
                id: id@,
                state: state@,
                expected: expected@,
            },
            Error::UnsafeState(t) => ErrorView::UnsafeState(t@),
            Error::ForeignWorktree(p) => ErrorView::ForeignWorktree(p@),
            Error::UnsealedChanges(t) => ErrorView::UnsealedChanges(t@),
            Error::ResultDrift(t) => ErrorView::ResultDrift(t@),
            Error::DirtyIntegrationTarget(p) => ErrorView::DirtyIntegrationTarget(p@),
            Error::Git { command, status, stderr } => ErrorView::Git {
                command: command@,
                status,
                stderr: stderr@,
            },
            Error::GitOutputTooLarge { command, cap } => ErrorView::GitOutputTooLarge {
                command: command@,
                cap,
            },
            Error::NonUtf8Path(p) => ErrorView::NonUtf8Path(p@),
            Error::SchemaVersion { found, supported } => ErrorView::SchemaVersion {
                found,
                supported,
            },
            Error::ArtifactNotFound(t) => ErrorView::ArtifactNotFound(t@),
            Error::PolicyViolation(t) => ErrorView::PolicyViolation(t@),
            Error::Verification(t) => ErrorView::Verification(t@),
            Error::Io { path, fault, detail } => ErrorView::Io {
                path: path@,
                fault,
                detail: detail@,
            },
            Error::Json { path, detail } => ErrorView::Json { path: path@, detail: detail@ },
            Error::CaptureWorker => ErrorView::CaptureWorker,
        }
    }
}

/// Convenience alias for results produced by this crate.
pub type Result<T> = std::result::Result<T, Error>;

/// What a check that yields nothing says.
pub open spec fn outcome(r: std::result::Result<(), Error>) -> std::result::Result<(), ErrorView> {
    match r {
        Ok(_) => Ok(()),
        Err(e) => Err(e@),
    }
}

/// The error a result carries, if any.
pub open spec fn failure<T>(r: std::result::Result<T, Error>) -> Option<ErrorView> {
    match r {
        Ok(_) => None,
        Err(e) => Some(e@),
    }
}

/// The message that describes an error.
pub open spec fn message_of(e: ErrorView) -> Seq<char> {
    match e {
        ErrorView::NotRepository(p) => "not a Git repository: "@ + paths::display_of(p),
        ErrorView::NotFound(t) => "capsule not found: "@ + t,
        ErrorView::InvalidId(t) => "invalid capsule id: "@ + t,
        ErrorView::InvalidInput(t) => "invalid input: "@ + t,
        ErrorView::IdempotencyConflict =>
            "idempotency key is already bound to a different creation request"@,
        ErrorView::IdempotencyNotFound => "idempotency reservation not found"@,
        ErrorView::InvalidState { id, state, expected } => "capsule "@ + id + " is "@ + state
            + "; expected "@ + expected,
        ErrorView::UnsafeState(t) => "unsafe state path: "@ + t,
        ErrorView::ForeignWorktree(p) => "refusing to remove a foreign or replaced worktree: "@
            + paths::display_of(p),
        ErrorView::UnsealedChanges(t) =>
            "capsule has unsealed changes; close it first or pass --force: "@ + t,
        ErrorView::ResultDrift(t) => "closed capsule has drifted since its result was sealed: "@
            + t,
        ErrorView::DirtyIntegrationTarget(p) => "integration target is not clean: "@
            + paths::display_of(p),
        ErrorView::Git { command, status, stderr } => "Git command failed ("@ + command
            + ", exit "@ + text::signed_decimal(status as int) + "): "@ + stderr,
        ErrorView::GitOutputTooLarge { command, cap } => "Git output exceeded the "@
            + text::decimal(cap as nat) + "-byte bound for: "@ + command,
        ErrorView::NonUtf8Path(p) => "unsupported non-UTF-8 path: "@ + digest::quoted_text_of(
            paths::display_of(p),
        ),
        ErrorView::SchemaVersion { found, supported } => "state schema version "@ + text::decimal(
            found as nat,
        ) + " is incompatible with supported version "@ + text::decimal(supported as nat),
        ErrorView::ArtifactNotFound(t) => "artifact not found: "@ + t,
        ErrorView::PolicyViolation(t) => "policy violation: "@ + t,
        ErrorView::Verification(t) => "bundle verification failed: "@ + t,
        ErrorView::Io { path, fault, detail } => "I/O error at "@ + paths::display_of(path)
            + ": "@ + detail,
        ErrorView::Json { path, detail } => "invalid JSON at "@ + paths::display_of(path) + ": "@
            + detail,
        ErrorView::CaptureWorker => "internal worker failed while capturing Git output"@,
    }
}

/// The stable name of an error's class.
pub open spec fn kind_of(e: ErrorView) -> Seq<char> {
    match e {
        ErrorView::NotRepository(_) => "not_repository"@,
        ErrorView::NotFound(_) => "not_found"@,
        ErrorView::InvalidId(_) | ErrorView::InvalidInput(_) => "invalid_input"@,
        ErrorView::IdempotencyConflict => "idempotency_conflict"@,
        ErrorView::IdempotencyNotFound => "idempotency_not_found"@,
        ErrorView::InvalidState { .. } => "invalid_state"@,
        ErrorView::PolicyViolation(_) => "policy"@,
        ErrorView::ArtifactNotFound(_) => "artifact_not_found"@,
        ErrorView::Verification(_) => "verification"@,
        ErrorView::UnsafeState(_) | ErrorView::ForeignWorktree(_) => "safety"@,
        ErrorView::UnsealedChanges(_) | ErrorView::ResultDrift(_) => "unsealed_result"@,
        ErrorView::DirtyIntegrationTarget(_) => "dirty_target"@,
        ErrorView::Git { .. } | ErrorView::GitOutputTooLarge { .. } => "git"@,
        ErrorView::NonUtf8Path(_) => "unsupported_path"@,
        ErrorView::SchemaVersion { .. } => "schema_version"@,
        ErrorView::Io { .. } | ErrorView::Json { .. } | ErrorView::CaptureWorker => "internal"@,
    }
}

impl Error {
    /// The message that describes the error.
    pub fn message(&self) -> (r: String)
        ensures
            r@ == message_of(self@),
    {
        match self {
            Error::NotRepository(p) => text::cat2("not a Git repository: ", p.display().as_str()),
            Error::NotFound(t) => text::cat2("capsule not found: ", t.as_str()),
            Error::InvalidId(t) => text::cat2("invalid capsule id: ", t.as_str()),
            Error::InvalidInput(t) => text::cat2("invalid input: ", t.as_str()),
            Error::IdempotencyConflict => "idempotency key is already bound to a different creation request".to_owned(),
            Error::IdempotencyNotFound => "idempotency reservation not found".to_owned(),
            Error::InvalidState { id, state, expected } => text::cat6(
                "capsule ",
                id.as_str(),
                " is ",
                state.as_str(),
                "; expected ",
                expected.as_str(),
            ),
            Error::UnsafeState(t) => text::cat2("unsafe state path: ", t.as_str()),
            Error::ForeignWorktree(p) => text::cat2(
                "refusing to remove a foreign or replaced worktree: ",
                p.display().as_str(),
            ),
            Error::UnsealedChanges(t) => text::cat2(
                "capsule has unsealed changes; close it first or pass --force: ",
                t.as_str(),
            ),
            Error::ResultDrift(t) => text::cat2(
                "closed capsule has drifted since its result was sealed: ",
                t.as_str(),
            ),
            Error::DirtyIntegrationTarget(p) => text::cat2(
                "integration target is not clean: ",
                p.display().as_str(),
            ),
            Error::Git { command, status, stderr } => text::cat6(
                "Git command failed (",
                command.as_str(),
                ", exit ",
                text::signed_decimal_text(*status).as_str(),
                "): ",
                stderr.as_str(),
            ),
            Error::GitOutputTooLarge { command, cap } => text::cat4(
                "Git output exceeded the ",
                text::decimal_text(*cap).as_str(),
                "-byte bound for: ",
                command.as_str(),
            ),
            Error::NonUtf8Path(p) => text::cat2(
                "unsupported non-UTF-8 path: ",
                digest::quoted_text(p.display().as_str()).as_str(),
            ),
            Error::SchemaVersion { found, supported } => text::cat4(
                "state schema version ",
                text::decimal_text(*found as u64).as_str(),
                " is incompatible with supported version ",
                text::decimal_text(*supported as u64).as_str(),
            ),
            Error::ArtifactNotFound(t) => text::cat2("artifact not found: ", t.as_str()),
            Error::PolicyViolation(t) => text::cat2("policy violation: ", t.as_str()),
            Error::Verification(t) => text::cat2("bundle verification failed: ", t.as_str()),
            Error::Io { path, fault: _, detail } => text::cat4(
                "I/O error at ",
                path.display().as_str(),
                ": ",
                detail.as_str(),
            ),
            Error::Json { path, detail } => text::cat4(
                "invalid JSON at ",
                path.display().as_str(),
                ": ",
                detail.as_str(),
            ),
            Error::CaptureWorker => "internal worker failed while capturing Git output".to_owned(),
        }
    }

    /// The stable name of the error's class, as machine-readable output
    /// carries it.
    pub fn kind(&self) -> (r: &'static str)
        ensures
            r@ == kind_of(self@),
    {
        match self {
            Error::NotRepository(_) => "not_repository",
            Error::NotFound(_) => "not_found",
            Error::InvalidId(_) => "invalid_input",
            Error::InvalidInput(_) => "invalid_input",
            Error::IdempotencyConflict => "idempotency_conflict",
            Error::IdempotencyNotFound => "idempotency_not_found",
            Error::InvalidState { .. } => "invalid_state",
            Error::PolicyViolation(_) => "policy",
            Error::ArtifactNotFound(_) => "artifact_not_found",
            Error::Verification(_) => "verification",
            Error::UnsafeState(_) => "safety",
            Error::ForeignWorktree(_) => "safety",
            Error::UnsealedChanges(_) => "unsealed_result",
            Error::ResultDrift(_) => "unsealed_result",
            Error::DirtyIntegrationTarget(_) => "dirty_target",
            Error::Git { .. } => "git",
            Error::GitOutputTooLarge { .. } => "git",
            Error::NonUtf8Path(_) => "unsupported_path",
            Error::SchemaVersion { .. } => "schema_version",
            Error::Io { .. } => "internal",
            Error::Json { .. } => "internal",
            Error::CaptureWorker => "internal",
        }
    }
}

impl Clone for Error {
    fn clone(&self) -> (r: Self)
        ensures
            r@ == self@,
    {
        match self {
            Error::NotRepository(p) => Error::NotRepository(p.clone()),
            Error::NotFound(t) => Error::NotFound(t.clone()),
            Error::InvalidId(t) => Error::InvalidId(t.clone()),
            Error::InvalidInput(t) => Error::InvalidInput(t.clone()),
            Error::IdempotencyConflict => Error::IdempotencyConflict,
            Error::IdempotencyNotFound => Error::IdempotencyNotFound,
            Error::InvalidState { id, state, expected } => Error::InvalidState {
                id: id.clone(),
                state: state.clone(),
                expected: expected.clone(),
            },
            Error::UnsafeState(t) => Error::UnsafeState(t.clone()),
            Error::ForeignWorktree(p) => Error::ForeignWorktree(p.clone()),
            Error::UnsealedChanges(t) => Error::UnsealedChanges(t.clone()),
            Error::ResultDrift(t) => Error::ResultDrift(t.clone()),
            Error::DirtyIntegrationTarget(p) => Error::DirtyIntegrationTarget(p.clone()),
            Error::Git { command, status, stderr } => Error::Git {
                command: command.clone(),
                status: *status,
                stderr: stderr.clone(),
            },
            Error::GitOutputTooLarge { command, cap } => Error::GitOutputTooLarge {
                command: command.clone(),
                cap: *cap,
            },
            Error::NonUtf8Path(p) => Error::NonUtf8Path(p.clone()),
            Error::SchemaVersion { found, supported } => Error::SchemaVersion {
                found: *found,
                supported: *supported,
            },
            Error::ArtifactNotFound(t) => Error::ArtifactNotFound(t.clone()),
            Error::PolicyViolation(t) => Error::PolicyViolation(t.clone()),
            Error::Verification(t) => Error::Verification(t.clone()),
            Error::Io { path, fault, detail } => Error::Io {
                path: path.clone(),
                fault: *fault,
                detail: detail.clone(),
            },
            Error::Json { path, detail } => Error::Json {
                path: path.clone(),
                detail: detail.clone(),
            },
            Error::CaptureWorker => Error::CaptureWorker,
        }
    }
}

} // verus!
