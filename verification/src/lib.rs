//! Isolated, recoverable code-change attempts backed by ordinary Git worktrees,
//! sealed into portable receipts that can be verified anywhere.
//!
//! # Model
//!
//! A *capsule* is one attempt at a change. It pins an exact base commit, owns an
//! ordinary Git worktree on its own branch, and records everything needed to
//! review the attempt later: checkpoints, verification evidence, a complete
//! patch, the paths it changes, and content digests.
//!
//! Closing a capsule *seals* it. Later changes to its workspace are drift, and
//! drift blocks integration and ordinary cleanup. Integration is explicit and
//! needs a clean target that is still at the pinned base.
//!
//! # Receipts
//!
//! A sealed result is exported as a directory of `bundle.json`, `result.json`
//! and `result.patch`. [`verify_bundle`] checks it again without any capsule
//! state, and, given a repository, that the sealed patch applied to the pinned
//! base gives exactly the sealed bytes and paths. [`receipts`] states that what
//! is closed and exported here passes that check.
//!
//! # Decisions and effects
//!
//! This crate decides; it runs no process and touches no file. What was read
//! from Git and from disk comes in as plain values, and where a read failed the
//! value is the error, so that which failure counts first is decided here too.
//! What is to be done comes out as a value. Every decision carries its exact
//! contract; the contracts speak of the records and bytes themselves. [`calls`]
//! states what calls made one after the other give together.
//!
//! The few computations taken from other crates, such as digests and
//! signatures, stand in [`digest`], [`signature`], [`store`] and [`create`], each
//! behind one function that says what is relied on; [`digest`] and [`text`] do the
//! same for text conversions of the standard library.

pub mod admission;
pub mod artifacts;
pub mod attestation;
pub mod audit;
pub mod backup;
pub mod bytes;
pub mod calls;
pub mod capabilities;
pub mod checkpoint;
pub mod cleanup;
pub mod close;
pub mod commands;
pub mod create;
pub mod digest;
pub mod error;
pub mod evidence;
pub mod execution;
pub mod files;
pub mod git;
pub mod git_path;
pub mod idempotency;
pub mod integrate;
pub mod inventory;
pub mod laws;
pub mod links;
pub mod manager;
pub mod metrics;
pub mod model;
pub mod options;
pub mod order;
pub mod paths;
pub mod policy;
pub mod query;
pub mod receipts;
pub mod record;
pub mod recording;
pub mod recover;
pub mod runs;
pub mod signature;
pub mod steps;
pub mod store;
pub mod text;
pub mod validate;
pub mod verify;
pub mod walk;
pub mod worktree;

pub use artifacts::{ArtifactReader, ArtifactSink, PublishedArtifact};
pub use attestation::{
    attest_bundle, change_statement, ChangePredicate, ProofBoundary, RecordedEvidence,
    ResourceDescriptor, Statement, CHANGE_PREDICATE_TYPE, IN_TOTO_STATEMENT_TYPE,
};
pub use capabilities::{Capabilities, CapabilityLimits, CapabilitySchemas};
pub use error::{Error, IoFault, Result};
pub use git_path::GitPath;
pub use idempotency::{IdempotencyLookup, IdempotencyRecordInspection, IdempotencyStatus};
pub use links::Links;
pub use manager::CapsuleManager;
pub use model::{
    ArtifactBundle, ArtifactDescriptor, ArtifactKind, AuditEvent, AuditEventKind, BackupReport,
    Capsule, CapsuleHealth, CapsuleListing, CapsuleResult, CapsuleState, CapsuleStatus,
    CapsuleSummary, Checkpoint, CheckpointJournal, Cleanup, Evidence, ExportReport, Integration,
    MetricsSnapshot, RecoveryAction, ResultKind, ResultRef, StateInspection,
    StateRecordInspection, VerificationReport, AUDIT_SCHEMA_VERSION, BUNDLE_SCHEMA_VERSION,
    HARD_PATCH_BYTES, SCHEMA_VERSION,
};
pub use options::{
    Author, CheckpointOptions, CloseOptions, CreateOptions, EvidenceInput, IntegrateOptions,
};
pub use paths::NativePath;
pub use policy::{Policy, PolicyReport, POLICY_SCHEMA_VERSION};
pub use signature::{
    bundle_signature_commitment, derive_public_key, generate_keypair, sign_bundle,
    sign_bundle_bytes, verify_bundle_signature, verify_bundle_signature_bytes, GeneratedKeypair,
};
pub use store::default_state_root;
pub use verify::{verify_authenticated_bundle, verify_bundle, VerifyOptions};
