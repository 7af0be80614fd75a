//! Static machine-readable protocol capability negotiation.
//!
//! Capabilities describe externally meaningful compatibility contracts. They
//! do not inspect local state, invoke Git, or establish trust in the running
//! binary.

use vstd::prelude::*;
use vstd::string::*;

use crate::idempotency::{IDEMPOTENCY_KEY_BYTES_LIMIT, IDEMPOTENCY_RECORD_SCHEMA_VERSION};
use crate::model::{BUNDLE_SCHEMA_VERSION, SCHEMA_VERSION};
use crate::validate::{
    LABEL_BYTES_LIMIT, LINKS_LIMIT, LINK_KEY_BYTES_LIMIT, LINK_VALUE_BYTES_LIMIT,
};

verus! {

/// Schema version of the static capability document.
pub const CAPABILITY_SCHEMA_VERSION: u32 = 1;

/// Version of the orchestration protocol implemented by this build.
pub const PROTOCOL_VERSION: u32 = 1;

/// Schemas supported by the current build.
#[derive(Debug, PartialEq, Eq)]
pub struct CapabilitySchemas {
    /// Durable capsule and result schemas this build reads and writes.
    pub durable_read_write: Vec<u32>,
    /// Portable result schemas accepted by receipt verification.
    pub receipt_verify: Vec<u32>,
    /// Exported bundle schemas accepted by this build.
    pub bundle: Vec<u32>,
    /// Local idempotency reservation schemas accepted by this build.
    pub idempotency_record: Vec<u32>,
}

/// Stable input limits relevant to orchestration clients.
///
/// Every `*_bytes` field is a UTF-8 byte limit. `links` is a count.
#[derive(Debug, PartialEq, Eq)]
pub struct CapabilityLimits {
    /// Maximum label length in UTF-8 bytes.
    pub label_bytes: usize,
    /// Maximum number of opaque links.
    pub links: usize,
    /// Maximum link-key length in UTF-8 bytes.
    pub link_key_bytes: usize,
    /// Maximum link-value length in UTF-8 bytes.
    pub link_value_bytes: usize,
    /// Maximum idempotency-key length in UTF-8 bytes.
    pub idempotency_key_bytes: usize,
}

/// Static compatibility contract for this build.
///
/// Consumers should require a supported protocol version and a subset of
/// feature identifiers. Unknown additive fields and feature identifiers are
/// safe to ignore.
#[derive(Debug, PartialEq, Eq)]
pub struct Capabilities {
    /// Independent schema version of this capability document.
    pub capability_schema_version: u32,
    /// Stable product identifier.
    pub product: &'static str,
    /// Informational package version; not a substitute for feature negotiation.
    pub product_version: &'static str,
    /// Orchestration protocol versions supported by this build.
    pub protocol_versions: Vec<u32>,
    /// Stable versioned machine-contract identifiers.
    pub features: Vec<&'static str>,
    /// Durable and portable schemas supported by this build.
    pub schemas: CapabilitySchemas,
    /// Stable externally relevant limits.
    pub limits: CapabilityLimits,
}

/// What each text of a row holds.
pub open spec fn names(rows: Seq<&'static str>) -> Seq<Seq<char>> {
    rows.map_values(|row: &'static str| row@)
}

/// The features of this build, in order.
pub open spec fn features_of() -> Seq<Seq<char>> {
    seq![
        "cli.structured-errors.v1"@,
        "create.v1"@,
        "create.idempotent.v1"@,
        "idempotency.lookup.v1"@,
        "recover.targeted.v1"@,
        "diff.sha256.v1"@,
        "receipt.export.v1"@,
        "receipt.verify.v1"@,
        "receipt.attest.intoto.v1"@,
        "evidence.executed.v1"@,
    ]
}

impl Capabilities {
    /// The deterministic capability document for this build.
    pub fn current() -> (r: Capabilities)
        ensures
            r.capability_schema_version == CAPABILITY_SCHEMA_VERSION,
            r.product@ == "change-capsule"@,
            r.product_version@ == "0.3.0"@,
            r.protocol_versions@ == seq![PROTOCOL_VERSION],
            names(r.features@) == features_of(),
            r.schemas.durable_read_write@ == seq![SCHEMA_VERSION],
            r.schemas.receipt_verify@ == seq![SCHEMA_VERSION],
            r.schemas.bundle@ == seq![BUNDLE_SCHEMA_VERSION],
            r.schemas.idempotency_record@ == seq![IDEMPOTENCY_RECORD_SCHEMA_VERSION],
            r.limits == (CapabilityLimits {
                label_bytes: LABEL_BYTES_LIMIT,
                links: LINKS_LIMIT,
                link_key_bytes: LINK_KEY_BYTES_LIMIT,
                link_value_bytes: LINK_VALUE_BYTES_LIMIT,
                idempotency_key_bytes: IDEMPOTENCY_KEY_BYTES_LIMIT,
            }),
    {
        let features: Vec<&'static str> = vec![
            "cli.structured-errors.v1",
            "create.v1",
            "create.idempotent.v1",
            "idempotency.lookup.v1",
            "recover.targeted.v1",
            "diff.sha256.v1",
            "receipt.export.v1",
            "receipt.verify.v1",
            "receipt.attest.intoto.v1",
            "evidence.executed.v1",
        ];
        proof {
            assert(names(features@) =~= features_of());
        }
        Capabilities {
            capability_schema_version: CAPABILITY_SCHEMA_VERSION,
            product: "change-capsule",
            product_version: "0.3.0",
            protocol_versions: vec![PROTOCOL_VERSION],
            features,
            schemas: CapabilitySchemas {
                durable_read_write: vec![SCHEMA_VERSION],
                receipt_verify: vec![SCHEMA_VERSION],
                bundle: vec![BUNDLE_SCHEMA_VERSION],
                idempotency_record: vec![IDEMPOTENCY_RECORD_SCHEMA_VERSION],
            },
            limits: CapabilityLimits {
                label_bytes: LABEL_BYTES_LIMIT,
                links: LINKS_LIMIT,
                link_key_bytes: LINK_KEY_BYTES_LIMIT,
                link_value_bytes: LINK_VALUE_BYTES_LIMIT,
                idempotency_key_bytes: IDEMPOTENCY_KEY_BYTES_LIMIT,
            },
        }
    }
}

} // verus!
