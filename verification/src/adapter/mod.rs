//! Schema-adapter registry: version dispatch on trace open.
//!
//! Queries assume the canonical 3.x column shape (`start`/`"end"`,
//! `correlationId`, dedicated `streamId`/`contextId`). This module's job is to
//! *confirm* that shape on open via [`pick_adapter`] and refuse the trace
//! otherwise.
//!
//! Only [`StandardAdapter`] (NSys schema 3.x) is shipped; the
//! [`SchemaAdapter`] trait is the extension point.
use crate::error::{NsysDataError, NsysDataResult};
use crate::schema::TraceSchema;
use crate::text::str_eq;
use vstd::prelude::*;

pub mod traits;
pub mod v3_standard;

pub use traits::{
    get_schema_version, table_exists, AdapterMeta, AdapterStatus, MetaDataRow, SchemaAdapter,
    SchemaVersion,
};
pub use v3_standard::StandardAdapter;

verus! {

/// How an adapter was chosen.
#[derive(Debug, Clone, Copy, PartialEq, Eq, Structural)]
pub enum DetectionMethod {
    /// Schema version matched an adapter's target range and the
    /// adapter's probe confirmed feature compatibility.
    VersionMatch,
    /// Schema version was missing or unrecognised; probe alone
    /// selected the adapter.
    FeatureProbe,
}

impl DetectionMethod {
    pub fn as_str(self) -> (token: &'static str)
        ensures
            token@ == match self {
                DetectionMethod::VersionMatch => "version_match"@,
                DetectionMethod::FeatureProbe => "feature_probe"@,
            },
    {
        match self {
            DetectionMethod::VersionMatch => "version_match",
            DetectionMethod::FeatureProbe => "feature_probe",
        }
    }
}

/// Result of [`pick_adapter`]: the chosen adapter, how it was chosen, and the
/// schema version of the trace where it is known.
#[derive(Debug)]
pub struct AdapterChoice {
    pub adapter: StandardAdapter,
    pub method: DetectionMethod,
    /// Schema version read from `META_DATA_EXPORT`, when present.
    pub schema_version: Option<SchemaVersion>,
}

/// The version is one that the 3.x adapter targets.
pub open spec fn is_targeted(version: Option<SchemaVersion>) -> bool {
    version matches Some(v) && v.major == 3
}

/// Picks the schema adapter for a trace.
///
/// 1. Version dispatch: schema 3.x selects [`StandardAdapter`], confirmed by
///    its probe.
/// 2. Where the version is missing or not recognised, the probe alone decides,
///    so partial exports with the canonical 3.x columns still open.
/// 3. Otherwise the trace is refused.
pub fn pick_adapter(
    schema_version: Option<SchemaVersion>,
    schema: &TraceSchema,
) -> (choice: NsysDataResult<AdapterChoice>)
    ensures
        match choice {
            Ok(c) => {
                &&& StandardAdapter.accepts(schema)
                &&& c.schema_version == schema_version
                &&& c.method == if is_targeted(schema_version) {
                    DetectionMethod::VersionMatch
                } else {
                    DetectionMethod::FeatureProbe
                }
            },
            Err(error) => !StandardAdapter.accepts(schema) && error is SchemaAdapterUnmatched,
        },
{
    let by_version: Option<StandardAdapter> = match &schema_version {
        Some(version) => select_by_version(version),
        None => None,
    };
    if let Some(adapter) = by_version {
        if adapter.probe(schema) {
            return Ok(
                AdapterChoice { adapter, method: DetectionMethod::VersionMatch, schema_version },
            );
        }
    }
    let adapter = StandardAdapter;
    if adapter.probe(schema) {
        return Ok(
            AdapterChoice { adapter, method: DetectionMethod::FeatureProbe, schema_version },
        );
    }
    Err(NsysDataError::SchemaAdapterUnmatched)
}

/// Adapter lookup by stable id, for the id that the metadata cache keeps.
pub fn adapter_by_id(id: &str) -> (adapter: Option<StandardAdapter>)
    ensures
        adapter is Some <==> id@ == "v3_standard"@,
{
    if str_eq(id, "v3_standard") {
        Some(StandardAdapter)
    } else {
        None
    }
}

/// The adapter that targets the version.
pub fn select_by_version(version: &SchemaVersion) -> (adapter: Option<StandardAdapter>)
    ensures
        adapter is Some <==> version.major == 3,
{
    if version.major == 3 {
        Some(StandardAdapter)
    } else {
        None
    }
}

} // verus!
