//! Schema-adapter trait and shared types.
//!
//! Different NSys releases use slightly different export schemas.
//! [`SchemaAdapter`] is the version-dispatch surface: every adapter
//! declares static [`AdapterMeta`] and implements a cheap probe of the
//! trace's tables. [`super::pick_adapter`] picks the matching adapter.
use crate::schema::TraceSchema;
use crate::text::{copied_text, decimal, parse_unsigned, parsed_unsigned, str_eq, u64_text};
use vstd::prelude::*;
use vstd::string::StringExecFns;

verus! {

/// Metadata describing a schema adapter.
#[derive(Debug, Clone, Copy)]
pub struct AdapterMeta {
    /// Stable identifier. Persisted in the metadata cache so warm
    /// calls can skip the probe.
    pub id: &'static str,
    /// Human-readable name (`"Standard Schema (3.x)"`, ...).
    pub display_name: &'static str,
    /// One-line description of what the adapter looks for during probe.
    pub match_criteria: &'static str,
    /// Approximate NSys product versions the adapter targets. Free-text
    /// because NSys versioning isn't strictly semantic.
    pub target_versions: &'static str,
    /// Stability tier.
    pub status: AdapterStatus,
}

/// Adapter compatibility tier.
#[derive(Debug, Clone, Copy, PartialEq, Eq, Structural)]
pub enum AdapterStatus {
    Stable,
    Beta,
}

impl AdapterStatus {
    /// Lowercase token. Used for log output so operators can
    /// string-grep without rendering.
    pub fn as_str(self) -> (token: &'static str)
        ensures
            token@ == match self {
                AdapterStatus::Stable => "stable"@,
                AdapterStatus::Beta => "beta"@,
            },
    {
        match self {
            AdapterStatus::Stable => "stable",
            AdapterStatus::Beta => "beta",
        }
    }
}

/// Schema-version triple parsed from `META_DATA_EXPORT`.
#[derive(Debug)]
pub struct SchemaVersion {
    pub major: u32,
    pub minor: u32,
    pub micro: u32,
    /// `EXPORT_PRODUCT_VERSION`, e.g. `"2025.4.1.136"`. Optional
    /// because not every export sets it.
    pub product_version: Option<String>,
    /// `EXPORT_PRODUCT_DATE`, e.g. `"2025.4"`.
    pub product_date: Option<String>,
}

impl SchemaVersion {
    /// `(major, minor)` is `(m, n)` or later.
    pub fn at_least(&self, major: u32, minor: u32) -> (b: bool)
        ensures
            b == (self.major > major || (self.major == major && self.minor >= minor)),
    {
        self.major > major || (self.major == major && self.minor >= minor)
    }

    /// A copy of the version.
    pub fn copied(&self) -> (copy: SchemaVersion)
        ensures
            copy == *self,
    {
        SchemaVersion {
            major: self.major,
            minor: self.minor,
            micro: self.micro,
            product_version: copied_text(&self.product_version),
            product_date: copied_text(&self.product_date),
        }
    }

    /// The version as text: `3.22.1`, and the product version where it is
    /// known.
    pub open spec fn text(&self) -> Seq<char> {
        let triple = decimal(self.major as int) + "."@ + decimal(self.minor as int) + "."@
            + decimal(self.micro as int);
        match self.product_version {
            Some(p) => triple + " (NSys "@ + p@ + ")"@,
            None => triple,
        }
    }

    /// The version as text.
    pub fn to_text(&self) -> (text: String)
        ensures
            text@ == self.text(),
    {
        let mut text = u64_text(self.major as u64);
        text.append(".");
        text.append(u64_text(self.minor as u64).as_str());
        text.append(".");
        text.append(u64_text(self.micro as u64).as_str());
        if let Some(p) = &self.product_version {
            text.append(" (NSys ");
            text.append(p.as_str());
            text.append(")");
        }
        text
    }
}

/// The adapter contract.
pub trait SchemaAdapter {
    /// The adapter can handle a trace with these tables.
    spec fn accepts(&self, schema: &TraceSchema) -> bool;

    /// Static metadata. Always returns the same value for a given impl.
    fn metadata(&self) -> AdapterMeta;

    /// Whether the adapter can handle a trace with these tables.
    fn probe(&self, schema: &TraceSchema) -> (b: bool)
        ensures
            b == self.accepts(schema),
    ;
}

/// Whether the trace has the table.
pub fn table_exists(schema: &TraceSchema, table: &str) -> (b: bool)
    ensures
        b == schema.has(table@),
{
    schema.has_table(table)
}

/// One row of `META_DATA_EXPORT`.
#[derive(Debug)]
pub struct MetaDataRow {
    pub name: String,
    pub value: String,
}

/// The value of the last of the first `n` rows with the name; rows with an
/// empty value do not count where `non_empty` is set.
pub open spec fn last_value(
    rows: Seq<MetaDataRow>,
    name: Seq<char>,
    non_empty: bool,
    n: nat,
) -> Option<Seq<char>>
    decreases n,
{
    if n == 0 {
        None
    } else if rows[n - 1].name@ == name && !(non_empty && rows[n - 1].value@.len() == 0) {
        Some(rows[n - 1].value@)
    } else {
        last_value(rows, name, non_empty, (n - 1) as nat)
    }
}

/// The number in the last row with the name.
pub open spec fn version_part(rows: Seq<MetaDataRow>, name: Seq<char>, n: nat) -> Option<u32> {
    match last_value(rows, name, false, n) {
        Some(value) => match parsed_unsigned(value, u32::MAX as nat) {
            Some(part) => Some(part as u32),
            None => None,
        },
        None => None,
    }
}

/// The optional text holds these characters.
pub open spec fn is_optional_text(text: Option<String>, value: Option<Seq<char>>) -> bool {
    match value {
        Some(v) => text matches Some(t) && t@ == v,
        None => text is None,
    }
}

fn parsed_part(value: &str) -> (part: Option<u32>)
    ensures
        part == match parsed_unsigned(value@, u32::MAX as nat) {
            Some(n) => Some(n as u32),
            None => None,
        },
{
    match parse_unsigned(value, 0xffff_ffff) {
        Ok(n) => Some(n as u32),
        Err(_) => None,
    }
}

/// Parses the `EXPORT_SCHEMA_VERSION_*` rows of `META_DATA_EXPORT`. Gives
/// `None` when the table is absent (some very old exports) or when one of the
/// major/minor/micro keys is missing or no number.
///
/// Product version and date are best-effort.
pub fn get_schema_version(rows: Option<&Vec<MetaDataRow>>) -> (version: Option<SchemaVersion>)
    ensures
        match rows {
            None => version is None,
            Some(list) => {
                let n = list@.len();
                let major = version_part(list@, "EXPORT_SCHEMA_VERSION_MAJOR"@, n);
                let minor = version_part(list@, "EXPORT_SCHEMA_VERSION_MINOR"@, n);
                let micro = version_part(list@, "EXPORT_SCHEMA_VERSION_MICRO"@, n);
                if major is Some && minor is Some && micro is Some {
                    version matches Some(v) && v.major == major->0 && v.minor == minor->0
                        && v.micro == micro->0 && is_optional_text(
                        v.product_version,
                        last_value(list@, "EXPORT_PRODUCT_VERSION"@, true, n),
                    ) && is_optional_text(
                        v.product_date,
                        last_value(list@, "EXPORT_PRODUCT_DATE"@, true, n),
                    )
                } else {
                    version is None
                }
            },
        },
{
    let rows = match rows {
        Some(rows) => rows,
        None => {
            return None;
        },
    };
    proof {
        reveal_strlit("EXPORT_SCHEMA_VERSION_MAJOR");
        reveal_strlit("EXPORT_SCHEMA_VERSION_MINOR");
        reveal_strlit("EXPORT_SCHEMA_VERSION_MICRO");
        reveal_strlit("EXPORT_PRODUCT_VERSION");
        reveal_strlit("EXPORT_PRODUCT_DATE");
    }
    let ghost k_major = "EXPORT_SCHEMA_VERSION_MAJOR"@;
    let ghost k_minor = "EXPORT_SCHEMA_VERSION_MINOR"@;
    let ghost k_micro = "EXPORT_SCHEMA_VERSION_MICRO"@;
    let ghost k_version = "EXPORT_PRODUCT_VERSION"@;
    let ghost k_date = "EXPORT_PRODUCT_DATE"@;
    assert(k_major[24] != k_minor[24] && k_major[23] != k_micro[23] && k_minor[24] != k_micro[24]);
    assert(k_major.len() == 27 && k_minor.len() == 27 && k_micro.len() == 27);
    assert(k_version.len() == 22 && k_date.len() == 19);
    let mut major: Option<u32> = None;
    let mut minor: Option<u32> = None;
    let mut micro: Option<u32> = None;
    let mut product_version: Option<String> = None;
    let mut product_date: Option<String> = None;
    let mut i: usize = 0;
    while i < rows.len()
        invariant
            i <= rows.len(),
            k_major == "EXPORT_SCHEMA_VERSION_MAJOR"@,
            k_minor == "EXPORT_SCHEMA_VERSION_MINOR"@,
            k_micro == "EXPORT_SCHEMA_VERSION_MICRO"@,
            k_version == "EXPORT_PRODUCT_VERSION"@,
            k_date == "EXPORT_PRODUCT_DATE"@,
            k_major != k_minor,
            k_major != k_micro,
            k_minor != k_micro,
            k_major.len() == 27 && k_minor.len() == 27 && k_micro.len() == 27,
            k_version.len() == 22 && k_date.len() == 19,
            major == version_part(rows@, k_major, i as nat),
            minor == version_part(rows@, k_minor, i as nat),
            micro == version_part(rows@, k_micro, i as nat),
            is_optional_text(product_version, last_value(rows@, k_version, true, i as nat)),
            is_optional_text(product_date, last_value(rows@, k_date, true, i as nat)),
        decreases rows.len() - i,
    {
        let name = rows[i].name.as_str();
        let value = rows[i].value.as_str();
        if str_eq(name, "EXPORT_SCHEMA_VERSION_MAJOR") {
            major = parsed_part(value);
        } else if str_eq(name, "EXPORT_SCHEMA_VERSION_MINOR") {
            minor = parsed_part(value);
        } else if str_eq(name, "EXPORT_SCHEMA_VERSION_MICRO") {
            micro = parsed_part(value);
        } else if str_eq(name, "EXPORT_PRODUCT_VERSION") {
            if !value.is_empty() {
                product_version = Some(value.to_owned());
            }
        } else if str_eq(name, "EXPORT_PRODUCT_DATE") {
            if !value.is_empty() {
                product_date = Some(value.to_owned());
            }
        }
        i = i + 1;
    }
    match (major, minor, micro) {
        (Some(major), Some(minor), Some(micro)) => Some(
            SchemaVersion { major, minor, micro, product_version, product_date },
        ),
        _ => None,
    }
}

} // verus!
