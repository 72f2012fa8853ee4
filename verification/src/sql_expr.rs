//! DuckDB SQL snippets for NSys parquet integer boundary handling.
//!
//! NSys parquetdir exports preserve unsigned physical types for some
//! opaque identifiers (`globalTid`, `globalVid`, `vmId`,
//! `correlationId`, ...). DuckDB refuses a plain `CAST(x AS BIGINT)`
//! when a `UBIGINT` value has the high bit set, while sidecars store
//! `globalTid`-style bitfields as `i64` with the same two's-complement bit
//! pattern. That conversion is explicit at the SQL boundary.
use vstd::prelude::*;
use vstd::string::StringExecFns;

verus! {

/// SQL that reads `expr` as a signed 64-bit integer.
pub open spec fn u64_bits_to_i64_text(expr: Seq<char>) -> Seq<char> {
    "CASE WHEN "@
        + expr
        + " IS NULL THEN NULL WHEN CAST("@
        + expr
        + " AS HUGEINT) > 9223372036854775807 THEN CAST(CAST("@
        + expr
        + " AS HUGEINT) - 18446744073709551616 AS BIGINT) ELSE CAST("@
        + expr
        + " AS BIGINT) END"@
}

/// Interpret an unsigned-or-signed 64-bit SQL expression as an `i64`
/// with the same bit pattern.
///
/// The expression is intended for static internal column references,
/// never user input. NULL stays NULL.
pub fn u64_bits_to_i64(expr: &str) -> (text: String)
    ensures
        text@ == u64_bits_to_i64_text(expr@),
{
    let mut text = "CASE WHEN ".to_owned();
    text.append(expr);
    text.append(" IS NULL THEN NULL WHEN CAST(");
    text.append(expr);
    text.append(" AS HUGEINT) > 9223372036854775807 THEN CAST(CAST(");
    text.append(expr);
    text.append(" AS HUGEINT) - 18446744073709551616 AS BIGINT) ELSE CAST(");
    text.append(expr);
    text.append(" AS BIGINT) END");
    text
}

/// SQL that reads `expr` as text.
pub open spec fn u64_decimal_string_text(expr: Seq<char>) -> Seq<char> {
    "CAST("@
        + expr
        + " AS VARCHAR)"@
}

/// Project a SQL expression as an unsigned decimal string.
///
/// Use this for opaque identifiers that are `u64` on the Rust side
/// (`globalVid`, `vmId`, NIC GUIDs). Reading them through
/// `String` avoids driver-level signed narrowing.
pub fn u64_decimal_string(expr: &str) -> (text: String)
    ensures
        text@ == u64_decimal_string_text(expr@),
{
    let mut text = "CAST(".to_owned();
    text.append(expr);
    text.append(" AS VARCHAR)");
    text
}

} // verus!
