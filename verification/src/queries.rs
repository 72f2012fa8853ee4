//! The queries over a trace's tables.
//!
//! What a query returns is read by the caller; the rest of the library works
//! on the rows.
use crate::schema::TraceSchema;
use crate::sql_expr::{
    u64_bits_to_i64, u64_bits_to_i64_text, u64_decimal_string, u64_decimal_string_text,
};
use crate::text::{decimal, i64_text, join, joined, strings};
use vstd::prelude::*;
use vstd::string::StringExecFns;

verus! {

/// The ids, with commas between them.
pub open spec fn id_list(ids: Seq<i64>) -> Seq<char> {
    joined(ids.map_values(|id: i64| decimal(id as int)), ", "@)
}

/// The ids, with commas between them.
pub fn id_list_sql(ids: &Vec<i64>) -> (text: String)
    ensures
        text@ == id_list(ids@),
{
    let mut parts: Vec<String> = Vec::with_capacity(ids.len());
    let mut i: usize = 0;
    while i < ids.len()
        invariant
            i <= ids.len(),
            parts.len() == i,
            forall|x: int| 0 <= x < i ==> (#[trigger] parts@[x])@ == decimal(ids@[x] as int),
        decreases ids.len() - i,
    {
        parts.push(i64_text(ids[i]));
        i = i + 1;
    }
    assert(strings(parts@) =~= ids@.map_values(|id: i64| decimal(id as int)));
    join(&parts, ", ")
}

/// The names as SQL literals, with commas between them.
pub open spec fn name_list(names: Seq<Seq<char>>) -> Seq<char> {
    joined(names.map_values(|name: Seq<char>| "'"@ + name + "'"@), ", "@)
}

/// The names as SQL literals, with commas between them. The names are fixed in
/// this library and hold no quotes.
pub fn name_list_sql(names: &[&str]) -> (text: String)
    ensures
        text@ == name_list(names@.map_values(|n: &str| n@)),
{
    let ghost wanted = names@.map_values(|n: &str| n@);
    let mut parts: Vec<String> = Vec::with_capacity(names.len());
    let mut i: usize = 0;
    while i < names.len()
        invariant
            i <= names.len(),
            wanted == names@.map_values(|n: &str| n@),
            parts.len() == i,
            forall|x: int| 0 <= x < i ==> (#[trigger] parts@[x])@ == "'"@ + wanted[x] + "'"@,
        decreases names.len() - i,
    {
        let mut part = "'".to_owned();
        part.append(names[i]);
        part.append("'");
        parts.push(part);
        i = i + 1;
    }
    assert(strings(parts@) =~= wanted.map_values(|name: Seq<char>| "'"@ + name + "'"@));
    join(&parts, ", ")
}

/// SQL for the ids of the event types with these names.
pub fn event_type_ids_sql(names: &[&str]) -> (text: String)
    ensures
        text@ == "SELECT CAST(id AS BIGINT) FROM nsight.ENUM_NSYS_EVENT_TYPE WHERE name IN ("@
            + name_list(names@.map_values(|n: &str| n@)) + ")"@,
{
    let mut text =
        "SELECT CAST(id AS BIGINT) FROM nsight.ENUM_NSYS_EVENT_TYPE WHERE name IN (".to_owned();
    text.append(name_list_sql(names).as_str());
    text.append(")");
    text
}

/// SQL for the ids of the event types of true ranges.
///
/// Domain registrations and marks carry a start too; they are no ranges.
pub fn range_type_ids_sql() -> (text: String)
    ensures
        text@ == "SELECT CAST(id AS BIGINT) FROM nsight.ENUM_NSYS_EVENT_TYPE WHERE name IN ("@
            + name_list(
            seq![
                "NvtxPushPopRange"@,
                "NvtxStartEndRange"@,
                "NvtxtPushPopRange"@,
                "NvtxtStartEndRange"@,
            ],
        ) + ")"@,
{
    let names: [&str; 4] = [
        "NvtxPushPopRange",
        "NvtxStartEndRange",
        "NvtxtPushPopRange",
        "NvtxtStartEndRange",
    ];
    assert(names@.map_values(|n: &str| n@) =~= seq![
        "NvtxPushPopRange"@,
        "NvtxStartEndRange"@,
        "NvtxtPushPopRange"@,
        "NvtxtStartEndRange"@,
    ]);
    event_type_ids_sql(&names)
}

/// SQL for the ids of the event types of domain registrations.
pub fn domain_type_ids_sql() -> (text: String)
    ensures
        text@ == "SELECT CAST(id AS BIGINT) FROM nsight.ENUM_NSYS_EVENT_TYPE WHERE name IN ("@
            + name_list(seq!["NvtxDomainCreate"@]) + ")"@,
{
    let names: [&str; 1] = ["NvtxDomainCreate"];
    assert(names@.map_values(|n: &str| n@) =~= seq!["NvtxDomainCreate"@]);
    event_type_ids_sql(&names)
}

/// The ids of true ranges where the trace has no catalog of event types.
pub open spec fn default_range_ids() -> Seq<i64> {
    seq![59, 60, 70, 71]
}

/// The ids of domain registrations where the trace has no catalog of event
/// types.
pub open spec fn default_domain_ids() -> Seq<i64> {
    seq![75]
}

/// Those of the first `n` ids that are there.
pub open spec fn known_ids(ids: Seq<Option<i64>>, n: nat) -> Seq<i64>
    decreases n,
{
    if n == 0 {
        seq![]
    } else {
        match ids[n - 1] {
            Some(id) => known_ids(ids, (n - 1) as nat).push(id),
            None => known_ids(ids, (n - 1) as nat),
        }
    }
}

/// The ids that the catalog gives, where it gives any; the defaults elsewhere.
pub open spec fn ids_or(ids: Option<Seq<Option<i64>>>, defaults: Seq<i64>) -> Seq<i64> {
    match ids {
        Some(ids) => if known_ids(ids, ids.len()).len() > 0 {
            known_ids(ids, ids.len())
        } else {
            defaults
        },
        None => defaults,
    }
}

/// The ids of event types that are looked up by name in the trace's own
/// catalog, so that a renumbering is followed.
///
/// `found` is what the catalog gave, `None` where the trace has no catalog or
/// it could not be read. A null id is skipped: it must not discard the others.
pub fn nvtx_event_type_ids(found: Option<&Vec<Option<i64>>>, default_ids: &Vec<i64>) -> (ids: Vec<
    i64,
>)
    ensures
        ids@ == ids_or(
            match found {
                Some(list) => Some(list@),
                None => None,
            },
            default_ids@,
        ),
{
    let mut ids: Vec<i64> = Vec::new();
    if let Some(list) = found {
        let mut i: usize = 0;
        while i < list.len()
            invariant
                i <= list.len(),
                ids@ == known_ids(list@, i as nat),
            decreases list.len() - i,
        {
            if let Some(id) = list[i] {
                ids.push(id);
            }
            i = i + 1;
        }
    }
    if ids.len() > 0 {
        return ids;
    }
    let mut defaults: Vec<i64> = Vec::with_capacity(default_ids.len());
    let mut i: usize = 0;
    while i < default_ids.len()
        invariant
            i <= default_ids.len(),
            defaults@ =~= default_ids@.take(i as int),
        decreases default_ids.len() - i,
    {
        defaults.push(default_ids[i]);
        i = i + 1;
    }
    assert(defaults@ =~= default_ids@);
    defaults
}

/// The ids of true ranges.
pub fn range_type_ids(found: Option<&Vec<Option<i64>>>) -> (ids: Vec<i64>)
    ensures
        ids@ == ids_or(
            match found {
                Some(list) => Some(list@),
                None => None,
            },
            default_range_ids(),
        ),
{
    let mut defaults: Vec<i64> = Vec::new();
    defaults.push(59);
    defaults.push(60);
    defaults.push(70);
    defaults.push(71);
    assert(defaults@ =~= default_range_ids());
    nvtx_event_type_ids(found, &defaults)
}

/// The ids of domain registrations.
pub fn domain_type_ids(found: Option<&Vec<Option<i64>>>) -> (ids: Vec<i64>)
    ensures
        ids@ == ids_or(
            match found {
                Some(list) => Some(list@),
                None => None,
            },
            default_domain_ids(),
        ),
{
    let mut defaults: Vec<i64> = Vec::new();
    defaults.push(75);
    assert(defaults@ =~= default_domain_ids());
    nvtx_event_type_ids(found, &defaults)
}

/// SQL for the ranges of the NVTX tree.
pub open spec fn tree_rows_text(range_ids: Seq<i64>) -> Seq<char> {
    "SELECT n.rowid, n.start, n.\"end\", "@
        + u64_bits_to_i64_text("n.globalTid"@)
        + ", COALESCE(n.domainId, 0) AS domain_id, COALESCE(n.text, s.value, '') AS name \
        FROM nsight.NVTX_EVENTS n LEFT JOIN nsight.StringIds s ON n.textId = s.id \
        WHERE n.start IS NOT NULL AND n.globalTid IS NOT NULL AND n.eventType IN ("@
        + id_list(range_ids)
        + ")"@
}

/// SQL for the ranges of the NVTX tree.
pub fn tree_rows_sql(range_ids: &Vec<i64>) -> (text: String)
    ensures
        text@ == tree_rows_text(range_ids@),
{
    let mut text = "SELECT n.rowid, n.start, n.\"end\", ".to_owned();
    text.append(u64_bits_to_i64("n.globalTid").as_str());
    text.append(", COALESCE(n.domainId, 0) AS domain_id, COALESCE(n.text, s.value, '') AS name \
        FROM nsight.NVTX_EVENTS n LEFT JOIN nsight.StringIds s ON n.textId = s.id \
        WHERE n.start IS NOT NULL AND n.globalTid IS NOT NULL AND n.eventType IN (");
    text.append(id_list_sql(range_ids).as_str());
    text.append(")");
    text
}

/// SQL for the rows of the NVTX nesting map.
pub open spec fn nesting_rows_text() -> Seq<char> {
    "SELECT n.rowid, n.start, n.\"end\", "@
        + u64_bits_to_i64_text("n.globalTid"@)
        + ", COALESCE(n.domainId, 0) AS domain_id, COALESCE(n.text, s.value, '') AS name \
        FROM nsight.NVTX_EVENTS n LEFT JOIN nsight.StringIds s ON n.textId = s.id \
        WHERE n.start IS NOT NULL"@
}

/// SQL for the rows of the NVTX nesting map.
pub fn nesting_rows_sql() -> (text: String)
    ensures
        text@ == nesting_rows_text(),
{
    let mut text = "SELECT n.rowid, n.start, n.\"end\", ".to_owned();
    text.append(u64_bits_to_i64("n.globalTid").as_str());
    text.append(", COALESCE(n.domainId, 0) AS domain_id, COALESCE(n.text, s.value, '') AS name \
        FROM nsight.NVTX_EVENTS n LEFT JOIN nsight.StringIds s ON n.textId = s.id \
        WHERE n.start IS NOT NULL");
    text
}

/// SQL for the closed NVTX ranges that runtime calls are attributed to.
pub open spec fn parent_rows_text() -> Seq<char> {
    "SELECT n.rowid, n.start, n.\"end\", "@
        + u64_bits_to_i64_text("n.globalTid"@)
        + ", COALESCE(n.text, s.value, '<unnamed>') AS name FROM nsight.NVTX_EVENTS n \
        LEFT JOIN nsight.StringIds s ON n.textId = s.id WHERE n.\"end\" IS NOT NULL \
        AND n.globalTid IS NOT NULL AND n.start IS NOT NULL"@
}

/// SQL for the closed NVTX ranges that runtime calls are attributed to.
pub fn parent_rows_sql() -> (text: String)
    ensures
        text@ == parent_rows_text(),
{
    let mut text = "SELECT n.rowid, n.start, n.\"end\", ".to_owned();
    text.append(u64_bits_to_i64("n.globalTid").as_str());
    text.append(", COALESCE(n.text, s.value, '<unnamed>') AS name FROM nsight.NVTX_EVENTS n \
        LEFT JOIN nsight.StringIds s ON n.textId = s.id WHERE n.\"end\" IS NOT NULL \
        AND n.globalTid IS NOT NULL AND n.start IS NOT NULL");
    text
}

/// SQL for the runtime calls that are attributed to NVTX ranges.
pub open spec fn runtime_rows_text() -> Seq<char> {
    "SELECT t.rowid, t.correlationId, CAST(((t.globalTid >> 24) & 16777215) AS \
        BIGINT) AS native_pid, "@
        + u64_bits_to_i64_text("t.globalTid"@)
        + ", t.start, t.\"end\" FROM nsight.CUPTI_ACTIVITY_KIND_RUNTIME t WHERE t.\"end\" \
        IS NOT NULL AND t.globalTid IS NOT NULL"@
}

/// SQL for the runtime calls that are attributed to NVTX ranges.
pub fn runtime_rows_sql() -> (text: String)
    ensures
        text@ == runtime_rows_text(),
{
    let mut text = "SELECT t.rowid, t.correlationId, CAST(((t.globalTid >> 24) & 16777215) AS \
        BIGINT) AS native_pid, ".to_owned();
    text.append(u64_bits_to_i64("t.globalTid").as_str());
    text.append(", t.start, t.\"end\" FROM nsight.CUPTI_ACTIVITY_KIND_RUNTIME t WHERE t.\"end\" \
        IS NOT NULL AND t.globalTid IS NOT NULL");
    text
}

/// SQL for the NVTX domains that were registered.
pub open spec fn domain_rows_text(create_ids: Seq<i64>) -> Seq<char> {
    "SELECT "@
        + u64_bits_to_i64_text("n.globalTid"@)
        + ", CAST(n.domainId AS BIGINT), COALESCE(n.text, s.value) FROM \
        nsight.NVTX_EVENTS n LEFT JOIN nsight.StringIds s ON n.textId = s.id WHERE \
        n.eventType IN ("@
        + id_list(create_ids)
        + ") AND n.globalTid IS NOT NULL AND COALESCE(n.text, s.value) IS NOT NULL"@
}

/// SQL for the NVTX domains that were registered.
pub fn domain_rows_sql(create_ids: &Vec<i64>) -> (text: String)
    ensures
        text@ == domain_rows_text(create_ids@),
{
    let mut text = "SELECT ".to_owned();
    text.append(u64_bits_to_i64("n.globalTid").as_str());
    text.append(", CAST(n.domainId AS BIGINT), COALESCE(n.text, s.value) FROM \
        nsight.NVTX_EVENTS n LEFT JOIN nsight.StringIds s ON n.textId = s.id WHERE \
        n.eventType IN (");
    text.append(id_list_sql(create_ids).as_str());
    text.append(") AND n.globalTid IS NOT NULL AND COALESCE(n.text, s.value) IS NOT NULL");
    text
}

/// SQL for the correlated rows of a GPU activity table.
pub open spec fn correlated_rows_text(table: Seq<char>) -> Seq<char> {
    "SELECT rowid, correlationId, deviceId, contextId FROM nsight."@
        + table
        + " WHERE correlationId IS NOT NULL"@
}

/// SQL for the correlated rows of a GPU activity table.
pub fn correlated_rows_sql(table: &str) -> (text: String)
    ensures
        text@ == correlated_rows_text(table@),
{
    let mut text = "SELECT rowid, correlationId, deviceId, contextId FROM nsight.".to_owned();
    text.append(table);
    text.append(" WHERE correlationId IS NOT NULL");
    text
}

/// SQL for the correlated runtime calls.
pub open spec fn correlated_calls_text() -> Seq<char> {
    "SELECT rowid, correlationId, "@
        + u64_bits_to_i64_text("globalTid"@)
        + " FROM nsight.CUPTI_ACTIVITY_KIND_RUNTIME WHERE correlationId IS NOT NULL AND \
        globalTid IS NOT NULL"@
}

/// SQL for the correlated runtime calls.
pub fn correlated_calls_sql() -> (text: String)
    ensures
        text@ == correlated_calls_text(),
{
    let mut text = "SELECT rowid, correlationId, ".to_owned();
    text.append(u64_bits_to_i64("globalTid").as_str());
    text.append(" FROM nsight.CUPTI_ACTIVITY_KIND_RUNTIME WHERE correlationId IS NOT NULL AND \
        globalTid IS NOT NULL");
    text
}

/// SQL for when correlated runtime calls started and ended.
pub open spec fn runtime_anchors_text() -> Seq<char> {
    "SELECT CAST(correlationId AS BIGINT), "@
        + u64_bits_to_i64_text("globalTid"@)
        + ", CAST(start AS BIGINT), CAST(COALESCE(\"end\", start) AS BIGINT) FROM \
        nsight.CUPTI_ACTIVITY_KIND_RUNTIME WHERE correlationId IS NOT NULL AND \
        globalTid IS NOT NULL"@
}

/// SQL for when correlated runtime calls started and ended.
pub fn runtime_anchors_sql() -> (text: String)
    ensures
        text@ == runtime_anchors_text(),
{
    let mut text = "SELECT CAST(correlationId AS BIGINT), ".to_owned();
    text.append(u64_bits_to_i64("globalTid").as_str());
    text.append(", CAST(start AS BIGINT), CAST(COALESCE(\"end\", start) AS BIGINT) FROM \
        nsight.CUPTI_ACTIVITY_KIND_RUNTIME WHERE correlationId IS NOT NULL AND \
        globalTid IS NOT NULL");
    text
}

/// SQL for the correlated rows of a GPU activity table, with the process expression.
pub open spec fn activity_owner_text(table: Seq<char>, global_pid: Seq<char>) -> Seq<char> {
    "SELECT CAST(correlationId AS BIGINT), CAST(deviceId AS INTEGER), \
        CAST(contextId AS BIGINT), CAST(start AS BIGINT), "@
        + global_pid
        + " FROM nsight."@
        + table
        + " WHERE correlationId IS NOT NULL"@
}

/// SQL for the correlated rows of a GPU activity table, with the process expression.
pub fn activity_owner_sql(table: &str, global_pid: &str) -> (text: String)
    ensures
        text@ == activity_owner_text(table@, global_pid@),
{
    let mut text = "SELECT CAST(correlationId AS BIGINT), CAST(deviceId AS INTEGER), \
        CAST(contextId AS BIGINT), CAST(start AS BIGINT), ".to_owned();
    text.append(global_pid);
    text.append(" FROM nsight.");
    text.append(table);
    text.append(" WHERE correlationId IS NOT NULL");
    text
}

/// SQL for the correlated rows of a GPU activity table. The process is read
/// from the row where the table has it.
pub fn activity_rows_sql(schema: &TraceSchema, table: &str) -> (text: String)
    ensures
        text@ == activity_owner_text(
            table@,
            if schema.has_column(table@, "globalPid"@) {
                "CAST(globalPid AS BIGINT)"@
            } else {
                "CAST(NULL AS BIGINT)"@
            },
        ),
{
    if schema.table_has_column(table, "globalPid") {
        activity_owner_sql(table, "CAST(globalPid AS BIGINT)")
    } else {
        activity_owner_sql(table, "CAST(NULL AS BIGINT)")
    }
}

/// SQL for the GPUs of the hosts.
pub open spec fn gpu_rows_text() -> Seq<char> {
    "SELECT "@
        + u64_decimal_string_text("vmId"@)
        + ", id, name, uuid, chipName, totalMemory, smCount, computeMajor, computeMinor, \
        busLocation FROM nsight.TARGET_INFO_GPU ORDER BY vmId, id"@
}

/// SQL for the GPUs of the hosts.
pub fn gpu_rows_sql() -> (text: String)
    ensures
        text@ == gpu_rows_text(),
{
    let mut text = "SELECT ".to_owned();
    text.append(u64_decimal_string("vmId").as_str());
    text.append(", id, name, uuid, chipName, totalMemory, smCount, computeMajor, computeMinor, \
        busLocation FROM nsight.TARGET_INFO_GPU ORDER BY vmId, id");
    text
}

/// SQL for the network interfaces of the hosts.
pub open spec fn nic_rows_text() -> Seq<char> {
    "SELECT "@
        + u64_decimal_string_text("GUID"@)
        + ", nicId, name, deviceId, vendorId FROM nsight.TARGET_INFO_NIC_INFO ORDER BY \
        nicId, GUID"@
}

/// SQL for the network interfaces of the hosts.
pub fn nic_rows_sql() -> (text: String)
    ensures
        text@ == nic_rows_text(),
{
    let mut text = "SELECT ".to_owned();
    text.append(u64_decimal_string("GUID").as_str());
    text.append(", nicId, name, deviceId, vendorId FROM nsight.TARGET_INFO_NIC_INFO ORDER BY \
        nicId, GUID");
    text
}

/// SQL for the hosts: one row per host, its attributes side by side.
pub open spec fn system_env_text() -> Seq<char> {
    "SELECT CAST(globalVid AS VARCHAR), MAX(CASE WHEN name = 'Hostname' THEN value \
        END) AS hostname, MAX(CASE WHEN name = 'SystemUID' THEN value END) AS \
        system_uid, MAX(CASE WHEN name = 'OsDescription' THEN value END) AS os_desc, \
        MAX(CASE WHEN name = 'KernelVersion' THEN value END) AS kernel_ver, MAX(CASE \
        WHEN name = 'HardwarePlatform' THEN value END) AS hw_platform, MAX(CASE WHEN \
        name = 'SoftwarePlatform' THEN value END) AS sw_platform, MAX(CASE WHEN name = \
        'SoftwareReleaseVersion' THEN value END) AS sw_release, MAX(CASE WHEN name = \
        'CpuCores' THEN CAST(value AS BIGINT) END) AS cpu_cores, MAX(CASE WHEN name = \
        'CpuSpeedMhz' THEN CAST(value AS BIGINT) END) AS cpu_speed_mhz, MAX(CASE WHEN \
        name = 'CpuArchitecture' THEN value END) AS cpu_arch, MAX(CASE WHEN name = \
        'CpuDescription' THEN value END) AS cpu_desc, MAX(CASE WHEN name = \
        'CudaDriverVersion' THEN value END) AS cuda_drv, MAX(CASE WHEN name = \
        'NvDriverVersion' THEN value END) AS nv_drv, MAX(CASE WHEN name = \
        'OfedDriverVersion' THEN value END) AS ofed_drv FROM \
        nsight.TARGET_INFO_SYSTEM_ENV GROUP BY globalVid"@
}

/// SQL for the hosts: one row per host, its attributes side by side.
pub fn system_env_sql() -> (text: String)
    ensures
        text@ == system_env_text(),
{
    let mut text = "SELECT CAST(globalVid AS VARCHAR), MAX(CASE WHEN name = 'Hostname' THEN value \
        END) AS hostname, MAX(CASE WHEN name = 'SystemUID' THEN value END) AS \
        system_uid, MAX(CASE WHEN name = 'OsDescription' THEN value END) AS os_desc, \
        MAX(CASE WHEN name = 'KernelVersion' THEN value END) AS kernel_ver, MAX(CASE \
        WHEN name = 'HardwarePlatform' THEN value END) AS hw_platform, MAX(CASE WHEN \
        name = 'SoftwarePlatform' THEN value END) AS sw_platform, MAX(CASE WHEN name = \
        'SoftwareReleaseVersion' THEN value END) AS sw_release, MAX(CASE WHEN name = \
        'CpuCores' THEN CAST(value AS BIGINT) END) AS cpu_cores, MAX(CASE WHEN name = \
        'CpuSpeedMhz' THEN CAST(value AS BIGINT) END) AS cpu_speed_mhz, MAX(CASE WHEN \
        name = 'CpuArchitecture' THEN value END) AS cpu_arch, MAX(CASE WHEN name = \
        'CpuDescription' THEN value END) AS cpu_desc, MAX(CASE WHEN name = \
        'CudaDriverVersion' THEN value END) AS cuda_drv, MAX(CASE WHEN name = \
        'NvDriverVersion' THEN value END) AS nv_drv, MAX(CASE WHEN name = \
        'OfedDriverVersion' THEN value END) AS ofed_drv FROM \
        nsight.TARGET_INFO_SYSTEM_ENV GROUP BY globalVid".to_owned();
    text
}

} // verus!
