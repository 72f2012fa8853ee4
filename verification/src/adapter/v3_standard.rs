//! Adapter for NSys schema 3.x (NSight Systems 2023.1+).
//!
//! Modern NSys exports use canonical column names: `start` / `"end"`
//! on event tables, dedicated `streamId` / `contextId` columns,
//! `correlationId` not `corrId`. Some valid exports contain only
//! metric tables (`nsys profile --trace=none --nic-metrics=lf`, for
//! example), so the probe accepts any known 3.x event or metric table.
use super::traits::{AdapterMeta, AdapterStatus, SchemaAdapter};
use crate::schema::TraceSchema;
use vstd::prelude::*;

verus! {

/// Schema-3.x adapter.
#[derive(Debug, Clone, Copy)]
pub struct StandardAdapter;

/// Canonical tables and columns that mark a trace as schema 3.x.
pub open spec fn probe_tables() -> Seq<(Seq<char>, Seq<Seq<char>>)> {
    seq![
        ("CUPTI_ACTIVITY_KIND_KERNEL"@, seq!["start"@, "end"@]),
        ("CUPTI_ACTIVITY_KIND_MEMCPY"@, seq!["start"@, "end"@]),
        ("CUPTI_ACTIVITY_KIND_MEMSET"@, seq!["start"@, "end"@]),
        ("CUPTI_ACTIVITY_KIND_RUNTIME"@, seq!["start"@, "end"@]),
        ("CUPTI_ACTIVITY_KIND_SYNCHRONIZATION"@, seq!["start"@, "end"@]),
        (
            "NVTX_EVENTS"@,
            seq![
                "start"@,
                "end"@,
                "eventType"@,
                "globalTid"@,
                "domainId"@,
                "text"@,
                "textId"@,
            ],
        ),
        ("GPU_METRICS"@, seq!["timestamp"@, "typeId"@, "metricId"@, "value"@]),
        (
            "NET_NIC_METRIC"@,
            seq![
                "start"@,
                "end"@,
                "globalId"@,
                "portId"@,
                "metricsListId"@,
                "metricsIdx"@,
                "value"@,
            ],
        ),
        ("COMPOSITE_EVENTS"@, seq!["id"@, "start"@, "cpu"@, "threadState"@, "globalTid"@]),
        ("SCHED_EVENTS"@, seq!["start"@, "cpu"@, "globalTid"@, "threadState"@]),
    ]
}

/// Some canonical table is there with its canonical columns.
pub open spec fn is_standard(schema: &TraceSchema) -> bool {
    exists|i: int|
        0 <= i < probe_tables().len() && schema.has_columns(
            (#[trigger] probe_tables()[i]).0,
            probe_tables()[i].1,
        )
}

impl SchemaAdapter for StandardAdapter {
    open spec fn accepts(&self, schema: &TraceSchema) -> bool {
        is_standard(schema)
    }

    fn metadata(&self) -> (meta: AdapterMeta)
        ensures
            meta.id@ == "v3_standard"@,
            meta.display_name@ == "Standard Schema (3.x)"@,
            meta.match_criteria@
                == "known NSys 3.x event/metric parquet with canonical columns"@,
            meta.target_versions@ == "NSight Systems 2023.1+"@,
            meta.status == AdapterStatus::Stable,
    {
        AdapterMeta {
            id: "v3_standard",
            display_name: "Standard Schema (3.x)",
            match_criteria: "known NSys 3.x event/metric parquet with canonical columns",
            target_versions: "NSight Systems 2023.1+",
            status: AdapterStatus::Stable,
        }
    }

    fn probe(&self, schema: &TraceSchema) -> (b: bool) {
        let ghost all = probe_tables();
        let found0: bool = has_all(
            schema,
            "CUPTI_ACTIVITY_KIND_KERNEL",
            &["start", "end"],
            Ghost(all[0].1),
        );
        let found1: bool = has_all(
            schema,
            "CUPTI_ACTIVITY_KIND_MEMCPY",
            &["start", "end"],
            Ghost(all[1].1),
        );
        let found2: bool = has_all(
            schema,
            "CUPTI_ACTIVITY_KIND_MEMSET",
            &["start", "end"],
            Ghost(all[2].1),
        );
        let found3: bool = has_all(
            schema,
            "CUPTI_ACTIVITY_KIND_RUNTIME",
            &["start", "end"],
            Ghost(all[3].1),
        );
        let found4: bool = has_all(
            schema,
            "CUPTI_ACTIVITY_KIND_SYNCHRONIZATION",
            &["start", "end"],
            Ghost(all[4].1),
        );
        let found5: bool = has_all(
            schema,
            "NVTX_EVENTS",
            &["start", "end", "eventType", "globalTid", "domainId", "text", "textId"],
            Ghost(all[5].1),
        );
        let found6: bool = has_all(
            schema,
            "GPU_METRICS",
            &["timestamp", "typeId", "metricId", "value"],
            Ghost(all[6].1),
        );
        let found7: bool = has_all(
            schema,
            "NET_NIC_METRIC",
            &["start", "end", "globalId", "portId", "metricsListId", "metricsIdx", "value"],
            Ghost(all[7].1),
        );
        let found8: bool = has_all(
            schema,
            "COMPOSITE_EVENTS",
            &["id", "start", "cpu", "threadState", "globalTid"],
            Ghost(all[8].1),
        );
        let found9: bool = has_all(
            schema,
            "SCHED_EVENTS",
            &["start", "cpu", "globalTid", "threadState"],
            Ghost(all[9].1),
        );
        let found: bool = found0 || found1 || found2 || found3 || found4 || found5 || found6
            || found7 || found8 || found9;
        proof {
            if found {
                let i: int = if found0 {
                    0
                } else if found1 {
                    1
                } else if found2 {
                    2
                } else if found3 {
                    3
                } else if found4 {
                    4
                } else if found5 {
                    5
                } else if found6 {
                    6
                } else if found7 {
                    7
                } else if found8 {
                    8
                } else {
                    9
                };
                assert(schema.has_columns(all[i].0, all[i].1));
            } else {
                assert forall|i: int| 0 <= i < all.len() implies !schema.has_columns(
                    (#[trigger] all[i]).0,
                    all[i].1,
                ) by {
                    assert(i == 0 || i == 1 || i == 2 || i == 3 || i == 4 || i == 5 || i == 6 || i
                        == 7 || i == 8 || i == 9);
                }
            }
        }
        found
    }
}

/// Whether the table is there with the columns.
fn has_all(
    schema: &TraceSchema,
    table: &str,
    columns: &[&str],
    Ghost(wanted): Ghost<Seq<Seq<char>>>,
) -> (b: bool)
    requires
        columns@.map_values(|c: &str| c@) =~= wanted,
    ensures
        b == schema.has_columns(table@, wanted),
{
    schema.table_has_columns(table, columns)
}

} // verus!
