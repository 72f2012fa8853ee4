use veloq_nsys_data::keymap::{PairMap, TripleMap};
use veloq_nsys_data::order::{distinct_numbers, distinct_pairs, sort_order, Key2, ListKey};
use veloq_nsys_data::paths::{
    artifact_path, extension, file_name, file_tail, join_path, parent, strip_prefix, strip_suffix,
};
use veloq_nsys_data::queries::{
    activity_rows_sql, correlated_calls_sql, correlated_rows_sql, domain_rows_sql,
    domain_type_ids, domain_type_ids_sql, gpu_rows_sql, id_list_sql, name_list_sql,
    nesting_rows_sql, nic_rows_sql, nvtx_event_type_ids, parent_rows_sql, range_type_ids,
    range_type_ids_sql, runtime_anchors_sql, runtime_rows_sql, system_env_sql, tree_rows_sql,
};
use veloq_nsys_data::schema::{TableColumns, TraceSchema};
use veloq_nsys_data::sql_expr::{u64_bits_to_i64, u64_decimal_string};
use veloq_nsys_data::text::{
    hex16_text, holds_text, i64_text, join, parse_unsigned, replace_char, split_once, trim_text,
    u64_text,
};
use veloq_nsys_data::cuda_identity::process_lateral_join_sql;
use veloq_nsys_data::{native_pid_from_global_tid, native_pid_sql, process_sql_projection};

#[test]
fn numbers_are_written_in_decimal_and_hexadecimal() {
    assert_eq!(u64_text(0), "0");
    assert_eq!(u64_text(u64::MAX), "18446744073709551615");
    assert_eq!(i64_text(i64::MIN), "-9223372036854775808");
    assert_eq!(i64_text(-7), "-7");
    assert_eq!(hex16_text(0xbeef), "000000000000beef");
}

#[test]
fn numbers_are_read_as_the_standard_library_reads_them() {
    for text in ["0", "+5", "007", "18446744073709551615", "18446744073709551616", "", "+", "-1", " 1", "1_0"] {
        assert_eq!(parse_unsigned(text, u64::MAX).ok(), text.parse::<u64>().ok(), "{text}");
        assert_eq!(
            parse_unsigned(text, u64::from(u32::MAX)).ok(),
            text.parse::<u32>().ok().map(u64::from),
            "{text}"
        );
    }
}

#[test]
fn texts_are_trimmed_as_the_standard_library_trims_them() {
    for text in ["", "  ", " a b ", "\t\r\na\u{a0}", "\u{2003}x\u{3000}", "\u{200b}x", "\u{85}y\u{1680}"] {
        assert_eq!(trim_text(text), text.trim(), "{text:?}");
    }
}

#[test]
fn parts_of_texts() {
    assert!(holds_text("abcabd", "abd"));
    assert!(holds_text("abc", ""));
    assert!(!holds_text("ab", "abc"));
    assert_eq!(split_once("a=b=c", '='), Some(("a".to_string(), "b=c".to_string())));
    assert_eq!(split_once("abc", '='), None);
    assert_eq!(replace_char("a'b''", '\'', "''"), "a''b''''");
    assert_eq!(join(&vec!["a".to_string(), "b".to_string()], ", "), "a, b");
    assert_eq!(strip_prefix("PROCESS_1", "PROCESS_").as_deref(), Some("1"));
    assert_eq!(strip_prefix("PROC", "PROCESS_"), None);
    assert_eq!(strip_suffix("a.veloq", ".veloq").as_deref(), Some("a"));
    assert_eq!(strip_suffix("veloq", ".veloq"), None);
}

#[test]
fn paths_are_taken_apart_as_the_standard_library_takes_them() {
    let paths = [
        "", "/", ".", "..", "a", "a/", "a/.", "./a", "/a", "//a//b//", "a/..", "a/b.c", "a/.b",
        "a/b.", "a/b.c.d", "/tmp/foo.nsys-rep/", "a/./b/./", "..a", "a/..b.c",
    ];
    for text in paths {
        let std_path = std::path::Path::new(text);
        assert_eq!(
            file_name(text).as_deref(),
            std_path.file_name().and_then(|n| n.to_str()),
            "{text:?}"
        );
        assert_eq!(
            extension(text).as_deref(),
            std_path.extension().and_then(|n| n.to_str()),
            "{text:?}"
        );
        assert_eq!(parent(text).as_deref(), std_path.parent().and_then(|p| p.to_str()), "{text:?}");
        assert_eq!(
            Some(join_path(text, "x").as_str()),
            std_path.join("x").to_str(),
            "{text:?}"
        );
    }
    assert_eq!(file_tail("/x/y z"), "y z");
    assert_eq!(artifact_path("/t", "f"), "/t.veloq/f");
}

#[test]
fn sorting_is_stable() {
    let keys = vec![
        Key2 { first: 2, second: 0 },
        Key2 { first: 1, second: 5 },
        Key2 { first: 2, second: 0 },
        Key2 { first: 1, second: -5 },
    ];
    assert_eq!(sort_order(&keys), vec![3, 1, 0, 2]);
    let lists = vec![
        ListKey { parts: vec![1, 2] },
        ListKey { parts: vec![1] },
        ListKey { parts: vec![] },
        ListKey { parts: vec![0, 9] },
    ];
    assert_eq!(sort_order(&lists), vec![2, 3, 1, 0]);
    assert_eq!(distinct_numbers(&vec![3, -1, 3, 2]), vec![-1, 2, 3]);
    assert_eq!(distinct_pairs(&vec![(1, 2), (0, 9), (1, 2)]), vec![(0, 9), (1, 2)]);
}

#[test]
fn maps_tell_keys_apart() {
    let mut pairs: PairMap<u8> = PairMap::new();
    pairs.insert(i64::MIN, i64::MAX, 1);
    pairs.insert(i64::MAX, i64::MIN, 2);
    assert_eq!(pairs.get(i64::MIN, i64::MAX), Some(&1));
    assert_eq!(pairs.get(i64::MAX, i64::MIN), Some(&2));
    assert_eq!(pairs.get(0, 0), None);
    let mut triples: TripleMap<u8> = TripleMap::new();
    triples.insert(0, 1, 2, 7);
    assert_eq!(triples.get(0, 1, 2), Some(&7));
    assert_eq!(triples.get(0, 2, 1), None);
}

#[test]
fn identifier_expressions() {
    assert_eq!(u64_decimal_string("vmId"), "CAST(vmId AS VARCHAR)");
    assert_eq!(
        u64_bits_to_i64("t.globalTid"),
        "CASE WHEN t.globalTid IS NULL THEN NULL \
         WHEN CAST(t.globalTid AS HUGEINT) > 9223372036854775807 \
         THEN CAST(CAST(t.globalTid AS HUGEINT) - 18446744073709551616 AS BIGINT) \
         ELSE CAST(t.globalTid AS BIGINT) END"
    );
    assert_eq!(native_pid_sql("t.globalTid"), "CAST(((t.globalTid >> 24) & 16777215) AS BIGINT)");
    assert_eq!(native_pid_from_global_tid(1000i64 << 24), 1000);
}

#[test]
fn lists_in_queries() {
    assert_eq!(id_list_sql(&vec![59, -60]), "59, -60");
    assert_eq!(id_list_sql(&Vec::new()), "");
    assert_eq!(name_list_sql(&["A", "B"]), "'A', 'B'");
    assert_eq!(
        domain_type_ids_sql(),
        "SELECT CAST(id AS BIGINT) FROM nsight.ENUM_NSYS_EVENT_TYPE \
         WHERE name IN ('NvtxDomainCreate')"
    );
    assert!(range_type_ids_sql().ends_with(
        "('NvtxPushPopRange', 'NvtxStartEndRange', 'NvtxtPushPopRange', 'NvtxtStartEndRange')"
    ));
}

#[test]
fn event_types_come_from_the_catalog_where_it_has_them() {
    assert_eq!(range_type_ids(None), vec![59, 60, 70, 71]);
    assert_eq!(range_type_ids(Some(&vec![None])), vec![59, 60, 70, 71]);
    assert_eq!(range_type_ids(Some(&vec![Some(1), None, Some(2)])), vec![1, 2]);
    assert_eq!(domain_type_ids(None), vec![75]);
    assert_eq!(nvtx_event_type_ids(Some(&Vec::new()), &vec![9]), vec![9]);
}

#[test]
fn queries_name_their_tables() {
    let tid = u64_bits_to_i64("n.globalTid");
    assert_eq!(
        tree_rows_sql(&vec![59]),
        format!(
            "SELECT n.rowid, n.start, n.\"end\", {tid}, COALESCE(n.domainId, 0) AS domain_id, \
             COALESCE(n.text, s.value, '') AS name FROM nsight.NVTX_EVENTS n \
             LEFT JOIN nsight.StringIds s ON n.textId = s.id WHERE n.start IS NOT NULL \
             AND n.globalTid IS NOT NULL AND n.eventType IN (59)"
        )
    );
    assert!(nesting_rows_sql().ends_with("WHERE n.start IS NOT NULL"));
    assert!(parent_rows_sql().contains("'<unnamed>'"));
    assert!(runtime_rows_sql().contains("FROM nsight.CUPTI_ACTIVITY_KIND_RUNTIME t"));
    assert!(domain_rows_sql(&vec![75, 76]).contains("n.eventType IN (75, 76)"));
    assert_eq!(
        correlated_rows_sql("T"),
        "SELECT rowid, correlationId, deviceId, contextId FROM nsight.T \
         WHERE correlationId IS NOT NULL"
    );
    assert!(correlated_calls_sql().contains(&u64_bits_to_i64("globalTid")));
    assert!(runtime_anchors_sql().contains("CAST(COALESCE(\"end\", start) AS BIGINT)"));
    assert!(gpu_rows_sql().starts_with("SELECT CAST(vmId AS VARCHAR), id, name"));
    assert!(nic_rows_sql().ends_with("ORDER BY nicId, GUID"));
    assert!(system_env_sql().ends_with("FROM nsight.TARGET_INFO_SYSTEM_ENV GROUP BY globalVid"));
}

#[test]
fn activity_queries_use_the_process_where_it_is_there() {
    let schema = TraceSchema {
        tables: vec![TableColumns {
            name: "A".to_string(),
            columns: vec!["globalPid".to_string()],
        }],
    };
    assert!(activity_rows_sql(&schema, "A").contains("CAST(globalPid AS BIGINT)"));
    assert!(activity_rows_sql(&schema, "B").contains("CAST(NULL AS BIGINT)"));
}

fn table(name: &str, columns: &[&str]) -> TableColumns {
    TableColumns {
        name: name.to_string(),
        columns: columns.iter().map(|c| c.to_string()).collect(),
    }
}

#[test]
fn processes_are_projected_by_what_a_table_holds() {
    let schema = TraceSchema {
        tables: vec![
            table("GPU", &["deviceId", "contextId"]),
            table("HOST", &["globalTid"]),
            table("PROC", &["globalPid"]),
            table("BARE", &[]),
            table("PROCESSES", &["globalPid", "pid"]),
        ],
    };
    let of = |name: &str| {
        let p = process_sql_projection(&schema, name, "t", "proc", "t.start");
        (p.expr, p.join)
    };
    assert_eq!(
        of("GPU"),
        (
            "proc.process_id".to_string(),
            "LEFT JOIN LATERAL (SELECT CAST(NULL AS BIGINT) AS process_id) proc ON TRUE".to_string()
        )
    );
    assert_eq!(of("HOST"), (native_pid_sql("t.globalTid"), String::new()));
    assert_eq!(
        of("PROC"),
        (
            "CAST(proc.pid AS BIGINT)".to_string(),
            "LEFT JOIN nsight.PROCESSES proc ON proc.globalPid = t.globalPid".to_string()
        )
    );
    assert_eq!(of("BARE"), ("CAST(NULL AS BIGINT)".to_string(), String::new()));
}

#[test]
fn lateral_joins_rank_their_candidates() {
    let schema = TraceSchema {
        tables: vec![
            table("GPU", &["deviceId", "contextId", "correlationId", "globalPid"]),
            table("PROCESSES", &["globalPid", "pid"]),
            table("TARGET_INFO_CUDA_CONTEXT_INFO", &[]),
            table("CUPTI_ACTIVITY_KIND_RUNTIME", &[]),
        ],
    };
    let sql = process_lateral_join_sql(&schema, "GPU", "t", "proc", "t.start");
    let by_process = sql.find("0 AS priority").expect("by process");
    let by_call = sql.find("1 AS priority").expect("by call");
    let by_context = sql.find("2 AS priority").expect("by context");
    assert!(by_process < by_call && by_call < by_context);
    assert_eq!(sql.matches(" UNION ALL ").count(), 2);
    assert!(sql.contains("DENSE_RANK() OVER (ORDER BY priority, after_activity, distance)"), "{sql}");
    assert!(sql.starts_with("LEFT JOIN LATERAL (WITH process_candidates AS (SELECT "), "{sql}");
    assert!(sql.ends_with("HAVING COUNT(DISTINCT process_id) = 1) proc ON TRUE"), "{sql}");
}

#[test]
fn lateral_joins_rank_calls_before_the_activity_first() {
    let schema = TraceSchema {
        tables: vec![
            TableColumns {
                name: "GPU".to_string(),
                columns: vec!["globalPid".to_string(), "correlationId".to_string()],
            },
            TableColumns { name: "CUPTI_ACTIVITY_KIND_RUNTIME".to_string(), columns: Vec::new() },
            TableColumns { name: "TARGET_INFO_CUDA_CONTEXT_INFO".to_string(), columns: Vec::new() },
        ],
    };
    assert_eq!(
        process_lateral_join_sql(&schema, "GPU", "t", "proc", "t.start"),
        "LEFT JOIN LATERAL (\
             WITH process_candidates AS (\
             SELECT CAST(c.processId AS BIGINT) AS process_id, 1 AS priority, \
                    CASE WHEN COALESCE(r.\"end\", r.start) > t.start \
                         THEN 1 ELSE 0 END AS after_activity, \
                    ABS(CAST(COALESCE(r.\"end\", r.start) AS BIGINT) \
                        - CAST(t.start AS BIGINT)) AS distance \
             FROM nsight.TARGET_INFO_CUDA_CONTEXT_INFO c \
             JOIN nsight.CUPTI_ACTIVITY_KIND_RUNTIME r \
               ON r.correlationId = t.correlationId \
              AND CAST(((r.globalTid >> 24) & 16777215) AS BIGINT) = CAST(c.processId AS BIGINT) \
             WHERE CAST(c.deviceId AS INTEGER) = CAST(t.deviceId AS INTEGER) \
               AND CAST(c.contextId AS BIGINT) = CAST(t.contextId AS BIGINT) \
             UNION ALL \
             SELECT MIN(CAST(c.processId AS BIGINT)) AS process_id, 2 AS priority, \
                    0 AS after_activity, 0::BIGINT AS distance \
             FROM nsight.TARGET_INFO_CUDA_CONTEXT_INFO c \
             WHERE CAST(c.deviceId AS INTEGER) = CAST(t.deviceId AS INTEGER) \
               AND CAST(c.contextId AS BIGINT) = CAST(t.contextId AS BIGINT) \
             HAVING COUNT(DISTINCT CAST(c.processId AS BIGINT)) = 1), \
             ranked AS (\
                 SELECT process_id, \
                        DENSE_RANK() OVER (\
                            ORDER BY priority, after_activity, distance\
                        ) AS score_rank \
                 FROM process_candidates \
                 WHERE process_id IS NOT NULL\
             ) \
             SELECT MIN(process_id) AS process_id \
             FROM ranked \
             WHERE score_rank = 1 \
             HAVING COUNT(DISTINCT process_id) = 1\
         ) proc ON TRUE"
    );
}
