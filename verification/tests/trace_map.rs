use veloq_nsys_data::keymap::PairMap;
use veloq_nsys_data::trace_map::{
    build, build_devices, build_nvtx, build_processes, collect_domains, collect_launches,
    domains_from, nvtx_domain_names, parse_env_assignment, pid_of, render_label,
    split_process_key, top_paths_from_tree, CaptureRow, DomainRow, EnvVar, TraceMapRows,
    NVTX_TOP_PATHS_DEFAULT,
};
use veloq_nsys_data::{NvtxTree, NvtxTreeRecord};

fn var(name: &str, value: &str) -> EnvVar {
    EnvVar { name: name.to_string(), value: value.to_string() }
}

fn capture(name: &str, value: &str) -> CaptureRow {
    CaptureRow { name: name.to_string(), value: value.to_string() }
}

fn record(range_id: i64, path: &str, duration_ns: Option<i64>, pid: i64, domain: i64) -> NvtxTreeRecord {
    NvtxTreeRecord {
        range_id,
        parent_range_id: None,
        depth: 0,
        domain_id: domain,
        name: path.to_string(),
        path: path.to_string(),
        start: range_id,
        end: duration_ns.map(|d| range_id.saturating_add(d)),
        duration_ns,
        global_tid: pid << 24,
    }
}

#[test]
fn domains_keyed_by_pid_and_id_never_merge_or_clobber() {
    let mut names: PairMap<String> = PairMap::new();
    names.insert(100, 1, "MPI".to_string());
    names.insert(200, 1, "NCCL".to_string());
    names.insert(100, 2, "CCCL".to_string());
    names.insert(200, 2, "CCCL".to_string());

    let pairs = vec![(100, 0), (100, 1), (100, 1), (200, 1), (100, 2), (200, 2)];
    let domains = domains_from(&pairs, &names);

    assert_eq!(domains.len(), 5, "got {domains:?}");
    let find = |pid: i64, id: i64| {
        domains.iter().find(|d| d.pid == pid && d.id == id).and_then(|d| d.name.as_deref())
    };
    assert_eq!(find(100, 1), Some("MPI"));
    assert_eq!(find(200, 1), Some("NCCL"));
    assert_eq!(find(100, 2), Some("CCCL"));
    assert_eq!(find(200, 2), Some("CCCL"));
    assert_eq!(find(100, 0), None);
}

#[test]
fn pid_decode_matches_canonical_shift() {
    assert_eq!(pid_of(281718749659136), 14530);

    let bits: u64 = 0x8000_0000_0000_0000 | ((14530u64) << 24);
    let gtid = i64::from_ne_bytes(bits.to_ne_bytes());
    assert!(gtid < 0, "test value must be a negative i64");
    assert_eq!(pid_of(gtid), 14530);
}

#[test]
fn split_process_key_parses_well_formed_inputs() {
    let split = |key: &str| split_process_key(key);
    assert_eq!(split("PROCESS_0:COMMAND"), Some((0, "COMMAND".to_string())));
    assert_eq!(
        split("PROCESS_12:ENVIRONMENT_VARIABLE"),
        Some((12, "ENVIRONMENT_VARIABLE".to_string()))
    );
    assert_eq!(split("not_a_process_key"), None);
    assert_eq!(split("PROCESS_x:COMMAND"), None);
}

#[test]
fn parse_env_assignment_strips_quotes() {
    assert_eq!(
        parse_env_assignment("RANK=0").expect("expected RANK=0 to parse"),
        ("RANK".to_string(), "0".to_string())
    );
    assert_eq!(
        parse_env_assignment("LOCAL_RANK=\"3\"").expect("expected LOCAL_RANK=\"3\" to parse"),
        ("LOCAL_RANK".to_string(), "3".to_string())
    );
    assert_eq!(parse_env_assignment("no_equals_here"), None);
}

#[test]
fn render_label_prefers_rank_env_in_declaration_order() {
    let env = vec![var("LOCAL_RANK", "3"), var("RANK", "5")];
    assert_eq!(render_label(0, Some("/x/bin/app"), &env), "rank=5,local_rank=3");
}

#[test]
fn render_label_falls_back_to_command_basename() {
    let env = Vec::new();
    assert_eq!(render_label(0, Some("/opt/work/app"), &env), "app");
}

#[test]
fn render_label_falls_back_to_process_index_when_nothing_known() {
    let env = Vec::new();
    assert_eq!(render_label(7, None, &env), "process_7");
}

#[test]
fn labels_show_every_rank_variable() {
    let env = vec![
        var("PMI_RANK", "5"),
        var("MPI_COMM_WORLD_RANK", "4"),
        var("SLURM_PROCID", "3"),
        var("LOCAL_RANK", "2"),
        var("RANK", "1"),
        var("RANK", "9"),
        var("HOME", "/root"),
    ];
    assert_eq!(
        render_label(0, None, &env),
        "rank=9,local_rank=2,slurm_procid=3,mpi_comm_world_rank=4,pmi_rank=5"
    );
    assert_eq!(render_label(3, Some("/opt/work/ "), &Vec::new()), "process_3");
}

#[test]
fn odd_keys_and_values() {
    assert_eq!(split_process_key("PROCESS_1"), None);
    assert_eq!(split_process_key("PROCESS_1:A:B"), Some((1, "A:B".to_string())));
    assert_eq!(split_process_key("PROCESS_4294967296:A"), None);
    assert_eq!(
        parse_env_assignment("A= \"x=y\" "),
        Some(("A".to_string(), "x=y".to_string()))
    );
    assert_eq!(parse_env_assignment("A=\""), Some(("A".to_string(), String::new())));
}

#[test]
fn launches_come_by_index() {
    let rows = vec![
        capture("PROCESS_10:COMMAND", "/bin/late"),
        capture("PROCESS_2:ENVIRONMENT_VARIABLE", "RANK=\"1\""),
        capture("PROCESS_2:ENVIRONMENT_VARIABLE", "HOME=/root"),
        capture("PROCESS_2:COMMAND", "/bin/first"),
        capture("PROCESS_2:COMMAND", "/bin/second"),
        capture("PROCESS_5:OTHER", "x"),
        capture("UNRELATED", "y"),
    ];
    let launches = collect_launches(&rows);
    let got: Vec<(u32, &str, Option<&str>)> = launches
        .iter()
        .map(|l| (l.index, l.label.as_str(), l.command.as_deref()))
        .collect();
    assert_eq!(
        got,
        vec![
            (2, "rank=1", Some("/bin/second")),
            (5, "process_5", None),
            (10, "late", Some("/bin/late")),
        ]
    );
}

#[test]
fn devices_and_processes_fall_back() {
    let d = build_devices(Some(&vec![Some(1), None, Some(0), Some(1)]), Some(&vec![7]));
    assert_eq!((d.count, d.ids), (2, vec![0, 1]));
    let d = build_devices(Some(&vec![None]), Some(&vec![7, -1, 7]));
    assert_eq!((d.count, d.ids), (2, vec![-1, 7]));
    let d = build_devices(None, None);
    assert_eq!(d.count, 0);
    let p = build_processes(Some(&vec![20, 10, 20]), Some(&vec![1]), &Vec::new());
    assert_eq!((p.count, p.native_pids), (2, vec![10, 20]));
    let p = build_processes(Some(&Vec::new()), Some(&vec![3, 1]), &Vec::new());
    assert_eq!(p.native_pids, vec![1, 3]);
    let p = build_processes(None, None, &Vec::new());
    assert!(p.native_pids.is_empty() && p.launches.is_empty());
}

#[test]
fn top_paths_are_cut_by_time_then_instances_then_name() {
    let tree = NvtxTree::from_records(vec![
        record(1, "b", Some(50), 1, 0),
        record(2, "a", Some(50), 1, 0),
        record(3, "c", Some(20), 1, 0),
        record(4, "c", Some(30), 1, 0),
        record(5, "d", Some(90), 1, 0),
        record(6, "marker", None, 1, 0),
    ]);
    let top = top_paths_from_tree(&tree, NVTX_TOP_PATHS_DEFAULT);
    let got: Vec<(&str, i64, u64)> =
        top.iter().map(|p| (p.path.as_str(), p.total_ns, p.instances)).collect();
    assert_eq!(got, vec![("d", 90, 1), ("c", 50, 2), ("a", 50, 1), ("b", 50, 1)]);
    assert_eq!(top_paths_from_tree(&tree, 2).len(), 2);
    assert!(top_paths_from_tree(&tree, 0).is_empty());
}

#[test]
fn path_totals_stop_at_the_largest_number() {
    let tree = NvtxTree::from_records(vec![
        record(1, "long", Some(i64::MAX), 1, 0),
        record(2, "long", Some(5), 1, 0),
    ]);
    let top = top_paths_from_tree(&tree, 1);
    assert_eq!((top[0].total_ns, top[0].instances), (i64::MAX, 2));
}

#[test]
fn registered_domains_are_listed_without_ranges() {
    let row = |pid: i64, id, name: &str| DomainRow {
        global_tid: pid << 24,
        domain_id: id,
        name: name.to_string(),
    };
    let rows = vec![row(1, 5, "old"), row(1, 5, "new"), row(2, 5, ""), row(2, 6, "unused")];
    let tree = NvtxTree::from_records(vec![record(1, "p", Some(1), 2, 5)]);
    let names = nvtx_domain_names(&rows);
    assert_eq!(names.get(1, 5).map(|n| n.as_str()), Some("new"));
    assert!(names.get(2, 5).is_none());
    let domains = collect_domains(&tree, &rows);
    let got: Vec<(i64, i64, Option<&str>)> =
        domains.iter().map(|d| (d.pid, d.id, d.name.as_deref())).collect();
    assert_eq!(got, vec![(1, 5, Some("new")), (2, 5, None), (2, 6, Some("unused"))]);
    assert!(build_nvtx(&NvtxTree::empty(), &Vec::new(), 10).is_none());
    assert!(build_nvtx(&tree, &Vec::new(), 0).is_some());
}

#[test]
fn a_map_of_a_bare_trace_is_empty() {
    let none: Vec<CaptureRow> = Vec::new();
    let no_domains: Vec<DomainRow> = Vec::new();
    let rows = TraceMapRows {
        gpus: None,
        kernels: None,
        processes: None,
        contexts: None,
        capture: &none,
        tree: None,
        domains: &no_domains,
    };
    let map = build(&rows, NVTX_TOP_PATHS_DEFAULT);
    assert_eq!(map.devices.count, 0);
    assert_eq!(map.processes.count, 0);
    assert!(map.nvtx.is_none());
}
