use veloq_nsys_data::schema::{TableColumns, TraceSchema};
use veloq_nsys_data::CapabilityFlags;

fn schema(tables: &[&str]) -> TraceSchema {
    TraceSchema {
        tables: tables
            .iter()
            .map(|name| TableColumns { name: name.to_string(), columns: Vec::new() })
            .collect(),
    }
}

#[test]
fn default_all_false() {
    let f = CapabilityFlags::default();
    assert!(!f.has_kernels);
    assert!(!f.has_target_info);
    assert!(!f.any_gpu_events());
}

#[test]
fn any_gpu_events_picks_up_each_kind() {
    let mut f = CapabilityFlags::default();
    assert!(!f.any_gpu_events());
    f.has_kernels = true;
    assert!(f.any_gpu_events());
    f.has_kernels = false;
    f.has_memcpy = true;
    assert!(f.any_gpu_events());
    f.has_memcpy = false;
    f.has_memset = true;
    assert!(f.any_gpu_events());
    f.has_memset = false;
    f.has_sync = true;
    assert!(f.any_gpu_events());
}

#[test]
fn graph_traces_are_gpu_events() {
    let mut f = CapabilityFlags::default();
    f.has_graph_trace = true;
    assert!(f.any_gpu_events());
    f.has_graph_trace = false;
    f.has_runtime = true;
    assert!(!f.any_gpu_events());
}

#[test]
fn each_flag_follows_its_table() {
    let f = CapabilityFlags::extract(&schema(&["NVTX_EVENTS", "OSRT_API", "StringIds"]));
    assert!(f.has_nvtx);
    assert!(f.has_osrt);
    assert!(!f.has_kernels);
    let mut expected = CapabilityFlags::default();
    expected.has_nvtx = true;
    expected.has_osrt = true;
    assert_eq!(f, expected);
}

#[test]
fn metric_flags_need_every_table_of_their_query() {
    assert!(!CapabilityFlags::extract(&schema(&["GPU_METRICS"])).has_gpu_metrics);
    let f = CapabilityFlags::extract(&schema(&["GPU_METRICS", "TARGET_INFO_GPU_METRICS"]));
    assert!(f.has_gpu_metrics);
    let nic =
        ["NET_NIC_METRIC", "TARGET_INFO_NETWORK_METRICS", "NIC_ID_MAP", "TARGET_INFO_NIC_INFO"];
    assert!(CapabilityFlags::extract(&schema(&nic)).has_nic_metrics);
    for left_out in nic {
        let fewer: Vec<&str> = nic.iter().copied().filter(|t| *t != left_out).collect();
        assert!(!CapabilityFlags::extract(&schema(&fewer)).has_nic_metrics, "{left_out}");
    }
}
