use veloq_nsys_data::hardware::{extract, parse_u64_id, GpuRow, NicRow, SystemEnvRow};
use veloq_nsys_data::{DriverInfo, NsysDataError, SystemInfo};

fn env(global_vid: &str, hostname: Option<&str>) -> SystemEnvRow {
    SystemEnvRow {
        global_vid: global_vid.to_string(),
        hostname: hostname.map(|h| h.to_string()),
        system_uid: None,
        os_description: None,
        kernel_version: None,
        hardware_platform: None,
        software_platform: None,
        software_release_version: None,
        cpu_cores: None,
        cpu_speed_mhz: None,
        cpu_arch: None,
        cpu_desc: None,
        cuda_driver_version: None,
        nv_driver_version: None,
        ofed_driver_version: None,
    }
}

fn gpu(vm_id: &str, id: i64) -> GpuRow {
    GpuRow {
        vm_id: vm_id.to_string(),
        id,
        name: Some("GPU".to_string()),
        uuid: None,
        chip_name: None,
        total_memory: Some(80),
        sm_count: None,
        compute_major: Some(9),
        compute_minor: Some(0),
        bus_location: None,
    }
}

fn nic(id: i64) -> NicRow {
    NicRow { id, name: Some("mlx5_0".to_string()), device_id: None, vendor_id: Some(5555) }
}

#[test]
fn cuda_version_parsed_decodes_int_encoding() {
    let d = DriverInfo { cuda_driver_version: Some("13000".into()), ..Default::default() };
    assert_eq!(d.cuda_version_parsed().as_deref(), Some("13.0"));

    let d = DriverInfo { cuda_driver_version: Some("12050".into()), ..Default::default() };
    assert_eq!(d.cuda_version_parsed().as_deref(), Some("12.5"));

    let d = DriverInfo { cuda_driver_version: None, ..Default::default() };
    assert!(d.cuda_version_parsed().is_none());

    let d = DriverInfo { cuda_driver_version: Some("not-a-number".into()), ..Default::default() };
    assert!(d.cuda_version_parsed().is_none());
}

#[test]
fn system_info_has_any_detects_partial_population() {
    let mut s = SystemInfo::default();
    assert!(!s.has_any());
    s.hostname = Some("box".into());
    assert!(s.has_any());
}

#[test]
fn parse_u64_id_rejects_invalid_value_with_typed_error() {
    let err = match parse_u64_id("not-a-number", "TARGET_INFO_GPU.vmId") {
        Ok(value) => panic!("invalid u64 id should not parse as {value}"),
        Err(err) => err,
    };

    assert_eq!(err.code().as_str(), "nsys.data.hardware-invalid-u64-id");
    match err {
        NsysDataError::HardwareInvalidU64Id { label, value, .. } => {
            assert_eq!(label, "TARGET_INFO_GPU.vmId");
            assert_eq!(value, "not-a-number");
        }
        other => panic!("expected HardwareInvalidU64Id, got {other:?}"),
    }
}

#[test]
fn ids_cover_the_unsigned_range() {
    assert_eq!(parse_u64_id("18446744073709551615", "x").expect("largest"), u64::MAX);
    assert!(parse_u64_id("18446744073709551616", "x").is_err());
    assert!(parse_u64_id("-1", "x").is_err());
    assert!(parse_u64_id("", "x").is_err());
}

#[test]
fn hosts_get_their_gpus_and_the_only_host_its_nics() {
    let rows = vec![env("281474976710656", Some("box"))];
    let hosts = extract(Some(&rows), &vec![gpu("281474976710656", 0)], &vec![nic(1)])
        .expect("readable");
    assert_eq!(hosts.len(), 1);
    assert_eq!(hosts[0].key, "host|box");
    assert_eq!(hosts[0].hw_host_id, 1);
    assert_eq!(hosts[0].vm_id, 281474976710656);
    assert_eq!(hosts[0].gpus.len(), 1);
    assert_eq!(hosts[0].gpus[0].name, "GPU");
    assert_eq!(hosts[0].nics.len(), 1);
    assert_eq!(hosts[0].nics[0].vendor_id, Some(5555));
}

#[test]
fn several_hosts_get_no_nics() {
    let rows = vec![env("0", Some("a")), env("281474976710656", None)];
    let hosts = extract(Some(&rows), &Vec::new(), &vec![nic(1)]).expect("readable");
    assert_eq!(hosts.len(), 2);
    assert!(hosts.iter().all(|h| h.nics.is_empty()));
    assert!(hosts.iter().any(|h| h.key == "host|vm:281474976710656"));
}

#[test]
fn no_environment_table_means_no_hosts() {
    assert!(extract(None, &vec![gpu("x", 0)], &Vec::new()).expect("absent").is_empty());
}

#[test]
fn unreadable_ids_are_typed_errors() {
    let err = extract(Some(&vec![env("bad", None)]), &Vec::new(), &Vec::new()).expect_err("vid");
    assert!(err.message().contains("TARGET_INFO_SYSTEM_ENV.globalVid"), "{}", err.message());
    let err = extract(Some(&vec![env("0", None)]), &vec![gpu("bad", 0)], &Vec::new())
        .expect_err("vm");
    assert!(err.message().contains("TARGET_INFO_GPU.vmId"), "{}", err.message());
}
