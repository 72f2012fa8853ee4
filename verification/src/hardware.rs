//! Hardware topology: CPU / GPU / NIC inventory of the profiled host(s).
//!
//! NSys writes per-host system info into `TARGET_INFO_SYSTEM_ENV`
//! (key-value rows), `TARGET_INFO_GPU` (one row per CUDA device),
//! and `TARGET_INFO_NIC_INFO` (network interfaces, mostly InfiniBand
//! NICs). This module makes one structured record per host of them.
use crate::error::{NsysDataError, NsysDataResult};
use crate::laws::hardware::{are_told, hosts_are_told};
use crate::text::{
    copied_text, decimal, fault_of, parse_unsigned, parsed_unsigned, u64_text, ParseFault,
};
use vstd::prelude::*;
use vstd::string::StringExecFns;

verus! {

/// One profiled host (single-node traces have exactly one).
#[derive(Debug)]
pub struct HostInfo {
    /// Cross-trace key. `host|<hostname>` when SystemInfo has a
    /// hostname; otherwise `host|vm:<vm_id>` so the row still has a
    /// stable identity.
    pub key: String,
    /// Hardware host id: bits 48-63 of NSys `globalVid` / `globalTid`.
    /// Useful for correlating runtime rows on multi-host traces.
    pub hw_host_id: u16,
    /// NSys-internal VM id (raw `TARGET_INFO_SYSTEM_ENV.globalVid`).
    pub vm_id: u64,
    /// OS / platform attributes. `None` only on partial exports
    /// where every queried key is absent.
    pub system: Option<SystemInfo>,
    /// CUDA / NVIDIA / OFED driver versions.
    pub drivers: Option<DriverInfo>,
    /// CPU description. `None` when NSys didn't record any CPU
    /// attribute.
    pub cpu: Option<CpuInfo>,
    /// GPU devices. Empty Vec on hosts with no CUDA-visible GPU.
    pub gpus: Vec<GpuInfo>,
    /// Network interfaces (mostly InfiniBand on cluster traces).
    pub nics: Vec<NicInfo>,
}

/// Operating-system + platform attributes from `TARGET_INFO_SYSTEM_ENV`.
#[derive(Debug)]
pub struct SystemInfo {
    pub hostname: Option<String>,
    pub system_uid: Option<String>,
    /// e.g. `"Ubuntu 22.04.3 LTS"`.
    pub os_description: Option<String>,
    pub kernel_version: Option<String>,
    /// e.g. `"x86_64"`.
    pub hardware_platform: Option<String>,
    pub software_platform: Option<String>,
    pub software_release_version: Option<String>,
}

impl Default for SystemInfo {
    fn default() -> (info: Self)
        ensures
            !info.any(),
    {
        SystemInfo {
            hostname: None,
            system_uid: None,
            os_description: None,
            kernel_version: None,
            hardware_platform: None,
            software_platform: None,
            software_release_version: None,
        }
    }
}

impl SystemInfo {
    /// At least one field carries a value.
    pub open spec fn any(&self) -> bool {
        self.hostname is Some || self.system_uid is Some || self.os_description is Some
            || self.kernel_version is Some || self.hardware_platform is Some
            || self.software_platform is Some || self.software_release_version is Some
    }

    /// `true` iff at least one field carries a value.
    pub fn has_any(&self) -> (b: bool)
        ensures
            b == self.any(),
    {
        self.hostname.is_some() || self.system_uid.is_some() || self.os_description.is_some()
            || self.kernel_version.is_some() || self.hardware_platform.is_some()
            || self.software_platform.is_some() || self.software_release_version.is_some()
    }
}

/// Driver versions. CUDA's `cuda_driver_version` is an integer
/// encoding (`major * 1000 + minor * 10`); [`DriverInfo::cuda_version_parsed`]
/// produces the canonical `"13.0"` shape.
#[derive(Debug)]
pub struct DriverInfo {
    pub cuda_driver_version: Option<String>,
    pub nv_driver_version: Option<String>,
    /// OFED / InfiniBand driver, present only on cluster traces.
    pub ofed_driver_version: Option<String>,
}

impl Default for DriverInfo {
    fn default() -> (info: Self)
        ensures
            !info.any(),
    {
        DriverInfo {
            cuda_driver_version: None,
            nv_driver_version: None,
            ofed_driver_version: None,
        }
    }
}

/// The `"<major>.<minor>"` form of a packed CUDA version.
pub open spec fn cuda_version_text(n: nat) -> Seq<char> {
    decimal((n / 1000) as int) + "."@ + decimal(((n % 1000) / 10) as int)
}

impl DriverInfo {
    /// At least one field carries a value.
    pub open spec fn any(&self) -> bool {
        self.cuda_driver_version is Some || self.nv_driver_version is Some
            || self.ofed_driver_version is Some
    }

    pub fn has_any(&self) -> (b: bool)
        ensures
            b == self.any(),
    {
        self.cuda_driver_version.is_some() || self.nv_driver_version.is_some()
            || self.ofed_driver_version.is_some()
    }

    /// Decode `cuda_driver_version`'s `major*1000 + minor*10` packing
    /// into `"<major>.<minor>"`. Returns `None` when the field is
    /// missing or unparseable.
    pub fn cuda_version_parsed(&self) -> (version: Option<String>)
        ensures
            match self.cuda_driver_version {
                Some(raw) => match parsed_unsigned(raw@, u32::MAX as nat) {
                    Some(n) => version matches Some(v) && v@ == cuda_version_text(n),
                    None => version is None,
                },
                None => version is None,
            },
    {
        let raw = match &self.cuda_driver_version {
            Some(raw) => raw,
            None => {
                return None;
            },
        };
        match parse_unsigned(raw.as_str(), 0xffff_ffff) {
            Ok(n) => {
                let mut text = u64_text(n / 1000);
                text.append(".");
                text.append(u64_text((n % 1000) / 10).as_str());
                Some(text)
            },
            Err(_) => None,
        }
    }
}

/// CPU description. `model` is mandatory; `core_count` and `clock_mhz` are
/// optional because some NSys exports omit them.
#[derive(Debug)]
pub struct CpuInfo {
    pub model: String,
    pub core_count: Option<u32>,
    pub clock_mhz: Option<u32>,
    pub architecture: Option<String>,
}

/// GPU device entry. `name` is the human-readable string NSys
/// writes (e.g. `"NVIDIA H100 PCIe 80GB"`); `chip_name` is the
/// codename (`"GH100"`). Compute capability splits across
/// `compute_major` / `compute_minor`.
#[derive(Debug)]
pub struct GpuInfo {
    pub id: u32,
    pub name: String,
    pub uuid: Option<String>,
    pub chip_name: Option<String>,
    pub total_memory: Option<u64>,
    pub sm_count: Option<u32>,
    pub compute_major: Option<u32>,
    pub compute_minor: Option<u32>,
    /// PCI bus location (e.g. `"0000:1d:00.0"`).
    pub bus_location: Option<String>,
}

/// Network interface. Vendor IDs (e.g. `5555` for Mellanox) are kept
/// unchanged.
#[derive(Debug)]
pub struct NicInfo {
    pub id: u32,
    pub name: String,
    pub device_id: Option<u32>,
    pub vendor_id: Option<u32>,
}

/// One host of `TARGET_INFO_SYSTEM_ENV`, its keys pivoted into columns.
#[derive(Debug)]
pub struct SystemEnvRow {
    pub global_vid: String,
    pub hostname: Option<String>,
    pub system_uid: Option<String>,
    pub os_description: Option<String>,
    pub kernel_version: Option<String>,
    pub hardware_platform: Option<String>,
    pub software_platform: Option<String>,
    pub software_release_version: Option<String>,
    pub cpu_cores: Option<i64>,
    pub cpu_speed_mhz: Option<i64>,
    pub cpu_arch: Option<String>,
    pub cpu_desc: Option<String>,
    pub cuda_driver_version: Option<String>,
    pub nv_driver_version: Option<String>,
    pub ofed_driver_version: Option<String>,
}

/// One row of `TARGET_INFO_GPU`.
#[derive(Debug)]
pub struct GpuRow {
    pub vm_id: String,
    pub id: i64,
    pub name: Option<String>,
    pub uuid: Option<String>,
    pub chip_name: Option<String>,
    pub total_memory: Option<i64>,
    pub sm_count: Option<i64>,
    pub compute_major: Option<i64>,
    pub compute_minor: Option<i64>,
    pub bus_location: Option<String>,
}

/// One row of `TARGET_INFO_NIC_INFO`.
#[derive(Debug)]
pub struct NicRow {
    pub id: i64,
    pub name: Option<String>,
    pub device_id: Option<i64>,
    pub vendor_id: Option<i64>,
}

/// Label of the host ids in messages.
pub const VID_LABEL: &'static str = "TARGET_INFO_SYSTEM_ENV.globalVid";

/// Label of the GPU ids in messages.
pub const GPU_VM_LABEL: &'static str = "TARGET_INFO_GPU.vmId";

/// The error says that `value` is no unsigned 64-bit integer.
pub open spec fn is_invalid_id(error: NsysDataError, label: Seq<char>, value: Seq<char>) -> bool {
    error matches NsysDataError::HardwareInvalidU64Id { label: l, value: v, source } && l@ == label
        && v@ == value && exists|fault: ParseFault|
        #![trigger fault.said()]
        fault_of(value, u64::MAX as nat, fault) && source@ == fault.said()
}

/// Parses an opaque identifier.
pub fn parse_u64_id(value: &str, label: &str) -> (id: NsysDataResult<u64>)
    ensures
        match parsed_unsigned(value@, u64::MAX as nat) {
            Some(n) => id == Ok::<u64, NsysDataError>(n as u64),
            None => id matches Err(error) && is_invalid_id(error, label@, value@),
        },
{
    match parse_unsigned(value, u64::MAX) {
        Ok(n) => Ok(n),
        Err(fault) => {
            assert(fault_of(value@, u64::MAX as nat, fault));
            Err(NsysDataError::hardware_invalid_u64_id(label, value, fault.as_str()))
        },
    }
}

/// The hardware host id in a VM id: bits 48 to 63.
pub open spec fn host_id(vm_id: u64) -> u16 {
    (vm_id / 0x1_0000_0000_0000) as u16
}

/// The hardware host id in a VM id.
fn hw_host_id(vm_id: u64) -> (id: u16)
    ensures
        id == host_id(vm_id),
{
    assert((vm_id >> 48) & 0xFFFF == vm_id / 0x1_0000_0000_0000) by (bit_vector);
    ((vm_id >> 48) & 0xFFFF) as u16
}

/// The lower 32 bits of an optional integer.
pub open spec fn low32(n: Option<i64>) -> Option<u32> {
    match n {
        Some(n) => Some(n as u32),
        None => None,
    }
}

fn narrowed32(n: Option<i64>) -> (low: Option<u32>)
    ensures
        low == low32(n),
{
    match n {
        Some(n) => Some(n as u32),
        None => None,
    }
}

/// The system attributes of a row.
pub open spec fn system_of(row: SystemEnvRow) -> SystemInfo {
    SystemInfo {
        hostname: row.hostname,
        system_uid: row.system_uid,
        os_description: row.os_description,
        kernel_version: row.kernel_version,
        hardware_platform: row.hardware_platform,
        software_platform: row.software_platform,
        software_release_version: row.software_release_version,
    }
}

/// The driver versions of a row.
pub open spec fn drivers_of(row: SystemEnvRow) -> DriverInfo {
    DriverInfo {
        cuda_driver_version: row.cuda_driver_version,
        nv_driver_version: row.nv_driver_version,
        ofed_driver_version: row.ofed_driver_version,
    }
}

/// The CPU of a row: there only where its description is.
pub open spec fn cpu_of(row: SystemEnvRow) -> Option<CpuInfo> {
    match row.cpu_desc {
        Some(model) => Some(
            CpuInfo {
                model,
                core_count: low32(row.cpu_cores),
                clock_mhz: low32(row.cpu_speed_mhz),
                architecture: row.cpu_arch,
            },
        ),
        None => None,
    }
}

/// The key of a host.
pub open spec fn host_key(hostname: Option<String>, vm_id: u64) -> Seq<char> {
    match hostname {
        Some(name) => "host|"@ + name@,
        None => "host|vm:"@ + decimal(vm_id as int),
    }
}

/// The host is the one that the row describes, without devices.
pub open spec fn describes(row: SystemEnvRow, vm_id: u64, host: HostInfo) -> bool {
    &&& host.vm_id == vm_id
    &&& host.hw_host_id == host_id(vm_id)
    &&& host.key@ == host_key(row.hostname, vm_id)
    &&& host.system == if system_of(row).any() {
        Some(system_of(row))
    } else {
        None
    }
    &&& host.drivers == if drivers_of(row).any() {
        Some(drivers_of(row))
    } else {
        None
    }
    &&& host.cpu == cpu_of(row)
}

/// The host that a row describes, still without devices.
fn host_from_row(row: &SystemEnvRow) -> (host: NsysDataResult<HostInfo>)
    ensures
        match parsed_unsigned(row.global_vid@, u64::MAX as nat) {
            Some(n) => host matches Ok(h) && describes(*row, n as u64, h) && h.gpus.len() == 0
                && h.nics.len() == 0,
            None => host matches Err(error) && is_invalid_id(
                error,
                VID_LABEL@,
                row.global_vid@,
            ),
        },
{
    let vm_id: u64 = match parse_u64_id(row.global_vid.as_str(), VID_LABEL) {
        Ok(id) => id,
        Err(error) => {
            return Err(error);
        },
    };
    let system = SystemInfo {
        hostname: copied_text(&row.hostname),
        system_uid: copied_text(&row.system_uid),
        os_description: copied_text(&row.os_description),
        kernel_version: copied_text(&row.kernel_version),
        hardware_platform: copied_text(&row.hardware_platform),
        software_platform: copied_text(&row.software_platform),
        software_release_version: copied_text(&row.software_release_version),
    };
    let drivers = DriverInfo {
        cuda_driver_version: copied_text(&row.cuda_driver_version),
        nv_driver_version: copied_text(&row.nv_driver_version),
        ofed_driver_version: copied_text(&row.ofed_driver_version),
    };
    let cpu = match &row.cpu_desc {
        Some(model) => Some(
            CpuInfo {
                model: model.clone(),
                core_count: narrowed32(row.cpu_cores),
                clock_mhz: narrowed32(row.cpu_speed_mhz),
                architecture: copied_text(&row.cpu_arch),
            },
        ),
        None => None,
    };
    let key = match &row.hostname {
        Some(hostname) => {
            let mut key = "host|".to_owned();
            key.append(hostname.as_str());
            key
        },
        None => {
            let mut key = "host|vm:".to_owned();
            key.append(u64_text(vm_id).as_str());
            key
        },
    };
    let system = if system.has_any() {
        Some(system)
    } else {
        None
    };
    let drivers = if drivers.has_any() {
        Some(drivers)
    } else {
        None
    };
    Ok(
        HostInfo {
            key,
            hw_host_id: hw_host_id(vm_id),
            vm_id,
            system,
            drivers,
            cpu,
            gpus: Vec::new(),
            nics: Vec::new(),
        },
    )
}

/// The GPU of a row with a name.
pub open spec fn gpu_of(row: GpuRow) -> GpuInfo {
    GpuInfo {
        id: row.id as u32,
        name: row.name->0,
        uuid: row.uuid,
        chip_name: row.chip_name,
        total_memory: match row.total_memory {
            Some(n) => Some(n as u64),
            None => None,
        },
        sm_count: low32(row.sm_count),
        compute_major: low32(row.compute_major),
        compute_minor: low32(row.compute_minor),
        bus_location: row.bus_location,
    }
}

/// Host `h` is the first with the hardware host id.
pub open spec fn is_first_host(hosts: Seq<HostInfo>, id: u16, h: int) -> bool {
    0 <= h < hosts.len() && hosts[h].hw_host_id == id && forall|g: int|
        0 <= g < h ==> (#[trigger] hosts[g]).hw_host_id != id
}

/// The row's GPU goes to host `h`: it has a name, and `h` is the first host
/// with its hardware host id.
pub open spec fn goes_to(hosts: Seq<HostInfo>, row: GpuRow, h: int) -> bool {
    row.name is Some && is_first_host(
        hosts,
        host_id(parsed_unsigned(row.vm_id@, u64::MAX as nat)->0 as u64),
        h,
    )
}

/// The GPUs of the first `n` rows that go to host `h`.
pub open spec fn host_gpus(hosts: Seq<HostInfo>, rows: Seq<GpuRow>, h: int, n: nat) -> Seq<GpuInfo>
    decreases n,
{
    if n == 0 {
        Seq::empty()
    } else if goes_to(hosts, rows[n - 1], h) {
        host_gpus(hosts, rows, h, (n - 1) as nat).push(gpu_of(rows[n - 1]))
    } else {
        host_gpus(hosts, rows, h, (n - 1) as nat)
    }
}

/// The two hosts differ at most in their devices.
pub open spec fn same_host(a: HostInfo, b: HostInfo) -> bool {
    &&& a.key == b.key
    &&& a.hw_host_id == b.hw_host_id
    &&& a.vm_id == b.vm_id
    &&& a.system == b.system
    &&& a.drivers == b.drivers
    &&& a.cpu == b.cpu
}

/// Row `i` is the first whose VM id is no unsigned 64-bit integer.
pub open spec fn first_bad_gpu(rows: Seq<GpuRow>, i: int) -> bool {
    &&& 0 <= i < rows.len()
    &&& parsed_unsigned(rows[i].vm_id@, u64::MAX as nat) is None
    &&& forall|j: int|
        0 <= j < i ==> parsed_unsigned((#[trigger] rows[j]).vm_id@, u64::MAX as nat) is Some
}

/// Adds a GPU to host `at`.
fn push_gpu(hosts: &mut Vec<HostInfo>, at: usize, gpu: GpuInfo)
    requires
        at < old(hosts).len(),
    ensures
        final(hosts).len() == old(hosts).len(),
        same_host(final(hosts)@[at as int], old(hosts)@[at as int]),
        final(hosts)@[at as int].nics == old(hosts)@[at as int].nics,
        final(hosts)@[at as int].gpus@ == old(hosts)@[at as int].gpus@.push(gpu),
        forall|h: int|
            0 <= h < old(hosts).len() && h != at ==> #[trigger] final(hosts)@[h] == old(hosts)@[h],
{
    hosts[at].gpus.push(gpu);
}

/// Attaches GPUs to hosts. Multiple GPUs per host are common; a row belongs to
/// the host with the hardware host id of its `vmId`.
fn attach_gpus(rows: &Vec<GpuRow>, hosts: &mut Vec<HostInfo>) -> (result: NsysDataResult<()>)
    ensures
        final(hosts).len() == old(hosts).len(),
        forall|h: int|
            0 <= h < old(hosts).len() ==> same_host(#[trigger] final(hosts)@[h], old(hosts)@[h])
                && final(hosts)@[h].nics == old(hosts)@[h].nics,
        match result {
            Ok(_) => {
                &&& forall|i: int|
                    0 <= i < rows.len() ==> parsed_unsigned(
                        (#[trigger] rows@[i]).vm_id@,
                        u64::MAX as nat,
                    ) is Some
                &&& forall|h: int|
                    0 <= h < old(hosts).len() ==> (#[trigger] final(hosts)@[h]).gpus@
                        == old(hosts)@[h].gpus@ + host_gpus(
                        old(hosts)@,
                        rows@,
                        h,
                        rows@.len(),
                    )
            },
            Err(error) => exists|i: int| #[trigger]
                first_bad_gpu(rows@, i) && is_invalid_id(error, GPU_VM_LABEL@, rows@[i].vm_id@),
        },
{
    let ghost before = hosts@;
    let mut i: usize = 0;
    assert forall|h: int| 0 <= h < before.len() implies (#[trigger] hosts@[h]).gpus@
        == before[h].gpus@ + host_gpus(before, rows@, h, 0) by {
        assert(before[h].gpus@ + host_gpus(before, rows@, h, 0) =~= before[h].gpus@);
    }
    while i < rows.len()
        invariant
            i <= rows.len(),
            hosts.len() == before.len(),
            before == old(hosts)@,
            forall|j: int|
                0 <= j < i ==> parsed_unsigned(
                    (#[trigger] rows@[j]).vm_id@,
                    u64::MAX as nat,
                ) is Some,
            forall|h: int|
                0 <= h < before.len() ==> same_host(#[trigger] hosts@[h], before[h])
                    && hosts@[h].nics == before[h].nics,
            forall|h: int|
                0 <= h < before.len() ==> (#[trigger] hosts@[h]).gpus@ == before[h].gpus@
                    + host_gpus(before, rows@, h, i as nat),
        decreases rows.len() - i,
    {
        let row = &rows[i];
        let vm_id: u64 = match parse_u64_id(row.vm_id.as_str(), GPU_VM_LABEL) {
            Ok(id) => id,
            Err(error) => {
                assert(first_bad_gpu(rows@, i as int));
                return Err(error);
            },
        };
        let id: u16 = hw_host_id(vm_id);
        let ghost mid = hosts@;
        if let Some(name) = &row.name {
            let gpu = GpuInfo {
                id: row.id as u32,
                name: name.clone(),
                uuid: copied_text(&row.uuid),
                chip_name: copied_text(&row.chip_name),
                total_memory: match row.total_memory {
                    Some(n) => Some(n as u64),
                    None => None,
                },
                sm_count: narrowed32(row.sm_count),
                compute_major: narrowed32(row.compute_major),
                compute_minor: narrowed32(row.compute_minor),
                bus_location: copied_text(&row.bus_location),
            };
            assert(gpu == gpu_of(*row));
            let mut at: usize = 0;
            while at < hosts.len() && hosts[at].hw_host_id != id
                invariant
                    at <= hosts.len(),
                    hosts@ == mid,
                    forall|g: int| 0 <= g < at ==> (#[trigger] hosts@[g]).hw_host_id != id,
                decreases hosts.len() - at,
            {
                at = at + 1;
            }
            if at < hosts.len() {
                push_gpu(hosts, at, gpu);
            }
            proof {
                assert forall|h: int| 0 <= h < before.len() implies (goes_to(before, *row, h)
                    <==> h == at) by {
                    assert(same_host(mid[h], before[h]));
                    assert forall|g: int| 0 <= g < before.len() implies (
                    #[trigger] before[g]).hw_host_id == mid[g].hw_host_id by {
                        assert(same_host(mid[g], before[g]));
                    }
                    if h == at {
                        assert(is_first_host(before, id, h)) by {
                            assert forall|g: int| 0 <= g < h implies (
                            #[trigger] before[g]).hw_host_id != id by {
                                assert(mid[g].hw_host_id != id);
                            }
                        }
                    }
                    if is_first_host(before, id, h) && h > at {
                        assert(before[at as int].hw_host_id != id);
                    }
                }
            }
        }
        i = i + 1;
        proof {
            assert forall|h: int| 0 <= h < before.len() implies (#[trigger] hosts@[h]).gpus@
                == before[h].gpus@ + host_gpus(before, rows@, h, i as nat) by {
                assert(mid[h].gpus@ == before[h].gpus@ + host_gpus(
                    before,
                    rows@,
                    h,
                    (i - 1) as nat,
                ));
                assert(hosts@[h].gpus@ =~= if goes_to(before, *row, h) {
                    mid[h].gpus@.push(gpu_of(*row))
                } else {
                    mid[h].gpus@
                });
                assert(hosts@[h].gpus@ =~= before[h].gpus@ + host_gpus(
                    before,
                    rows@,
                    h,
                    i as nat,
                ));
            }
            assert forall|h: int| 0 <= h < before.len() implies same_host(
                #[trigger] hosts@[h],
                before[h],
            ) && hosts@[h].nics == before[h].nics by {
                assert(same_host(mid[h], before[h]));
            }
        }
    }
    Ok(())
}

/// The interfaces of the first `n` rows that have a name.
pub open spec fn named_nics(rows: Seq<NicRow>, n: nat) -> Seq<NicInfo>
    decreases n,
{
    if n == 0 {
        Seq::empty()
    } else {
        let rest = named_nics(rows, (n - 1) as nat);
        let row = rows[n - 1];
        match row.name {
            Some(name) => rest.push(
                NicInfo {
                    id: row.id as u32,
                    name,
                    device_id: low32(row.device_id),
                    vendor_id: low32(row.vendor_id),
                },
            ),
            None => rest,
        }
    }
}

/// Attaches network interfaces.
///
/// NSys's schema doesn't expose a NIC to host mapping. Single-host traces get
/// every NIC attached to the only host; multi-host traces skip NIC attribution
/// to avoid mis-assigning interfaces to the wrong node.
fn attach_nics(rows: &Vec<NicRow>, hosts: &mut Vec<HostInfo>)
    ensures
        final(hosts).len() == old(hosts).len(),
        forall|h: int|
            0 <= h < old(hosts).len() ==> same_host(#[trigger] final(hosts)@[h], old(hosts)@[h])
                && final(hosts)@[h].gpus == old(hosts)@[h].gpus,
        old(hosts).len() == 1 ==> final(hosts)@[0].nics@ == old(hosts)@[0].nics@ + named_nics(
            rows@,
            rows@.len(),
        ),
        old(hosts).len() != 1 ==> final(hosts)@ == old(hosts)@,
{
    if hosts.len() != 1 {
        return;
    }
    let ghost before = hosts@;
    let mut i: usize = 0;
    assert(before[0].nics@ + named_nics(rows@, 0) =~= before[0].nics@);
    while i < rows.len()
        invariant
            i <= rows.len(),
            hosts.len() == 1,
            before.len() == 1,
            same_host(hosts@[0], before[0]),
            hosts@[0].gpus == before[0].gpus,
            hosts@[0].nics@ == before[0].nics@ + named_nics(rows@, i as nat),
        decreases rows.len() - i,
    {
        let row = &rows[i];
        let ghost mid = hosts@[0].nics@;
        if let Some(name) = &row.name {
            let nic = NicInfo {
                id: row.id as u32,
                name: name.clone(),
                device_id: narrowed32(row.device_id),
                vendor_id: narrowed32(row.vendor_id),
            };
            hosts[0].nics.push(nic);
        }
        i = i + 1;
        assert(hosts@[0].nics@ =~= before[0].nics@ + named_nics(rows@, i as nat));
    }
}

/// Row `i` is the first whose VM id is no unsigned 64-bit integer.
pub open spec fn first_bad_host(rows: Seq<SystemEnvRow>, i: int) -> bool {
    &&& 0 <= i < rows.len()
    &&& parsed_unsigned(rows[i].global_vid@, u64::MAX as nat) is None
    &&& forall|j: int|
        0 <= j < i ==> parsed_unsigned((#[trigger] rows[j]).global_vid@, u64::MAX as nat) is Some
}

/// Every row has a VM id.
pub open spec fn hosts_readable(rows: Seq<SystemEnvRow>) -> bool {
    forall|i: int|
        0 <= i < rows.len() ==> parsed_unsigned(
            (#[trigger] rows[i]).global_vid@,
            u64::MAX as nat,
        ) is Some
}

/// The hosts are those that the rows describe.
pub open spec fn describe_all(rows: Seq<SystemEnvRow>, hosts: Seq<HostInfo>) -> bool {
    &&& hosts.len() == rows.len()
    &&& forall|h: int|
        0 <= h < hosts.len() ==> describes(
            rows[h],
            parsed_unsigned(rows[h].global_vid@, u64::MAX as nat)->0 as u64,
            #[trigger] hosts[h],
        )
}

/// The outcome of reading the inventory rows: the hosts with their devices, or
/// the error of the first host row, or else of the first GPU row, whose VM id
/// cannot be read.
pub open spec fn tells_hosts(
    hosts: NsysDataResult<Vec<HostInfo>>,
    env: Seq<SystemEnvRow>,
    gpus: Seq<GpuRow>,
    nics: Seq<NicRow>,
) -> bool {
    match hosts {
        Ok(hs) => {
            &&& hosts_readable(env)
            &&& describe_all(env, hs@)
            &&& forall|i: int|
                0 <= i < gpus.len() ==> parsed_unsigned(
                    (#[trigger] gpus[i]).vm_id@,
                    u64::MAX as nat,
                ) is Some
            &&& forall|h: int|
                0 <= h < hs.len() ==> (#[trigger] hs@[h]).gpus@ == host_gpus(
                    hs@,
                    gpus,
                    h,
                    gpus.len(),
                )
            &&& forall|h: int|
                0 <= h < hs.len() ==> (#[trigger] hs@[h]).nics@ == if hs.len() == 1 {
                    named_nics(nics, nics.len())
                } else {
                    Seq::empty()
                }
        },
        Err(error) => {
            ||| exists|i: int| #[trigger]
                first_bad_host(env, i) && is_invalid_id(
                    error,
                    VID_LABEL@,
                    env[i].global_vid@,
                )
            ||| hosts_readable(env) && exists|i: int| #[trigger]
                first_bad_gpu(gpus, i) && is_invalid_id(
                    error,
                    GPU_VM_LABEL@,
                    gpus[i].vm_id@,
                )
        },
    }
}

/// Pull the full hardware topology out of the rows of the inventory tables.
///
/// `env` is `None` when `TARGET_INFO_SYSTEM_ENV` is absent, which is a partial
/// export and no failure: there are no hosts then. The other two tables have
/// no rows where they are absent.
pub fn extract(
    env: Option<&Vec<SystemEnvRow>>,
    gpus: &Vec<GpuRow>,
    nics: &Vec<NicRow>,
) -> (hosts: NsysDataResult<Vec<HostInfo>>)
    ensures
        match env {
            Some(rows) => tells_hosts(hosts, rows@, gpus@, nics@),
            None => hosts matches Ok(hs) && hs.len() == 0,
        },
        env matches Some(rows) ==> (hosts matches Ok(hs) ==> are_told(hs@, rows@, gpus@, nics@)),
{
    match env {
        Some(rows) => {
            let hosts = hosts_of(rows, gpus, nics);
            proof {
                if hosts is Ok {
                    hosts_are_told(rows@, gpus@, nics@, hosts->Ok_0);
                }
            }
            hosts
        },
        None => Ok(Vec::new()),
    }
}

/// One record per host.
fn hosts_of(env: &Vec<SystemEnvRow>, gpus: &Vec<GpuRow>, nics: &Vec<NicRow>) -> (hosts: NsysDataResult<
    Vec<HostInfo>,
>)
    ensures
        tells_hosts(hosts, env@, gpus@, nics@),
{
    let mut hosts: Vec<HostInfo> = Vec::with_capacity(env.len());
    let mut i: usize = 0;
    while i < env.len()
        invariant
            i <= env.len(),
            hosts.len() == i,
            forall|j: int|
                0 <= j < i ==> parsed_unsigned(
                    (#[trigger] env@[j]).global_vid@,
                    u64::MAX as nat,
                ) is Some,
            forall|h: int|
                0 <= h < i ==> describes(
                    env@[h],
                    parsed_unsigned(env@[h].global_vid@, u64::MAX as nat)->0 as u64,
                    #[trigger] hosts@[h],
                ) && hosts@[h].gpus.len() == 0 && hosts@[h].nics.len() == 0,
        decreases env.len() - i,
    {
        match host_from_row(&env[i]) {
            Ok(host) => {
                hosts.push(host);
            },
            Err(error) => {
                assert(first_bad_host(env@, i as int));
                return Err(error);
            },
        }
        i = i + 1;
    }
    let ghost bare = hosts@;
    assert(hosts_readable(env@));
    match attach_gpus(gpus, &mut hosts) {
        Ok(_) => {},
        Err(error) => {
            return Err(error);
        },
    }
    let ghost with_gpus = hosts@;
    attach_nics(nics, &mut hosts);
    proof {
        assert forall|h: int| 0 <= h < hosts.len() implies {
            &&& describes(
                env@[h],
                parsed_unsigned(env@[h].global_vid@, u64::MAX as nat)->0 as u64,
                #[trigger] hosts@[h],
            )
            &&& hosts@[h].gpus@ == host_gpus(bare, gpus@, h, gpus@.len())
            &&& hosts@[h].hw_host_id == bare[h].hw_host_id
        } by {
            assert(bare[h].gpus.len() == 0);
            assert(same_host(with_gpus[h], bare[h]));
            assert(with_gpus[h].gpus@ == bare[h].gpus@ + host_gpus(
                bare,
                gpus@,
                h,
                gpus@.len(),
            ));
            assert(with_gpus[h].gpus@ =~= host_gpus(bare, gpus@, h, gpus@.len()));
            assert(same_host(hosts@[h], with_gpus[h]));
        }
        assert forall|h: int| 0 <= h < hosts.len() implies (#[trigger] hosts@[h]).gpus@
            == host_gpus(hosts@, gpus@, h, gpus@.len()) by {
            same_ids_same_gpus(bare, hosts@, gpus@, h, gpus@.len());
        }
        assert forall|h: int| 0 <= h < hosts.len() implies (#[trigger] hosts@[h]).nics@
            == if hosts.len() == 1 {
            named_nics(nics@, nics@.len())
        } else {
            Seq::empty()
        } by {
            assert(bare[h].nics.len() == 0);
            assert(same_host(with_gpus[h], bare[h]) && with_gpus[h].nics == bare[h].nics);
            if hosts.len() == 1 {
                assert(hosts@[h].nics@ =~= named_nics(nics@, nics@.len()));
            } else {
                assert(hosts@[h].nics@ =~= Seq::empty());
            }
        }
    }
    Ok(hosts)
}

proof fn same_ids_same_gpus(
    a: Seq<HostInfo>,
    b: Seq<HostInfo>,
    rows: Seq<GpuRow>,
    h: int,
    n: nat,
)
    requires
        a.len() == b.len(),
        forall|g: int| 0 <= g < a.len() ==> (#[trigger] a[g]).hw_host_id == b[g].hw_host_id,
        n <= rows.len(),
    ensures
        host_gpus(a, rows, h, n) == host_gpus(b, rows, h, n),
    decreases n,
{
    if n > 0 {
        same_ids_same_gpus(a, b, rows, h, (n - 1) as nat);
        let id = host_id(parsed_unsigned(rows[n - 1].vm_id@, u64::MAX as nat)->0 as u64);
        assert(is_first_host(a, id, h) <==> is_first_host(b, id, h)) by {
            if is_first_host(a, id, h) {
                assert forall|g: int| 0 <= g < h implies (#[trigger] b[g]).hw_host_id != id by {
                    assert(a[g].hw_host_id != id);
                }
                assert(a[h].hw_host_id == b[h].hw_host_id);
            }
            if is_first_host(b, id, h) {
                assert forall|g: int| 0 <= g < h implies (#[trigger] a[g]).hw_host_id != id by {
                    assert(b[g].hw_host_id != id);
                }
                assert(a[h].hw_host_id == b[h].hw_host_id);
            }
        }
    }
}

} // verus!
