//! What is reported of the hosts.
use super::ascending;
use crate::hardware::{
    describes, goes_to, gpu_of, host_gpus, host_id, named_nics, tells_hosts, GpuInfo, GpuRow,
    HostInfo, NicInfo, NicRow, SystemEnvRow,
};
use crate::error::NsysDataResult;
use crate::text::{decimal, parsed_unsigned};
use vstd::prelude::*;

verus! {

/// The number is kept in 32 bits where there is one.
pub open spec fn kept32(told: Option<u32>, n: Option<i64>) -> bool {
    match n {
        Some(n) => told == Some(n as u32),
        None => told is None,
    }
}

/// The GPU is told as its row has it, field by field.
pub open spec fn tells_gpu(gpu: GpuInfo, row: GpuRow) -> bool {
    &&& gpu.id == row.id as u32
    &&& row.name == Some(gpu.name)
    &&& gpu.uuid == row.uuid
    &&& gpu.chip_name == row.chip_name
    &&& match row.total_memory {
        Some(n) => gpu.total_memory == Some(n as u64),
        None => gpu.total_memory is None,
    }
    &&& kept32(gpu.sm_count, row.sm_count)
    &&& kept32(gpu.compute_major, row.compute_major)
    &&& kept32(gpu.compute_minor, row.compute_minor)
    &&& gpu.bus_location == row.bus_location
}

/// The row is of a GPU with a name, on the machine of the host: the upper 16 bits
/// of the numbers of the two machines are the same, and no host before has them.
pub open spec fn is_on_host(hosts: Seq<HostInfo>, row: GpuRow, h: int) -> bool {
    &&& row.name is Some
    &&& parsed_unsigned(row.vm_id@, u64::MAX as nat) matches Some(vm) && {
        &&& hosts[h].vm_id / 0x1_0000_0000_0000 == vm / 0x1_0000_0000_0000
        &&& forall|g: int|
            0 <= g < h ==> (#[trigger] hosts[g]).vm_id / 0x1_0000_0000_0000 != vm
                / 0x1_0000_0000_0000
    }
}

/// The places are those of the rows of GPUs on the host, and its GPUs are told as
/// those rows have them.
pub open spec fn lists_gpus(hosts: Seq<HostInfo>, rows: Seq<GpuRow>, h: int, at: Seq<int>) -> bool {
    &&& ascending(at, rows.len())
    &&& at.len() == hosts[h].gpus@.len()
    &&& forall|k: int| 0 <= k < at.len() ==> tells_gpu(hosts[h].gpus@[k], rows[#[trigger] at[k]])
    &&& forall|i: int|
        0 <= i < rows.len() ==> (#[trigger] at.contains(i) <==> is_on_host(hosts, rows[i], h))
}

/// The host has the GPUs of its machine, as their rows have them.
pub open spec fn has_its_gpus(hosts: Seq<HostInfo>, rows: Seq<GpuRow>, h: int) -> bool {
    exists|at: Seq<int>| lists_gpus(hosts, rows, h, at)
}

/// The interface is told as its row has it, field by field.
pub open spec fn tells_nic(nic: NicInfo, row: NicRow) -> bool {
    &&& nic.id == row.id as u32
    &&& row.name == Some(nic.name)
    &&& kept32(nic.device_id, row.device_id)
    &&& kept32(nic.vendor_id, row.vendor_id)
}

/// The places are those of the rows with a name, and the interfaces are told as
/// those rows have them.
pub open spec fn lists_nics(nics: Seq<NicInfo>, rows: Seq<NicRow>, at: Seq<int>) -> bool {
    &&& ascending(at, rows.len())
    &&& at.len() == nics.len()
    &&& forall|k: int| 0 <= k < at.len() ==> tells_nic(nics[k], rows[#[trigger] at[k]])
    &&& forall|i: int| 0 <= i < rows.len() ==> (#[trigger] at.contains(i) <==> rows[i].name is Some)
}

/// The host is told as its row has it, field by field. What a row says nothing of
/// is left out.
pub open spec fn tells_host(host: HostInfo, row: SystemEnvRow) -> bool {
    &&& parsed_unsigned(row.global_vid@, u64::MAX as nat) == Some(host.vm_id as nat)
    &&& host.hw_host_id * 0x1_0000_0000_0000 <= host.vm_id < (host.hw_host_id + 1)
        * 0x1_0000_0000_0000
    &&& host.key@ == match row.hostname {
        Some(name) => "host|"@ + name@,
        None => "host|vm:"@ + decimal(host.vm_id as int),
    }
    &&& match host.system {
        Some(s) => {
            &&& s.hostname == row.hostname
            &&& s.system_uid == row.system_uid
            &&& s.os_description == row.os_description
            &&& s.kernel_version == row.kernel_version
            &&& s.hardware_platform == row.hardware_platform
            &&& s.software_platform == row.software_platform
            &&& s.software_release_version == row.software_release_version
        },
        None => true,
    }
    &&& host.system is None <==> row.hostname is None && row.system_uid is None
        && row.os_description is None && row.kernel_version is None && row.hardware_platform is None
        && row.software_platform is None && row.software_release_version is None
    &&& match host.drivers {
        Some(d) => {
            &&& d.cuda_driver_version == row.cuda_driver_version
            &&& d.nv_driver_version == row.nv_driver_version
            &&& d.ofed_driver_version == row.ofed_driver_version
        },
        None => true,
    }
    &&& host.drivers is None <==> row.cuda_driver_version is None && row.nv_driver_version is None
        && row.ofed_driver_version is None
    &&& match host.cpu {
        Some(c) => {
            &&& row.cpu_desc == Some(c.model)
            &&& kept32(c.core_count, row.cpu_cores)
            &&& kept32(c.clock_mhz, row.cpu_speed_mhz)
            &&& c.architecture == row.cpu_arch
        },
        None => row.cpu_desc is None,
    }
}

proof fn gpus_in_order(hosts: Seq<HostInfo>, rows: Seq<GpuRow>, h: int, n: nat) -> (at: Seq<int>)
    requires
        n <= rows.len(),
    ensures
        ascending(at, n),
        at.len() == host_gpus(hosts, rows, h, n).len(),
        forall|k: int|
            0 <= k < at.len() ==> host_gpus(hosts, rows, h, n)[k] == gpu_of(rows[#[trigger] at[k]])
                && goes_to(hosts, rows[at[k]], h),
        forall|i: int| 0 <= i < n ==> (#[trigger] at.contains(i) <==> goes_to(hosts, rows[i], h)),
    decreases n,
{
    if n == 0 {
        Seq::empty()
    } else {
        let before = gpus_in_order(hosts, rows, h, (n - 1) as nat);
        if goes_to(hosts, rows[n - 1], h) {
            let at = before.push(n - 1);
            assert forall|k: int| 0 <= k < at.len() implies host_gpus(hosts, rows, h, n)[k] == gpu_of(
                rows[#[trigger] at[k]],
            ) && goes_to(hosts, rows[at[k]], h) by {
                if k < before.len() {
                    assert(at[k] == before[k]);
                }
            }
            assert forall|i: int| 0 <= i < n implies (#[trigger] at.contains(i) <==> goes_to(
                hosts,
                rows[i],
                h,
            )) by {
                pushed(before, n - 1, i);
            }
            at
        } else {
            assert forall|i: int| 0 <= i < n implies (#[trigger] before.contains(i) <==> goes_to(
                hosts,
                rows[i],
                h,
            )) by {
                if before.contains(n - 1) {
                    let k: int = choose|k: int| 0 <= k < before.len() && before[k] == n - 1;
                    assert(before[k] < n - 1);
                }
            }
            before
        }
    }
}

proof fn pushed(s: Seq<int>, last: int, i: int)
    ensures
        s.push(last).contains(i) <==> s.contains(i) || i == last,
{
    if s.contains(i) {
        let k: int = choose|k: int| 0 <= k < s.len() && s[k] == i;
        assert(s.push(last)[k] == i);
    }
    if i == last {
        assert(s.push(last)[s.len() as int] == i);
    }
    if s.push(last).contains(i) && i != last {
        let k: int = choose|k: int| 0 <= k < s.push(last).len() && s.push(last)[k] == i;
        assert(s[k] == i);
    }
}

proof fn nics_in_order(rows: Seq<NicRow>, n: nat) -> (at: Seq<int>)
    requires
        n <= rows.len(),
    ensures
        ascending(at, n),
        at.len() == named_nics(rows, n).len(),
        forall|k: int| 0 <= k < at.len() ==> tells_nic(named_nics(rows, n)[k], rows[#[trigger] at[k]]),
        forall|i: int| 0 <= i < n ==> (#[trigger] at.contains(i) <==> rows[i].name is Some),
    decreases n,
{
    if n == 0 {
        Seq::empty()
    } else {
        let before = nics_in_order(rows, (n - 1) as nat);
        if rows[n - 1].name is Some {
            let at = before.push(n - 1);
            assert forall|k: int| 0 <= k < at.len() implies tells_nic(
                named_nics(rows, n)[k],
                rows[#[trigger] at[k]],
            ) by {
                if k < before.len() {
                    assert(at[k] == before[k]);
                }
            }
            assert forall|i: int| 0 <= i < n implies (#[trigger] at.contains(i) <==> rows[i].name
                is Some) by {
                pushed(before, n - 1, i);
            }
            at
        } else {
            assert forall|i: int| 0 <= i < n implies (#[trigger] before.contains(i) <==> rows[i].name
                is Some) by {
                if before.contains(n - 1) {
                    let k: int = choose|k: int| 0 <= k < before.len() && before[k] == n - 1;
                    assert(before[k] < n - 1);
                }
            }
            before
        }
    }
}

proof fn upper_bits(vm: u64)
    ensures
        host_id(vm) == vm / 0x1_0000_0000_0000,
{
    assert(vm / 0x1_0000_0000_0000 <= 0xFFFF) by (bit_vector);
}

/// There is one host for each row, in the order of the rows: it is told as the row
/// tells it, has its GPUs, and has the adapters where it is the only one.
pub open spec fn are_told(
    hosts: Seq<HostInfo>,
    env: Seq<SystemEnvRow>,
    gpus: Seq<GpuRow>,
    nics: Seq<NicRow>,
) -> bool {
    &&& hosts.len() == env.len()
    &&& forall|h: int| 0 <= h < env.len() ==> tells_host(#[trigger] hosts[h], env[h])
    &&& forall|h: int| 0 <= h < env.len() ==> #[trigger] has_its_gpus(hosts, gpus, h)
    &&& env.len() == 1 ==> exists|at: Seq<int>| lists_nics(hosts[0].nics@, nics, at)
    &&& env.len() != 1 ==> forall|h: int|
        0 <= h < env.len() ==> (#[trigger] hosts[h]).nics@.len() == 0
}

/// Each host is told as its row of the environment has it, in the order of the
/// rows. Each GPU is told as its row has it, on the first host of its machine, and
/// each GPU row with a name is told on exactly that host. Interfaces are told on
/// the only host, or nowhere.
pub proof fn hosts_are_told(
    env: Seq<SystemEnvRow>,
    gpus: Seq<GpuRow>,
    nics: Seq<NicRow>,
    hosts: Vec<HostInfo>,
)
    requires
        tells_hosts(Ok::<Vec<HostInfo>, crate::error::NsysDataError>(hosts), env, gpus, nics),
    ensures
        are_told(hosts@, env, gpus, nics),
{
    let hs = hosts@;
    assert forall|h: int| 0 <= h < env.len() implies tells_host(#[trigger] hs[h], env[h]) by {
        assert(describes(
            env[h],
            parsed_unsigned(env[h].global_vid@, u64::MAX as nat)->0 as u64,
            hs[h],
        ));
        parsed_in_range(env[h].global_vid@);
        upper_bits(hs[h].vm_id);
    }
    assert forall|h: int| 0 <= h < env.len() implies #[trigger] has_its_gpus(hs, gpus, h) by {
        let at = gpus_in_order(hs, gpus, h, gpus.len());
        assert(hs[h].gpus@ == host_gpus(hs, gpus, h, gpus.len()));
        assert forall|i: int| 0 <= i < gpus.len() implies (#[trigger] at.contains(i) <==> is_on_host(
            hs,
            gpus[i],
            h,
        )) by {
            assert(parsed_unsigned(gpus[i].vm_id@, u64::MAX as nat) is Some);
            parsed_in_range(gpus[i].vm_id@);
            let vm = parsed_unsigned(gpus[i].vm_id@, u64::MAX as nat)->0 as u64;
            upper_bits(vm);
            assert forall|g: int| 0 <= g < env.len() implies (#[trigger] hs[g]).hw_host_id
                == hs[g].vm_id / 0x1_0000_0000_0000 by {
                assert(tells_host(hs[g], env[g]));
            }
            assert(hs[h].hw_host_id == hs[h].vm_id / 0x1_0000_0000_0000);
        }
        assert forall|k: int| 0 <= k < at.len() implies tells_gpu(
            hs[h].gpus@[k],
            gpus[#[trigger] at[k]],
        ) by {
            assert(goes_to(hs, gpus[at[k]], h));
        }
        assert(lists_gpus(hs, gpus, h, at));
    }
    if env.len() == 1 {
        let at = nics_in_order(nics, nics.len());
        assert(hs[0].nics@ == named_nics(nics, nics.len()));
        assert(lists_nics(hs[0].nics@, nics, at));
    }
}

proof fn parsed_in_range(text: Seq<char>)
    ensures
        parsed_unsigned(text, u64::MAX as nat) matches Some(n) ==> n <= u64::MAX,
{
}

/// Hosts are refused exactly where a number of a machine cannot be read, that of a
/// host before those of the GPUs, and the first such number is told.
pub proof fn unreadable_hosts_are_refused(
    env: Seq<SystemEnvRow>,
    gpus: Seq<GpuRow>,
    nics: Seq<NicRow>,
    hosts: NsysDataResult<Vec<HostInfo>>,
)
    requires
        tells_hosts(hosts, env, gpus, nics),
    ensures
        hosts is Ok <==> (forall|i: int|
            0 <= i < env.len() ==> parsed_unsigned((#[trigger] env[i]).global_vid@, u64::MAX as nat)
                is Some) && (forall|i: int|
            0 <= i < gpus.len() ==> parsed_unsigned((#[trigger] gpus[i]).vm_id@, u64::MAX as nat)
                is Some),
        hosts matches Err(error) ==> (error matches crate::error::NsysDataError::HardwareInvalidU64Id {
            label,
            value,
            ..
        } && ((label@ == "TARGET_INFO_SYSTEM_ENV.globalVid"@ && exists|i: int|
            0 <= i < env.len() && value@ == (#[trigger] env[i]).global_vid@ && parsed_unsigned(
                value@,
                u64::MAX as nat,
            ) is None && forall|j: int|
                0 <= j < i ==> parsed_unsigned((#[trigger] env[j]).global_vid@, u64::MAX as nat)
                    is Some) || (label@ == "TARGET_INFO_GPU.vmId"@ && exists|i: int|
            0 <= i < gpus.len() && value@ == (#[trigger] gpus[i]).vm_id@ && parsed_unsigned(
                value@,
                u64::MAX as nat,
            ) is None && forall|j: int|
                0 <= j < i ==> parsed_unsigned((#[trigger] gpus[j]).vm_id@, u64::MAX as nat)
                    is Some))),
{
}

} // verus!
