//! Registry of the sidecars that can be prepared ahead of use.
//!
//! The registry keeps the path, the version and the state of each in one
//! place. The modules of the sidecars own their columns and how they are
//! built.
use crate::gpu_work_events::{self, GPU_WORK_EVENTS_VERSION};
use crate::meta_cache::{self, META_CACHE_VERSION};
use crate::nsys_rep::{
    alias_has_report_artifacts, alias_owner, generated_dir_belongs_to_report, names_report,
    pqtdir_of, sidecar_source_path,
};
use crate::paths::{artifact, same_path};
use crate::resident_identity::{report_is_its_own_source, source_of};
use vstd::prelude::*;
use vstd::string::StringExecFns;

verus! {

/// One derived artifact that may be prepared and reused.
#[derive(Debug, Clone, Copy, PartialEq, Eq, Structural)]
pub enum NsysSidecar {
    MetaCache,
    GpuWorkEvents,
}

/// What was found of a sidecar on disk.
#[derive(Debug, Clone, Copy)]
pub struct SidecarProbe {
    /// Its size and, where it can be told, the second in which it was written;
    /// `None` where there is no file.
    pub file: Option<(u64, Option<i64>)>,
    /// The format version that it names.
    pub format_version_on_disk: Option<u32>,
    /// Whether it was built from the source as it is now.
    pub fingerprint_match: bool,
}

/// State of one sidecar.
#[derive(Debug, Clone, PartialEq, Eq)]
pub struct NsysSidecarStatus {
    pub key: String,
    pub id: String,
    pub name: String,
    pub path: String,
    pub present: bool,
    pub size_bytes: Option<u64>,
    pub mtime_secs: Option<i64>,
    pub format_version_expected: u32,
    pub format_version_on_disk: Option<u32>,
    pub fingerprint_match: bool,
}

impl NsysSidecar {
    /// Stable name of the sidecar.
    pub open spec fn id_text(self) -> Seq<char> {
        match self {
            NsysSidecar::MetaCache => "meta-cache"@,
            NsysSidecar::GpuWorkEvents => "gpu-work-events"@,
        }
    }

    /// Name of its file.
    pub open spec fn name_text(self) -> Seq<char> {
        match self {
            NsysSidecar::MetaCache => "meta.bin"@,
            NsysSidecar::GpuWorkEvents => "gpu-work-events.parquet"@,
        }
    }

    /// Version that a reader expects.
    pub open spec fn version(self) -> u32 {
        match self {
            NsysSidecar::MetaCache => META_CACHE_VERSION,
            NsysSidecar::GpuWorkEvents => GPU_WORK_EVENTS_VERSION,
        }
    }

    /// Where the sidecar of a source is.
    pub open spec fn path_text(self, source_path: Seq<char>) -> Seq<char> {
        match self {
            NsysSidecar::MetaCache => artifact(source_of(source_path), "meta.bin"@),
            NsysSidecar::GpuWorkEvents => artifact(source_path, "gpu-work-events.parquet"@),
        }
    }

    pub fn id(self) -> (id: &'static str)
        ensures
            id@ == self.id_text(),
    {
        match self {
            NsysSidecar::MetaCache => "meta-cache",
            NsysSidecar::GpuWorkEvents => "gpu-work-events",
        }
    }

    pub fn name(self) -> (name: &'static str)
        ensures
            name@ == self.name_text(),
    {
        match self {
            NsysSidecar::MetaCache => "meta.bin",
            NsysSidecar::GpuWorkEvents => "gpu-work-events.parquet",
        }
    }

    pub fn format_version_expected(self) -> (version: u32)
        ensures
            version == self.version(),
    {
        match self {
            NsysSidecar::MetaCache => META_CACHE_VERSION,
            NsysSidecar::GpuWorkEvents => GPU_WORK_EVENTS_VERSION,
        }
    }

    pub fn path_for(self, source_path: &str) -> (path: String)
        ensures
            path@ == self.path_text(source_path@),
    {
        match self {
            NsysSidecar::MetaCache => meta_cache::path_for(source_path),
            NsysSidecar::GpuWorkEvents => gpu_work_events::sidecar_path_for(source_path),
        }
    }

    /// The status says what the sidecar is, where it is, and what was found. A
    /// file that is not there names no version and matches no source.
    pub open spec fn is_status(
        self,
        status: NsysSidecarStatus,
        source_path: Seq<char>,
        probe: SidecarProbe,
    ) -> bool {
        &&& status.key@ == "sidecar|"@ + self.id_text()
        &&& status.id@ == self.id_text()
        &&& status.name@ == self.name_text()
        &&& status.path@ == self.path_text(source_path)
        &&& status.present == (probe.file is Some)
        &&& status.size_bytes == match probe.file {
            Some(file) => Some(file.0),
            None => None,
        }
        &&& status.mtime_secs == match probe.file {
            Some(file) => file.1,
            None => None,
        }
        &&& status.format_version_expected == self.version()
        &&& status.format_version_on_disk == match probe.file {
            Some(_) => probe.format_version_on_disk,
            None => None,
        }
        &&& status.fingerprint_match == (probe.file is Some && probe.fingerprint_match)
    }

    /// The state of the sidecar of a source, with what was found of it.
    pub fn status_for(self, source_path: &str, probe: SidecarProbe) -> (status: NsysSidecarStatus)
        ensures
            self.is_status(status, source_path@, probe),
    {
        let mut key = "sidecar|".to_owned();
        key.append(self.id());
        let (present, size_bytes, mtime_secs) = match probe.file {
            Some(file) => (true, Some(file.0), file.1),
            None => (false, None, None),
        };
        NsysSidecarStatus {
            key,
            id: self.id().to_owned(),
            name: self.name().to_owned(),
            path: self.path_for(source_path),
            present,
            size_bytes,
            mtime_secs,
            format_version_expected: self.format_version_expected(),
            format_version_on_disk: if present {
                probe.format_version_on_disk
            } else {
                None
            },
            fingerprint_match: present && probe.fingerprint_match,
        }
    }
}

/// The sidecars that are prepared ahead of use, in order.
pub fn prep_sidecars() -> (sidecars: Vec<NsysSidecar>)
    ensures
        sidecars@ == seq![NsysSidecar::MetaCache, NsysSidecar::GpuWorkEvents],
{
    let mut sidecars: Vec<NsysSidecar> = Vec::new();
    sidecars.push(NsysSidecar::MetaCache);
    sidecars.push(NsysSidecar::GpuWorkEvents);
    assert(sidecars@ =~= seq![NsysSidecar::MetaCache, NsysSidecar::GpuWorkEvents]);
    sidecars
}

/// These are the states of the sidecars of a trace, in the order of
/// [`prep_sidecars`].
pub open spec fn are_statuses(
    statuses: Seq<NsysSidecarStatus>,
    trace_path: Seq<char>,
    meta_cache: SidecarProbe,
    gpu_work_events: SidecarProbe,
) -> bool {
    &&& statuses.len() == 2
    &&& NsysSidecar::MetaCache.is_status(statuses[0], source_of(trace_path), meta_cache)
    &&& NsysSidecar::GpuWorkEvents.is_status(statuses[1], source_of(trace_path), gpu_work_events)
}

/// The states agree in everything but how their paths are written.
pub open spec fn same_status(a: NsysSidecarStatus, b: NsysSidecarStatus) -> bool {
    &&& a.key@ == b.key@
    &&& a.id@ == b.id@
    &&& a.name@ == b.name@
    &&& same_path(a.path@, b.path@)
    &&& a.present == b.present
    &&& a.size_bytes == b.size_bytes
    &&& a.mtime_secs == b.mtime_secs
    &&& a.format_version_expected == b.format_version_expected
    &&& a.format_version_on_disk == b.format_version_on_disk
    &&& a.fingerprint_match == b.fingerprint_match
}

/// A report and the directory that it was exported to have the same sidecars in
/// the same states, the metadata cache first. Their paths are written the same
/// where the owner of that directory is written as the report.
pub proof fn alias_has_report_statuses(
    report: Seq<char>,
    meta_cache: SidecarProbe,
    gpu_work_events: SidecarProbe,
    by_report: Seq<NsysSidecarStatus>,
    by_alias: Seq<NsysSidecarStatus>,
)
    requires
        names_report(report),
        are_statuses(by_report, report, meta_cache, gpu_work_events),
        are_statuses(by_alias, pqtdir_of(report), meta_cache, gpu_work_events),
    ensures
        by_report.map_values(|s: NsysSidecarStatus| s.id@) == seq![
            "meta-cache"@,
            "gpu-work-events"@,
        ],
        by_alias.len() == 2,
        same_status(by_alias[0], by_report[0]),
        same_status(by_alias[1], by_report[1]),
        alias_owner(report) == report ==> by_alias[0].path@ == by_report[0].path@
            && by_alias[1].path@ == by_report[1].path@,
{
    reveal_strlit("meta.bin");
    reveal_strlit("gpu-work-events.parquet");
    generated_dir_belongs_to_report(report);
    let owner = alias_owner(report);
    report_is_its_own_source(report);
    report_is_its_own_source(owner);
    alias_has_report_artifacts(report, "meta.bin"@);
    alias_has_report_artifacts(report, "gpu-work-events.parquet"@);
    assert(by_report.map_values(|s: NsysSidecarStatus| s.id@) =~= seq![
        "meta-cache"@,
        "gpu-work-events"@,
    ]);
}

/// The state of every sidecar of a trace, in the order of [`prep_sidecars`].
/// A generated parquetdir has the sidecars of its report.
pub fn sidecar_statuses(
    trace_path: &str,
    meta_cache: SidecarProbe,
    gpu_work_events: SidecarProbe,
) -> (statuses: Vec<NsysSidecarStatus>)
    ensures
        are_statuses(statuses@, trace_path@, meta_cache, gpu_work_events),
{
    let source = sidecar_source_path(trace_path);
    let mut statuses: Vec<NsysSidecarStatus> = Vec::new();
    statuses.push(NsysSidecar::MetaCache.status_for(source.as_str(), meta_cache));
    statuses.push(NsysSidecar::GpuWorkEvents.status_for(source.as_str(), gpu_work_events));
    statuses
}

} // verus!
