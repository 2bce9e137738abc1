//! The plain-value records one snapshot hands to the shaping logic.
//!
//! Every field is a plain value: text already decoded (lossily where the
//! operating system handed out bytes that are not valid text), counters as
//! unsigned integers, and readings that the platform reports as IEEE 754
//! doubles carried as their raw bit patterns. Fields that not every platform
//! exposes are `Option`s; `None` is rendered as JSON `null`, never an error.

use vstd::prelude::*;

verus! {

/// Memory and swap counters, all in bytes.
#[derive(Debug, Clone, Copy, PartialEq, Eq, Structural)]
pub struct MemoryStats {
    pub total_memory: u64,
    pub available_memory: u64,
    pub used_memory: u64,
    pub total_swap: u64,
    pub used_swap: u64,
}

/// One mounted disk, keyed by its mount point.
#[derive(Debug)]
pub struct DiskRecord {
    pub mount_point: String,
    pub name: String,
    pub kind: String,
    pub file_system: String,
    pub total_space: u64,
    pub available_space: u64,
    pub is_removable: bool,
}

impl DiskRecord {
    /// A usable record names its mount point.
    pub open spec fn wf(self) -> bool {
        self.mount_point@.len() > 0
    }
}

/// One network interface, keyed by its name. The `received`-style counters
/// are windowed (since the previous refresh); the `total_`-prefixed ones are
/// cumulative.
#[derive(Debug)]
pub struct NetworkRecord {
    pub interface_name: String,
    pub mac_address: String,
    pub ip_networks: Vec<String>,
    pub received: u64,
    pub total_received: u64,
    pub transmitted: u64,
    pub total_transmitted: u64,
    pub packets_received: u64,
    pub total_packets_received: u64,
    pub packets_transmitted: u64,
    pub total_packets_transmitted: u64,
    pub errors_on_received: u64,
    pub total_errors_on_received: u64,
    pub errors_on_transmitted: u64,
    pub total_errors_on_transmitted: u64,
}

impl NetworkRecord {
    /// A usable record names its interface.
    pub open spec fn wf(self) -> bool {
        self.interface_name@.len() > 0
    }
}

/// One thermal sensor, keyed by its label. Labels are not guaranteed unique;
/// a later sensor with the same label overwrites an earlier one, as the
/// map-style object semantics dictate. Each of the three temperatures is
/// optional: not every sensor reports all three, and an unreported reading
/// renders as `null`, never as an error.
#[derive(Debug)]
pub struct SensorRecord {
    pub label: String,
    pub temperature: Option<u64>,
    pub max: Option<u64>,
    pub critical: Option<u64>,
}

impl SensorRecord {
    /// A usable record carries a label.
    pub open spec fn wf(self) -> bool {
        self.label@.len() > 0
    }
}

/// One group a user belongs to.
#[derive(Debug)]
pub struct GroupRecord {
    pub name: String,
    pub id: u32,
}

/// One user account, keyed by its name, with its group memberships.
#[derive(Debug)]
pub struct UserRecord {
    pub name: String,
    pub groups: Vec<GroupRecord>,
}

impl UserRecord {
    /// A usable record names the account.
    pub open spec fn wf(self) -> bool {
        self.name@.len() > 0
    }
}

/// One logical CPU core from the post-wait reading.
#[derive(Debug)]
pub struct CpuCoreRecord {
    pub name: String,
    pub brand: String,
    pub vendor_id: String,
    pub frequency: u64,
    pub usage: u64,
}

/// One full CPU reading: the global usage percentage and the per-core list,
/// in the provider's core order (that order is meaningful and is preserved).
#[derive(Debug)]
pub struct CpuReading {
    pub global_usage: u64,
    pub cores: Vec<CpuCoreRecord>,
}

/// What the CPU category reports: the reading taken after the sampling wait,
/// plus the physical core count where the platform exposes it.
#[derive(Debug)]
pub struct CpuSample {
    pub physical_core_count: Option<u64>,
    pub reading: CpuReading,
}

/// Identity of the machine and operating system; every textual field is
/// optional because not every platform exposes every one.
#[derive(Debug)]
pub struct SystemIdentity {
    pub name: Option<String>,
    pub kernel_version: Option<String>,
    pub os_version: Option<String>,
    pub long_os_version: Option<String>,
    pub host_name: Option<String>,
    pub boot_time: u64,
    pub cpu_arch: Option<String>,
    pub distribution_id: String,
    pub uptime: u64,
}

/// The 1-, 5- and 15-minute load averages, as IEEE 754 bit patterns.
#[derive(Debug, Clone, Copy, PartialEq, Eq, Structural)]
pub struct LoadAverage {
    pub one: u64,
    pub five: u64,
    pub fifteen: u64,
}

/// Windowed and cumulative disk I/O of one process, in bytes.
#[derive(Debug, Clone, Copy, PartialEq, Eq, Structural)]
pub struct ProcessDiskUsage {
    pub total_written_bytes: u64,
    pub written_bytes: u64,
    pub total_read_bytes: u64,
    pub read_bytes: u64,
}

/// Everything reported about one process in process mode. The command line
/// and environment keep their source order; `tasks` is absent on platforms
/// without per-task listings.
#[derive(Debug)]
pub struct ProcessDetail {
    pub name: String,
    pub cmd: Vec<String>,
    pub exe: Option<String>,
    pub cwd: Option<String>,
    pub root: Option<String>,
    pub memory: u64,
    pub virtual_memory: u64,
    pub parent: Option<u32>,
    pub session_id: Option<u32>,
    pub tasks: Option<Vec<u32>>,
    pub user_id: Option<u32>,
    pub effective_user_id: Option<u32>,
    pub group_id: Option<u32>,
    pub effective_group_id: Option<u32>,
    pub status: String,
    pub start_time: u64,
    pub run_time: u64,
    pub cpu_usage: u64,
    pub disk_usage: ProcessDiskUsage,
    pub thread_kind: Option<String>,
    pub environ: Vec<String>,
}

/// The raw material for one system-mode document. Each field is present when
/// its category was selected and its read succeeded; a selected category
/// whose field is `None` is rendered as `null` rather than failing the run.
#[derive(Debug)]
pub struct SnapshotData {
    pub cpu: Option<CpuSample>,
    pub process_count: Option<u64>,
    pub memory: Option<MemoryStats>,
    pub system: Option<SystemIdentity>,
    pub users: Option<Vec<UserRecord>>,
    pub disks: Option<Vec<DiskRecord>>,
    pub networks: Option<Vec<NetworkRecord>>,
    pub sensors: Option<Vec<SensorRecord>>,
    pub load_avg: Option<LoadAverage>,
}

} // verus!
