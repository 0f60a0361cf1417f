//! What an agent reports of its machine: CPU, memory and system.
//!
//! The readings come from `sysinfo`. A refresh reads the machine, so nothing
//! is stated of what it finds; the CPU and memory figures are then read out of
//! the `System` value, and the reports are stated in terms of that value. The
//! operating system's name, kernel version and host name are read from the
//! machine at each call, so nothing is stated of them.
use vstd::prelude::*;
use sysinfo::{CpuExt, SystemExt};

verus! {

/// `sysinfo::System`, held opaque: the machine's state as last refreshed.
#[verifier::external_type_specification]
#[verifier::external_body]
pub struct ExSystem(sysinfo::System);

/// `sysinfo::Cpu`, held opaque: one CPU's readings.
#[verifier::external_type_specification]
#[verifier::external_body]
pub struct ExCpu(sysinfo::Cpu);

/// The number of CPUs that a `System` value holds (`SystemExt::cpus().len()`,
/// a read of its CPU list).
pub uninterp spec fn cpu_count_of(sys: sysinfo::System) -> nat;

/// The aggregate CPU that a `System` value holds (`SystemExt::global_cpu_info`,
/// a read of a field).
pub uninterp spec fn global_cpu_of(sys: sysinfo::System) -> sysinfo::Cpu;

/// The brand that a `Cpu` value holds (`CpuExt::brand`, a read of a field).
pub uninterp spec fn brand_of(cpu: sysinfo::Cpu) -> Seq<char>;

/// The frequency in MHz that a `Cpu` value holds (`CpuExt::frequency`, a read
/// of a field).
pub uninterp spec fn frequency_of(cpu: sysinfo::Cpu) -> u64;

/// The vendor id that a `Cpu` value holds (`CpuExt::vendor_id`, a read of a
/// field).
pub uninterp spec fn vendor_id_of(cpu: sysinfo::Cpu) -> Seq<char>;

/// The RAM size in bytes that a `System` value holds
/// (`SystemExt::total_memory`, a read of a field).
pub uninterp spec fn total_memory_of(sys: sysinfo::System) -> u64;

/// The RAM in use, in bytes, that a `System` value holds
/// (`SystemExt::used_memory`, computed from two of its fields).
pub uninterp spec fn used_memory_of(sys: sysinfo::System) -> u64;

/// Calls `SystemExt::refresh_cpu`, which re-reads `/proc/stat`. On a `System`
/// whose CPU list is empty it builds that list; on one that has listed its
/// CPUs it updates their usage times in place. It writes only the CPU list
/// and the aggregate CPU, so the memory figures stay as they were. Nothing is
/// stated of the CPU data it reads. It panics inside `sysinfo` when the list
/// is not empty and `/proc/stat` now lists more CPUs than when the list was
/// built (a CPU brought online since), or when the first line of
/// `/proc/stat` is shorter than four bytes, which Linux does not write; both
/// depend on the machine, not on the argument, so no `requires` can leave
/// them out.
#[verifier::external_body]
fn refresh_cpu(sys: &mut sysinfo::System)
    ensures
        total_memory_of(*final(sys)) == total_memory_of(*old(sys)),
        used_memory_of(*final(sys)) == used_memory_of(*old(sys)),
{
    sys.refresh_cpu()
}

/// Calls `SystemExt::global_cpu_info`: the aggregate of all CPUs, a field of
/// the `System` value.
#[verifier::external_body]
fn global_cpu_info(sys: &sysinfo::System) -> (res: &sysinfo::Cpu)
    ensures
        *res == global_cpu_of(*sys),
{
    sys.global_cpu_info()
}

/// Calls `SystemExt::cpus`: the CPU list that the `System` value holds.
#[verifier::external_body]
fn cpus(sys: &sysinfo::System) -> (res: &[sysinfo::Cpu])
    ensures
        res@.len() == cpu_count_of(*sys),
{
    sys.cpus()
}

/// Calls `CpuExt::brand` and copies it into a `String`.
#[verifier::external_body]
fn cpu_brand(cpu: &sysinfo::Cpu) -> (res: String)
    ensures
        res@ == brand_of(*cpu),
{
    cpu.brand().to_string()
}

/// Calls `CpuExt::frequency`: the frequency in MHz as last read.
#[verifier::external_body]
fn cpu_frequency(cpu: &sysinfo::Cpu) -> (res: u64)
    ensures
        res == frequency_of(*cpu),
{
    cpu.frequency()
}

/// Calls `CpuExt::vendor_id` and copies it into a `String`.
#[verifier::external_body]
fn cpu_vendor_id(cpu: &sysinfo::Cpu) -> (res: String)
    ensures
        res@ == vendor_id_of(*cpu),
{
    cpu.vendor_id().to_string()
}

/// Calls `SystemExt::refresh_memory`, which re-reads the memory figures from
/// `/proc/meminfo` and the cgroup files. It writes only the memory and swap
/// fields, so the CPU list and the aggregate CPU stay as they were. Nothing is
/// stated of the figures it reads.
#[verifier::external_body]
fn refresh_memory(sys: &mut sysinfo::System)
    ensures
        cpu_count_of(*final(sys)) == cpu_count_of(*old(sys)),
        global_cpu_of(*final(sys)) == global_cpu_of(*old(sys)),
{
    sys.refresh_memory()
}

/// Calls `SystemExt::total_memory`: the RAM size in bytes as last read.
#[verifier::external_body]
fn total_memory(sys: &sysinfo::System) -> (res: u64)
    ensures
        res == total_memory_of(*sys),
{
    sys.total_memory()
}

/// Calls `SystemExt::used_memory`: the RAM in use, in bytes, as last read.
#[verifier::external_body]
fn used_memory(sys: &sysinfo::System) -> (res: u64)
    ensures
        res == used_memory_of(*sys),
{
    sys.used_memory()
}

/// Calls `SystemExt::name`: the system's name, read from the machine at each
/// call. Nothing is stated of it.
#[verifier::external_body]
fn system_name(sys: &sysinfo::System) -> Option<String> {
    sys.name()
}

/// Calls `SystemExt::kernel_version`, read from the machine at each call.
/// Nothing is stated of it.
#[verifier::external_body]
fn kernel_version(sys: &sysinfo::System) -> Option<String> {
    sys.kernel_version()
}

/// Calls `SystemExt::host_name`, read from the machine at each call. Nothing
/// is stated of it.
#[verifier::external_body]
fn host_name(sys: &sysinfo::System) -> Option<String> {
    sys.host_name()
}

/// What an agent reports of its machine.
pub struct SysInfo {
    cpu: Cpuinfo,
    memory: MemoryInfo,
    system: SystemInfo,
}

/// The CPUs: how many, and the brand, frequency and vendor of their aggregate.
pub struct Cpuinfo {
    core_count: usize,
    brand: String,
    frequency_mhz: u64,
    verdor_id: String,
}

/// The memory: total and used, in bytes.
pub struct MemoryInfo {
    total: u64,
    used: u64,
}

/// The operating system: its name, kernel version and host name, where known.
pub struct SystemInfo {
    name: Option<String>,
    kernel_version: Option<String>,
    host_name: Option<String>,
}

/// The mathematical value of a [`Cpuinfo`].
pub struct CpuinfoView {
    pub core_count: usize,
    pub brand: Seq<char>,
    pub frequency_mhz: u64,
    pub verdor_id: Seq<char>,
}

/// The mathematical value of a [`MemoryInfo`].
pub struct MemoryInfoView {
    pub total: u64,
    pub used: u64,
}

/// The mathematical value of a [`SystemInfo`].
pub struct SystemInfoView {
    pub name: Option<Seq<char>>,
    pub kernel_version: Option<Seq<char>>,
    pub host_name: Option<Seq<char>>,
}

/// The mathematical value of a [`SysInfo`].
pub struct SysInfoView {
    pub cpu: CpuinfoView,
    pub memory: MemoryInfoView,
    pub system: SystemInfoView,
}

/// The CPU report that a `System` value gives.
pub open spec fn cpu_report(sys: sysinfo::System) -> CpuinfoView {
    CpuinfoView {
        core_count: cpu_count_of(sys) as usize,
        brand: brand_of(global_cpu_of(sys)),
        frequency_mhz: frequency_of(global_cpu_of(sys)),
        verdor_id: vendor_id_of(global_cpu_of(sys)),
    }
}

/// The memory report that a `System` value gives.
pub open spec fn memory_report(sys: sysinfo::System) -> MemoryInfoView {
    MemoryInfoView { total: total_memory_of(sys), used: used_memory_of(sys) }
}

pub open spec fn opt_string_view(o: Option<String>) -> Option<Seq<char>> {
    match o {
        Some(s) => Some(s@),
        None => None,
    }
}

impl View for Cpuinfo {
    type V = CpuinfoView;

    closed spec fn view(&self) -> CpuinfoView {
        CpuinfoView {
            core_count: self.core_count,
            brand: self.brand@,
            frequency_mhz: self.frequency_mhz,
            verdor_id: self.verdor_id@,
        }
    }
}

impl View for MemoryInfo {
    type V = MemoryInfoView;

    closed spec fn view(&self) -> MemoryInfoView {
        MemoryInfoView { total: self.total, used: self.used }
    }
}

impl View for SystemInfo {
    type V = SystemInfoView;

    closed spec fn view(&self) -> SystemInfoView {
        SystemInfoView {
            name: opt_string_view(self.name),
            kernel_version: opt_string_view(self.kernel_version),
            host_name: opt_string_view(self.host_name),
        }
    }
}

impl View for SysInfo {
    type V = SysInfoView;

    closed spec fn view(&self) -> SysInfoView {
        SysInfoView { cpu: self.cpu@, memory: self.memory@, system: self.system@ }
    }
}

impl SysInfo {
    /// Reads the CPUs, the memory and the system, in that order. The CPU and
    /// memory reports are those of the `System` as the reading leaves it.
    pub fn get(sys: &mut sysinfo::System) -> (res: SysInfo)
        ensures
            res@.cpu == cpu_report(*final(sys)),
            res@.memory == memory_report(*final(sys)),
    {
        let cpu = Cpuinfo::get(sys);
        let memory = MemoryInfo::get(sys);
        let system = SystemInfo::get(sys);
        SysInfo::from_parts(cpu, memory, system)
    }

    /// The report made of the given parts.
    pub fn from_parts(cpu: Cpuinfo, memory: MemoryInfo, system: SystemInfo) -> (res: SysInfo)
        ensures
            res@ == (SysInfoView { cpu: cpu@, memory: memory@, system: system@ }),
    {
        SysInfo { cpu, memory, system }
    }

    pub fn cpu(&self) -> (res: &Cpuinfo)
        ensures
            res@ == self@.cpu,
    {
        &self.cpu
    }

    pub fn memory(&self) -> (res: &MemoryInfo)
        ensures
            res@ == self@.memory,
    {
        &self.memory
    }

    pub fn system(&self) -> (res: &SystemInfo)
        ensures
            res@ == self@.system,
    {
        &self.system
    }
}

impl Cpuinfo {
    /// Refreshes the CPUs, then reads the number of CPUs and the brand,
    /// frequency and vendor of their aggregate. The memory figures are left
    /// as they were.
    pub fn get(sys: &mut sysinfo::System) -> (res: Cpuinfo)
        ensures
            res@ == cpu_report(*final(sys)),
            total_memory_of(*final(sys)) == total_memory_of(*old(sys)),
            used_memory_of(*final(sys)) == used_memory_of(*old(sys)),
    {
        refresh_cpu(sys);
        let cpu = global_cpu_info(sys);
        let count = cpus(sys).len();
        Cpuinfo::from_readings(count, cpu_brand(cpu), cpu_frequency(cpu), cpu_vendor_id(cpu))
    }

    /// The report of the given readings.
    pub fn from_readings(core_count: usize, brand: String, frequency_mhz: u64, verdor_id: String) -> (res:
        Cpuinfo)
        ensures
            res@ == (CpuinfoView {
                core_count,
                brand: brand@,
                frequency_mhz,
                verdor_id: verdor_id@,
            }),
    {
        Cpuinfo { core_count, brand, frequency_mhz, verdor_id }
    }

    pub fn core_count(&self) -> (res: usize)
        ensures
            res == self@.core_count,
    {
        self.core_count
    }

    pub fn brand(&self) -> (res: &String)
        ensures
            res@ == self@.brand,
    {
        &self.brand
    }

    pub fn frequency_mhz(&self) -> (res: u64)
        ensures
            res == self@.frequency_mhz,
    {
        self.frequency_mhz
    }

    pub fn verdor_id(&self) -> (res: &String)
        ensures
            res@ == self@.verdor_id,
    {
        &self.verdor_id
    }
}

impl MemoryInfo {
    /// Refreshes the memory figures, then reads the total and used RAM. The
    /// CPU readings of the `System` stay as they were.
    pub fn get(sys: &mut sysinfo::System) -> (res: MemoryInfo)
        ensures
            res@ == memory_report(*final(sys)),
            cpu_count_of(*final(sys)) == cpu_count_of(*old(sys)),
            global_cpu_of(*final(sys)) == global_cpu_of(*old(sys)),
    {
        refresh_memory(sys);
        MemoryInfo::from_readings(total_memory(sys), used_memory(sys))
    }

    /// The report of the given readings.
    pub fn from_readings(total: u64, used: u64) -> (res: MemoryInfo)
        ensures
            res@ == (MemoryInfoView { total, used }),
    {
        MemoryInfo { total, used }
    }

    pub fn total(&self) -> (res: u64)
        ensures
            res == self@.total,
    {
        self.total
    }

    pub fn used(&self) -> (res: u64)
        ensures
            res == self@.used,
    {
        self.used
    }
}

impl SystemInfo {
    /// Reads the system's name, kernel version and host name, without
    /// refreshing anything.
    pub fn get(sys: &sysinfo::System) -> (res: SystemInfo) {
        SystemInfo::from_readings(system_name(sys), kernel_version(sys), host_name(sys))
    }

    /// The report of the given readings.
    pub fn from_readings(
        name: Option<String>,
        kernel_version: Option<String>,
        host_name: Option<String>,
    ) -> (res: SystemInfo)
        ensures
            res@ == (SystemInfoView {
                name: opt_string_view(name),
                kernel_version: opt_string_view(kernel_version),
                host_name: opt_string_view(host_name),
            }),
    {
        SystemInfo { name, kernel_version, host_name }
    }

    pub fn name(&self) -> (res: &Option<String>)
        ensures
            opt_string_view(*res) == self@.name,
    {
        &self.name
    }

    pub fn kernel_version(&self) -> (res: &Option<String>)
        ensures
            opt_string_view(*res) == self@.kernel_version,
    {
        &self.kernel_version
    }

    pub fn host_name(&self) -> (res: &Option<String>)
        ensures
            opt_string_view(*res) == self@.host_name,
    {
        &self.host_name
    }
}

} // verus!
