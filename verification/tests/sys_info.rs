use sysinfo::{CpuExt, SystemExt};
use system_manager::sys_info::{Cpuinfo, MemoryInfo, SysInfo, SystemInfo};

#[test]
fn reports_are_made_of_the_readings() {
    let c = Cpuinfo::from_readings(8, "brand".to_string(), 2400, "vendor".to_string());
    assert_eq!(c.core_count(), 8);
    assert_eq!(c.brand(), "brand");
    assert_eq!(c.frequency_mhz(), 2400);
    assert_eq!(c.verdor_id(), "vendor");
    let m = MemoryInfo::from_readings(16, 4);
    assert_eq!((m.total(), m.used()), (16, 4));
    let s = SystemInfo::from_readings(Some("Linux".to_string()), None, Some("host".to_string()));
    assert_eq!(s.name().as_deref(), Some("Linux"));
    assert_eq!(s.kernel_version(), &None);
    assert_eq!(s.host_name().as_deref(), Some("host"));
    let all = SysInfo::from_parts(c, m, s);
    assert_eq!(all.cpu().core_count(), 8);
    assert_eq!(all.memory().used(), 4);
    assert_eq!(all.system().host_name().as_deref(), Some("host"));
}

#[test]
fn machine_readings_match_sysinfo() {
    let mut sys = sysinfo::System::new();
    let info = SysInfo::get(&mut sys);
    assert_eq!(info.cpu().core_count(), sys.cpus().len());
    assert_eq!(info.memory().total(), sys.total_memory());
    assert_eq!(info.system().kernel_version(), &sys.kernel_version());
}

#[test]
fn cpu_report_is_read_from_the_system() {
    let mut fresh = sysinfo::System::new();
    let c = Cpuinfo::get(&mut fresh);
    assert_eq!(c.core_count(), fresh.cpus().len());
    assert_eq!(c.brand(), fresh.global_cpu_info().brand());
    assert_eq!(c.verdor_id(), fresh.global_cpu_info().vendor_id());
    assert_eq!(c.frequency_mhz(), fresh.global_cpu_info().frequency());
    // a second reading of the same system gives the same report
    let again = Cpuinfo::get(&mut fresh);
    assert_eq!(again.core_count(), c.core_count());
    assert_eq!(again.brand(), c.brand());
    let mut all = sysinfo::System::new_all();
    let listed = Cpuinfo::get(&mut all);
    assert_eq!(listed.core_count(), all.cpus().len());
    assert_eq!(listed.frequency_mhz(), all.global_cpu_info().frequency());
}

#[test]
fn memory_report_is_read_from_the_system() {
    let mut sys = sysinfo::System::new();
    let m = MemoryInfo::get(&mut sys);
    assert_eq!(m.total(), sys.total_memory());
    assert_eq!(m.used(), sys.used_memory());
}
