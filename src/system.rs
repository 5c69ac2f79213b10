//! Facts about the running system, read through the `sysinfo` crate.
use vstd::prelude::*;
use sysinfo::{Product, System};
use crate::host::SysInfo;
use crate::utils::{bytes_text, decimal, format_bytes, format_uptime, push_decimal, uptime_text};
use crate::text::string_of;

verus! {

#[verifier::external_type_specification]
#[verifier::external_body]
pub struct ExSystem(System);

/// Relies on `sysinfo::System::new_all`: a system handle with everything refreshed.
#[verifier::external_body]
fn system_new_all() -> System {
    System::new_all()
}

/// Relies on `sysinfo::System::refresh_all`: refreshes what the handle knows.
#[verifier::external_body]
fn system_refresh_all(sys: &mut System) {
    sys.refresh_all()
}

/// Relies on `sysinfo::System::cpus`: the number of CPUs the handle lists.
#[verifier::external_body]
fn system_cpu_count(sys: &System) -> usize {
    sys.cpus().len()
}

/// Relies on `sysinfo::System::total_memory`, in bytes.
#[verifier::external_body]
fn system_total_memory(sys: &System) -> u64 {
    sys.total_memory()
}

/// Relies on `sysinfo::System::free_memory`, in bytes.
#[verifier::external_body]
fn system_free_memory(sys: &System) -> u64 {
    sys.free_memory()
}

/// Relies on `sysinfo::System::used_memory`, in bytes.
#[verifier::external_body]
fn system_used_memory(sys: &System) -> u64 {
    sys.used_memory()
}

/// Relies on `sysinfo::System::name`: the name of the operating system, if known.
#[verifier::external_body]
fn system_name() -> Option<String> {
    System::name()
}

/// Relies on `sysinfo::System::kernel_version`, if known.
#[verifier::external_body]
fn system_kernel_version() -> Option<String> {
    System::kernel_version()
}

/// Relies on `sysinfo::System::os_version`, if known.
#[verifier::external_body]
fn system_os_version() -> Option<String> {
    System::os_version()
}

/// Relies on `sysinfo::System::host_name`, if known.
#[verifier::external_body]
fn system_host_name() -> Option<String> {
    System::host_name()
}

/// Relies on `sysinfo::System::cpu_arch`: the CPU architecture.
#[verifier::external_body]
fn system_cpu_arch() -> String {
    System::cpu_arch()
}

/// Relies on `sysinfo::System::uptime`: seconds since boot.
#[verifier::external_body]
fn system_uptime() -> u64 {
    System::uptime()
}

/// Relies on `sysinfo::Product::name`: the product name of the machine, if known.
#[verifier::external_body]
fn product_name() -> Option<String> {
    Product::name()
}

impl SysInfo {
    /// Ask the system for every fact that `$sys` can name. Sizes are
    /// written by `format_bytes`, the uptime by `format_uptime`.
    pub fn probe() -> (r: SysInfo)
        ensures
            r.cpu_arch is Some,
            r.cpu_count matches Some(t) && exists|n: nat| #[trigger] decimal(n) == t@,
            r.memory_total matches Some(t) && exists|b: nat| #[trigger] bytes_text(b) == t@,
            r.memory_free matches Some(t) && exists|b: nat| #[trigger] bytes_text(b) == t@,
            r.memory_used matches Some(t) && exists|b: nat| #[trigger] bytes_text(b) == t@,
            r.uptime matches Some(t) && exists|u: nat| #[trigger] uptime_text(u) == t@,
    {
        let mut sys = system_new_all();
        system_refresh_all(&mut sys);
        let cpus = system_cpu_count(&sys);
        let mut digits: Vec<char> = Vec::new();
        push_decimal(&mut digits, cpus as u128);
        assert(digits@ =~= decimal(cpus as nat));
        let total = system_total_memory(&sys);
        let free = system_free_memory(&sys);
        let used = system_used_memory(&sys);
        let up = system_uptime();
        let cpu_count = string_of(&digits);
        let memory_total = format_bytes(total);
        let memory_free = format_bytes(free);
        let memory_used = format_bytes(used);
        let uptime = format_uptime(up);
        assert(decimal(cpus as nat) == cpu_count@);
        assert(bytes_text(total as nat) == memory_total@);
        assert(bytes_text(free as nat) == memory_free@);
        assert(bytes_text(used as nat) == memory_used@);
        assert(uptime_text(up as nat) == uptime@);
        SysInfo {
            os: system_name(),
            kernel_version: system_kernel_version(),
            os_version: system_os_version(),
            host_name: system_host_name(),
            product_name: product_name(),
            cpu_arch: Some(system_cpu_arch()),
            cpu_count: Some(cpu_count),
            memory_total: Some(memory_total),
            memory_free: Some(memory_free),
            memory_used: Some(memory_used),
            uptime: Some(uptime),
        }
    }
}

} // verus!
