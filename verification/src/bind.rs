//! The trusted boundary to the vendor query library (`nvml-wrapper`)
//! and to the OS process inventory (`sysinfo`).  Each function wraps
//! exactly one outside call and only converts its arguments and result
//! to or from plain values; every query result depends on the machine,
//! so the contracts promise nothing about the values that come back —
//! the verified callers state what holds whatever came back.

use vstd::prelude::*;
use crate::snapshot::{ClockDomain, RawProc};

use nvml_wrapper::Nvml;
use nvml_wrapper::Device;
use nvml_wrapper::error::NvmlError;
use nvml_wrapper::enum_wrappers::device::Clock;
use nvml_wrapper::enum_wrappers::device::TemperatureSensor;
use nvml_wrapper::enums::device::UsedGpuMemory;
use sysinfo::Pid;
use sysinfo::ProcessesToUpdate;
use sysinfo::System;

verus! {

#[verifier::external_type_specification]
#[verifier::external_body]
pub struct ExNvml(Nvml);

#[verifier::external_type_specification]
#[verifier::external_body]
pub struct ExDevice<'a>(Device<'a>);

#[verifier::external_type_specification]
#[verifier::external_body]
pub struct ExNvmlError(NvmlError);

#[verifier::external_type_specification]
#[verifier::external_body]
pub struct ExSystem(System);

/// Relies on `Nvml::init`: the process-wide one-time initialization of
/// the vendor library; fails when no compatible driver is present.
#[verifier::external_body]
pub(crate) fn nvml_init() -> Result<Nvml, NvmlError> {
    Nvml::init()
}

/// Relies on `Nvml::device_count`: how many devices the driver reports.
#[verifier::external_body]
pub(crate) fn nvml_device_count(nvml: &Nvml) -> Result<u32, NvmlError> {
    nvml.device_count()
}

/// Relies on `Nvml::sys_driver_version`: the driver version string.
#[verifier::external_body]
pub(crate) fn nvml_driver_version(nvml: &Nvml) -> Result<String, NvmlError> {
    nvml.sys_driver_version()
}

/// Relies on `Nvml::sys_cuda_driver_version`: the integer-encoded
/// runtime version (major times 1000 plus ten times the minor).
#[verifier::external_body]
pub(crate) fn nvml_cuda_version(nvml: &Nvml) -> Result<i32, NvmlError> {
    nvml.sys_cuda_driver_version()
}

/// Relies on `Nvml::device_by_index`: the handle for one device; fails
/// when the index is out of range or the device is gone.
#[verifier::external_body]
pub(crate) fn nvml_device_by_index<'a>(nvml: &'a Nvml, index: u32) -> Result<
    Device<'a>,
    NvmlError,
> {
    nvml.device_by_index(index)
}

/// Relies on `Device::name`: the device's display name.
#[verifier::external_body]
pub(crate) fn device_name<'a>(device: &Device<'a>) -> Result<String, NvmlError> {
    device.name()
}

/// Relies on `Device::utilization_rates`: the compute and the
/// memory-controller utilization, each a percentage.
#[verifier::external_body]
pub(crate) fn device_utilization<'a>(device: &Device<'a>) -> Result<(u32, u32), NvmlError> {
    device.utilization_rates().map(|u| (u.gpu, u.memory))
}

/// Relies on `Device::memory_info`: used and total device memory in
/// bytes.
#[verifier::external_body]
pub(crate) fn device_memory_info<'a>(device: &Device<'a>) -> Result<(u64, u64), NvmlError> {
    device.memory_info().map(|m| (m.used, m.total))
}

/// Relies on `Device::temperature` for the on-die sensor: degrees
/// Celsius.
#[verifier::external_body]
pub(crate) fn device_temperature<'a>(device: &Device<'a>) -> Result<u32, NvmlError> {
    device.temperature(TemperatureSensor::Gpu)
}

/// Relies on `Device::fan_speed` for the fan at `fan_idx`: the intended
/// speed as a percentage; fails on fanless devices.
#[verifier::external_body]
pub(crate) fn device_fan_speed<'a>(device: &Device<'a>, fan_idx: u32) -> Result<u32, NvmlError> {
    device.fan_speed(fan_idx)
}

/// Relies on `Device::power_usage`: the instantaneous draw in
/// milliwatts.
#[verifier::external_body]
pub(crate) fn device_power_usage<'a>(device: &Device<'a>) -> Result<u32, NvmlError> {
    device.power_usage()
}

/// Relies on `Device::enforced_power_limit`: the enforced limit in
/// milliwatts.
#[verifier::external_body]
pub(crate) fn device_power_limit<'a>(device: &Device<'a>) -> Result<u32, NvmlError> {
    device.enforced_power_limit()
}

/// Relies on `Device::clock_info`: the current clock of the chosen
/// domain in megahertz.
#[verifier::external_body]
pub(crate) fn device_clock<'a>(device: &Device<'a>, domain: ClockDomain) -> Result<
    u32,
    NvmlError,
> {
    let clock = match domain {
        ClockDomain::Graphics => Clock::Graphics,
        ClockDomain::Memory => Clock::Memory,
        ClockDomain::Sm => Clock::SM,
    };
    device.clock_info(clock)
}

/// Relies on `Device::running_compute_processes`: one entry per
/// compute-context process, its pid and, where the device reported one,
/// its used memory in bytes.
#[verifier::external_body]
pub(crate) fn device_compute_processes<'a>(device: &Device<'a>) -> Result<Vec<RawProc>, NvmlError> {
    device.running_compute_processes().map(|procs| {
        procs
            .into_iter()
            .map(|p| RawProc {
                pid: p.pid,
                mem_bytes: match p.used_gpu_memory {
                    UsedGpuMemory::Used(b) => Some(b),
                    UsedGpuMemory::Unavailable => None,
                },
            })
            .collect()
    })
}

/// Relies on `Device::running_graphics_processes`: as above, for the
/// graphics-context processes.
#[verifier::external_body]
pub(crate) fn device_graphics_processes<'a>(device: &Device<'a>) -> Result<
    Vec<RawProc>,
    NvmlError,
> {
    device.running_graphics_processes().map(|procs| {
        procs
            .into_iter()
            .map(|p| RawProc {
                pid: p.pid,
                mem_bytes: match p.used_gpu_memory {
                    UsedGpuMemory::Used(b) => Some(b),
                    UsedGpuMemory::Unavailable => None,
                },
            })
            .collect()
    })
}

/// Relies on `NvmlError`'s `Display` rendering for the human-readable
/// advisory text of a failed query.
#[verifier::external_body]
pub(crate) fn nvml_error_text(err: &NvmlError) -> String {
    format!("{}", err)
}

/// Relies on `System::new`: a process inventory with nothing loaded.
#[verifier::external_body]
pub(crate) fn system_new() -> System {
    System::new()
}

/// Relies on `System::refresh_processes`: loads exactly the listed
/// pids into the inventory in one batch query.
#[verifier::external_body]
pub(crate) fn system_refresh_pids(sys: &mut System, pids: &Vec<u32>) {
    let wanted: Vec<Pid> = pids.iter().map(|p| Pid::from_u32(*p)).collect();
    sys.refresh_processes(ProcessesToUpdate::Some(&wanted), true);
}

/// Relies on `System::process` and `Process::name`: the display name
/// of `pid` in the refreshed inventory, `None` when the inventory holds
/// no such process.
#[verifier::external_body]
pub(crate) fn process_name(sys: &System, pid: u32) -> Option<String> {
    sys.process(Pid::from_u32(pid)).map(|p| p.name().to_string_lossy().to_string())
}

} // verus!
