//! The data model: per-process usage entries and the per-device metric
//! snapshot that one poll produces.

use vstd::prelude::*;
use crate::text::device_error_name_spec;
use crate::text::device_error_name;

verus! {

/// Which clock domain a clock query asks about.
#[derive(Clone, Copy, Debug, PartialEq, Eq)]
pub enum ClockDomain {
    Graphics,
    Memory,
    Sm,
}

/// One process as the device reported it, before name resolution: the OS
/// pid and, where the device reported one, the memory it holds in bytes.
#[derive(Clone, Copy, Debug, PartialEq, Eq)]
pub struct RawProc {
    pub pid: u32,
    pub mem_bytes: Option<u64>,
}

/// One row of a snapshot's process table: OS pid, resolved display name
/// (or the synthesized `"PID {pid}"` label when the OS lookup missed),
/// and device memory footprint in whole megabytes.
#[derive(Clone, Debug, PartialEq)]
pub struct ProcessInfo {
    pub pid: u32,
    pub name: String,
    pub vram_mb: u64,
}

/// One immutable point-in-time reading of every tracked metric for one
/// device.  Every independently fallible field degrades to a documented
/// default instead of failing the snapshot: utilization, temperature,
/// power and clocks fall back to zero, the fan speed to `None`, the
/// device name to `"Unknown GPU"`.  Power values keep the vendor's
/// milliwatt unit; consumers divide by 1000 for watts.
#[derive(Clone, Debug, PartialEq)]
pub struct GpuSnapshot {
    pub name: String,
    pub index: u32,
    pub driver_version: String,
    pub cuda_version: String,
    /// Compute utilization, percent.
    pub gpu_util: u32,
    /// Memory-controller utilization, percent.
    pub memory_util: u32,
    pub vram_used_mb: u64,
    pub vram_total_mb: u64,
    /// Degrees Celsius; zero when the sensor query failed.
    pub temperature: u32,
    /// Percent; `None` when the device reports no fan.
    pub fan_speed: Option<u32>,
    pub power_draw_mw: u32,
    pub power_limit_mw: u32,
    pub clock_graphics_mhz: u32,
    pub clock_memory_mhz: u32,
    pub clock_sm_mhz: u32,
    /// Ordered by descending memory footprint, ties in discovery order.
    pub processes: Vec<ProcessInfo>,
}

impl GpuSnapshot {
    /// What the pre-first-poll snapshot of a device looks like: the
    /// synthesized `"GPU {index} (error)"` name and defaults everywhere
    /// else.
    pub open spec fn is_placeholder(self, index: u32) -> bool {
        &&& self.name@ == device_error_name_spec(index as nat)
        &&& self.index == index
        &&& self.driver_version@ == Seq::<char>::empty()
        &&& self.cuda_version@ == Seq::<char>::empty()
        &&& self.gpu_util == 0
        &&& self.memory_util == 0
        &&& self.vram_used_mb == 0
        &&& self.vram_total_mb == 0
        &&& self.temperature == 0
        &&& self.fan_speed is None
        &&& self.power_draw_mw == 0
        &&& self.power_limit_mw == 0
        &&& self.clock_graphics_mhz == 0
        &&& self.clock_memory_mhz == 0
        &&& self.clock_sm_mhz == 0
        &&& self.processes@ == Seq::<ProcessInfo>::empty()
    }

    /// The zeroed snapshot a device shows before its first successful
    /// poll.
    pub fn placeholder(index: u32) -> (s: GpuSnapshot)
        ensures
            s.is_placeholder(index),
    {
        GpuSnapshot {
            name: device_error_name(index),
            index,
            driver_version: String::new(),
            cuda_version: String::new(),
            gpu_util: 0,
            memory_util: 0,
            vram_used_mb: 0,
            vram_total_mb: 0,
            temperature: 0,
            fan_speed: None,
            power_draw_mw: 0,
            power_limit_mw: 0,
            clock_graphics_mhz: 0,
            clock_memory_mhz: 0,
            clock_sm_mhz: 0,
            processes: Vec::new(),
        }
    }
}

} // verus!
