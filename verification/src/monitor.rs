//! The monitor: the process-wide vendor handle with its cached identity
//! strings, and the per-device snapshot builder.

use vstd::prelude::*;
use nvml_wrapper::Nvml;
use nvml_wrapper::error::NvmlError;
use crate::bind;
use crate::builder;
use crate::snapshot::{ClockDomain, GpuSnapshot, RawProc};
use crate::text::version_label_spec;
use crate::text::version_label;

verus! {

/// Maps an independently fallible query to its value or the given
/// default, so one metric's unavailability never blanks the rest.
fn or_default<T>(queried: Result<T, NvmlError>, default: T) -> (v: T)
    ensures
        match queried {
            Ok(x) => v == x,
            Err(_) => v == default,
        },
{
    match queried {
        Ok(x) => x,
        Err(_) => default,
    }
}

/// What the cached runtime-version string can be: the `"N/A"` sentinel,
/// or the `"{major}.{minor}"` rendering of some non-negative integer
/// encoding (major times 1000 plus ten times the minor).
pub open spec fn cuda_label_shape(label: Seq<char>) -> bool {
    label == "N/A"@ || exists|enc: int|
        0 <= enc <= i32::MAX && label == #[trigger] version_label_spec(
            (enc / 1000) as nat,
            ((enc % 1000) / 10) as nat,
        )
}

/// The `"{major}.{minor}"` string for the integer-encoded runtime
/// version, where major is the value over 1000 and minor is the
/// remainder over 10; `"N/A"` for a nonsensical negative encoding.
pub fn format_cuda_version(encoded: i32) -> (s: String)
    ensures
        encoded >= 0 ==> s@ == version_label_spec(
            (encoded / 1000) as nat,
            ((encoded % 1000) / 10) as nat,
        ),
        encoded < 0 ==> s@ == "N/A"@,
        cuda_label_shape(s@),
{
    if encoded >= 0 {
        let v = encoded as u32;
        let s = version_label(v / 1000, (v % 1000) / 10);
        proof {
            let enc = encoded as int;
            assert(0 <= enc <= i32::MAX && s@ == version_label_spec(
                (enc / 1000) as nat,
                ((enc % 1000) / 10) as nat,
            ));
        }
        s
    } else {
        String::from_str("N/A")
    }
}

/// Batch name resolution: one refresh of the OS process inventory for
/// all the listed entries, then one inventory lookup per entry — the
/// number of OS queries per poll does not grow with the process count.
/// Which names the inventory answers depends on the machine; the
/// resolved answers line up with the entries, missing ones as `None`.
pub fn resolve_names(entries: &Vec<RawProc>) -> (names: Vec<Option<String>>)
    ensures
        names@.len() == entries@.len(),
{
    let mut pids: Vec<u32> = Vec::new();
    let mut i: usize = 0;
    while i < entries.len()
        invariant
            i <= entries@.len(),
            pids@.len() == i,
        decreases entries@.len() - i,
    {
        pids.push(entries[i].pid);
        i += 1;
    }
    let mut sys = bind::system_new();
    bind::system_refresh_pids(&mut sys, &pids);
    let mut names: Vec<Option<String>> = Vec::new();
    let mut j: usize = 0;
    while j < entries.len()
        invariant
            j <= entries@.len(),
            names@.len() == j,
        decreases entries@.len() - j,
    {
        names.push(bind::process_name(&sys, entries[j].pid));
        j += 1;
    }
    names
}

/// The process-wide handle to the vendor query library, with the device
/// count and both identity strings cached at initialization.
pub struct GpuMonitor {
    nvml: Nvml,
    device_count: u32,
    driver_version: String,
    cuda_version: String,
}

impl GpuMonitor {
    /// The cached device count.
    pub closed spec fn spec_device_count(&self) -> u32 {
        self.device_count
    }

    /// The cached driver version string.
    pub closed spec fn spec_driver_version(&self) -> Seq<char> {
        self.driver_version@
    }

    /// The cached runtime version string.
    pub closed spec fn spec_cuda_version(&self) -> Seq<char> {
        self.cuda_version@
    }

    /// Initializes the vendor library and caches the device count and
    /// the version strings.  Only initialization and the device count
    /// can fail the monitor; a failed version query degrades to the
    /// `"N/A"` sentinel.  Which branch is taken, the count and the
    /// driver string are the vendor library's to decide; what is owed
    /// on success is the runtime-version string's shape: the sentinel
    /// or a rendering of some integer encoding.
    pub fn init() -> (r: Result<GpuMonitor, String>)
        ensures
            r matches Ok(m) ==> cuda_label_shape(m.spec_cuda_version()),
    {
        let nvml = match bind::nvml_init() {
            Ok(handle) => handle,
            Err(e) => {
                return Err(bind::nvml_error_text(&e));
            },
        };
        let device_count = match bind::nvml_device_count(&nvml) {
            Ok(count) => count,
            Err(e) => {
                return Err(bind::nvml_error_text(&e));
            },
        };
        let driver_version = match bind::nvml_driver_version(&nvml) {
            Ok(version) => version,
            Err(_) => String::from_str("N/A"),
        };
        let cuda_version = match bind::nvml_cuda_version(&nvml) {
            Ok(encoded) => format_cuda_version(encoded),
            Err(_) => String::from_str("N/A"),
        };
        Ok(GpuMonitor { nvml, device_count, driver_version, cuda_version })
    }

    /// The device count read at initialization.
    pub fn device_count(&self) -> (count: u32)
        ensures
            count == self.spec_device_count(),
    {
        self.device_count
    }

    /// The driver version cached at initialization.
    pub fn driver_version(&self) -> (version: String)
        ensures
            version@ == self.spec_driver_version(),
    {
        self.driver_version.clone()
    }

    /// The runtime version cached at initialization.
    pub fn cuda_version(&self) -> (version: String)
        ensures
            version@ == self.spec_cuda_version(),
    {
        self.cuda_version.clone()
    }

    /// Issues the full set of metric queries for the device at `index`
    /// and assembles one snapshot.  Only the device handle lookup can
    /// fail the call; every finer-grained query degrades to its
    /// documented default.  Reported memory values pass through
    /// unclamped; the process table is the first-seen-wins union of the
    /// compute and graphics lists, named in one batch, sorted by
    /// descending footprint with ties in discovery order.
    pub fn snapshot(&self, index: u32) -> (r: Result<GpuSnapshot, String>)
        ensures
            r matches Ok(s) ==> {
                &&& s.index == index
                &&& s.driver_version@ == self.spec_driver_version()
                &&& s.cuda_version@ == self.spec_cuda_version()
                &&& builder::sorted_desc(s.processes@)
                &&& builder::unique_pids(s.processes@)
            },
    {
        let device = match bind::nvml_device_by_index(&self.nvml, index) {
            Ok(d) => d,
            Err(e) => {
                return Err(bind::nvml_error_text(&e));
            },
        };
        let name = or_default(bind::device_name(&device), String::from_str("Unknown GPU"));
        let (gpu_util, memory_util) = or_default(bind::device_utilization(&device), (0, 0));
        let (vram_used_b, vram_total_b) = or_default(bind::device_memory_info(&device), (0, 0));
        let temperature = or_default(bind::device_temperature(&device), 0);
        let fan_speed = bind::device_fan_speed(&device, 0).ok();
        let power_draw_mw = or_default(bind::device_power_usage(&device), 0);
        let power_limit_mw = or_default(bind::device_power_limit(&device), 0);
        let clock_graphics_mhz = or_default(
            bind::device_clock(&device, ClockDomain::Graphics),
            0,
        );
        let clock_memory_mhz = or_default(bind::device_clock(&device, ClockDomain::Memory), 0);
        let clock_sm_mhz = or_default(bind::device_clock(&device, ClockDomain::Sm), 0);
        let compute = or_default(bind::device_compute_processes(&device), Vec::new());
        let graphics = or_default(bind::device_graphics_processes(&device), Vec::new());
        let merged = builder::merge_processes(&compute, &graphics);
        let names = resolve_names(&merged);
        let named = builder::apply_names(&merged, &names);
        proof {
            builder::lemma_merge_spec_unique(compute@ + graphics@);
            assert forall|a: int, b: int|
                0 <= a < b < named@.len() implies (#[trigger] named@[a]).pid != (
            #[trigger] named@[b]).pid by {
                assert(merged@[a].pid != merged@[b].pid);
            }
        }
        let ghost named_rows = named@;
        let processes = builder::sort_processes(named);
        proof {
            builder::lemma_sort_desc_spec_unique(named_rows);
        }
        Ok(
            builder::assemble_snapshot(
                index,
                name,
                self.driver_version.clone(),
                self.cuda_version.clone(),
                (gpu_util, memory_util),
                (vram_used_b, vram_total_b),
                temperature,
                fan_speed,
                (power_draw_mw, power_limit_mw),
                (clock_graphics_mhz, clock_memory_mhz, clock_sm_mhz),
                processes,
            ),
        )
    }
}

} // verus!
