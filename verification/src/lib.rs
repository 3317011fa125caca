//! Verified polling core of a GPU telemetry dashboard.
//!
//! The library turns the per-field-fallible vendor query surface (NVML,
//! reached through `nvml-wrapper`) into consistent per-device snapshots,
//! keeps a bounded rolling history of the headline metrics, and decides
//! when a poll is due.  Process names are resolved in one batch through
//! `sysinfo`.  Everything that computes — defaulting of failed queries,
//! merging of the per-context process lists, the stable sort by memory
//! footprint, the history ring and the poll scheduler — is verified;
//! the calls into the vendor library stand behind small trusted wrappers.

pub mod bind;
pub mod builder;
pub mod display;
pub mod history;
pub mod monitor;
pub mod scheduler;
pub mod snapshot;
pub mod text;

pub use history::GpuHistory;
pub use monitor::GpuMonitor;
pub use scheduler::PollScheduler;
pub use snapshot::{ClockDomain, GpuSnapshot, ProcessInfo, RawProc};
