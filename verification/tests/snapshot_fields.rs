use nvdash::builder::assemble_snapshot;
use nvdash::display::{percent_clamped, set_window_opacity};
use nvdash::monitor::format_cuda_version;
use nvdash::text::{device_error_name, pid_label, poll_error_label, u32_to_dec, version_label};
use nvdash::GpuSnapshot;

#[test]
fn reported_memory_passes_through_unclamped() {
    // A device reporting more used than total memory is passed through
    // unmodified: the builder never inverts or clamps the raw values.
    let s = assemble_snapshot(
        0,
        String::from("Test GPU"),
        String::new(),
        String::new(),
        (0, 0),
        (8192 * 1024 * 1024, 4096 * 1024 * 1024),
        0,
        None,
        (0, 0),
        (0, 0, 0),
        Vec::new(),
    );
    assert_eq!(s.vram_used_mb, 8192);
    assert_eq!(s.vram_total_mb, 4096);
    assert!(s.vram_used_mb > s.vram_total_mb);
}

#[test]
fn snapshot_fields_are_carried_verbatim() {
    let s = assemble_snapshot(
        3,
        String::from("Test GPU"),
        String::from("555.85"),
        String::from("12.4"),
        (97, 63),
        (2048 * 1024 * 1024, 8192 * 1024 * 1024),
        71,
        Some(55),
        (215_000, 300_000),
        (1800, 9001, 1755),
        Vec::new(),
    );
    assert_eq!(s.index, 3);
    assert_eq!(s.name, "Test GPU");
    assert_eq!(s.driver_version, "555.85");
    assert_eq!(s.cuda_version, "12.4");
    assert_eq!(s.gpu_util, 97);
    assert_eq!(s.memory_util, 63);
    assert_eq!(s.vram_used_mb, 2048);
    assert_eq!(s.vram_total_mb, 8192);
    assert_eq!(s.temperature, 71);
    assert_eq!(s.fan_speed, Some(55));
    assert_eq!(s.power_draw_mw, 215_000);
    assert_eq!(s.power_limit_mw, 300_000);
    assert_eq!(s.clock_graphics_mhz, 1800);
    assert_eq!(s.clock_memory_mhz, 9001);
    assert_eq!(s.clock_sm_mhz, 1755);
    assert!(s.processes.is_empty());
}

#[test]
fn percentage_for_display_clamps_to_hundred() {
    assert_eq!(percent_clamped(8192, 4096), 100);
    assert_eq!(percent_clamped(1024, 4096), 25);
    assert_eq!(percent_clamped(4096, 4096), 100);
    assert_eq!(percent_clamped(0, 4096), 0);
    assert_eq!(percent_clamped(5, 0), 0);
}

#[test]
fn window_opacity_alpha_scales_percent() {
    assert_eq!(set_window_opacity(100), 255);
    assert_eq!(set_window_opacity(50), 127);
    assert_eq!(set_window_opacity(10), 25);
    assert_eq!(set_window_opacity(0), 0);
    assert_eq!(set_window_opacity(200), 255);
}

#[test]
fn placeholder_has_synthesized_error_name() {
    let s = GpuSnapshot::placeholder(2);
    assert_eq!(s.name, "GPU 2 (error)");
    assert_eq!(s.index, 2);
    assert_eq!(s.driver_version, "");
    assert_eq!(s.cuda_version, "");
    assert_eq!(s.vram_used_mb, 0);
    assert_eq!(s.fan_speed, None);
    assert!(s.processes.is_empty());
}

#[test]
fn cuda_version_encoding_is_major_dot_minor() {
    assert_eq!(format_cuda_version(12040), "12.4");
    assert_eq!(format_cuda_version(11070), "11.7");
    assert_eq!(format_cuda_version(10), "0.1");
    assert_eq!(format_cuda_version(0), "0.0");
    assert_eq!(format_cuda_version(-1), "N/A");
}

#[test]
fn decimal_rendering_matches() {
    assert_eq!(u32_to_dec(0), "0");
    assert_eq!(u32_to_dec(7), "7");
    assert_eq!(u32_to_dec(120), "120");
    assert_eq!(u32_to_dec(4294967295), "4294967295");
}

#[test]
fn label_builders_match_expected_text() {
    assert_eq!(pid_label(42), "PID 42");
    assert_eq!(version_label(12, 4), "12.4");
    assert_eq!(device_error_name(1), "GPU 1 (error)");
    assert_eq!(poll_error_label(1, "device lost"), "GPU 1 poll error: device lost");
}
