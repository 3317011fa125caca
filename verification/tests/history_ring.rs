use nvdash::builder::assemble_snapshot;
use nvdash::GpuHistory;
use nvdash::GpuSnapshot;

fn sample_snapshot(util: u32, vram_mb: u64, temp: u32, power_mw: u32) -> GpuSnapshot {
    assemble_snapshot(
        0,
        String::from("Test GPU"),
        String::from("555.85"),
        String::from("12.4"),
        (util, 10),
        (vram_mb * 1024 * 1024, 8192 * 1024 * 1024),
        temp,
        Some(40),
        (power_mw, 300_000),
        (1800, 9000, 1800),
        Vec::new(),
    )
}

#[test]
fn history_starts_empty() {
    let h = GpuHistory::new();
    assert_eq!(h.gpu_util.len(), 0);
    assert_eq!(h.vram_used.len(), 0);
    assert_eq!(h.temperature.len(), 0);
    assert_eq!(h.power_draw.len(), 0);
}

#[test]
fn push_appends_one_sample_per_metric() {
    let mut h = GpuHistory::new();
    h.push(&sample_snapshot(55, 2048, 67, 123_000));
    assert_eq!(h.gpu_util.iter().copied().collect::<Vec<u64>>(), vec![55]);
    assert_eq!(h.vram_used.iter().copied().collect::<Vec<u64>>(), vec![2048]);
    assert_eq!(h.temperature.iter().copied().collect::<Vec<u64>>(), vec![67]);
    assert_eq!(h.power_draw.iter().copied().collect::<Vec<u64>>(), vec![123_000]);
}

#[test]
fn pushes_keep_chronological_order() {
    let mut h = GpuHistory::new();
    for i in 0..5u32 {
        h.push(&sample_snapshot(i, i as u64, i, i));
    }
    let utils: Vec<u64> = h.gpu_util.iter().copied().collect();
    assert_eq!(utils, vec![0, 1, 2, 3, 4]);
}

#[test]
fn five_hundred_pushes_keep_last_hundred_twenty() {
    let mut h = GpuHistory::new();
    for i in 0..500u32 {
        h.push(&sample_snapshot(i, 1000 + i as u64, 30 + (i % 50), 100_000 + i));
    }
    assert_eq!(h.gpu_util.len(), 120);
    assert_eq!(h.vram_used.len(), 120);
    assert_eq!(h.temperature.len(), 120);
    assert_eq!(h.power_draw.len(), 120);
    let expected_utils: Vec<u64> = (380..500u64).collect();
    assert_eq!(h.gpu_util.iter().copied().collect::<Vec<u64>>(), expected_utils);
    let expected_vram: Vec<u64> = (380..500u64).map(|i| 1000 + i).collect();
    assert_eq!(h.vram_used.iter().copied().collect::<Vec<u64>>(), expected_vram);
}

#[test]
fn ring_never_exceeds_capacity_at_any_point() {
    let mut h = GpuHistory::new();
    for i in 0..200u32 {
        h.push(&sample_snapshot(i, 0, 0, 0));
        assert!(h.gpu_util.len() <= 120);
        assert!(h.vram_used.len() <= 120);
        assert!(h.temperature.len() <= 120);
        assert!(h.power_draw.len() <= 120);
    }
}
