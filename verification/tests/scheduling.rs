use nvdash::builder::assemble_snapshot;
use nvdash::{GpuSnapshot, PollScheduler};

fn stub_snapshot(index: u32, util: u32, vram_mb: u64) -> GpuSnapshot {
    assemble_snapshot(
        index,
        format!("Stub GPU {}", index),
        String::from("555.85"),
        String::from("12.4"),
        (util, 0),
        (vram_mb * 1024 * 1024, 8192 * 1024 * 1024),
        50,
        None,
        (100_000, 300_000),
        (1500, 8000, 1500),
        Vec::new(),
    )
}

#[test]
fn fresh_scheduler_holds_placeholders() {
    let sched = PollScheduler::new(2, 500);
    assert_eq!(sched.device_count(), 2);
    assert_eq!(sched.latest_snapshot(0).name, "GPU 0 (error)");
    assert_eq!(sched.latest_snapshot(1).name, "GPU 1 (error)");
    assert_eq!(sched.history(0).gpu_util.len(), 0);
    assert!(sched.current_error().is_none());
}

#[test]
fn poll_not_due_before_interval_elapses() {
    // With a freshly recorded pass at time zero and a 1000 ms interval,
    // an immediate second tick is a no-op: nothing is due.
    let sched = PollScheduler::new(1, 1000);
    assert_eq!(sched.interval_ms(), 1000);
    assert!(!sched.poll_due(0));
    assert!(!sched.poll_due(999));
    assert!(sched.poll_due(1000));
    assert!(sched.poll_due(5000));
}

#[test]
fn interval_change_takes_effect_on_next_check() {
    let mut sched = PollScheduler::new(1, 2000);
    assert!(!sched.poll_due(500));
    sched.set_interval_ms(250);
    assert_eq!(sched.interval_ms(), 250);
    assert!(sched.poll_due(500));
}

#[test]
fn success_replaces_snapshot_and_appends_history() {
    let mut sched = PollScheduler::new(1, 500);
    sched.apply_device_result(0, Ok(stub_snapshot(0, 42, 2048)));
    assert_eq!(sched.latest_snapshot(0).gpu_util, 42);
    assert_eq!(sched.latest_snapshot(0).vram_used_mb, 2048);
    assert_eq!(sched.history(0).gpu_util.iter().copied().collect::<Vec<u64>>(), vec![42]);
    assert_eq!(sched.history(0).vram_used.iter().copied().collect::<Vec<u64>>(), vec![2048]);
    assert!(sched.current_error().is_none());
}

#[test]
fn failure_names_device_and_keeps_prior_data() {
    // One pass fills all three devices; the next fails only device 1.
    // Devices 0 and 2 are unaffected by that failure, device 1 keeps its
    // previous snapshot and history, and the error names device 1.
    let mut sched = PollScheduler::new(3, 500);
    for i in 0..3u32 {
        sched.apply_device_result(i, Ok(stub_snapshot(i, 10 + i, 1000)));
    }
    let device1_before = sched.latest_snapshot(1).clone();
    let history1_before = sched.history(1).clone();

    sched.apply_device_result(0, Ok(stub_snapshot(0, 80, 3000)));
    sched.apply_device_result(1, Err(String::from("device lost")));
    sched.apply_device_result(2, Ok(stub_snapshot(2, 90, 4000)));

    assert_eq!(sched.latest_snapshot(0).gpu_util, 80);
    assert_eq!(sched.history(0).gpu_util.len(), 2);
    assert_eq!(sched.latest_snapshot(2).gpu_util, 90);
    assert_eq!(sched.history(2).gpu_util.len(), 2);

    assert_eq!(*sched.latest_snapshot(1), device1_before);
    assert_eq!(*sched.history(1), history1_before);
    assert_eq!(sched.history(1).gpu_util.len(), 1);

    assert_eq!(sched.current_error().as_deref(), Some("GPU 1 poll error: device lost"));
}

#[test]
fn later_failure_overwrites_earlier_message() {
    let mut sched = PollScheduler::new(2, 500);
    sched.apply_device_result(0, Err(String::from("first failure")));
    sched.apply_device_result(1, Err(String::from("second failure")));
    assert_eq!(sched.current_error().as_deref(), Some("GPU 1 poll error: second failure"));
}

#[test]
fn success_leaves_standing_error_untouched() {
    // Within one pass, a success after a failure must not clear the
    // failure's message: the pass as a whole was not fully successful.
    let mut sched = PollScheduler::new(2, 500);
    sched.apply_device_result(0, Err(String::from("device lost")));
    sched.apply_device_result(1, Ok(stub_snapshot(1, 5, 100)));
    assert_eq!(sched.current_error().as_deref(), Some("GPU 0 poll error: device lost"));
}

#[test]
fn out_of_range_result_changes_nothing() {
    let mut sched = PollScheduler::new(1, 500);
    let before = sched.latest_snapshot(0).clone();
    sched.apply_device_result(5, Ok(stub_snapshot(5, 1, 1)));
    assert_eq!(sched.device_count(), 1);
    assert_eq!(*sched.latest_snapshot(0), before);
    assert_eq!(sched.history(0).gpu_util.len(), 0);
}
