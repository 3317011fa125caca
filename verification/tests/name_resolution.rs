use nvdash::builder::apply_names;
use nvdash::monitor::resolve_names;
use nvdash::RawProc;

#[test]
fn nonexistent_pid_resolves_to_synthesized_label() {
    // The largest representable pid cannot belong to a live process, so
    // the batch resolution misses and the display name falls back to
    // the synthesized label.
    let entries = vec![RawProc { pid: 4294967294, mem_bytes: Some(1024 * 1024) }];
    let names = resolve_names(&entries);
    assert_eq!(names.len(), 1);
    assert_eq!(names[0], None);
    let named = apply_names(&entries, &names);
    assert_eq!(named[0].name, "PID 4294967294");
    assert_eq!(named[0].vram_mb, 1);
}

#[test]
fn resolution_answers_line_up_with_entries() {
    let entries = vec![
        RawProc { pid: 4294967294, mem_bytes: None },
        RawProc { pid: 4294967293, mem_bytes: Some(2 * 1024 * 1024) },
    ];
    let names = resolve_names(&entries);
    assert_eq!(names.len(), 2);
}
