use nvdash::builder::{apply_names, merge_processes, sort_processes};
use nvdash::{ProcessInfo, RawProc};

const MB: u64 = 1024 * 1024;

fn raw(pid: u32, mb: u64) -> RawProc {
    RawProc { pid, mem_bytes: Some(mb * MB) }
}

#[test]
fn union_is_first_seen_wins() {
    let compute = vec![raw(10, 500)];
    let graphics = vec![raw(10, 700), raw(20, 100)];
    let merged = merge_processes(&compute, &graphics);
    assert_eq!(merged.len(), 2);
    assert_eq!(merged[0], raw(10, 500));
    assert_eq!(merged[1], raw(20, 100));
}

#[test]
fn union_of_disjoint_lists_keeps_discovery_order() {
    let compute = vec![raw(1, 10), raw(2, 20)];
    let graphics = vec![raw(3, 30)];
    let merged = merge_processes(&compute, &graphics);
    assert_eq!(merged, vec![raw(1, 10), raw(2, 20), raw(3, 30)]);
}

#[test]
fn union_of_empty_lists_is_empty() {
    let merged = merge_processes(&Vec::new(), &Vec::new());
    assert!(merged.is_empty());
}

#[test]
fn missing_memory_figure_counts_as_zero() {
    let compute = vec![RawProc { pid: 7, mem_bytes: None }];
    let merged = merge_processes(&compute, &Vec::new());
    let named = apply_names(&merged, &vec![Some(String::from("worker"))]);
    assert_eq!(named.len(), 1);
    assert_eq!(named[0].pid, 7);
    assert_eq!(named[0].name, "worker");
    assert_eq!(named[0].vram_mb, 0);
}

#[test]
fn bytes_are_divided_down_to_megabytes() {
    let entries = vec![RawProc { pid: 1, mem_bytes: Some(3 * MB + MB / 2) }];
    let named = apply_names(&entries, &vec![None]);
    assert_eq!(named[0].vram_mb, 3);
}

#[test]
fn unresolved_name_becomes_pid_label() {
    let entries = vec![raw(10, 500), raw(20, 100)];
    let names = vec![None, Some(String::from("python3"))];
    let named = apply_names(&entries, &names);
    assert_eq!(named[0].name, "PID 10");
    assert_eq!(named[1].name, "python3");
}

#[test]
fn sort_is_descending_with_ties_in_discovery_order() {
    let table = vec![
        ProcessInfo { pid: 1, name: String::from("a"), vram_mb: 100 },
        ProcessInfo { pid: 2, name: String::from("b"), vram_mb: 100 },
        ProcessInfo { pid: 3, name: String::from("c"), vram_mb: 200 },
    ];
    let sorted = sort_processes(table);
    let pids: Vec<u32> = sorted.iter().map(|p| p.pid).collect();
    assert_eq!(pids, vec![3, 1, 2]);
}

#[test]
fn sort_keeps_every_row() {
    let table = vec![
        ProcessInfo { pid: 4, name: String::from("d"), vram_mb: 1 },
        ProcessInfo { pid: 5, name: String::from("e"), vram_mb: 9 },
        ProcessInfo { pid: 6, name: String::from("f"), vram_mb: 5 },
        ProcessInfo { pid: 7, name: String::from("g"), vram_mb: 9 },
    ];
    let sorted = sort_processes(table.clone());
    assert_eq!(sorted.len(), table.len());
    let pids: Vec<u32> = sorted.iter().map(|p| p.pid).collect();
    assert_eq!(pids, vec![5, 7, 6, 4]);
    for row in &table {
        assert!(sorted.contains(row));
    }
}

#[test]
fn full_pipeline_matches_expected_table() {
    let compute = vec![raw(10, 500)];
    let graphics = vec![raw(10, 700), raw(20, 100)];
    let merged = merge_processes(&compute, &graphics);
    let names = vec![None, None];
    let named = apply_names(&merged, &names);
    let sorted = sort_processes(named);
    assert_eq!(sorted.len(), 2);
    assert_eq!(sorted[0].pid, 10);
    assert_eq!(sorted[0].vram_mb, 500);
    assert_eq!(sorted[0].name, "PID 10");
    assert_eq!(sorted[1].pid, 20);
    assert_eq!(sorted[1].vram_mb, 100);
    assert_eq!(sorted[1].name, "PID 20");
}
