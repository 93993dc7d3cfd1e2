use devinspect::collectors::top::{
    memory_level, monitor_plan, name_column, top_by_memory, top_memory_table, MemoryLevel,
    ProcessSample,
};

fn p(pid: u32, exe: &str, memory: u64) -> ProcessSample {
    ProcessSample { pid, exe: exe.to_string(), memory }
}

#[test]
fn threads_collapse_to_their_lowest_pid() {
    let procs = vec![
        p(300, "/usr/bin/zoom", 900),
        p(120, "/usr/bin/zoom", 900),
        p(200, "/usr/bin/zoom", 900),
        p(50, "/usr/bin/bash", 10),
        p(51, "/usr/bin/bash", 12),
        p(7, "/usr/lib/brave", 900),
    ];
    // zoom collapses to pid 120; brave ties on memory and wins by pid.
    assert_eq!(top_by_memory(&procs, 10), vec![5, 1, 4, 3]);
    assert_eq!(top_by_memory(&procs, 2), vec![5, 1]);
    assert_eq!(top_by_memory(&procs, 0), Vec::<usize>::new());
}

#[test]
fn the_memory_table_has_ten_rows_at_most() {
    let procs: Vec<ProcessSample> = (0..25).map(|i| p(1000 + i, &format!("/bin/p{}", i), (i as u64) * 100)).collect();
    let rows = top_memory_table(&procs);
    assert_eq!(rows, (15..25).rev().collect::<Vec<usize>>());
}

#[test]
fn memory_levels() {
    assert!(matches!(memory_level(500), MemoryLevel::High));
    assert!(matches!(memory_level(499), MemoryLevel::Medium));
    assert!(matches!(memory_level(200), MemoryLevel::Medium));
    assert!(matches!(memory_level(199), MemoryLevel::Low));
}

#[test]
fn monitor_plans() {
    let one = monitor_plan(None);
    assert_eq!((one.iterations, one.sample_ms, one.live), (1, 1000, false));
    let zero = monitor_plan(Some(0));
    assert_eq!((zero.iterations, zero.sample_ms, zero.live), (1, 1000, false));
    let five = monitor_plan(Some(5));
    assert_eq!((five.iterations, five.sample_ms, five.live), (5, 800, true));
}

#[test]
fn names_are_cut_to_the_column() {
    assert_eq!(name_column("bash"), "bash");
    assert_eq!(name_column("a-very-long-process-name-that-goes-on"), "a-very-long-process-name-th");
    assert_eq!(name_column("ééééééééééééééééééééééééééééé").chars().count(), 27);
}
