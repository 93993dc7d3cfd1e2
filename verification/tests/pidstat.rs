use devinspect::collectors::pidstat::{
    counter_growth, get_child_processes, get_crashes_signals, get_io_stats, get_network_sockets,
    get_open_files_list, get_syscall, parse_tid, sample_steps, thread_comm, ProcessInfo,
};

#[test]
fn io_counters_from_proc_io() {
    let io = "rchar: 2012\nwchar: 555\nsyscr: 7\nsyscw: 3\nread_bytes: 4096\nwrite_bytes: 8192\ncancelled_write_bytes: 0\n";
    assert_eq!(get_io_stats(Some(io)), (2012, 555, 4096, 8192));
    assert_eq!(get_io_stats(None), (0, 0, 0, 0));
    // A value that does not parse counts as zero; a later line wins.
    assert_eq!(get_io_stats(Some("rchar: x\nwchar: 9\nwchar: 10\n")), (0, 10, 0, 0));
    // Lines that are not two words are ignored.
    assert_eq!(get_io_stats(Some("rchar: 1 2\n")), (0, 0, 0, 0));
}

#[test]
fn syscall_text() {
    assert_eq!(get_syscall(Some("  0 0x3 0x7ffd 0x1000\n")), "0 0x3 0x7ffd 0x1000");
    assert_eq!(get_syscall(None), "N/A (requires privileges or process finished)");
}

#[test]
fn signal_masks_are_coloured() {
    let status = "Name:\tbash\nSigQ:\t0/63\nSigBlk:\t0000000000010000\nSigIgn:\t0000000000380004\nSigCgt:\t000000004b817efb\n";
    assert_eq!(
        get_crashes_signals(Some(status)),
        "Blocked: \u{1b}[93m0000000000010000\u{1b}[39m, Ignored: \u{1b}[92m0000000000380004\u{1b}[39m, Caught: \u{1b}[96m000000004b817efb\u{1b}[39m"
    );
    assert_eq!(
        get_crashes_signals(Some("Name: x\n")),
        "Blocked: \u{1b}[93mN/A\u{1b}[39m, Ignored: \u{1b}[92mN/A\u{1b}[39m, Caught: \u{1b}[96mN/A\u{1b}[39m"
    );
    assert_eq!(get_crashes_signals(None), "N/A");
}

fn strings(v: &[&str]) -> Vec<String> {
    v.iter().map(|s| s.to_string()).collect()
}

#[test]
fn open_files_are_absolute_and_unique() {
    let targets = strings(&[
        "/dev/null",
        "socket:[1234]",
        "/home/u/a.txt",
        "pipe:[99]",
        "/dev/null",
        "anon_inode:[eventfd]",
    ]);
    assert_eq!(get_open_files_list(&targets), strings(&["/dev/null", "/home/u/a.txt"]));
    assert!(get_open_files_list(&Vec::new()).is_empty());
}

#[test]
fn sockets_are_counted() {
    let targets = strings(&["socket:[1]", "/dev/TCP-thing", "UDP", "/dev/null", "pipe:[3]"]);
    assert_eq!(get_network_sockets(&targets), 3);
}

#[test]
fn children_in_table_order() {
    let procs = vec![
        ProcessInfo { pid: 10, parent: Some(1), name: "a".to_string() },
        ProcessInfo { pid: 11, parent: Some(10), name: "b".to_string() },
        ProcessInfo { pid: 12, parent: None, name: "c".to_string() },
        ProcessInfo { pid: 13, parent: Some(10), name: "d".to_string() },
    ];
    assert_eq!(
        get_child_processes(10, &procs),
        vec![(11, "b".to_string()), (13, "d".to_string())]
    );
    assert!(get_child_processes(99, &procs).is_empty());
}

#[test]
fn thread_names_and_ids() {
    assert_eq!(thread_comm(Some("worker-1\n")), "worker-1");
    assert_eq!(thread_comm(None), "unknown");
    assert_eq!(parse_tid("4242"), Some(4242));
    assert_eq!(parse_tid("self"), None);
    assert_eq!(parse_tid("4294967296"), None);
}

#[test]
fn sampling_steps_and_growth() {
    assert_eq!(sample_steps(0), 1);
    assert_eq!(sample_steps(3), 6);
    assert_eq!(counter_growth(10, 4), 6);
    assert_eq!(counter_growth(4, 10), 0);
}
