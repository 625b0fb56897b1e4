use liischte::process::{match_indicators, ProcessInfo};

#[test]
fn process_entries_decode() {
    let info = ProcessInfo::decode("1234", "bash\n", "/bin/bash\0-l\0").unwrap();
    assert_eq!(info.pid, 1234);
    assert_eq!(info.name, "bash");
    assert_eq!(info.cmdline, "/bin/bash -l");
}

#[test]
fn non_numeric_entries_are_skipped() {
    assert!(ProcessInfo::decode("self", "x", "y").is_none());
    assert!(ProcessInfo::decode("", "x", "y").is_none());
}

fn proc_info(pid: u64, cmdline: &str) -> ProcessInfo {
    ProcessInfo { pid, name: "p".to_string(), cmdline: cmdline.to_string() }
}

#[test]
fn indicators_pin_the_first_matching_process() {
    let procs = vec![
        proc_info(10, "/usr/bin/editor --flag"),
        proc_info(11, "/usr/bin/recorder"),
        proc_info(12, "/usr/bin/recorder --second"),
    ];
    let indicators = vec![
        ("/usr/bin/recorder".to_string(), "circle".to_string()),
        ("/usr/bin/editor".to_string(), "pen".to_string()),
        ("/usr/bin/absent".to_string(), "ghost".to_string()),
    ];
    let matched = match_indicators(&indicators, &procs);
    assert_eq!(matched, vec![(11, "circle".to_string()), (10, "pen".to_string())]);
}
