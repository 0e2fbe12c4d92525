use statix_agent::metrics::{
    host_numbers, parse_meminfo, parse_positive_number, read_cgroup_memory_v2, read_disk_usage,
    read_meminfo_value_bytes, read_memory_usage, read_network_usage, read_proc_meminfo, read_u64,
    system_memory, DiskSpace, InterfaceFiles, MemorySnapshot,
};

fn interface(name: &str, state: Option<&str>, rx: Option<&str>, tx: Option<&str>) -> InterfaceFiles {
    InterfaceFiles {
        name: name.to_string(),
        operstate: state.map(|s| s.to_string()),
        rx_bytes: rx.map(|s| s.to_string()),
        tx_bytes: tx.map(|s| s.to_string()),
    }
}

#[test]
fn numbers_are_read() {
    assert_eq!(parse_positive_number(" 42\n"), Some(42));
    assert_eq!(parse_positive_number("18446744073709551615"), Some(u64::MAX));
    assert_eq!(parse_positive_number("18446744073709551616"), None);
    assert_eq!(parse_positive_number("-1"), None);
    assert_eq!(parse_positive_number("+7"), Some(7));
    assert_eq!(parse_positive_number(""), None);
    assert_eq!(read_u64(Some("12\n")), 12);
    assert_eq!(read_u64(Some("x")), 0);
    assert_eq!(read_u64(None), 0);
}

#[test]
fn control_group_shows_its_memory() {
    let stat = "anon 5\nfile x\nfile 700\nfile 800\n";
    assert_eq!(
        read_cgroup_memory_v2(Some("1000\n"), Some("600\n"), Some(stat)),
        Some(MemorySnapshot { total: 1000, used: 600, cached: Some(600), available: Some(400) })
    );
    assert_eq!(
        read_cgroup_memory_v2(Some("1000"), Some("1600"), Some("")),
        Some(MemorySnapshot { total: 1000, used: 1000, cached: None, available: Some(0) })
    );
    assert_eq!(read_cgroup_memory_v2(Some("max\n"), Some("1"), Some("")), None);
    assert_eq!(read_cgroup_memory_v2(Some("0"), Some("1"), Some("")), None);
    assert_eq!(read_cgroup_memory_v2(Some("10"), Some("x"), Some("")), None);
    assert_eq!(read_cgroup_memory_v2(Some("10"), Some("1"), None), None);
}

#[test]
fn memory_information_is_read() {
    let content = "MemTotal:  100 kB\nMemAvailable: 40 kB\nBuffers: 5 kB\nCached: 20 kB\nSReclaimable: 3 kB\nShmem: 8 kB\nbad line\nNoNumber: x\n";
    let values = parse_meminfo(content);
    assert_eq!(values.len(), 6);
    assert_eq!(read_meminfo_value_bytes(&values, "MemTotal"), Some(102_400));
    assert_eq!(read_meminfo_value_bytes(&values, "Nothing"), None);
    assert_eq!(
        read_proc_meminfo(Some(content)),
        Some(MemorySnapshot {
            total: 102_400,
            used: 61_440,
            cached: Some(20_480),
            available: Some(40_960),
        })
    );
    assert_eq!(read_proc_meminfo(Some("MemTotal: 1 kB")), None);
    assert_eq!(read_proc_meminfo(None), None);
}

#[test]
fn the_last_entry_with_a_key_counts() {
    let values = parse_meminfo("A: 1\nA: 2\n");
    assert_eq!(read_meminfo_value_bytes(&values, "A"), Some(2_048));
    let huge = parse_meminfo("A: 18446744073709551615\n");
    assert_eq!(read_meminfo_value_bytes(&huge, "A"), Some(u64::MAX));
}

#[test]
fn memory_comes_from_the_first_that_says() {
    let a = MemorySnapshot { total: 1, used: 1, cached: None, available: None };
    let b = MemorySnapshot { total: 2, used: 1, cached: None, available: None };
    assert_eq!(read_memory_usage(Some(a), Some(b)), Some(a));
    assert_eq!(read_memory_usage(None, Some(b)), Some(b));
    assert_eq!(read_memory_usage(None, None), None);
    assert_eq!(
        system_memory(0, 5),
        MemorySnapshot { total: 1, used: 0, cached: None, available: Some(1) }
    );
    assert_eq!(
        system_memory(10, 4),
        MemorySnapshot { total: 10, used: 6, cached: None, available: Some(4) }
    );
}

#[test]
fn snapshots_go_together() {
    let s = read_proc_meminfo(Some("MemTotal: 10 kB\nMemAvailable: 40 kB\nCached: 9 kB")).unwrap();
    assert!(s.used <= s.total);
    assert!(s.cached.unwrap() <= s.used);
    assert_eq!(s.available.unwrap() + s.used, s.total);
}

#[test]
fn the_root_disk_counts() {
    let d = |is_root: bool, total: u64, available: u64| DiskSpace { is_root, total, available };
    assert_eq!(read_disk_usage(&vec![]), (0, 1));
    assert_eq!(read_disk_usage(&vec![d(false, 10, 4), d(true, 20, 5), d(true, 30, 1)]), (15, 20));
    assert_eq!(read_disk_usage(&vec![d(false, 10, 4), d(false, 20, 5)]), (6, 10));
    assert_eq!(read_disk_usage(&vec![d(true, 0, 9)]), (0, 1));
}

#[test]
fn traffic_is_added_up() {
    let files = vec![
        interface("lo", Some("unknown"), Some("1000"), Some("1000")),
        interface("eth0", Some("up\n"), Some("10\n"), Some("20")),
        interface("eth1", Some(" down\n"), Some("100"), Some("200")),
        interface("wlan0", None, None, Some("3")),
        interface("big", None, Some("18446744073709551615"), None),
    ];
    assert_eq!(read_network_usage(&files), (u64::MAX, 23));
    assert_eq!(read_network_usage(&vec![]), (0, 0));
}

#[test]
fn numbers_are_put_together() {
    let m = MemorySnapshot { total: 0, used: 0, cached: Some(1), available: None };
    let n = host_numbers(m, (2, 3), (4, 5));
    assert_eq!((n.v, n.mem_total, n.mem_used, n.mem_cached), (1, 1, 0, Some(1)));
    assert_eq!((n.disk_used, n.disk_total, n.net_rx, n.net_tx), (2, 3, 4, 5));
}
