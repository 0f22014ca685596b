use daly_bms::energy::monitoring::{cpu_times, memory_mb, net_dev_bytes, parse_kb, swap_mb};

const MEMINFO: &str = "MemTotal:        8245432 kB\nMemFree:          512000 kB\nMemAvailable:    4122716 kB\nBuffers:           1024 kB\nSwapTotal:       2097148 kB\nSwapFree:        1048574 kB\n";

#[test]
fn meminfo_lines() {
    assert_eq!(parse_kb("MemTotal:        8245432 kB"), 8245432);
    assert_eq!(parse_kb("MemTotal:"), 0);
    assert_eq!(parse_kb("MemTotal: x kB"), 0);
    assert_eq!(memory_mb(MEMINFO), (8052, 4026, 4026));
    assert_eq!(swap_mb(MEMINFO), (2047, 1023));
    assert_eq!(memory_mb(""), (0, 0, 0));
    // Available above total (never in practice): used saturates at 0.
    assert_eq!(memory_mb("MemTotal: 1024 kB\nMemAvailable: 4096 kB"), (1, 0, 4));
}

#[test]
fn net_dev_counters_skip_loopback() {
    let dev = "Inter-|   Receive                                                |  Transmit\n face |bytes    packets errs drop fifo frame compressed multicast|bytes    packets errs drop fifo colls carrier compressed\n    lo: 1000 10 0 0 0 0 0 0 1000 10 0 0 0 0 0 0\n  eth0: 5000 50 0 0 0 0 0 0 7000 70 0 0 0 0 0 0\n wlan0: 300 3 0 0 0 0 0 0 400 4 0 0 0 0 0 0\n";
    assert_eq!(net_dev_bytes(dev), (5300, 7400));
    assert_eq!(net_dev_bytes("eth1: 12"), (12, 0));
    assert_eq!(net_dev_bytes(""), (0, 0));
}

#[test]
fn cpu_stat_totals() {
    let stat = "cpu  100 5 50 800 20 3 2 0 0 0\ncpu0 50 2 25 400 10 1 1 0 0 0\n";
    assert_eq!(cpu_times(stat), Some((980, 820)));
    assert_eq!(cpu_times("cpu 1 2 3"), None);
    assert_eq!(cpu_times("cpu 1 2 3 x 5 6 7"), None);
    assert_eq!(cpu_times(""), None);
}
