use kurumi_deploy::procfs::{
    cpu_busy, cpu_counters, disk_row, linux_readings, meminfo, meminfo_entry, net_entry, process_row, CpuCounters,
};
use kurumi_deploy::text::{parse_u64, split_words};

const SAMPLE: &str = r#"
===UPTIME===
7344000.50 1234567.89
===LOADAVG===
12.03 11.30 11.03 5/1234 45678
===STAT===
cpu  2255 34 2290 22625563 6290 127 456 0 0 0
===MEMINFO===
MemTotal:       131287040 kB
MemFree:         33554432 kB
MemAvailable:    28311552 kB
Buffers:          1048576 kB
Cached:          16777216 kB
SwapTotal:       16777216 kB
SwapFree:         8388608 kB
===NET===
  eth0: 1000000000 1000 0 0 0 0 0 0 2000000000 2000 0 0 0 0 0 0
===DF===
/dev/sda1 106430464000 63102976000 43327488000 60% /
/dev/sdb1 209715200000 16777216000 192937984000 8% /home
===PS===
 1001 107.9 7969177 java
 1002 90.5 2936012 java
 1003 89.8 569753 MediaServer
===END===
"#;

#[test]
fn numbers_parse_as_u64_from_str() {
    assert_eq!(parse_u64("42"), Some(42));
    assert_eq!(parse_u64("+7"), Some(7));
    assert_eq!(parse_u64("007"), Some(7));
    assert_eq!(parse_u64("18446744073709551615"), Some(u64::MAX));
    assert_eq!(parse_u64("18446744073709551616"), None);
    assert_eq!(parse_u64("99999999999999999999x"), None);
    assert_eq!(parse_u64("-1"), None);
    assert_eq!(parse_u64("+"), None);
    assert_eq!(parse_u64(""), None);
    assert_eq!(parse_u64("1.5"), None);
    assert_eq!(parse_u64(" 1"), None);
}

#[test]
fn words_split_on_whitespace() {
    let words: Vec<String> = split_words("  a\tbc \u{3000}d  ").into_iter().map(|w| w.into_iter().collect()).collect();
    assert_eq!(words, vec!["a", "bc", "d"]);
    assert!(split_words("   ").is_empty());
}

#[test]
fn linux_sample_readings() {
    let r = linux_readings(SAMPLE);
    let cpu = r.cpu.unwrap();
    assert_eq!(cpu.total, 22637015);
    assert_eq!(cpu.idle, 22631853);
    assert_eq!(r.memory.total, 131287040 * 1024);
    assert_eq!(r.memory.available, 28311552 * 1024);
    assert_eq!(r.memory.swap_total, 16777216 * 1024);
    assert_eq!(r.memory.swap_free, 8388608 * 1024);
    assert_eq!(r.networks.len(), 1);
    assert_eq!(r.networks[0].name, "eth0");
    assert_eq!(r.networks[0].rx_bytes, 1000000000);
    assert_eq!(r.networks[0].tx_bytes, 2000000000);
    assert_eq!(r.disks.len(), 2);
    assert_eq!(r.disks[1].mount_point, "/home");
    assert_eq!(r.disks[1].used, 16777216000);
    assert_eq!(r.processes.len(), 3);
    assert_eq!(r.processes[0].name, "java");
    assert_eq!(r.processes[0].pid, 1001);
    assert_eq!(r.processes[0].cpu_text, "107.9");
    assert_eq!(r.processes[0].memory_bytes, 7969177 * 1024);
}

#[test]
fn cpu_lines_and_deltas() {
    assert!(cpu_counters("cpu 1 2 3").is_none());
    let c = cpu_counters("cpu 1 2 3 4").unwrap();
    assert_eq!((c.total, c.idle), (10, 4));
    assert!(cpu_counters("cpu 18446744073709551615 1 0 0").is_none());
    let prev = CpuCounters { total: 100, idle: 50 };
    let now = CpuCounters { total: 200, idle: 120 };
    assert_eq!(cpu_busy(&prev, &now), Some((30, 100)));
    assert_eq!(cpu_busy(&CpuCounters { total: 0, idle: 0 }, &now), None);
    assert_eq!(cpu_busy(&now, &prev), None);
    let idle_back = CpuCounters { total: 300, idle: 10 };
    assert_eq!(cpu_busy(&now, &idle_back), Some((100, 100)));
}

#[test]
fn memory_lines() {
    assert_eq!(meminfo_entry("MemFree:  12 kB"), Some(("MemFree".to_string(), 12 * 1024)));
    assert_eq!(meminfo_entry("Odd: x kB"), Some(("Odd".to_string(), 0)));
    assert_eq!(meminfo_entry("a:b:c"), None);
    assert_eq!(meminfo_entry("Huge: 18014398509481984 kB"), None);
    let lines = vec!["MemTotal: 1 kB".to_string(), "MemTotal: 2 kB".to_string(), "noise".to_string()];
    assert_eq!(meminfo(&lines).total, 2048);
    assert_eq!(meminfo(&lines).free, 0);
}

#[test]
fn interface_disk_and_process_lines() {
    assert!(net_entry("    lo: 1 2 3 4 5 6 7 8 9").is_none());
    assert!(net_entry("eth1: 1 2 3").is_none());
    let n = net_entry(" eth1: 5 0 0 0 0 0 0 0 7").unwrap();
    assert_eq!((n.name.as_str(), n.rx_bytes, n.tx_bytes), ("eth1", 5, 7));
    assert!(disk_row("tmpfs 0 0 0 0% /run").is_none());
    assert!(disk_row("/dev/loop1 100 100 0 100% /snap/core").is_none());
    assert!(disk_row("fw 100 1 99 1% /sys/firmware/efi").is_none());
    assert!(disk_row("too few 1").is_none());
    let d = disk_row("/dev/x 100 40 60 40% /data").unwrap();
    assert_eq!((d.total, d.used, d.free), (100, 40, 60));
    let p = process_row(" 99999999999 1.0 2 a b c").unwrap();
    assert_eq!(p.pid, 0);
    assert_eq!(p.name, "a b c");
    assert_eq!(p.memory_bytes, 2048);
    assert!(process_row("1 2 3").is_none());
}
