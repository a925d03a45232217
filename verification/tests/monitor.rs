use oled_desktop_pet::monitor::cpu::{cpu_line_in_range, read_cpu_stats, CpuMonitor};
use oled_desktop_pet::monitor::cpufreq::{read_khz, CpuFreqMonitor};
use oled_desktop_pet::monitor::memory::{read_field, MemoryMonitor};
use oled_desktop_pet::monitor::network::{
    default_route_iface, most_active_up_iface, read_iface_stats, select_best_iface,
    NetworkMonitor,
};
use oled_desktop_pet::monitor::percore::{percore_in_range, PerCoreMonitor};
use oled_desktop_pet::monitor::process::{read_proc_stat, ProcessMonitor};
use oled_desktop_pet::monitor::thermal::{read_millidegrees, ThermalMonitor};
use oled_desktop_pet::utils::AppError;

const STAT_A: &str = "cpu  4705 356 584 3699176 23060 0 277 0 0 0\n\
cpu0 1393 280 142 923580 5763 0 151 0 0 0\n\
cpu1 1142 25 149 925220 5762 0 54 0 0 0\n\
cpu2 1093 30 145 925168 5766 0 37 0 0 0\n\
cpu3 1077 21 148 925208 5769 0 35 0 0 0\n\
intr 1462898 0 0\n";

const STAT_B: &str = "cpu  4805 356 604 3699256 23080 0 277 0 0 0\n\
cpu0 1493 280 162 923600 5773 0 151 0 0 0\n\
cpu1 1142 25 149 925240 5762 0 54 0 0 0\n\
cpu2 1093 30 145 925188 5766 0 37 0 0 0\n\
cpu3 1077 21 148 925228 5769 0 35 0 0 0\n";

const MEMINFO: &str = "MemTotal:        3999748 kB\nMemFree:          217760 kB\nMemAvailable:    2468012 kB\n";

const SELF_STAT: &str = "1234 (oled pet) S 1 1234 1234 0 -1 4194560 1571 0 0 0 35 12 0 0 20 0 3 0 4520 9871360 412 18446744073709551615 1 1 0 0 0 0 0 4096 0 0 0 0 17 2 0 0 0 0 0\n";

fn first_line(s: &str) -> &str {
    s.lines().next().unwrap()
}

fn usage_pct(d_idle: u64, d_total: u64) -> f32 {
    if d_total == 0 {
        0.0
    } else {
        ((1.0 - d_idle as f64 / d_total as f64) * 100.0) as f32
    }
}

#[test]
fn cpu_new_creates_baseline() {
    let line = first_line(STAT_A);
    assert!(cpu_line_in_range(line));
    let m = CpuMonitor::new(line);
    assert!(m.is_ok());
}

#[test]
fn first_poll_in_valid_range() {
    let mut m = CpuMonitor::new(first_line(STAT_A)).unwrap();
    let (d_idle, d_total) = m.poll(first_line(STAT_A)).unwrap();
    let usage = usage_pct(d_idle, d_total);
    assert!(usage >= 0.0 && usage <= 100.0, "首次轮询应在 0-100% 之间，实际为 {}", usage);
    assert_eq!(usage, 0.0);
}

#[test]
fn cpu_ticks_of_a_line() {
    let (idle, total) = read_cpu_stats(first_line(STAT_A)).unwrap();
    assert_eq!(idle, 3699176 + 23060);
    assert_eq!(total, 4705 + 356 + 584 + 3699176 + 23060 + 277);
    let (i2, t2) = read_cpu_stats("cpu 1 2 3 4").unwrap();
    assert_eq!((i2, t2), (4, 10));
    let (i3, t3) = read_cpu_stats("cpu 1 2 3 4 x 5").unwrap();
    assert_eq!((i3, t3), (4, 15));
}

#[test]
fn cpu_poll_reports_deltas() {
    let mut m = CpuMonitor::new(first_line(STAT_A)).unwrap();
    assert_eq!(m.poll(first_line(STAT_A)).unwrap(), (0, 0));
    let (d_idle, d_total) = m.poll(first_line(STAT_B)).unwrap();
    assert_eq!(d_idle, 80 + 20);
    assert_eq!(d_total, 100 + 20 + 80 + 20);
    let back = m.poll(first_line(STAT_A)).unwrap();
    assert_eq!(back, (0, 0));
}

#[test]
fn cpu_first_poll_only_sets_baseline() {
    let mut m = CpuMonitor::new(first_line(STAT_A)).unwrap();
    assert_eq!(m.poll(first_line(STAT_B)).unwrap(), (0, 0));
    let (d_idle, d_total) = m.poll(first_line(STAT_A)).unwrap();
    assert_eq!((d_idle, d_total), (0, 0));
    let (d_idle, d_total) = m.poll(first_line(STAT_B)).unwrap();
    assert_eq!((d_idle, d_total), (100, 220));
    assert!(usage_pct(d_idle, d_total) > 0.0);
}

#[test]
fn cpu_bad_lines_are_parse_errors() {
    assert!(matches!(read_cpu_stats("intr 1 2 3 4"), Err(AppError::Parse(_))));
    assert!(matches!(read_cpu_stats("cpu 1 2 3"), Err(AppError::Parse(_))));
    assert!(matches!(read_cpu_stats("cpu 1 2 x 4"), Err(AppError::Parse(_))));
    assert!(!cpu_line_in_range("cpu 18446744073709551615 1 0 0"));
}

#[test]
fn new_always_succeeds() {
    let m = MemoryMonitor::new(MEMINFO);
    let _ = m.total_kb();
    let empty = MemoryMonitor::new("");
    assert_eq!(empty.total_kb(), 0);
}

#[test]
fn used_and_percent_do_not_panic() {
    let m = MemoryMonitor::new(MEMINFO);
    let _ = m.used_kb(MEMINFO);
    let empty = MemoryMonitor::new("");
    let _ = empty.used_kb("");
}

#[test]
fn memory_figures() {
    let m = MemoryMonitor::new(MEMINFO);
    assert_eq!(m.total_kb(), 3999748);
    assert_eq!(m.used_kb(MEMINFO).unwrap(), 3999748 - 2468012);
    assert!(matches!(m.used_kb("MemTotal: 5 kB\n"), Err(AppError::NotFound(_))));
    assert!(matches!(m.used_kb("MemAvailable: kB\n"), Err(AppError::Parse(_))));
    let small = MemoryMonitor::new("MemTotal: 100 kB\n");
    assert_eq!(small.used_kb("MemAvailable: 250 kB\n").unwrap(), 0);
    assert_eq!(read_field(MEMINFO, "MemFree:").unwrap(), 217760);
}

#[test]
fn percore_ticks_and_deltas() {
    assert!(percore_in_range(STAT_A));
    let mut m = PerCoreMonitor::new(STAT_A);
    let d = m.poll(STAT_B);
    assert_eq!(d[0], (20 + 10, 100 + 20 + 20 + 10));
    assert_eq!(d[1], (20, 20));
    assert_eq!(d[3], (20, 20));
    let again = m.poll(STAT_B);
    assert_eq!(again, [(0, 0); 4]);
}

#[test]
fn process_new_creates_baseline() {
    let stat = read_proc_stat(SELF_STAT);
    assert!(stat.is_ok(), "进程监控器应能正常初始化");
    let m = ProcessMonitor::new(&stat.unwrap(), 4096);
    assert_eq!((m.prev_utime, m.prev_stime), (35, 12));
    assert!(!m.polled);
}

#[test]
fn process_first_poll_reports_no_ticks() {
    let stat = read_proc_stat(SELF_STAT).unwrap();
    let mut m = ProcessMonitor::new(&stat, 4096);
    let later = read_proc_stat(&SELF_STAT.replace(" 35 12 ", " 40 15 ")).unwrap();
    let first = m.poll(&later);
    assert_eq!((first.d_utime, first.d_stime), (0, 0));
    assert!(m.polled);
    let again = read_proc_stat(&SELF_STAT.replace(" 35 12 ", " 41 17 ")).unwrap();
    let second = m.poll(&again);
    assert_eq!((second.d_utime, second.d_stime), (1, 2));
}

#[test]
fn poll_returns_valid_data() {
    let stat = read_proc_stat(SELF_STAT).unwrap();
    let mut m = ProcessMonitor::new(&stat, 4096);
    let snap = m.poll(&stat);
    let cpu_pct = (snap.d_utime + snap.d_stime) as f64;
    assert!(cpu_pct >= 0.0, "CPU% 不应为负");
    assert!(snap.rss_kb > 0, "RSS 应大于 0，实际 {}", snap.rss_kb);
    assert!(snap.threads >= 1, "线程数应 ≥ 1，实际 {}", snap.threads);
    assert_eq!(snap.rss_kb, 412 * 4096 / 1024);
    assert_eq!(snap.vm_kb, 9871360 / 1024);
    assert_eq!(snap.threads, 3);
}

#[test]
fn second_poll_accumulates() {
    let stat = read_proc_stat(SELF_STAT).unwrap();
    let mut m = ProcessMonitor::new(&stat, 4096);
    let _ = m.poll(&stat);
    let _waste: u64 = (0..100_000).sum();
    let later = read_proc_stat(&SELF_STAT.replace(" 35 12 ", " 40 15 ")).unwrap();
    let snap2 = m.poll(&later);
    assert_eq!((snap2.d_utime, snap2.d_stime), (5, 3));
}

#[test]
fn proc_stat_errors() {
    assert!(matches!(read_proc_stat("1234 no paren"), Err(AppError::Parse(_))));
    assert!(matches!(read_proc_stat("1 (x) S 1 2"), Err(AppError::Parse(_))));
}

#[test]
fn thermal_and_frequency() {
    assert_eq!(read_millidegrees("48123\n").unwrap(), 48123);
    assert!(matches!(read_millidegrees("hot"), Err(AppError::Parse(_))));
    let t = ThermalMonitor::new("/sys/class/thermal/thermal_zone0/temp".to_string());
    assert_eq!(t.file_path(), "/sys/class/thermal/thermal_zone0/temp");
    assert_eq!(read_khz(Some("1800000\n")), 1_800_000);
    assert_eq!(read_khz(None), 0);
    assert_eq!(CpuFreqMonitor::new().poll(Some("600000"), Some("2400000")), (600_000, 2_400_000));
}

const ROUTE: &str = "Iface\tDestination\tGateway \tFlags\tRefCnt\tUse\tMetric\tMask\t\tMTU\tWindow\tIRTT\n\
wlan0\t0001A8C0\t00000000\t0001\t0\t0\t600\t00FFFFFF\t0\t0\t0\n\
eth0\t00000000\t0101A8C0\t0003\t0\t0\t100\t00000000\t0\t0\t0\n";

const NET_DEV: &str = "Inter-|   Receive                                                |  Transmit\n \
face |bytes    packets errs drop fifo frame compressed multicast|bytes    packets errs drop fifo colls carrier compressed\n    \
lo: 1000 10 0 0 0 0 0 0 1000 10 0 0 0 0 0 0\n  \
eth0: 5000 50 0 0 0 0 0 0 7000 40 0 0 0 0 0 0\n \
wlan0: 90000 90 0 0 0 0 0 0 1000 9 0 0 0 0 0 0\n";

#[test]
fn default_route_and_busiest() {
    assert_eq!(default_route_iface(ROUTE), Some("eth0".to_string()));
    assert_eq!(default_route_iface("header\n"), None);
    let up = vec!["eth0".to_string(), "wlan0".to_string(), "lo".to_string()];
    assert_eq!(most_active_up_iface(NET_DEV, &up), Some("wlan0".to_string()));
    let only_eth = vec!["eth0".to_string()];
    assert_eq!(most_active_up_iface(NET_DEV, &only_eth), Some("eth0".to_string()));
    assert_eq!(most_active_up_iface(NET_DEV, &vec![]), None);
}

#[test]
fn iface_counters() {
    assert_eq!(read_iface_stats(NET_DEV, "eth0").unwrap(), (5000, 7000));
    assert!(matches!(read_iface_stats(NET_DEV, "usb0"), Err(AppError::NotFound(_))));
    assert!(matches!(read_iface_stats("eth0: 1 2 3\n", "eth0"), Err(AppError::Parse(_))));
}

#[test]
fn best_iface_priorities() {
    let cands = vec![("eth0".to_string(), false), ("wlan0".to_string(), true)];
    assert_eq!(select_best_iface(Some(("end0".to_string(), true)), Some("wlan0".to_string()), &cands).unwrap(), "end0");
    assert_eq!(select_best_iface(Some(("end0".to_string(), false)), Some("eth0".to_string()), &cands).unwrap(), "eth0");
    assert_eq!(select_best_iface(None, None, &cands).unwrap(), "wlan0");
    assert!(matches!(select_best_iface(None, None, &vec![]), Err(AppError::NotFound(_))));
}

#[test]
fn network_monitor_bookkeeping() {
    let mut m = NetworkMonitor::new("eth0".to_string(), 100, 200);
    assert_eq!(m.priority().len(), 3);
    assert_eq!(m.iface_name(), "eth0");
    for _ in 0..9 {
        assert!(!m.begin_poll());
    }
    assert!(m.begin_poll());
    assert_eq!(m.poll_count(), 10);
    assert!(!m.switch_to("eth0".to_string(), 1, 1));
    assert_eq!((m.total_rx(), m.total_tx()), (100, 200));
    assert_eq!(m.record(1124, 150), (1024, 0));
    assert_eq!((m.total_rx(), m.total_tx()), (1124, 150));
    assert!(m.switch_to("wlan0".to_string(), 7, 8));
    assert_eq!(m.iface_name(), "wlan0");
    assert_eq!((m.total_rx(), m.total_tx()), (7, 8));
}
