use oled_desktop_pet::ui::fmt::{
    align, fmt_clock, fmt_cpu_temp_freq, fmt_disk, fmt_mem_compact, fmt_net_th, fmt_ram,
    fmt_self, fmt_uptime,
};

fn chars(s: &str) -> usize {
    s.chars().count()
}

/// The rate text as the application formats it (at most 4 characters).
fn rate_text(kibs: f32) -> String {
    if kibs < 0.05 {
        format!("{:>3}B", (kibs * 1024.0) as u32)
    } else if kibs < 10.0 {
        format!("{:3.1}K", kibs)
    } else if kibs < 1000.0 {
        format!("{:3.0}K", kibs)
    } else if kibs < 10000.0 {
        format!("{:3.1}M", kibs / 1024.0)
    } else if kibs < 1000000.0 {
        format!("{:3.0}M", (kibs / 1024.0).min(999.0))
    } else {
        format!("{:3.0}G", (kibs / 1_048_576.0).min(99.0))
    }
}

/// The CPU share text as the application formats it.
fn cpu_text(pct: f32) -> String {
    if pct >= 100.0 {
        format!("{:3.0}%", pct)
    } else {
        format!("{:4.1}%", pct)
    }
}

/// The memory size as the application formatted it with floating point.
fn mem_compact_reference(kb: u64) -> String {
    if kb >= 100_000_000 {
        format!("{:3.0}G", kb as f64 / 1_048_576.0)
    } else if kb >= 10_000_000 {
        format!("{:3.1}G", kb as f64 / 1_048_576.0)
    } else if kb >= 100_000 {
        format!("{:4.0}M", kb as f64 / 1024.0)
    } else if kb >= 10_000 {
        format!("{:4.1}M", kb as f64 / 1024.0)
    } else {
        format!("{:4}k", kb)
    }
}

#[test]
fn align_pads_to_14() {
    assert_eq!(chars(&align("Me", "1584k  0.0%")), 14);
    assert_eq!(chars(&align("CPU", "48.5°C")), 14);
    assert_eq!(chars(&align("RAM", "1531/3909M")), 14);
}

#[test]
fn self_cases() {
    for rss in [0, 156, 1584, 9999, 10000, 100000, 10_000_000, 999_999_999] {
        for cpu in [0.0, 0.1, 10.0, 99.9, 100.0] {
            let s = fmt_self(rss, &cpu_text(cpu));
            assert!(chars(&s) <= 14, "fmt_self(cpu={cpu},rss={rss}): '{s}' = {} chars", chars(&s));
        }
    }
}

#[test]
fn cpu_temp_cases() {
    for t in [-10.0f32, 0.0, 48.5, 99.9, 125.0] {
        let s = fmt_cpu_temp_freq(&format!("{:.1}", t), None, 0, false);
        assert!(chars(&s) <= 14, "fmt_cpu_temp({t}): '{s}'");
    }
}

#[test]
fn ram_cases() {
    for (u, t) in [(0, 3909), (975, 3909), (3909, 3909), (8192, 8192), (16384, 16384)] {
        let s = fmt_ram(u, t);
        assert!(chars(&s) <= 14, "fmt_ram({u},{t}): '{s}' = {} chars", chars(&s));
    }
}

#[test]
fn net_th_cases() {
    for tx in [0.0, 0.1, 5.0, 99.9, 999.0, 9999.0] {
        for rx in [0.0, 0.1, 5.0, 99.9] {
            for th in [1, 12, 99] {
                let s = fmt_net_th(&rate_text(tx), &rate_text(rx), th);
                assert!(chars(&s) <= 14, "fmt_net_th(tx={tx},rx={rx},th={th}): '{s}' = {} chars", chars(&s));
            }
        }
    }
}

#[test]
fn mem_compact_max_5() {
    for kb in [0, 156, 1584, 9999, 10000, 100000, 999999, 10_000_000, 99_999_999] {
        let s = fmt_mem_compact(kb);
        assert!(chars(&s) <= 5, "fmt_mem_compact({kb}): '{s}'");
    }
}

#[test]
fn mem_compact_matches_float_formatting() {
    for kb in [
        0u64, 7, 156, 1584, 9999, 10000, 10239, 10240, 51251, 99_999, 100000, 512_512, 999999,
        1_048_575, 9_999_999, 10_000_000, 10_485_759, 52_428_800, 99_999_999, 100_000_000,
        1_073_741_824, 9_999_999_999,
    ] {
        assert_eq!(fmt_mem_compact(kb), mem_compact_reference(kb), "kb = {kb}");
    }
}

#[test]
fn ram_and_disk_rows() {
    assert_eq!(fmt_ram(1_567_744, 4_002_816), "RAM 1531/3909M");
    assert_eq!(fmt_ram(975, 3909), "RAM       1/4M");
    assert_eq!(fmt_ram(12_000_000, 16_000_000), "RAM     11/15G");
    assert_eq!(fmt_disk(4_509_715_660, 31_138_512_896), "Disk   4.2/29G");
    assert_eq!(fmt_disk(0, 0), "Disk    0.0/0G");
    assert_eq!(fmt_disk(1_099_511_627_776, 2_199_023_255_552), "Disk    1.0/2T");
}

#[test]
fn ram_row_matches_float_formatting() {
    for (u, t) in [(0u64, 3909u64), (975, 3909), (1_567_744, 4_002_816), (8_388_608, 16_777_216), (12_000_000, 16_000_000), (512, 1536)] {
        let max_kb = u.max(t);
        let (a, b, unit) = if max_kb >= 10_000_000 {
            (u as f64 / 1_048_576.0, t as f64 / 1_048_576.0, "G")
        } else {
            (u as f64 / 1024.0, t as f64 / 1024.0, "M")
        };
        let v = format!("{:4.0}/{:.0}{}", a, b, unit);
        assert_eq!(fmt_ram(u, t), align("RAM", &v));
    }
}

#[test]
fn uptime_forms() {
    assert_eq!(fmt_uptime(0), "0s");
    assert_eq!(fmt_uptime(59), "59s");
    assert_eq!(fmt_uptime(330), "5m30s");
    assert_eq!(fmt_uptime(8100), "2h15m");
    assert_eq!(fmt_uptime(30 * 86400 + 12 * 3600 + 59), "30d12h");
}

#[test]
fn clock_forms() {
    assert_eq!(fmt_clock(Some((14, 30))), "14:30");
    assert_eq!(fmt_clock(Some((7, 5))), "07:05");
    assert_eq!(fmt_clock(None), "--:--");
}

#[test]
fn cpu_row_forms() {
    assert_eq!(fmt_cpu_temp_freq("48", Some("2.4G"), 1, false), "CPU ↑48°C 2.4G");
    assert_eq!(fmt_cpu_temp_freq("81", Some("1G"), -1, true), "CPU  ↓81°C !1G");
    assert_eq!(fmt_cpu_temp_freq("48.5", None, 0, false), "CPU     48.5°C");
}

#[test]
fn self_and_net_rows() {
    assert_eq!(fmt_self(1584, " 0.0%"), "Me1584k   0.0%");
    assert_eq!(fmt_net_th("  0B", "3.2K", 120), "Th99  ↑0B↓3.2K");
}
