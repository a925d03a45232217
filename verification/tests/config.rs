use oled_desktop_pet::app::config_reload::{config_mtime, is_night, reload_decision};
use oled_desktop_pet::config::settings::{
    clamp_i32, get_str, get_str_list, get_u32, get_u64, get_u8, get_usize, get_value, hot_update,
    load, parse_i2c_addr, path_settings, reload_settings, runtime_settings,
    ConfigEntry, ConfigScalar, ConfigTable, IntSettings,
};

fn table() -> ConfigTable {
    ConfigTable {
        entries: vec![
            ("title".to_string(), ConfigEntry::Value(ConfigScalar::Str("pet".to_string()))),
            (
                "display".to_string(),
                ConfigEntry::Section(vec![
                    ("i2c_bus".to_string(), ConfigScalar::Int(256)),
                    ("night_begin".to_string(), ConfigScalar::Int(22)),
                    ("night_end".to_string(), ConfigScalar::Int(-1)),
                    ("i2c_addr".to_string(), ConfigScalar::Str("0x3D".to_string())),
                    ("blink".to_string(), ConfigScalar::Other),
                ]),
            ),
            (
                "net".to_string(),
                ConfigEntry::Section(vec![(
                    "iface_priority".to_string(),
                    ConfigScalar::List(vec![Some("wlan0".to_string()), None, Some("eth0".to_string())]),
                )]),
            ),
        ],
    }
}

#[test]
fn typed_reads_with_defaults() {
    let t = table();
    assert_eq!(get_u8(&t, "display.i2c_bus", 1), 1);
    assert_eq!(get_u8(&t, "display.night_begin", 23), 22);
    assert_eq!(get_u8(&t, "display.night_end", 7), 7);
    assert_eq!(get_u8(&t, "display.missing", 40), 40);
    assert_eq!(get_u32(&t, "display.i2c_bus", 1), 256);
    assert_eq!(get_u64(&t, "display.night_end", 5), 5);
    assert_eq!(get_usize(&t, "display.night_begin", 0), 22);
    assert_eq!(get_u8(&t, "display.blink", 6), 6);
    assert_eq!(get_u8(&t, "display", 9), 9);
    assert_eq!(get_str(&t, "title", "x"), "pet");
    assert_eq!(get_str(&t, "display.i2c_addr", "0x3C"), "0x3D");
    assert_eq!(get_str(&t, "nosuch.key", "dflt"), "dflt");
    assert!(get_value(&t, "title.x").is_none());
}

#[test]
fn string_lists() {
    let t = table();
    assert_eq!(get_str_list(&t, "net.iface_priority", &["eth0"]), vec!["wlan0".to_string(), "eth0".to_string()]);
    assert_eq!(get_str_list(&t, "net.other", &["eth0", "end0"]), vec!["eth0".to_string(), "end0".to_string()]);
}

#[test]
fn address_and_clamp() {
    assert_eq!(parse_i2c_addr("0x3C"), Some(0x3C));
    assert_eq!(parse_i2c_addr("0x0x3d"), Some(0x3D));
    assert_eq!(parse_i2c_addr("3C"), Some(0x3C));
    assert_eq!(parse_i2c_addr("0x"), None);
    assert_eq!(parse_i2c_addr("0x100"), None);
    assert_eq!(clamp_i32(250), 250);
    assert_eq!(clamp_i32(u64::MAX), i32::MAX);
}

#[test]
fn mtime_baseline() {
    assert_eq!(config_mtime(&[None, Some(1700000000)]), 1700000000);
    assert_eq!(config_mtime(&[Some(5), Some(9)]), 5);
    assert_eq!(config_mtime(&[None, None]), 0);
}

#[test]
fn night_period() {
    assert!(is_night(Some(23), 23, 7));
    assert!(is_night(Some(3), 23, 7));
    assert!(!is_night(Some(7), 23, 7));
    assert!(!is_night(Some(12), 23, 7));
    assert!(is_night(Some(9), 8, 17));
    assert!(!is_night(Some(17), 8, 17));
    assert!(!is_night(Some(5), 5, 5));
    assert!(!is_night(None, 23, 7));
}

fn defaults() -> IntSettings {
    IntSettings {
        i2c_bus: 1,
        i2c_addr: 0x3C,
        night_begin: 23,
        night_end: 7,
        night_contrast: 40,
        blink_interval: 6,
        poll_interval_ms: 250,
        boot_frame_ms: 250,
        done_frame_ms: 400,
        shutdown_frame_ms: 200,
        malloc_trim_secs: 5,
        notify_duration_secs: 2,
        ssh_poll_secs: 5,
        ssh_renotify_secs: 300,
        ip_poll_secs: 2,
    }
}

#[test]
fn missing_or_broken_file_gives_defaults() {
    assert_eq!(runtime_settings(&load(None)), defaults());
    assert_eq!(runtime_settings(&load(Some("[display\ni2c_bus = "))), defaults());
    assert_eq!(runtime_settings(&ConfigTable::empty()), defaults());
    let p = path_settings(&load(None));
    assert_eq!(p.thermal_path, "/sys/class/thermal/thermal_zone0/temp");
    assert_eq!(p.font_config_path, "configs/font.txt");
    assert_eq!(p.net_iface_priority, vec!["eth0".to_string(), "end0".to_string(), "wlan0".to_string()]);
}

#[test]
fn settings_file_is_parsed() {
    assert!(load(Some("x = [")).entries.is_empty());
    let text = "[display]\ni2c_bus = 3\ni2c_addr = \"0x3D\"\nnight_begin = 300\n\n[poll]\ninterval_ms = 5000000000\n\n[boot]\ndone_ms = 100\n\n[net]\niface_priority = [\"wlan0\", 1]\n\n[path]\nfont_config = \"f.txt\"\n";
    let cfg = load(Some(text));
    assert_eq!(cfg.entries.len(), 5);
    assert_eq!(get_u8(&cfg, "display.i2c_bus", 1), 3);
    let r = runtime_settings(&cfg);
    assert_eq!(
        r,
        IntSettings { i2c_bus: 3, i2c_addr: 0x3D, poll_interval_ms: i32::MAX, done_frame_ms: 100, ..defaults() }
    );
    let p = path_settings(&cfg);
    assert_eq!(p.font_config_path, "f.txt");
    assert_eq!(p.net_iface_priority, vec!["wlan0".to_string()]);
    let bad_addr = load(Some("[display]\ni2c_addr = \"zz\"\n"));
    assert_eq!(runtime_settings(&bad_addr).i2c_addr, 0x3C);
}

#[test]
fn hot_reload_changes_only_hot_settings() {
    let cur = IntSettings { i2c_bus: 4, blink_interval: 9, night_begin: 1, malloc_trim_secs: 77, ..defaults() };
    let cfg = load(Some(
        "[display]\ni2c_bus = 2\nnight_begin = 21\nnight_end = 6\nnight_contrast = 10\nblink_interval = 3\n[poll]\nmalloc_trim_secs = 60\n",
    ));
    let r = hot_update(cur, &cfg);
    assert_eq!(r, IntSettings { night_begin: 21, night_end: 6, night_contrast: 10, malloc_trim_secs: 60, ..cur });
    assert_eq!(hot_update(cur, &ConfigTable::empty()), IntSettings { night_begin: 23, night_end: 7, night_contrast: 40, malloc_trim_secs: 5, ..cur });
    assert_eq!(reload_settings(cur, "[display]\nnight_end = 8\n").unwrap().night_end, 8);
    assert_eq!(reload_settings(cur, "[display]\nnight_end = 8\n").unwrap().i2c_bus, 4);
    assert_eq!(reload_settings(cur, "[display"), None);
}

#[test]
fn reload_only_on_a_new_mtime() {
    assert_eq!(reload_decision(0, Some(1700000000)), Some(1700000000));
    assert_eq!(reload_decision(1700000000, Some(1700000000)), None);
    assert_eq!(reload_decision(5, None), None);
    assert_eq!(reload_decision(5, Some(4)), Some(4));
}
