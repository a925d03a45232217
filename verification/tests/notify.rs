use oled_desktop_pet::notify::iface::{is_up, read_iface_states, IfaceMonitor};
use oled_desktop_pet::notify::ip::{first_active_ipv4, list_iface_names, IfAddr, IpMonitor};
use oled_desktop_pet::notify::ssh::{extract_between, SshMonitor};
use oled_desktop_pet::notify::system::{AlertLatch, AlertReading, SystemAlerts};
use oled_desktop_pet::notify::typec::{list_typec_ports, TypeCMonitor};
use oled_desktop_pet::notify::usb::{list_usb_devices, UsbMonitor};
use oled_desktop_pet::notify::{EventSource, Notification, Notifier, NotifyKind};

const SEC: u64 = 1_000_000_000;

fn strings(v: &[&str]) -> Vec<String> {
    v.iter().map(|s| s.to_string()).collect()
}

fn note(msg: &str) -> Notification {
    Notification::new(NotifyKind::Custom, msg.to_string())
}

#[test]
fn notification_lasts_its_duration() {
    let mut n = Notifier::new(2);
    assert_eq!(n.current(0), None);
    n.push(note("hello"), 10 * SEC);
    assert_eq!(n.current(10 * SEC), Some("hello"));
    assert_eq!(n.current(11 * SEC + SEC / 2), Some("hello"));
    assert_eq!(n.message(), Some("hello"));
    assert_eq!(n.current(12 * SEC), None);
    assert_eq!(n.message(), None);
    assert_eq!(n.current(13 * SEC), None);
}

#[test]
fn newer_notification_overwrites() {
    let mut n = Notifier::new(2);
    n.push(note("first"), 0);
    n.push(note("second"), SEC);
    assert_eq!(n.current(2 * SEC + SEC / 2), Some("second"));
}

#[test]
fn clock_going_back_keeps_message() {
    let mut n = Notifier::new(2);
    n.push(note("x"), 5 * SEC);
    assert_eq!(n.current(SEC), Some("x"));
}

#[test]
fn iface_changes_are_grouped() {
    let mut n = Notifier::new(5);
    let mut m = IfaceMonitor::new(vec![("eth0".to_string(), true), ("wlan0".to_string(), false)]);
    m.poll(vec![("eth0".to_string(), true), ("wlan0".to_string(), true)], &mut n, 0);
    assert_eq!(n.current(0), Some("wlan0 up"));
    m.poll(vec![("wlan0".to_string(), false)], &mut n, SEC);
    assert_eq!(n.current(SEC), Some("wlan0 eth0 down"));
    m.poll(vec![("usb0".to_string(), true), ("end0".to_string(), true)], &mut n, 2 * SEC);
    assert_eq!(n.current(2 * SEC), Some("wlan0 down"));
}

#[test]
fn iface_up_then_down_in_one_poll() {
    let mut n = Notifier::new(5);
    let mut m = IfaceMonitor::new(vec![("eth0".to_string(), true)]);
    m.poll(vec![("eth0".to_string(), false), ("wlan0".to_string(), true)], &mut n, 0);
    assert_eq!(n.current(0), Some("eth0 down"));
    let mut quiet = Notifier::new(5);
    m.poll(vec![("eth0".to_string(), false), ("wlan0".to_string(), true)], &mut quiet, 0);
    assert_eq!(quiet.current(0), None);
}

#[test]
fn iface_state_files() {
    assert!(is_up(Some("up\n")));
    assert!(!is_up(Some("down\n")));
    assert!(!is_up(None));
    let entries = vec![
        ("lo".to_string(), Some("unknown\n".to_string())),
        ("eth0".to_string(), Some(" up ".to_string())),
        ("wlan0".to_string(), None),
    ];
    assert_eq!(read_iface_states(&entries), vec![("eth0".to_string(), true), ("wlan0".to_string(), false)]);
}

#[test]
fn typec_ports_come_and_go() {
    assert_eq!(list_typec_ports(&strings(&["port0", "port0-partner", "usb_power_delivery"])), strings(&["port0", "port0-partner"]));
    let mut n = Notifier::new(5);
    let mut m = TypeCMonitor::new(Some(strings(&["port0"])));
    m.poll(Some(strings(&["port0", "port1"])), &mut n, 0);
    assert_eq!(n.current(0), Some("TypeC port1 in"));
    m.poll(Some(strings(&["port1"])), &mut n, SEC);
    assert_eq!(n.current(SEC), Some("TypeC port0 out"));
    let mut quiet = Notifier::new(5);
    m.poll(None, &mut quiet, 2 * SEC);
    assert_eq!(quiet.current(2 * SEC), None);
}

#[test]
fn usb_devices_named_by_product() {
    assert_eq!(list_usb_devices(&strings(&["usb1", "1-1", "1-1:1.0", "usb2", "usbx"])), strings(&["1-1", "1-1:1.0", "usbx"]));
    let mut n = Notifier::new(5);
    let mut m = UsbMonitor::new(Some(strings(&["usb1"])), &vec![]);
    let products = vec![("1-1".to_string(), "Keyboard".to_string())];
    m.poll(Some(strings(&["usb1", "1-1", "1-2"])), &products, &mut n, 0);
    assert_eq!(n.current(0), Some("USB Keyboard"));
    let later = vec![("1-1".to_string(), "Keyboard".to_string()), ("1-2".to_string(), "Mouse".to_string())];
    m.poll(Some(strings(&["usb1", "1-1", "1-2"])), &later, &mut n, SEC);
    assert_eq!(n.current(SEC), Some("USB Mouse"));
    m.poll(Some(strings(&["usb1"])), &later, &mut n, 2 * SEC);
    assert_eq!(n.current(2 * SEC), Some("USB Mouse out"));
}

#[test]
fn usb_unnamed_device_leaves_as_device() {
    let mut n = Notifier::new(5);
    let mut m = UsbMonitor::new(Some(strings(&["1-3"])), &vec![]);
    m.poll(Some(strings(&[])), &vec![], &mut n, 0);
    assert_eq!(n.current(0), Some("USB device out"));
}

#[test]
fn ssh_login_announced_once_per_interval() {
    let out = "Jan 01 sshd[1]: pam_unix(sshd:session): session opened for user pi(uid=1000) by (uid=0)\n\
               Jan 01 sshd[2]: pam_unix(sshd:session): session closed for user pi\n";
    let mut n = Notifier::new(5);
    let mut m = SshMonitor::new(5, 300);
    assert!(m.due(0));
    assert!(!m.due(SEC));
    m.process_output(out, &mut n, 0);
    assert_eq!(n.current(0), Some("SSH pi"));
    let mut quiet = Notifier::new(5);
    m.process_output(out, &mut quiet, 100 * SEC);
    assert_eq!(quiet.current(100 * SEC), None);
    m.process_output(out, &mut quiet, 301 * SEC);
    assert_eq!(quiet.current(301 * SEC), Some("SSH pi"));
}

#[test]
fn ssh_user_extraction() {
    assert_eq!(extract_between("for user pi(uid=1000)", "for user ", "("), Some("pi".to_string()));
    assert_eq!(extract_between("for user  bob ", "for user ", "("), Some("bob".to_string()));
    assert_eq!(extract_between("nothing", "for user ", "("), None);
}

#[test]
fn event_sources_poll_through_the_trait() {
    let mut n = Notifier::new(5);
    let mut m = TypeCMonitor::new(Some(vec![]));
    EventSource::poll(&mut m, Some(strings(&["port2"])), &mut n, 0);
    assert_eq!(n.current(0), Some("TypeC port2 in"));
    let mut s = SshMonitor::new(5, 300);
    EventSource::poll(&mut s, "session opened for user ann(uid=1)".to_string(), &mut n, SEC);
    assert_eq!(n.current(SEC), Some("SSH ann"));
}

#[test]
fn active_address_is_announced_on_change() {
    let addrs = vec![
        IfAddr { name: "lo".to_string(), ipv4: Some([127, 0, 0, 1]), up: true },
        IfAddr { name: "wlan0".to_string(), ipv4: Some([169, 254, 3, 4]), up: true },
        IfAddr { name: "eth1".to_string(), ipv4: Some([10, 0, 0, 9]), up: false },
        IfAddr { name: "eth0".to_string(), ipv4: Some([192, 168, 1, 100]), up: true },
    ];
    assert_eq!(first_active_ipv4(&addrs), Some("eth0 192.168.1.100".to_string()));
    assert_eq!(list_iface_names(&strings(&["lo", "eth0"])), strings(&["eth0"]));
    let mut n = Notifier::new(5);
    let mut m = IpMonitor::new(2, strings(&["eth0"]));
    assert_eq!(m.begin_poll(strings(&["eth0"]), 0), Some(false));
    m.finish_poll(first_active_ipv4(&addrs), false, &mut n, 0);
    assert_eq!(n.current(0), Some("eth0 192.168.1.100"));
    assert_eq!(m.begin_poll(strings(&["eth0"]), SEC), None);
    assert_eq!(m.begin_poll(strings(&["eth0"]), 2 * SEC), Some(false));
    let mut quiet = Notifier::new(5);
    m.finish_poll(first_active_ipv4(&addrs), false, &mut quiet, 2 * SEC);
    assert_eq!(quiet.current(2 * SEC), None);
    assert_eq!(m.begin_poll(strings(&["eth0", "wlan0"]), 2 * SEC + 1), Some(true));
    m.finish_poll(first_active_ipv4(&addrs), true, &mut quiet, 3 * SEC);
    assert_eq!(quiet.current(3 * SEC), Some("eth0 192.168.1.100"));
}

#[test]
fn alert_hysteresis() {
    let mut latch = AlertLatch::new();
    assert!(latch.step(true, false));
    assert!(!latch.step(true, false));
    assert!(!latch.step(false, false));
    assert!(!latch.step(false, true));
    assert!(latch.step(true, false));
}

fn reading(high: bool, safe: bool, msg: &str) -> AlertReading {
    AlertReading { high, safe, message: msg.to_string() }
}

#[test]
fn system_alerts_push_in_order() {
    let mut n = Notifier::new(5);
    let mut a = SystemAlerts::new();
    a.check(reading(true, false, "Hot 85°C"), reading(true, false, "RAM 95%"), reading(false, true, "Disk 10%"), &mut n, 0);
    assert_eq!(n.current(0), Some("RAM 95%"));
    assert!(a.temp.fired && a.mem.fired && !a.disk.fired);
    let mut quiet = Notifier::new(5);
    a.check(reading(true, false, "Hot 86°C"), reading(true, false, "RAM 96%"), reading(false, true, "Disk 10%"), &mut quiet, SEC);
    assert_eq!(quiet.current(SEC), None);
    a.check(reading(false, true, "Hot 70°C"), reading(true, false, "RAM 96%"), reading(true, false, "Disk 92%"), &mut quiet, 2 * SEC);
    assert_eq!(quiet.current(2 * SEC), Some("Disk 92%"));
    assert!(!a.temp.fired);
}
