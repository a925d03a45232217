use oled_desktop_pet::utils::{disk_info, parse_u64_prefix};

#[test]
fn parse_simple() {
    assert_eq!(parse_u64_prefix("48123"), Some(48123));
}

#[test]
fn parse_with_suffix() {
    assert_eq!(parse_u64_prefix("48123 kB"), Some(48123));
}

#[test]
fn parse_empty() {
    assert_eq!(parse_u64_prefix(""), None);
}

#[test]
fn parse_non_numeric() {
    assert_eq!(parse_u64_prefix("abc"), None);
}

#[test]
fn parse_zero() {
    assert_eq!(parse_u64_prefix("0"), Some(0));
}

#[test]
fn parse_trims_and_rejects_overflow() {
    assert_eq!(parse_u64_prefix("  42\n"), Some(42));
    assert_eq!(parse_u64_prefix("18446744073709551615"), Some(u64::MAX));
    assert_eq!(parse_u64_prefix("18446744073709551616"), None);
    assert_eq!(parse_u64_prefix("-1"), None);
}

#[test]
fn disk_figures() {
    assert_eq!(disk_info(Some((1000, 250, 4096))), (750 * 4096, 1000 * 4096));
    assert_eq!(disk_info(Some((10, 20, 4096))), (0, 10 * 4096));
    assert_eq!(disk_info(None), (0, 0));
}
