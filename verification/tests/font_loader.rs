use oled_desktop_pet::renderer::font::FALLBACK_FONT_DATA;
use oled_desktop_pet::resource::font_loader::{default_font_data, parse_font_file, parse_font_line};
use oled_desktop_pet::utils::AppError;

#[test]
fn parse_valid_font_line() {
    let content = "65 7E 11 11 11 7E\n";
    let data = parse_font_file(content).unwrap();
    let idx_a = (65 - 32) * 5;
    assert_eq!(&data[idx_a..idx_a + 5], &[0x7E, 0x11, 0x11, 0x11, 0x7E]);
}

#[test]
fn parse_missing_chars_filled_with_default() {
    let content = "# empty file, no characters defined\n";
    let data = parse_font_file(content).unwrap();
    assert_eq!(&data[0..5], &[0, 0, 0, 0, 0]);
}

#[test]
fn default_font_space_is_blank() {
    let data = default_font_data();
    assert_eq!(&data[0..5], &[0, 0, 0, 0, 0]);
    assert_eq!(data, FALLBACK_FONT_DATA);
}

#[test]
fn hex_prefix_and_later_lines_win() {
    let content = "  33 0x01 0x02 03 04 05  \r\n\n33 0A 0B 0C 0D 0E\n";
    let data = parse_font_file(content).unwrap();
    let i = (33 - 32) * 5;
    assert_eq!(&data[i..i + 5], &[0x0A, 0x0B, 0x0C, 0x0D, 0x0E]);
    let j = (34 - 32) * 5;
    assert_eq!(&data[j..j + 5], &FALLBACK_FONT_DATA[j..j + 5]);
}

#[test]
fn short_line_is_config_error() {
    assert!(matches!(parse_font_file("65 7E 11 11 11\n"), Err(AppError::Config(_))));
}

#[test]
fn code_out_of_range_is_config_error() {
    assert!(matches!(parse_font_file("127 00 00 00 00 00"), Err(AppError::Config(_))));
    assert!(matches!(parse_font_file("31 00 00 00 00 00"), Err(AppError::Config(_))));
    assert!(matches!(parse_font_file("x 00 00 00 00 00"), Err(AppError::Config(_))));
}

#[test]
fn bad_hex_is_config_error() {
    assert!(matches!(parse_font_file("65 7E 11 1G 11 7E"), Err(AppError::Config(_))));
    assert!(matches!(parse_font_file("65 7E 11 100 11 7E"), Err(AppError::Config(_))));
    assert!(matches!(parse_font_file("65 7E 11 0x 11 7E"), Err(AppError::Config(_))));
}

#[test]
fn error_names_the_line() {
    match parse_font_file("# ok\n65 7E 11\n") {
        Err(AppError::Config(m)) => assert!(m.contains(" 2 ")),
        _ => panic!("expected a configuration error"),
    }
}

#[test]
fn single_lines() {
    let blank: Vec<char> = "   ".chars().collect();
    assert!(matches!(parse_font_line(&blank, 1), Ok(None)));
    let comment: Vec<char> = "# x".chars().collect();
    assert!(matches!(parse_font_line(&comment, 1), Ok(None)));
    let glyph: Vec<char> = "+66 1 2 3 4 +5 extra".chars().collect();
    assert!(matches!(parse_font_line(&glyph, 1), Ok(Some((66, [1, 2, 3, 4, 5])))));
}
