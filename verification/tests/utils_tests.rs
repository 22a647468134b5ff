use jambot::utils::{bold, format_duration, hyperlink, u64_to_string};

#[test]
fn bold_wraps_in_markers() {
    assert_eq!(bold("hi".to_string()), "**hi**");
    assert_eq!(bold(String::new()), "****");
}

#[test]
fn hyperlink_renders_markup() {
    assert_eq!(
        hyperlink("title".to_string(), "https://example.net".to_string()),
        "[title](https://example.net)"
    );
}

#[test]
fn duration_two_minutes_five_seconds() {
    assert_eq!(format_duration(125), "02:05");
}

#[test]
fn duration_zero() {
    assert_eq!(format_duration(0), "00:00");
}

#[test]
fn duration_minutes_keep_growing() {
    assert_eq!(format_duration(3605), "60:05");
    assert_eq!(format_duration(7325), "122:05");
    assert_eq!(format_duration(59), "00:59");
    assert_eq!(format_duration(60), "01:00");
}

#[test]
fn decimal_rendering() {
    assert_eq!(u64_to_string(0), "0");
    assert_eq!(u64_to_string(7), "7");
    assert_eq!(u64_to_string(42), "42");
    assert_eq!(u64_to_string(1234567890), "1234567890");
}
