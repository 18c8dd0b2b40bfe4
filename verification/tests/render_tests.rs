use fileshare::render::{decimal_string, format_time, ipv4_string, size_string, to_rgb_string,
    url_string, SendColor};

#[test]
fn decimal_rendering() {
    assert_eq!(decimal_string(0), "0");
    assert_eq!(decimal_string(7), "7");
    assert_eq!(decimal_string(1234567890), "1234567890");
}

#[test]
fn sizes_below_a_thousand_are_plain_bytes() {
    assert_eq!(size_string(0), "0 B");
    assert_eq!(size_string(999), "999 B");
}

#[test]
fn sizes_scale_by_binary_units() {
    assert_eq!(size_string(1000), "1.0 KB");
    assert_eq!(size_string(1536), "1.5 KB");
    assert_eq!(size_string(1024 * 1000 - 52), "999.9 KB");
    assert_eq!(size_string(1024 * 1000 - 1), "1000.0 KB");
    assert_eq!(size_string(1024 * 1024), "1.0 MB");
    assert_eq!(size_string(10 * 1024 * 1024), "10.0 MB");
    assert_eq!(size_string(1024 * 1024 * 1024), "1.0 GB");
    assert_eq!(size_string(1024 * 1024 * 1024 * 1024), "1.0 TB");
}

#[test]
fn size_of_largest_value_does_not_overflow() {
    assert_eq!(size_string(usize::MAX), "16777216.0 TB");
}

#[test]
fn durations_zero_padded() {
    assert_eq!(format_time(0), "00s");
    assert_eq!(format_time(59), "59s");
    assert_eq!(format_time(125), "02m 05s");
    assert_eq!(format_time(3661), "01h 01m 01s");
    assert_eq!(format_time(7325), "02h 02m 05s");
    assert_eq!(format_time(360000), "100h 00m 00s");
}

#[test]
fn addresses_and_urls() {
    assert_eq!(ipv4_string(192, 168, 1, 7), "192.168.1.7");
    assert_eq!(url_string(10, 0, 0, 5, 8080), "http://10.0.0.5:8080/index");
}

#[test]
fn rgb_strings() {
    assert_eq!(to_rgb_string(SendColor { r: 1, g: 2, b: 3 }), "rgb(1, 2, 3)");
    assert_eq!(to_rgb_string(SendColor { r: 255, g: 0, b: 128 }), "rgb(255, 0, 128)");
}
