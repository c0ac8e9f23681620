//! Tests of the coordinate parsers and the decimal renderer.

use clipforge::decimal::ms_to_seconds_string;
use clipforge::decimal::u64_to_string;
use clipforge::paths::converted_output_path;
use clipforge::parse::extract_number_after_colon;
use clipforge::parse::extract_number_after_pattern;
use clipforge::parse::parse_bounding_box;
use clipforge::parse::parse_frame_rate;
use clipforge::sprites::BoundingBox;

#[test]
fn single_line_with_colons() {
    let b = parse_bounding_box("x: 100, y: 50, width: 32, height: 48").unwrap();
    assert_eq!(b, BoundingBox { x: 100, y: 50, width: 32, height: 48 });
}

#[test]
fn multi_line_reply() {
    let b = parse_bounding_box("x: 10\ny: 20\nwidth: 30\nheight: 40").unwrap();
    assert_eq!(b, BoundingBox { x: 10, y: 20, width: 30, height: 40 });
}

#[test]
fn equals_separators() {
    let b = parse_bounding_box("x=5 y=6 width=7 height=8").unwrap();
    assert_eq!(b, BoundingBox { x: 5, y: 6, width: 7, height: 8 });
}

#[test]
fn crlf_lines() {
    let b = parse_bounding_box("x: 1\r\ny: 2\r\nwidth: 3\r\nheight: 4").unwrap();
    assert_eq!(b, BoundingBox { x: 1, y: 2, width: 3, height: 4 });
}

#[test]
fn null_reply_means_no_detection() {
    assert_eq!(parse_bounding_box("null"), None);
    assert_eq!(parse_bounding_box("The answer is NULL today"), None);
}

#[test]
fn keys_are_case_insensitive() {
    let b = parse_bounding_box("X: 3, Y: 4, WIDTH: 5, HEIGHT: 6").unwrap();
    assert_eq!(b, BoundingBox { x: 3, y: 4, width: 5, height: 6 });
}

#[test]
fn word_pair_fallback() {
    // "width," carries a trailing comma, so no separator pattern matches
    // it; the word-pair scan supplies the value.
    let b = parse_bounding_box("x 10 y 20 width, 30 height 40").unwrap();
    assert_eq!(b, BoundingBox { x: 10, y: 20, width: 30, height: 40 });
}

#[test]
fn later_lines_override_earlier_ones() {
    let b = parse_bounding_box("x: 1, y: 2, width: 3, height: 4\nx: 9").unwrap();
    assert_eq!(b, BoundingBox { x: 9, y: 2, width: 3, height: 4 });
}

#[test]
fn missing_coordinate_fails() {
    assert_eq!(parse_bounding_box("x: 1, y: 2, width: 3"), None);
}

#[test]
fn non_positive_size_rejected() {
    assert_eq!(parse_bounding_box("x: 1, y: 2, width: 0, height: 4"), None);
    assert_eq!(parse_bounding_box("x: 1, y: 2, width: 3, height: -4"), None);
}

#[test]
fn negative_corner_rejected() {
    assert_eq!(parse_bounding_box("x: -1, y: 2, width: 3, height: 4"), None);
}

#[test]
fn overflowing_number_rejected() {
    assert_eq!(
        parse_bounding_box("x: 2147483648, y: 2, width: 3, height: 4"),
        None
    );
}

#[test]
fn number_after_colon_cases() {
    assert_eq!(extract_number_after_colon("count: 42 others"), Some(42));
    assert_eq!(extract_number_after_colon("count: -7"), Some(-7));
    assert_eq!(extract_number_after_colon("no separator here"), None);
    assert_eq!(extract_number_after_colon("label: not-a-number"), None);
    assert_eq!(extract_number_after_colon("trailing:"), None);
}

#[test]
fn number_after_pattern_cases() {
    assert_eq!(extract_number_after_pattern("X: 7", "x:"), Some(7));
    assert_eq!(extract_number_after_pattern("val x=3, rest", "x="), Some(3));
    assert_eq!(extract_number_after_pattern("nothing here", "x:"), None);
    assert_eq!(extract_number_after_pattern("x: ", "x:"), None);
    assert_eq!(
        extract_number_after_pattern("v: 2147483648", "v:"),
        None
    );
    assert_eq!(
        extract_number_after_pattern("v: -2147483648", "v:"),
        Some(i32::MIN)
    );
}

#[test]
fn decimal_rendering() {
    assert_eq!(u64_to_string(0), "0");
    assert_eq!(u64_to_string(7), "7");
    assert_eq!(u64_to_string(1234567890), "1234567890");
    assert_eq!(u64_to_string(u64::MAX), "18446744073709551615");
}

#[test]
fn decimal_round_trip_through_parser() {
    for n in [0u64, 1, 9, 10, 99, 100, 2147483647] {
        let line = format!("n: {}", u64_to_string(n));
        assert_eq!(extract_number_after_colon(&line), Some(n as i32));
    }
}

#[test]
fn converted_path_naming() {
    assert_eq!(
        converted_output_path("/videos/take1.mov"),
        "/videos/take1_converted.mp4"
    );
    assert_eq!(
        converted_output_path("/a.mov/b.mov"),
        "/a_converted.mp4/b_converted.mp4"
    );
    assert_eq!(converted_output_path("/plain.mp4"), "/plain.mp4");
    assert_eq!(converted_output_path(""), "");
}

#[test]
fn frame_rate_fractions() {
    assert_eq!(parse_frame_rate("30000/1001"), (30000, 1001));
    assert_eq!(parse_frame_rate("25/1"), (25, 1));
    // An unparseable side falls back to that side's default.
    assert_eq!(parse_frame_rate("abc/1001"), (0, 1001));
    assert_eq!(parse_frame_rate("30000/xyz"), (30000, 1));
    // No slash means no fraction at all.
    assert_eq!(parse_frame_rate("30"), (0, 1));
    assert_eq!(parse_frame_rate(""), (0, 1));
}

#[test]
fn seconds_rendering() {
    assert_eq!(ms_to_seconds_string(0), "0.000");
    assert_eq!(ms_to_seconds_string(7), "0.007");
    assert_eq!(ms_to_seconds_string(42), "0.042");
    assert_eq!(ms_to_seconds_string(2500), "2.500");
    assert_eq!(ms_to_seconds_string(61999), "61.999");
}
