use geekmagic_stats::textfmt::{format_duration, format_size, percent_label, u64_to_string};
use geekmagic_stats::textw::approx_text_width;

#[test]
fn decimal_rendering() {
    assert_eq!(u64_to_string(0), "0");
    assert_eq!(u64_to_string(7), "7");
    assert_eq!(u64_to_string(42), "42");
    assert_eq!(u64_to_string(90210), "90210");
    assert_eq!(u64_to_string(u64::MAX), "18446744073709551615");
}

#[test]
fn size_precision_tiers() {
    assert_eq!(format_size(0), "0.00 GB");
    assert_eq!(format_size(9_500_000_000), "9.50 GB");
    assert_eq!(format_size(9_999_999_999), "10.00 GB");
    assert_eq!(format_size(42_000_000_000), "42.0 GB");
    assert_eq!(format_size(250_000_000_000), "250 GB");
    assert_eq!(format_size(1_500_000_000_000), "1.5 TB");
}

#[test]
fn size_tier_boundaries() {
    // Exactly 10, 100 and 1000 GB select the documented precision tiers.
    assert_eq!(format_size(10_000_000_000), "10.0 GB");
    assert_eq!(format_size(100_000_000_000), "100 GB");
    assert_eq!(format_size(1_000_000_000_000), "1.0 TB");
}

#[test]
fn size_formatting_is_stable() {
    for bytes in [0u64, 123, 9_999_999_999, 10_000_000_000, 777_000_000_000, 3_141_592_653_589] {
        assert_eq!(format_size(bytes), format_size(bytes));
    }
}

#[test]
fn duration_unit_pairs() {
    assert_eq!(format_duration(90), "1h 30m");
    assert_eq!(format_duration(60), "1h");
    assert_eq!(format_duration(1500), "1d 1h");
}

#[test]
fn duration_edges() {
    assert_eq!(format_duration(0), "0m");
    assert_eq!(format_duration(45), "45m");
    assert_eq!(format_duration(120), "2h");
    assert_eq!(format_duration(1440), "1d");
    assert_eq!(format_duration(1441), "1d");
    assert_eq!(format_duration(2940), "2d 1h");
}

#[test]
fn percent_labels_round_half_up() {
    assert_eq!(percent_label(0), "0%");
    assert_eq!(percent_label(49), "0%");
    assert_eq!(percent_label(50), "1%");
    assert_eq!(percent_label(5000), "50%");
    assert_eq!(percent_label(9999), "100%");
    assert_eq!(percent_label(10050), "101%");
}

#[test]
fn text_width_by_character_class() {
    // Three default-width characters: ceil(36 * 3 * 5500 / 10000).
    assert_eq!(approx_text_width("abc", 36), 60);
    // Narrow, wide, space and percent classes.
    assert_eq!(approx_text_width("il", 10), 7);
    assert_eq!(approx_text_width("mw", 10), 14);
    assert_eq!(approx_text_width(" ", 10), 4);
    assert_eq!(approx_text_width("%", 10), 7);
    assert_eq!(approx_text_width("", 36), 0);
    // The percentage label measured for right alignment.
    assert_eq!(approx_text_width("50%", 36), 62);
}
