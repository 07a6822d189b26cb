use geekmagic_stats::config::{resolve_settings, AppConfig};
use geekmagic_stats::timefmt::{fallback_time, format_updated_time};

#[test]
fn fallback_slices_after_the_t() {
    assert_eq!(fallback_time("2024-01-02T15:04:05Z"), "15:04");
    assert_eq!(fallback_time("xT12:34rest"), "12:34");
    assert_eq!(fallback_time("no separator"), "??:??");
    assert_eq!(fallback_time("shortTab"), "??:??");
    assert_eq!(fallback_time(""), "??:??");
    assert_eq!(fallback_time("T12:45"), "12:45");
}

#[test]
fn updated_time_shapes() {
    // A valid RFC 3339 instant renders as a five-character local time.
    let s = format_updated_time("2024-01-02T15:04:05+00:00");
    assert_eq!(s.chars().count(), 5);
    assert_eq!(s.chars().nth(2), Some(':'));
    // Malformed input degrades to the fallback slice, then the placeholder.
    assert_eq!(format_updated_time("2024-01-02 15:04:05"), "??:??");
    assert_eq!(format_updated_time("oddTvalue"), "value");
    assert_eq!(format_updated_time("oddT12:00x"), "12:00");
}

#[test]
fn settings_merge_prefers_the_command_line() {
    let cfg = AppConfig {
        host: Some("filehost".to_string()),
        daemon: Some(60),
        with_disk: Some(true),
    };
    let s = resolve_settings(Some("clihost".to_string()), None, Some(30), false, cfg).unwrap();
    assert_eq!(s.host, "clihost");
    assert_eq!(s.daemon, Some(30));
    assert!(s.with_disk);
    assert_eq!(s.output, None);
}

#[test]
fn settings_fall_back_to_the_file() {
    let cfg = AppConfig { host: Some("filehost".to_string()), daemon: Some(60), with_disk: None };
    let s = resolve_settings(None, Some("out.png".to_string()), None, false, cfg).unwrap();
    assert_eq!(s.host, "filehost");
    assert_eq!(s.daemon, Some(60));
    assert!(!s.with_disk);
    assert_eq!(s.output, Some("out.png".to_string()));
}

#[test]
fn settings_require_a_host() {
    let s = resolve_settings(None, None, None, true, AppConfig::empty());
    assert!(s.is_none());
}
