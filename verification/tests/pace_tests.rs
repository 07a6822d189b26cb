use geekmagic_stats::bars::pace_label;
use geekmagic_stats::pace::{compute_pace, ensure_pace, fill_missing_pace};
use geekmagic_stats::pace::{ActiveData, PaceInfo, UsageLevel, UsageWindow};

fn window(util: u32, resets: Option<u32>) -> UsageWindow {
    UsageWindow {
        utilization_cpct: util,
        resets_in_minutes: resets,
        usage_level: UsageLevel::Normal,
        pace: None,
    }
}

#[test]
fn pace_on_pace_at_half_window() {
    // 50% used at the halfway point of a 300-minute window: exactly on pace.
    let p = compute_pace(5000, 150, 300).unwrap();
    assert_eq!(p.expected_cpct, 5000);
    assert_eq!(p.delta_cpct, 0);
    assert!(p.will_last_to_reset);
    assert_eq!(p.eta_minutes, None);
    let (label, ok) = pace_label(p.delta_cpct);
    assert_eq!(label, "On pace");
    assert!(ok);
}

#[test]
fn pace_label_tolerance_boundary() {
    // The on-pace tolerance is two whole percent, after rounding.
    assert_eq!(pace_label(200), ("On pace".to_string(), true));
    assert_eq!(pace_label(-249), ("On pace".to_string(), true));
    assert_eq!(pace_label(251), ("3% deficit".to_string(), false));
    assert_eq!(pace_label(-251), ("3% reserve".to_string(), true));
}

#[test]
fn pace_suppressed_at_window_start() {
    // One minute into a 300-minute window the expected share is below 3%.
    assert_eq!(compute_pace(1000, 299, 300), None);
}

#[test]
fn pace_exhaustion_before_reset() {
    // 90% used at the halfway point: the quota runs out well before reset.
    let p = compute_pace(9000, 150, 300).unwrap();
    assert_eq!(p.expected_cpct, 5000);
    assert_eq!(p.delta_cpct, 4000);
    assert!(!p.will_last_to_reset);
    assert_eq!(p.eta_minutes, Some(17));
}

#[test]
fn pace_invalid_inputs_give_nothing() {
    assert_eq!(compute_pace(5000, 150, 0), None);
    assert_eq!(compute_pace(5000, 0, 300), None);
    assert_eq!(compute_pace(5000, 301, 300), None);
    // No time elapsed but quota already used: inconsistent, no estimate.
    assert_eq!(compute_pace(5000, 300, 300), None);
    // No time elapsed and nothing used: still no estimate.
    assert_eq!(compute_pace(0, 300, 300), None);
}

#[test]
fn pace_zero_utilization_lasts_to_reset() {
    // Flat usage with enough of the window elapsed: lasts to reset.
    let p = compute_pace(0, 9700, 10000).unwrap();
    assert_eq!(p.expected_cpct, 300);
    assert_eq!(p.delta_cpct, -300);
    assert!(p.will_last_to_reset);
    assert_eq!(p.eta_minutes, None);
}

#[test]
fn pace_utilization_above_hundred() {
    let p = compute_pace(12000, 150, 300).unwrap();
    // The delta keeps the raw utilization: 120% against 50% expected.
    assert_eq!(p.delta_cpct, 7000);
    // The extrapolation clamps: no remaining quota, exhaustion is immediate.
    assert!(!p.will_last_to_reset);
    assert_eq!(p.eta_minutes, Some(0));
    let (label, ok) = pace_label(p.delta_cpct);
    assert_eq!(label, "70% deficit");
    assert!(!ok);
}

#[test]
fn ensure_pace_fills_only_missing() {
    let mut w = window(5000, Some(150));
    ensure_pace(&mut w, 300);
    assert!(w.pace.is_some());
    assert_eq!(w.pace.unwrap().expected_cpct, 5000);

    let supplied = PaceInfo {
        delta_cpct: 123,
        expected_cpct: 4567,
        will_last_to_reset: false,
        eta_minutes: Some(9),
    };
    let mut w2 = window(5000, Some(150));
    w2.pace = Some(supplied);
    ensure_pace(&mut w2, 300);
    assert_eq!(w2.pace, Some(supplied));

    let mut w3 = window(5000, None);
    ensure_pace(&mut w3, 300);
    assert_eq!(w3.pace, None);
}

#[test]
fn fill_missing_pace_uses_window_lengths() {
    let mut data = ActiveData {
        five_hour: Some(window(5000, Some(150))),
        seven_day: Some(window(2000, Some(5040))),
        updated_at: None,
    };
    fill_missing_pace(&mut data);
    let five = data.five_hour.unwrap().pace.unwrap();
    assert_eq!(five.expected_cpct, 5000);
    let seven = data.seven_day.unwrap().pace.unwrap();
    // Half of the 10080-minute week elapsed.
    assert_eq!(seven.expected_cpct, 5000);
    assert_eq!(seven.delta_cpct, -3000);
}
