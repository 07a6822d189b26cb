//! Usage-pace analytics: extrapolates quota consumption over a time-boxed
//! usage window and decides whether the quota lasts until the window resets.
//!
//! Percentages are carried in hundredths of a percent (10000 stands for
//! 100%), so the analytics are exact integer arithmetic. The suppression
//! threshold (expected below 3%) and the on-pace tolerance used by the
//! renderer (delta within 2%) are fixed product constants.
use vstd::prelude::*;

verus! {

/// Minutes in a five-hour session window.
pub const FIVE_HOUR_MINUTES: u32 = 300;

/// Minutes in a seven-day weekly window.
pub const SEVEN_DAY_MINUTES: u32 = 10080;

/// Categorical usage level of a window, as reported by the stats source.
#[derive(Clone, Copy, PartialEq, Eq, Structural, Debug)]
pub enum UsageLevel {
    Normal,
    Warn,
    Danger,
    Over,
}

/// Derived pace estimate for one usage window. Never supplied directly by
/// the user; recomputed fresh on every ingestion when absent.
#[derive(Clone, Copy, PartialEq, Eq, Debug)]
pub struct PaceInfo {
    /// Utilization minus expected consumption, in hundredths of a percent.
    /// Computed from the raw utilization, so it can exceed 5000 when the
    /// window runs over 100%.
    pub delta_cpct: i64,
    /// Expected consumption so far, in hundredths of a percent, in 0..=10000.
    pub expected_cpct: u32,
    /// Whether the quota lasts until the window resets.
    pub will_last_to_reset: bool,
    /// Minutes until exhaustion, present only when the quota runs out early.
    pub eta_minutes: Option<u64>,
}

/// One usage window: a quota period tracked by utilization and time left.
#[derive(Clone, PartialEq, Eq, Debug)]
pub struct UsageWindow {
    /// Utilization in hundredths of a percent; may exceed 10000 (over 100%).
    pub utilization_cpct: u32,
    /// Minutes until the quota resets, when known.
    pub resets_in_minutes: Option<u32>,
    /// Categorical usage level.
    pub usage_level: UsageLevel,
    /// Pace estimate, filled in once after ingestion when absent.
    pub pace: Option<PaceInfo>,
}

/// Top-level payload driving the bar renderer.
#[derive(Clone, PartialEq, Eq, Debug)]
pub struct ActiveData {
    pub five_hour: Option<UsageWindow>,
    pub seven_day: Option<UsageWindow>,
    pub updated_at: Option<String>,
}

/// Whether the window and reset inputs allow an estimate at all.
pub open spec fn pace_inputs_ok(resets_in_minutes: int, window_minutes: int) -> bool {
    window_minutes > 0 && resets_in_minutes > 0 && resets_in_minutes <= window_minutes
}

/// Expected consumption so far, in hundredths of a percent: the elapsed
/// share of the window, scaled to 10000 and rounded down.
pub open spec fn spec_expected_cpct(resets_in_minutes: int, window_minutes: int) -> int {
    (window_minutes - resets_in_minutes) * 10000 / window_minutes
}

/// Utilization clamped to 0..=10000.
pub open spec fn spec_actual_cpct(utilization_cpct: int) -> int {
    if utilization_cpct > 10000 {
        10000
    } else {
        utilization_cpct
    }
}

/// The pace estimate for a window, or `None` when the inputs are
/// insufficient or the window has barely started (expected below 3%, or an
/// inconsistent "used quota with no time elapsed" state).
///
/// With `elapsed` and `time_left` in seconds and positive `actual`
/// consumption, the linear extrapolation exhausts the remaining quota after
/// `remaining * elapsed / actual` seconds; the quota lasts to the reset
/// exactly when that is at least `time_left`, and otherwise the estimated
/// time of exhaustion is that span, rounded to whole minutes. The delta is
/// the raw utilization minus the expected share, unclamped, while the
/// extrapolation works from the utilization clamped to 100%.
pub open spec fn spec_compute_pace(
    utilization_cpct: int,
    resets_in_minutes: int,
    window_minutes: int,
) -> Option<PaceInfo> {
    if !pace_inputs_ok(resets_in_minutes, window_minutes) {
        None
    } else {
        let elapsed = (window_minutes - resets_in_minutes) * 60;
        let time_left = resets_in_minutes * 60;
        let actual = spec_actual_cpct(utilization_cpct);
        let expected = spec_expected_cpct(resets_in_minutes, window_minutes);
        if (elapsed == 0 && actual > 0) || expected < 300 {
            None
        } else if elapsed > 0 && actual > 0 {
            let remaining = 10000 - actual;
            if remaining * elapsed >= actual * time_left {
                Some(
                    PaceInfo {
                        delta_cpct: (utilization_cpct - expected) as i64,
                        expected_cpct: expected as u32,
                        will_last_to_reset: true,
                        eta_minutes: None,
                    },
                )
            } else {
                Some(
                    PaceInfo {
                        delta_cpct: (utilization_cpct - expected) as i64,
                        expected_cpct: expected as u32,
                        will_last_to_reset: false,
                        eta_minutes: Some(((remaining * elapsed / actual + 30) / 60) as u64),
                    },
                )
            }
        } else if elapsed > 0 {
            Some(
                PaceInfo {
                    delta_cpct: (utilization_cpct - expected) as i64,
                    expected_cpct: expected as u32,
                    will_last_to_reset: true,
                    eta_minutes: None,
                },
            )
        } else {
            None
        }
    }
}

proof fn lemma_expected_cpct_range(resets_in_minutes: int, window_minutes: int)
    requires
        pace_inputs_ok(resets_in_minutes, window_minutes),
    ensures
        0 <= spec_expected_cpct(resets_in_minutes, window_minutes) < 10000,
{
    let e = window_minutes - resets_in_minutes;
    let w = window_minutes;
    assert(e * 10000 >= 0) by (nonlinear_arith)
        requires
            e >= 0,
    ;
    assert(e * 10000 / w >= 0) by (nonlinear_arith)
        requires
            e * 10000 >= 0,
            w > 0,
    ;
    assert(e * 10000 <= (w - 1) * 10000) by (nonlinear_arith)
        requires
            e <= w - 1,
    ;
    vstd::arithmetic::div_mod::lemma_div_is_ordered(e * 10000, (w - 1) * 10000, w);
    assert((w - 1) * 10000 / w < 10000) by (nonlinear_arith)
        requires
            w > 0,
    ;
}

/// Computes the pace estimate for a window from its utilization (hundredths
/// of a percent), minutes until reset, and the window length in minutes.
pub fn compute_pace(utilization_cpct: u32, resets_in_minutes: u32, window_minutes: u32) -> (p:
    Option<PaceInfo>)
    ensures
        p == spec_compute_pace(
            utilization_cpct as int,
            resets_in_minutes as int,
            window_minutes as int,
        ),
{
    if window_minutes == 0 || resets_in_minutes == 0 || resets_in_minutes > window_minutes {
        return None;
    }
    proof {
        lemma_expected_cpct_range(resets_in_minutes as int, window_minutes as int);
    }
    let elapsed: u64 = (window_minutes - resets_in_minutes) as u64 * 60;
    let time_left: u64 = resets_in_minutes as u64 * 60;
    let actual: u32 = if utilization_cpct > 10000 {
        10000
    } else {
        utilization_cpct
    };
    let expected: u32 = ((window_minutes - resets_in_minutes) as u64 * 10000 / (window_minutes
        as u64)) as u32;
    if (elapsed == 0 && actual > 0) || expected < 300 {
        return None;
    }
    let delta: i64 = utilization_cpct as i64 - expected as i64;
    if elapsed > 0 && actual > 0 {
        let remaining: u64 = (10000 - actual) as u64;
        proof {
            assert(remaining * elapsed <= 10000 * (u32::MAX as int * 60)) by (nonlinear_arith)
                requires
                    remaining <= 10000,
                    elapsed <= u32::MAX as int * 60,
            ;
            assert((actual as u64) * time_left <= 10000 * (u32::MAX as int * 60))
                by (nonlinear_arith)
                requires
                    actual <= 10000,
                    time_left <= u32::MAX as int * 60,
            ;
        }
        if remaining * elapsed >= (actual as u64) * time_left {
            Some(
                PaceInfo {
                    delta_cpct: delta,
                    expected_cpct: expected,
                    will_last_to_reset: true,
                    eta_minutes: None,
                },
            )
        } else {
            let candidate_seconds: u64 = remaining * elapsed / (actual as u64);
            Some(
                PaceInfo {
                    delta_cpct: delta,
                    expected_cpct: expected,
                    will_last_to_reset: false,
                    eta_minutes: Some((candidate_seconds + 30) / 60),
                },
            )
        }
    } else if elapsed > 0 {
        Some(
            PaceInfo {
                delta_cpct: delta,
                expected_cpct: expected,
                will_last_to_reset: true,
                eta_minutes: None,
            },
        )
    } else {
        None
    }
}

/// What a window's pace field holds after ingestion: an already supplied
/// estimate is kept, otherwise one is computed when the reset time is known.
pub open spec fn spec_filled_pace(w: UsageWindow, window_minutes: int) -> Option<PaceInfo> {
    if w.pace is Some {
        w.pace
    } else if w.resets_in_minutes is Some {
        spec_compute_pace(
            w.utilization_cpct as int,
            w.resets_in_minutes->Some_0 as int,
            window_minutes,
        )
    } else {
        None
    }
}

/// Fills in the pace estimate for a window that lacks one; never overwrites
/// an estimate that the data source already supplied.
pub fn ensure_pace(window: &mut UsageWindow, window_minutes: u32)
    ensures
        final(window).utilization_cpct == old(window).utilization_cpct,
        final(window).resets_in_minutes == old(window).resets_in_minutes,
        final(window).usage_level == old(window).usage_level,
        final(window).pace == spec_filled_pace(*old(window), window_minutes as int),
{
    if window.pace.is_some() {
        return ;
    }
    if let Some(resets_in) = window.resets_in_minutes {
        window.pace = compute_pace(window.utilization_cpct, resets_in, window_minutes);
    }
}

/// Fills in missing pace estimates for both windows of a payload: the
/// five-hour session window and the seven-day weekly window.
pub fn fill_missing_pace(data: &mut ActiveData)
    ensures
        final(data).updated_at == old(data).updated_at,
        old(data).five_hour is None ==> final(data).five_hour is None,
        old(data).seven_day is None ==> final(data).seven_day is None,
        old(data).five_hour is Some ==> {
            let w = old(data).five_hour->Some_0;
            final(data).five_hour == Some(
                UsageWindow {
                    pace: spec_filled_pace(w, FIVE_HOUR_MINUTES as int),
                    ..w
                },
            )
        },
        old(data).seven_day is Some ==> {
            let w = old(data).seven_day->Some_0;
            final(data).seven_day == Some(
                UsageWindow {
                    pace: spec_filled_pace(w, SEVEN_DAY_MINUTES as int),
                    ..w
                },
            )
        },
{
    if let Some(w) = &mut data.five_hour {
        ensure_pace(w, FIVE_HOUR_MINUTES);
    }
    if let Some(w) = &mut data.seven_day {
        ensure_pace(w, SEVEN_DAY_MINUTES);
    }
}

} // verus!
