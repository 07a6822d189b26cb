//! The usage-bars renderer: one canvas with a header and up to two stacked
//! usage-window panels, each with a gradient progress bar, pace marker
//! overlay and status rows.
//!
//! Panels render in fixed order, the five-hour session window first and the
//! seven-day weekly window second; a payload without windows yields a
//! placeholder frame. The canvas is a pure function of the window data and
//! the style; only the header's last-updated text depends on the machine's
//! local time zone.
use vstd::prelude::*;
use vstd::string::StringExecFns;

use crate::canvas::Canvas;
use crate::canvas::{spec_bar_fill_width, spec_draw_circle, spec_draw_gradient_bar,
    spec_draw_pace_marker, spec_draw_rounded_rect, spec_marker_x};
use crate::canvas::{draw_circle, draw_gradient_bar, draw_pace_marker, draw_rounded_rect};
use crate::color::Color;
use crate::pace::{ActiveData, PaceInfo, UsageLevel, UsageWindow};
use crate::style::Style;
use crate::textfmt::{spec_decimal, spec_format_duration, spec_percent_label};
use crate::textfmt::{format_duration, percent_label, u64_to_string};
use crate::textw::{spec_right_x, texts_view, Frame, TextCmd, TextSpec};
use crate::textw::{push_text_left, push_text_right};

verus! {

/// The gradient endpoints for a usage level: blue to cyan normally, yellow
/// to orange for a warning, solid red for danger and over.
pub open spec fn spec_bar_colors(level: UsageLevel, style: Style) -> (Color, Color) {
    match level {
        UsageLevel::Danger => (style.danger_fill, style.danger_fill),
        UsageLevel::Over => (style.danger_fill, style.danger_fill),
        UsageLevel::Warn => (style.warn_fill_left, style.warn_fill_right),
        UsageLevel::Normal => (style.bar_fill_left, style.bar_fill_right),
    }
}

/// Picks the gradient endpoints for a usage level.
pub fn bar_colors(level: UsageLevel, style: &Style) -> (c: (Color, Color))
    ensures
        c == spec_bar_colors(level, *style),
{
    match level {
        UsageLevel::Danger => (style.danger_fill, style.danger_fill),
        UsageLevel::Over => (style.danger_fill, style.danger_fill),
        UsageLevel::Warn => (style.warn_fill_left, style.warn_fill_right),
        UsageLevel::Normal => (style.bar_fill_left, style.bar_fill_right),
    }
}

/// The pace delta rounded to whole percent, in magnitude.
pub open spec fn spec_abs_delta_pct(delta_cpct: int) -> int {
    (if delta_cpct < 0 {
        -delta_cpct
    } else {
        delta_cpct
    } + 50) / 100
}

/// Whether the pace row shows the "ok" color: on pace within the two
/// percent tolerance, or under pace.
pub open spec fn spec_pace_ok(delta_cpct: int) -> bool {
    spec_abs_delta_pct(delta_cpct) <= 2 || delta_cpct < 0
}

/// The pace row label: "On pace" within the tolerance, otherwise the
/// rounded magnitude as reserve or deficit.
pub open spec fn spec_pace_label(delta_cpct: int) -> Seq<char> {
    let ad = spec_abs_delta_pct(delta_cpct);
    if ad <= 2 {
        "On pace"@
    } else if delta_cpct < 0 {
        spec_decimal(ad as nat) + "% reserve"@
    } else {
        spec_decimal(ad as nat) + "% deficit"@
    }
}

/// Builds the pace row label and whether it uses the "ok" color.
pub fn pace_label(delta_cpct: i64) -> (r: (String, bool))
    ensures
        r.0@ == spec_pace_label(delta_cpct as int),
        r.1 == spec_pace_ok(delta_cpct as int),
{
    let ad128: i128 = if (delta_cpct as i128) < 0 {
        -(delta_cpct as i128)
    } else {
        delta_cpct as i128
    };
    let ad: u64 = ((ad128 + 50) / 100) as u64;
    if ad <= 2 {
        (String::from_str("On pace"), true)
    } else if delta_cpct < 0 {
        let mut s = u64_to_string(ad);
        s.append("% reserve");
        (s, true)
    } else {
        let mut s = u64_to_string(ad);
        s.append("% deficit");
        (s, false)
    }
}

/// The remaining share of the quota, rounded to whole percent.
pub open spec fn spec_remaining_pct(utilization_cpct: int) -> int {
    if utilization_cpct >= 10000 {
        0
    } else {
        (10000 - utilization_cpct + 50) / 100
    }
}

/// The "N% left" label under a bar.
pub open spec fn spec_remaining_label(utilization_cpct: int) -> Seq<char> {
    spec_decimal(spec_remaining_pct(utilization_cpct) as nat) + "% left"@
}

/// Builds the "N% left" label.
pub fn remaining_label(utilization_cpct: u32) -> (s: String)
    ensures
        s@ == spec_remaining_label(utilization_cpct as int),
{
    let rem: u64 = if utilization_cpct >= 10000 {
        0
    } else {
        (((10000 - utilization_cpct) + 50) / 100) as u64
    };
    let mut s = u64_to_string(rem);
    s.append("% left");
    s
}

/// The "resets <duration>" label beside a bar.
pub open spec fn spec_reset_label(minutes: nat) -> Seq<char> {
    "resets "@ + spec_format_duration(minutes)
}

/// Builds the "resets <duration>" label.
pub fn reset_label(minutes: u32) -> (s: String)
    ensures
        s@ == spec_reset_label(minutes as nat),
{
    let mut s = String::from_str("resets ");
    let d = format_duration(minutes as u64);
    s.append(d.as_str());
    s
}

/// The right side of the pace row: "Lasts to reset" when the quota lasts,
/// the exhaustion time when one is estimated, nothing otherwise.
pub open spec fn spec_pace_right_text(p: PaceInfo) -> Option<Seq<char>> {
    if p.will_last_to_reset {
        Some("Lasts to reset"@)
    } else if p.eta_minutes is Some {
        Some("Out in "@ + spec_format_duration(p.eta_minutes->0 as nat))
    } else {
        None
    }
}

/// Builds the right side of the pace row, when there is one.
pub fn pace_right_text(p: &PaceInfo) -> (r: Option<String>)
    ensures
        r is Some <==> spec_pace_right_text(*p) is Some,
        r is Some ==> r->0@ == spec_pace_right_text(*p)->0,
{
    if p.will_last_to_reset {
        Some(String::from_str("Lasts to reset"))
    } else if let Some(eta) = p.eta_minutes {
        let mut s = String::from_str("Out in ");
        let d = format_duration(eta);
        s.append(d.as_str());
        Some(s)
    } else {
        None
    }
}

/// The marker core color: "ok" when the quota lasts to the reset.
pub open spec fn spec_marker_core(p: PaceInfo, style: Style) -> Color {
    if p.will_last_to_reset {
        style.pace_ok
    } else {
        style.pace_warn
    }
}

/// The marker glow color beside the core.
pub open spec fn spec_marker_glow(p: PaceInfo, style: Style) -> Color {
    if p.will_last_to_reset {
        style.pace_ok_glow
    } else {
        style.pace_warn_glow
    }
}

/// The pace row color: "ok" for on-pace or reserve, "warn" for a deficit.
pub open spec fn spec_pace_color(delta_cpct: int, style: Style) -> Color {
    if spec_pace_ok(delta_cpct) {
        style.pace_ok
    } else {
        style.pace_warn
    }
}

/// The canvas of one panel over `c`: panel card, gradient bar, then the
/// pace marker and the pace dot when a pace estimate is present.
pub open spec fn spec_panel_canvas(c: Seq<Color>, w: UsageWindow, by: int, style: Style) -> Seq<
    Color,
> {
    let colors = spec_bar_colors(w.usage_level, style);
    let c1 = spec_draw_rounded_rect(c, 12, by - 2, 216, 102, 10, style.panel_bg);
    let c2 = spec_draw_gradient_bar(
        c1,
        24,
        by + 42,
        192,
        14,
        spec_bar_fill_width(192, w.utilization_cpct as int),
        style.bar_track,
        colors.0,
        colors.1,
        7,
    );
    if w.pace is Some {
        let p = w.pace->Some_0;
        let c3 = spec_draw_pace_marker(
            c2,
            spec_marker_x(24, 192, p.expected_cpct as int),
            by + 42,
            14,
            spec_marker_core(p, style),
            spec_marker_glow(p, style),
        );
        spec_draw_circle(c3, 28, by + 86, 3, spec_pace_color(p.delta_cpct as int, style))
    } else {
        c2
    }
}

/// The text commands of one panel: label, percentage, remaining share, and
/// when present the reset time, the pace label and the pace row's right
/// side.
pub open spec fn spec_panel_texts(w: UsageWindow, label: Seq<char>, by: int, style: Style) -> Seq<
    TextSpec,
> {
    let pct = spec_percent_label(w.utilization_cpct as nat);
    let rem = spec_remaining_label(w.utilization_cpct as int);
    let base = seq![
        TextSpec { x: 24, y: by + 14, scale: 14, color: style.text_muted, bold: true, text: label },
        TextSpec {
            x: spec_right_x(218, pct, 36),
            y: by + 2,
            scale: 36,
            color: style.text_primary,
            bold: true,
            text: pct,
        },
        TextSpec {
            x: 24,
            y: by + 62,
            scale: 15,
            color: style.text_primary,
            bold: true,
            text: rem,
        },
    ];
    let with_reset = if w.resets_in_minutes is Some {
        base.push(
            (TextSpec {
                x: spec_right_x(218, spec_reset_label(w.resets_in_minutes->0 as nat), 15),
                y: by + 63,
                scale: 15,
                color: style.text_dim,
                bold: false,
                text: spec_reset_label(w.resets_in_minutes->0 as nat),
            }),
        )
    } else {
        base
    };
    if w.pace is Some {
        let p = w.pace->Some_0;
        let pc = spec_pace_color(p.delta_cpct as int, style);
        let with_pace = with_reset.push(
            (TextSpec {
                x: 36,
                y: by + 80,
                scale: 13,
                color: pc,
                bold: false,
                text: spec_pace_label(p.delta_cpct as int),
            }),
        );
        if spec_pace_right_text(p) is Some {
            with_pace.push(
                (TextSpec {
                    x: spec_right_x(218, spec_pace_right_text(p)->0, 12),
                    y: by + 80,
                    scale: 12,
                    color: pc,
                    bold: false,
                    text: spec_pace_right_text(p)->0,
                }),
            )
        } else {
            with_pace
        }
    } else {
        with_reset
    }
}

/// Renders one usage-window panel at vertical offset `by`.
fn render_panel(
    canvas: &mut Canvas,
    texts: &mut Vec<TextCmd>,
    w: &UsageWindow,
    label: &str,
    by: usize,
    style: &Style,
)
    requires
        old(canvas).wf(),
        style.wf(),
        (by == 37 || by == 136),
        label@.len() <= 100,
    ensures
        final(canvas).wf(),
        final(canvas)@ == spec_panel_canvas(old(canvas)@, *w, by as int, *style),
        texts_view(final(texts)@) == texts_view(old(texts)@) + spec_panel_texts(
            *w,
            label@,
            by as int,
            *style,
        ),
{
    let ghost g0 = texts@;
    draw_rounded_rect(canvas, 12, by - 2, 216, 102, 10, style.panel_bg);
    let colors = bar_colors(w.usage_level, style);
    draw_gradient_bar(
        canvas,
        24,
        by + 42,
        192,
        14,
        w.utilization_cpct,
        style.bar_track,
        colors.0,
        colors.1,
        7,
    );
    if let Some(p) = &w.pace {
        draw_pace_marker(
            canvas,
            24,
            by + 42,
            192,
            14,
            p.expected_cpct,
            if p.will_last_to_reset {
                style.pace_ok
            } else {
                style.pace_warn
            },
            if p.will_last_to_reset {
                style.pace_ok_glow
            } else {
                style.pace_warn_glow
            },
        );
    }

    push_text_left(
        texts,
        24,
        by as i64 + 14,
        14,
        style.text_muted,
        true,
        String::from_str(label),
    );
    proof {
        crate::textfmt::lemma_percent_label_len(w.utilization_cpct as nat);
    }
    push_text_right(
        texts,
        218,
        by as i64 + 2,
        36,
        style.text_primary,
        true,
        percent_label(w.utilization_cpct),
    );
    proof {
        crate::textfmt::lemma_decimal_len_u64(
            spec_remaining_pct(w.utilization_cpct as int) as nat,
        );
        reveal_strlit("% left");
    }
    push_text_left(
        texts,
        24,
        by as i64 + 62,
        15,
        style.text_primary,
        true,
        remaining_label(w.utilization_cpct),
    );
    if let Some(mins) = w.resets_in_minutes {
        proof {
            crate::textfmt::lemma_format_duration_len(mins as nat);
            reveal_strlit("resets ");
        }
        push_text_right(texts, 218, by as i64 + 63, 15, style.text_dim, false, reset_label(mins));
    }
    if let Some(p) = &w.pace {
        let (ptext, ok) = pace_label(p.delta_cpct);
        let pc = if ok {
            style.pace_ok
        } else {
            style.pace_warn
        };
        draw_circle(canvas, 28, by + 86, 3, pc);
        push_text_left(texts, 36, by as i64 + 80, 13, pc, false, ptext);
        if let Some(rtext) = pace_right_text(p) {
            proof {
                reveal_strlit("Lasts to reset");
                reveal_strlit("Out in ");
                if p.eta_minutes is Some {
                    crate::textfmt::lemma_format_duration_len(p.eta_minutes->0 as nat);
                }
            }
            push_text_right(texts, 218, by as i64 + 80, 12, pc, false, rtext);
        }
    }
    proof {
        assert(texts_view(texts@) =~= texts_view(g0) + spec_panel_texts(
            *w,
            label@,
            by as int,
            *style,
        ));
    }
}

/// The canvas of a bars frame: background only for an empty payload;
/// otherwise background, separator, then the present panels, the five-hour
/// session window first.
pub open spec fn spec_bars_canvas(d: ActiveData, style: Style) -> Seq<Color> {
    let c_bg = Seq::new(57600, |i: int| style.bg);
    if d.five_hour is None && d.seven_day is None {
        c_bg
    } else {
        let c_sep = spec_draw_rounded_rect(c_bg, 16, 33, 208, 1, 0, style.separator);
        let c1 = if d.five_hour is Some {
            spec_panel_canvas(c_sep, d.five_hour->0, 37, style)
        } else {
            c_sep
        };
        if d.seven_day is Some {
            let by2: int = if d.five_hour is Some {
                136
            } else {
                37
            };
            spec_panel_canvas(c1, d.seven_day->0, by2, style)
        } else {
            c1
        }
    }
}

/// The panel text commands of a bars frame, in panel order.
pub open spec fn spec_bars_tail_texts(d: ActiveData, style: Style) -> Seq<TextSpec> {
    let t1 = if d.five_hour is Some {
        spec_panel_texts(d.five_hour->0, "Session"@, 37, style)
    } else {
        Seq::empty()
    };
    let t2 = if d.seven_day is Some {
        let by2: int = if d.five_hour is Some {
            136
        } else {
            37
        };
        spec_panel_texts(d.seven_day->0, "Weekly"@, by2, style)
    } else {
        Seq::empty()
    };
    t1 + t2
}

/// Renders the usage-bars frame: header with title and last-updated time,
/// then one panel per present usage window. The canvas is a pure function
/// of the payload's windows and the style. Only the header's last-updated
/// text depends on the machine's time zone: its command is right-aligned
/// for whatever text it carries, and its text is pinned exactly whenever
/// the timestamp is absent or not a valid RFC 3339 string.
pub fn render_bars(data: &ActiveData, style: &Style) -> (frame: Frame)
    requires
        style.wf(),
    ensures
        frame.canvas.wf(),
        frame.canvas@ == spec_bars_canvas(*data, *style),
        (data.five_hour is None && data.seven_day is None) ==> texts_view(frame.texts@)
            =~= seq![
            (TextSpec {
                x: 60,
                y: 110,
                scale: 16,
                color: style.text_dim,
                bold: false,
                text: "No usage data"@,
            }),
        ],
        (data.five_hour is Some || data.seven_day is Some) ==> {
            let ts = texts_view(frame.texts@);
            &&& ts.len() == 2 + spec_bars_tail_texts(*data, *style).len()
            &&& ts.subrange(2, ts.len() as int) == spec_bars_tail_texts(*data, *style)
            &&& ts[0] == (TextSpec {
                x: 16,
                y: 10,
                scale: 17,
                color: style.text_primary,
                bold: true,
                text: "Usage"@,
            })
            &&& ts[1].y == 11 && ts[1].scale == 15 && ts[1].color == style.text_dim && !ts[1].bold
            &&& ts[1].x == spec_right_x(224, ts[1].text, 15)
            &&& (data.updated_at is None ==> ts[1].text == "--"@)
            &&& (data.updated_at is Some && !crate::timefmt::rfc3339_valid(data.updated_at->0@)
                ==> ts[1].text == crate::timefmt::spec_fallback_time(data.updated_at->0@))
            &&& (data.updated_at is Some && crate::timefmt::rfc3339_valid(data.updated_at->0@)
                ==> ts[1].text.len() == 5)
        },
{
    if data.five_hour.is_none() && data.seven_day.is_none() {
        let canvas = Canvas::new(style.bg);
        let mut texts: Vec<TextCmd> = Vec::new();
        push_text_left(
            &mut texts,
            60,
            110,
            16,
            style.text_dim,
            false,
            String::from_str("No usage data"),
        );
        proof {
            assert(texts_view(texts@) =~= seq![
                (TextSpec {
                    x: 60,
                    y: 110,
                    scale: 16,
                    color: style.text_dim,
                    bold: false,
                    text: "No usage data"@,
                }),
            ]);
        }
        return Frame { canvas, texts };
    }
    let mut canvas = Canvas::new(style.bg);
    let mut texts: Vec<TextCmd> = Vec::new();
    push_text_left(&mut texts, 16, 10, 17, style.text_primary, true, String::from_str("Usage"));
    let updated: String = match &data.updated_at {
        Some(ts) => crate::timefmt::format_updated_time(ts.as_str()),
        None => String::from_str("--"),
    };
    proof {
        crate::timefmt::lemma_fallback_time_len(
            if data.updated_at is Some {
                data.updated_at->0@
            } else {
                Seq::empty()
            },
        );
        reveal_strlit("--");
    }
    push_text_right(&mut texts, 224, 11, 15, style.text_dim, false, updated);
    let ghost g_header = texts@;
    draw_rounded_rect(&mut canvas, 16, 33, 208, 1, 0, style.separator);
    let mut by2: usize = 37;
    if let Some(w) = &data.five_hour {
        proof {
            reveal_strlit("Session");
        }
        render_panel(&mut canvas, &mut texts, w, "Session", 37, style);
        by2 = 136;
    }
    if let Some(w) = &data.seven_day {
        proof {
            reveal_strlit("Weekly");
        }
        render_panel(&mut canvas, &mut texts, w, "Weekly", by2, style);
    }
    proof {
        reveal_strlit("Session");
        reveal_strlit("Weekly");
        assert(texts_view(texts@).subrange(2, texts_view(texts@).len() as int)
            =~= spec_bars_tail_texts(*data, *style));
    }
    Frame { canvas, texts }
}

/// Law: rendering is deterministic: the bars canvas and the disk canvas are
/// functions of the input data and style alone, so identical inputs yield
/// identical canvases on every invocation.
pub proof fn lemma_render_deterministic(
    d1: ActiveData,
    d2: ActiveData,
    used: int,
    total: int,
    style: Style,
)
    requires
        d1 == d2,
    ensures
        spec_bars_canvas(d1, style) == spec_bars_canvas(d2, style),
        crate::pie::spec_disk_canvas(used, total, style) == crate::pie::spec_disk_canvas(
            used,
            total,
            style,
        ),
{
}
} // verus!
