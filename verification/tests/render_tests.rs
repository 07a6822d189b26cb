use geekmagic_stats::bars::render_bars;
use geekmagic_stats::canvas::{bar_fill_width, draw_circle, draw_pace_marker, draw_vline, Canvas};
use geekmagic_stats::color::{blend_over, dim_color, lerp_color, Color};
use geekmagic_stats::pace::{fill_missing_pace, ActiveData, UsageLevel, UsageWindow};
use geekmagic_stats::pie::{render_disk, DiskInfo};
use geekmagic_stats::style::default_style;
use geekmagic_stats::textw::approx_text_width;

fn sample_data() -> ActiveData {
    let mut data = ActiveData {
        five_hour: Some(UsageWindow {
            utilization_cpct: 5000,
            resets_in_minutes: Some(90),
            usage_level: UsageLevel::Normal,
            pace: None,
        }),
        seven_day: Some(UsageWindow {
            utilization_cpct: 8700,
            resets_in_minutes: Some(2000),
            usage_level: UsageLevel::Warn,
            pace: None,
        }),
        updated_at: None,
    };
    fill_missing_pace(&mut data);
    data
}

#[test]
fn color_blending_basics() {
    let a = Color { r: 10, g: 20, b: 30, a: 255 };
    let b = Color { r: 210, g: 120, b: 30, a: 255 };
    assert_eq!(lerp_color(a, b, 0), a);
    assert_eq!(lerp_color(a, b, 256), b);
    assert_eq!(lerp_color(a, b, 9999), b);
    let mid = lerp_color(a, b, 128);
    assert_eq!(mid, Color { r: 110, g: 70, b: 30, a: 255 });
    let base = Color { r: 100, g: 100, b: 100, a: 255 };
    assert_eq!(blend_over(base, Color { r: 0, g: 0, b: 0, a: 0 }), base);
    assert_eq!(
        blend_over(base, Color { r: 0, g: 255, b: 0, a: 255 }),
        Color { r: 0, g: 255, b: 0, a: 255 }
    );
    assert_eq!(
        dim_color(Color { r: 255, g: 100, b: 0, a: 0 }),
        Color { r: 204, g: 80, b: 0, a: 255 }
    );
}

#[test]
fn fill_width_follows_utilization() {
    assert_eq!(bar_fill_width(192, 0), 0);
    assert_eq!(bar_fill_width(192, 5000), 96);
    assert_eq!(bar_fill_width(192, 10000), 192);
    assert_eq!(bar_fill_width(192, 15000), 192);
    let mut prev = 0u32;
    let mut cpct = 0u32;
    while cpct <= 10000 {
        let fw = bar_fill_width(192, cpct);
        assert!(fw >= prev);
        assert!(fw <= 192);
        prev = fw;
        cpct += 37;
    }
}

#[test]
fn bars_rendering_is_deterministic() {
    let data = sample_data();
    let style1 = default_style();
    let style2 = default_style();
    let f1 = render_bars(&data, &style1);
    let f2 = render_bars(&data, &style2);
    assert_eq!(f1.canvas.to_rgba_bytes(), f2.canvas.to_rgba_bytes());
}

#[test]
fn disk_rendering_is_deterministic() {
    let info = DiskInfo::new(500_000_000_000, 200_000_000_000);
    let style = default_style();
    let f1 = render_disk(&info, &style);
    let f2 = render_disk(&info, &style);
    assert_eq!(f1.canvas.to_rgba_bytes(), f2.canvas.to_rgba_bytes());
}

#[test]
fn canvases_are_fully_opaque() {
    let style = default_style();
    let bars = render_bars(&sample_data(), &style);
    let bytes = bars.canvas.to_rgba_bytes();
    assert_eq!(bytes.len(), 240 * 240 * 4);
    for px in bytes.chunks(4) {
        assert_eq!(px[3], 255);
    }
    let disk = render_disk(&DiskInfo::new(500_000_000_000, 200_000_000_000), &style);
    for px in disk.canvas.to_rgba_bytes().chunks(4) {
        assert_eq!(px[3], 255);
    }
}

#[test]
fn bars_texts_follow_the_layout() {
    let data = sample_data();
    let style = default_style();
    let frame = render_bars(&data, &style);
    let texts = &frame.texts;
    assert_eq!(texts.len(), 14);
    assert_eq!(texts[0].text, "Usage");
    assert_eq!(texts[1].text, "--");
    assert_eq!(texts[1].x, 224 - approx_text_width("--", 15) as i64);
    assert_eq!(texts[2].text, "Session");
    assert_eq!(texts[3].text, "50%");
    assert_eq!(texts[3].x, 218 - approx_text_width("50%", 36) as i64);
    assert_eq!(texts[4].text, "50% left");
    assert_eq!(texts[5].text, "resets 1h 30m");
    // 50% used with 210 of 300 minutes elapsed: well under pace.
    assert_eq!(texts[6].text, "20% reserve");
    assert_eq!(texts[7].text, "Lasts to reset");
    // Second panel: 87% used in the weekly window, over pace.
    assert_eq!(texts[8].text, "Weekly");
    assert_eq!(texts[9].text, "87%");
    assert_eq!(texts[10].text, "13% left");
    assert_eq!(texts[11].text, "resets 1d 9h");
    assert_eq!(texts[12].text, "7% deficit");
    assert_eq!(texts[13].text, "Out in 20h 7m");
}

#[test]
fn bars_placeholder_without_windows() {
    let data = ActiveData { five_hour: None, seven_day: None, updated_at: None };
    let style = default_style();
    let frame = render_bars(&data, &style);
    assert_eq!(frame.texts.len(), 1);
    assert_eq!(frame.texts[0].text, "No usage data");
    assert_eq!(frame.texts[0].x, 60);
    assert_eq!(frame.texts[0].y, 110);
    // The canvas is the plain background.
    let bytes = frame.canvas.to_rgba_bytes();
    for px in bytes.chunks(4) {
        assert_eq!(&px[..3], &[12, 12, 16]);
    }
}

#[test]
fn disk_frame_texts_and_legend() {
    let info = DiskInfo::new(500_000_000_000, 200_000_000_000);
    assert_eq!(info.used_bytes, 300_000_000_000);
    let style = default_style();
    let frame = render_disk(&info, &style);
    let texts = &frame.texts;
    assert_eq!(texts.len(), 8);
    assert_eq!(texts[0].text, "Macintosh HD");
    assert_eq!(texts[1].text, "500 GB");
    assert_eq!(texts[2].text, "40%");
    assert_eq!(texts[3].text, "free");
    assert_eq!(texts[4].text, "Used");
    assert_eq!(texts[5].text, "300 GB");
    assert_eq!(texts[6].text, "Free");
    assert_eq!(texts[7].text, "200 GB");
}

#[test]
fn disk_zero_total_renders_neutral_state() {
    let info = DiskInfo::new(0, 0);
    let style = default_style();
    let frame = render_disk(&info, &style);
    assert_eq!(frame.texts[2].text, "--");
    // Still a full, opaque canvas.
    assert_eq!(frame.canvas.to_rgba_bytes().len(), 240 * 240 * 4);
}

#[test]
fn disk_ring_shows_both_slices() {
    let info = DiskInfo::new(500_000_000_000, 200_000_000_000);
    let style = default_style();
    let frame = render_disk(&info, &style);
    let bytes = frame.canvas.to_rgba_bytes();
    // Straight up from the center, mid-ring: inside the used slice.
    let up = ((118 - 55) * 240 + 120) * 4;
    // Straight left, mid-ring: past the 60% used angle, in the free slice.
    let left = (118 * 240 + (120 - 55)) * 4;
    let up_px = &bytes[up..up + 3];
    let left_px = &bytes[left..left + 3];
    assert_ne!(up_px, left_px);
    // The used slice starts at the indigo accent; blue dominates red there.
    assert!(up_px[2] > up_px[0]);
    // The free slice is green-dominated.
    assert!(left_px[1] > left_px[0] && left_px[1] > left_px[2]);
}

#[test]
fn primitives_clip_at_the_canvas_edge() {
    let style = default_style();
    let red = Color { r: 200, g: 0, b: 0, a: 255 };
    let glow = Color { r: 200, g: 0, b: 0, a: 80 };

    // A circle centered near the corner spills off the canvas and clips.
    let mut canvas = Canvas::new(style.bg);
    draw_circle(&mut canvas, 2, 2, 5, red);
    assert_eq!(canvas.get_pixel(0, 0), red);
    assert_eq!(canvas.get_pixel(2, 7), red);
    assert_eq!(canvas.get_pixel(8, 2), style.bg);

    // A column beyond the right edge is skipped entirely; one running off
    // the bottom stops at the last row.
    let before = canvas.to_rgba_bytes();
    draw_vline(&mut canvas, 400, 0, 240, red);
    assert_eq!(canvas.to_rgba_bytes(), before);
    draw_vline(&mut canvas, 100, 230, 10000, red);
    assert_eq!(canvas.get_pixel(100, 239), red);
    assert_eq!(canvas.get_pixel(100, 229), style.bg);

    // A marker at the very left edge keeps its two-column core and drops
    // the off-canvas glow column.
    let mut canvas2 = Canvas::new(style.bg);
    draw_pace_marker(&mut canvas2, 0, 5, 100, 10, 0, red, glow);
    assert_eq!(canvas2.get_pixel(0, 5), red);
    assert_eq!(canvas2.get_pixel(1, 5), red);
    assert_ne!(canvas2.get_pixel(2, 5), style.bg);
    assert_eq!(canvas2.get_pixel(3, 5), style.bg);
}
