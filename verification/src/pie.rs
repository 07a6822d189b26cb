//! The disk-usage pie renderer: an annular pie chart produced by per-pixel
//! polar sampling, with legend and center text.
//!
//! Geometry is fixed: center at pixel 120, 118, outer radius 68, inner
//! radius 42. Distances are carried in 1/256 pixel, angles in 1/65536 of a
//! turn measured clockwise from straight up. The used slice spans
//! `used_bytes / total_bytes` of the full turn; anti-aliasing blends one
//! pixel of softness on both ring edges; ring pixels are darkened toward the
//! inner edge as a lighting cue. A zero byte total is guarded: the ring is
//! drawn in the neutral ring background and the center shows a placeholder.
use vstd::prelude::*;
use vstd::string::StringExecFns;

use crate::canvas::Canvas;
use crate::canvas::{lemma_pixel_index, spec_draw_rounded_rect};
use crate::canvas::draw_rounded_rect;
use crate::color::{clamp_weight, spec_dim, spec_lerp, Color};
use crate::color::{dim_color, lerp_color};
use crate::style::Style;
use crate::textfmt::{spec_decimal, spec_format_size};
use crate::textfmt::{format_size, u64_to_string};
use crate::textw::{spec_centered_x, spec_right_x, Frame, TextCmd};
use crate::textw::{push_text_centered, push_text_left, push_text_right};

verus! {

/// Disk space totals in bytes. The used count is derived from the total and
/// free counts, never negative.
#[derive(Clone, Copy, PartialEq, Eq, Structural, Debug)]
pub struct DiskInfo {
    pub total_bytes: u64,
    pub free_bytes: u64,
    pub used_bytes: u64,
}

impl DiskInfo {
    /// The used count is the total minus the free count, saturating at zero.
    pub open spec fn wf(&self) -> bool {
        self.used_bytes == if self.free_bytes <= self.total_bytes {
            self.total_bytes - self.free_bytes
        } else {
            0
        }
    }

    /// Builds disk info from a total and a free byte count.
    pub fn new(total_bytes: u64, free_bytes: u64) -> (d: DiskInfo)
        ensures
            d.wf(),
            d.total_bytes == total_bytes,
            d.free_bytes == free_bytes,
    {
        let used_bytes = if free_bytes <= total_bytes {
            total_bytes - free_bytes
        } else {
            0
        };
        DiskInfo { total_bytes, free_bytes, used_bytes }
    }
}

/// Whether `r` is the integer square root of `n`.
pub open spec fn is_isqrt(n: int, r: int) -> bool {
    0 <= r && r * r <= n && n < (r + 1) * (r + 1)
}

/// The integer square root, defined by counting up.
pub open spec fn spec_isqrt(n: nat) -> nat
    decreases n,
{
    if n == 0 {
        0
    } else {
        let p = spec_isqrt((n - 1) as nat);
        if (p + 1) * (p + 1) <= n {
            p + 1
        } else {
            p
        }
    }
}

proof fn lemma_isqrt_is_isqrt(n: nat)
    ensures
        is_isqrt(n as int, spec_isqrt(n) as int),
    decreases n,
{
    if n == 0 {
    } else {
        lemma_isqrt_is_isqrt((n - 1) as nat);
        let p = spec_isqrt((n - 1) as nat) as int;
        if (p + 1) * (p + 1) <= n {
            assert((p + 2) * (p + 2) > (p + 1) * (p + 1)) by (nonlinear_arith)
                requires
                    p >= 0,
            ;
        }
    }
}

proof fn lemma_isqrt_unique(n: int, r1: int, r2: int)
    requires
        is_isqrt(n, r1),
        is_isqrt(n, r2),
    ensures
        r1 == r2,
{
    assert(r1 == r2) by (nonlinear_arith)
        requires
            0 <= r1,
            0 <= r2,
            r1 * r1 <= n,
            n < (r1 + 1) * (r1 + 1),
            r2 * r2 <= n,
            n < (r2 + 1) * (r2 + 1),
    ;
}

/// Computes the integer square root by binary search.
pub fn isqrt(n: u64) -> (r: u64)
    requires
        n < 0x40_0000_0000_0000,
    ensures
        r == spec_isqrt(n as nat),
        is_isqrt(n as int, r as int),
{
    let mut lo: u64 = 0;
    let mut hi: u64 = 0x800_0000;
    proof {
        assert(0x800_0000u64 * 0x800_0000u64 == 0x40_0000_0000_0000) by (nonlinear_arith);
    }
    while hi - lo > 1
        invariant
            lo < hi <= 0x800_0000,
            lo * lo <= n,
            n < hi * hi,
        decreases hi - lo,
    {
        let mid: u64 = lo + (hi - lo) / 2;
        proof {
            assert(mid * mid <= 0x800_0000u64 * 0x800_0000u64) by (nonlinear_arith)
                requires
                    mid <= 0x800_0000u64,
            ;
            assert(0x800_0000u64 * 0x800_0000u64 == 0x40_0000_0000_0000) by (nonlinear_arith);
        }
        if mid * mid <= n {
            lo = mid;
        } else {
            hi = mid;
        }
    }
    proof {
        lemma_isqrt_is_isqrt(n as nat);
        lemma_isqrt_unique(n as int, lo as int, spec_isqrt(n as nat) as int);
    }
    lo
}

/// The interpolation table for the arctangent over one octant: entry `i`
/// holds the angle of slope `i`/16, in 1/65536 of a turn.
pub open spec fn atan_lut(i: int) -> int {
    if i <= 0 {
        0
    } else if i == 1 {
        651
    } else if i == 2 {
        1297
    } else if i == 3 {
        1933
    } else if i == 4 {
        2555
    } else if i == 5 {
        3159
    } else if i == 6 {
        3742
    } else if i == 7 {
        4302
    } else if i == 8 {
        4836
    } else if i == 9 {
        5344
    } else if i == 10 {
        5826
    } else if i == 11 {
        6282
    } else if i == 12 {
        6712
    } else if i == 13 {
        7117
    } else if i == 14 {
        7498
    } else if i == 15 {
        7856
    } else {
        8192
    }
}

fn atan_lut_exec(i: u64) -> (v: u64)
    ensures
        v == atan_lut(i as int),
{
    if i == 0 {
        0
    } else if i == 1 {
        651
    } else if i == 2 {
        1297
    } else if i == 3 {
        1933
    } else if i == 4 {
        2555
    } else if i == 5 {
        3159
    } else if i == 6 {
        3742
    } else if i == 7 {
        4302
    } else if i == 8 {
        4836
    } else if i == 9 {
        5344
    } else if i == 10 {
        5826
    } else if i == 11 {
        6282
    } else if i == 12 {
        6712
    } else if i == 13 {
        7117
    } else if i == 14 {
        7498
    } else if i == 15 {
        7856
    } else {
        8192
    }
}

/// The arctangent of `p`/`q` over the first octant, in 1/65536 of a turn:
/// table interpolation over the slope scaled to 0..=1024.
pub open spec fn spec_atanr(p: int, q: int) -> int {
    let r = p * 1024 / q;
    let idx = r / 64;
    let frac = r % 64;
    if idx >= 16 {
        8192
    } else {
        atan_lut(idx) + (atan_lut(idx + 1) - atan_lut(idx)) * frac / 64
    }
}

fn atanr(p: u64, q: u64) -> (a: u64)
    requires
        0 < q <= 100000,
        p <= q,
    ensures
        a == spec_atanr(p as int, q as int),
        a <= 8192,
{
    proof {
        assert(p * 1024 <= 100000u64 * 1024) by (nonlinear_arith)
            requires
                p <= 100000u64,
        ;
    }
    let r: u64 = p * 1024 / q;
    let idx: u64 = r / 64;
    let frac: u64 = r % 64;
    if idx >= 16 {
        8192
    } else {
        let cur = atan_lut_exec(idx);
        let next = atan_lut_exec(idx + 1);
        assert(next >= cur);
        let d: u64 = next - cur;
        proof {
            assert(d * frac <= d * 64) by (nonlinear_arith)
                requires
                    frac <= 64,
                    d >= 0,
            ;
            assert(cur + d * frac / 64 <= next) by (nonlinear_arith)
                requires
                    d == next - cur,
                    frac < 64,
                    d >= 0,
            ;
        }
        cur + d * frac / 64
    }
}

/// The angle of the ray from the pie center through offset (`dx`, `dy`), in
/// 1/65536 of a turn: zero points straight up, increasing clockwise. Built
/// from the octant arctangent; the wrap just left of straight up returns to
/// zero.
pub open spec fn spec_angle_units(dx: int, dy: int) -> int {
    let ax = if dx >= 0 {
        dx
    } else {
        -dx
    };
    let ay = if dy >= 0 {
        dy
    } else {
        -dy
    };
    if dx >= 0 && dy <= 0 {
        if ax <= ay {
            spec_atanr(ax, ay)
        } else {
            16384 - spec_atanr(ay, ax)
        }
    } else if dx >= 0 {
        if ay <= ax {
            16384 + spec_atanr(ay, ax)
        } else {
            32768 - spec_atanr(ax, ay)
        }
    } else if dy >= 0 {
        if ax <= ay {
            32768 + spec_atanr(ax, ay)
        } else {
            49152 - spec_atanr(ay, ax)
        }
    } else {
        let a = if ay <= ax {
            49152 + spec_atanr(ay, ax)
        } else {
            65536 - spec_atanr(ax, ay)
        };
        if a == 65536 {
            0
        } else {
            a
        }
    }
}

/// Computes the clockwise-from-up angle of offset (`dx`, `dy`) in 1/65536 of
/// a turn.
pub fn angle_units(dx: i64, dy: i64) -> (a: u32)
    requires
        -100000 <= dx <= 100000,
        -100000 <= dy <= 100000,
        (dx != 0 || dy != 0),
    ensures
        a == spec_angle_units(dx as int, dy as int),
        a < 65536,
{
    let ax: u64 = if dx >= 0 {
        dx as u64
    } else {
        (-dx) as u64
    };
    let ay: u64 = if dy >= 0 {
        dy as u64
    } else {
        (-dy) as u64
    };
    if dx >= 0 && dy <= 0 {
        if ax <= ay {
            atanr(ax, ay) as u32
        } else {
            (16384 - atanr(ay, ax)) as u32
        }
    } else if dx >= 0 {
        if ay <= ax {
            (16384 + atanr(ay, ax)) as u32
        } else {
            (32768 - atanr(ax, ay)) as u32
        }
    } else if dy >= 0 {
        if ax <= ay {
            (32768 + atanr(ax, ay)) as u32
        } else {
            (49152 - atanr(ay, ax)) as u32
        }
    } else {
        let a: u64 = if ay <= ax {
            49152 + atanr(ay, ax)
        } else {
            65536 - atanr(ax, ay)
        };
        if a == 65536 {
            0
        } else {
            a as u32
        }
    }
}

/// The angular span of the used slice: the used share of the full turn,
/// rounded down; zero when the total is zero.
pub open spec fn spec_used_angle(used: int, total: int) -> int {
    if total > 0 {
        used * 65536 / total
    } else {
        0
    }
}

/// The angular span of the free slice: the rest of the full turn.
pub open spec fn spec_free_angle(used: int, total: int) -> int {
    65536 - spec_used_angle(used, total)
}

/// Law: for any byte counts with `used <= total`, the used and free slice
/// angles are each a whole share of the turn and sum to exactly one full
/// turn of 65536 angle units.
pub proof fn lemma_pie_angles_sum(used: int, total: int)
    requires
        0 <= used <= total,
    ensures
        spec_used_angle(used, total) + spec_free_angle(used, total) == 65536,
        0 <= spec_used_angle(used, total) <= 65536,
        0 <= spec_free_angle(used, total) <= 65536,
{
    if total > 0 {
        assert(used * 65536 >= 0) by (nonlinear_arith)
            requires
                used >= 0,
        ;
        assert(used * 65536 / total >= 0) by (nonlinear_arith)
            requires
                used * 65536 >= 0,
                total > 0,
        ;
        assert(used * 65536 <= total * 65536) by (nonlinear_arith)
            requires
                used <= total,
        ;
        vstd::arithmetic::div_mod::lemma_div_is_ordered(used * 65536, total * 65536, total);
        vstd::arithmetic::div_mod::lemma_div_multiples_vanish(65536, total);
    }
}

/// Computes the used slice angle from the byte counts.
pub fn used_angle_of(used_bytes: u64, total_bytes: u64) -> (ua: u32)
    requires
        used_bytes <= total_bytes,
    ensures
        ua == spec_used_angle(used_bytes as int, total_bytes as int),
        ua <= 65536,
{
    if total_bytes == 0 {
        return 0;
    }
    proof {
        lemma_pie_angles_sum(used_bytes as int, total_bytes as int);
    }
    ((used_bytes as u128 * 65536 / total_bytes as u128) as u64) as u32
}


/// The ring overlay at canvas pixel (`xi`, `yi`): the anti-aliased annulus
/// color for ring pixels, the faint inner-edge wash just inside the ring,
/// and nothing elsewhere. With `empty` set the whole ring takes the neutral
/// ring background instead of slice colors.
pub open spec fn spec_pie_overlay(ua: int, empty: bool, style: Style, xi: int, yi: int) -> Option<
    Color,
> {
    let dx = xi - 120;
    let dy = yi - 118;
    let d2 = dx * dx + dy * dy;
    let dist = spec_isqrt((65536 * d2) as nat) as int;
    if 10752 <= dist <= 17408 {
        let angle = spec_angle_units(dx, dy);
        let eo = clamp_weight(17408 - dist);
        let ei = clamp_weight(dist - 10752);
        let aa = if eo <= ei {
            eo
        } else {
            ei
        };
        let base = if empty {
            style.pie_bg
        } else if angle < ua {
            spec_lerp(style.pie_used, style.pie_used_2, angle * 256 / ua)
        } else {
            spec_lerp(style.pie_free, style.pie_free_2, (angle - ua) * 256 / (65536 - ua))
        };
        let depth = (dist - 10752) * 256 / 6656;
        let lit = spec_lerp(spec_dim(base), base, depth);
        Some(spec_lerp(style.bg, lit, aa))
    } else if 10496 <= dist < 10752 {
        Some(spec_lerp(style.bg, style.pie_bg, clamp_weight(10752 - dist) * 3 / 10))
    } else {
        None
    }
}

/// Computes the ring overlay for one canvas pixel.
fn pie_overlay(ua: u32, empty: bool, style: &Style, xi: u32, yi: u32) -> (o: Option<Color>)
    requires
        xi < 240,
        yi < 240,
        ua <= 65536,
    ensures
        o == spec_pie_overlay(ua as int, empty, *style, xi as int, yi as int),
        o is Some ==> o->Some_0.a == 255,
{
    let dx: i64 = xi as i64 - 120;
    let dy: i64 = yi as i64 - 118;
    proof {
        assert(0 <= dx * dx <= 240 * 240 && 0 <= dy * dy <= 240 * 240) by (nonlinear_arith)
            requires
                -240 <= dx <= 240,
                -240 <= dy <= 240,
        ;
    }
    let d2: u64 = (dx * dx + dy * dy) as u64;
    let dist: u64 = isqrt(65536 * d2);
    if 10752 <= dist && dist <= 17408 {
        proof {
            if dx == 0 && dy == 0 {
                assert(spec_isqrt(0nat) == 0nat);
            }
        }
        let angle: u64 = angle_units(dx, dy) as u64;
        let eo: u64 = if 17408 - dist > 256 {
            256
        } else {
            17408 - dist
        };
        let ei: u64 = if dist - 10752 > 256 {
            256
        } else {
            dist - 10752
        };
        let aa: u64 = if eo <= ei {
            eo
        } else {
            ei
        };
        let base: Color = if empty {
            style.pie_bg
        } else if angle < ua as u64 {
            proof {
                assert(angle * 256 / (ua as int) <= angle * 256) by (nonlinear_arith)
                    requires
                        ua >= 1,
                        angle * 256 >= 0,
                ;
            }
            lerp_color(style.pie_used, style.pie_used_2, (angle * 256 / (ua as u64)) as u32)
        } else {
            proof {
                assert((angle - ua) * 256 / (65536 - ua as int) <= (angle - ua) * 256)
                    by (nonlinear_arith)
                    requires
                        ua <= angle < 65536,
                        (angle - ua) * 256 >= 0,
                ;
            }
            lerp_color(
                style.pie_free,
                style.pie_free_2,
                ((angle - ua as u64) * 256 / (65536 - ua as u64)) as u32,
            )
        };
        let depth: u32 = ((dist - 10752) * 256 / 6656) as u32;
        let lit = lerp_color(dim_color(base), base, depth);
        Some(lerp_color(style.bg, lit, aa as u32))
    } else if 10496 <= dist && dist < 10752 {
        let aaw: u64 = 10752 - dist;
        Some(lerp_color(style.bg, style.pie_bg, (aaw * 3 / 10) as u32))
    } else {
        None
    }
}

/// One pixel of the ring overlay applied over `c1`.
pub open spec fn spec_ring_pixel(
    c1: Seq<Color>,
    ua: int,
    empty: bool,
    style: Style,
    i: int,
) -> Color {
    match spec_pie_overlay(ua, empty, style, i % 240, i / 240) {
        Some(c) => c,
        None => c1[i],
    }
}

/// The canvas after the ring overlay.
pub open spec fn spec_draw_ring(c1: Seq<Color>, ua: int, empty: bool, style: Style) -> Seq<Color> {
    Seq::new(c1.len(), |i: int| spec_ring_pixel(c1, ua, empty, style, i))
}

/// Paints the ring overlay over the whole canvas.
fn draw_ring(canvas: &mut Canvas, ua: u32, empty: bool, style: &Style)
    requires
        old(canvas).wf(),
        ua <= 65536,
    ensures
        final(canvas).wf(),
        final(canvas)@ == spec_draw_ring(old(canvas)@, ua as int, empty, *style),
{
    let ghost c1 = canvas@;
    let mut k: usize = 0;
    while k < 57600
        invariant
            canvas.wf(),
            c1.len() == 57600,
            k <= 57600,
            ua <= 65536,
            forall|i: int|
                0 <= i < 57600 ==> #[trigger] canvas@[i] == if i < k {
                    spec_ring_pixel(c1, ua as int, empty, *style, i)
                } else {
                    c1[i]
                },
        decreases 57600 - k,
    {
        let px: usize = k % 240;
        let py: usize = k / 240;
        proof {
            lemma_pixel_index(px as int, py as int);
        }
        match pie_overlay(ua, empty, style, px as u32, py as u32) {
            Some(c) => {
                canvas.put_pixel(px, py, c);
            },
            None => {},
        }
        k = k + 1;
    }
    proof {
        assert(canvas@ =~= spec_draw_ring(c1, ua as int, empty, *style));
    }
}

/// The rounded free-space percentage shown at the pie center.
pub open spec fn spec_free_percent(used: int, total: int) -> int {
    ((total - used) * 200 + total) / (2 * total)
}

/// The rounded free percentage lies in 0..=100.
pub proof fn lemma_free_percent_range(used: int, total: int)
    requires
        0 <= used <= total,
        0 < total,
    ensures
        0 <= spec_free_percent(used, total) <= 100,
{
    assert((total - used) * 200 + total <= 201 * total) by (nonlinear_arith)
        requires
            0 <= used <= total,
    ;
    assert((total - used) * 200 + total >= 0) by (nonlinear_arith)
        requires
            0 <= used <= total,
    ;
    vstd::arithmetic::div_mod::lemma_div_is_ordered(
        (total - used) * 200 + total,
        201 * total,
        2 * total,
    );
    vstd::arithmetic::div_mod::lemma_fundamental_div_mod_converse(201 * total, 2 * total, 100, total);
    assert(((total - used) * 200 + total) / (2 * total) >= 0) by (nonlinear_arith)
        requires
            (total - used) * 200 + total >= 0,
            total > 0,
    ;
}

/// Computes the rounded free-space percentage.
pub fn free_percent(used: u64, total: u64) -> (p: u32)
    requires
        used <= total,
        0 < total,
    ensures
        p == spec_free_percent(used as int, total as int),
        p <= 100,
{
    let t = total as u128;
    let u = used as u128;
    proof {
        lemma_free_percent_range(used as int, total as int);
    }
    (((t - u) * 200 + t) / (2 * t)) as u32
}

/// The canvas of a disk frame: background, separator, ring overlay, and the
/// two legend swatches, in that order.
pub open spec fn spec_disk_canvas(used: int, total: int, style: Style) -> Seq<Color> {
    let ua = spec_used_angle(used, total);
    let empty = total <= 0;
    let c_bg = Seq::new(57600, |i: int| style.bg);
    let c_sep = spec_draw_rounded_rect(c_bg, 16, 33, 208, 1, 0, style.separator);
    let c_ring = spec_draw_ring(c_sep, ua, empty, style);
    let c_l1 = spec_draw_rounded_rect(c_ring, 26, 196, 10, 10, 3, style.pie_used);
    spec_draw_rounded_rect(c_l1, 132, 196, 10, 10, 3, style.pie_free)
}

/// The center percentage label: the rounded free percentage with a percent
/// sign, or a placeholder when the byte total is zero.
pub open spec fn spec_center_label(used: int, total: int) -> Seq<char> {
    if total > 0 {
        spec_decimal(spec_free_percent(used, total) as nat) + "%"@
    } else {
        "--"@
    }
}

/// Renders the disk-usage frame: the annular pie chart with center text,
/// header and legend. The canvas is a pure function of the byte counts and
/// the style; the text commands carry the formatted sizes and labels.
pub fn render_disk(info: &DiskInfo, style: &Style) -> (frame: Frame)
    requires
        info.wf(),
        style.wf(),
    ensures
        frame.canvas.wf(),
        frame.canvas@ == spec_disk_canvas(info.used_bytes as int, info.total_bytes as int, *style),
        frame.texts@.len() == 8,
        frame.texts@[0].text@ == "Macintosh HD"@,
        frame.texts@[0].x == 16 && frame.texts@[0].y == 10 && frame.texts@[0].scale == 17,
        frame.texts@[0].bold && frame.texts@[0].color == style.text_primary,
        frame.texts@[1].text@ == spec_format_size(info.total_bytes as nat),
        frame.texts@[1].x == spec_right_x(224, spec_format_size(info.total_bytes as nat), 15),
        frame.texts@[1].y == 11 && frame.texts@[1].scale == 15,
        !frame.texts@[1].bold && frame.texts@[1].color == style.text_dim,
        frame.texts@[2].text@ == spec_center_label(
            info.used_bytes as int,
            info.total_bytes as int,
        ),
        frame.texts@[2].x == spec_centered_x(
            120,
            spec_center_label(info.used_bytes as int, info.total_bytes as int),
            30,
        ),
        frame.texts@[2].y == 102 && frame.texts@[2].scale == 30,
        frame.texts@[2].bold && frame.texts@[2].color == style.text_primary,
        frame.texts@[3].text@ == "free"@,
        frame.texts@[3].x == spec_centered_x(120, "free"@, 13),
        frame.texts@[3].y == 130 && frame.texts@[3].scale == 13,
        !frame.texts@[3].bold && frame.texts@[3].color == style.text_muted,
        frame.texts@[4].text@ == "Used"@,
        frame.texts@[4].x == 40 && frame.texts@[4].y == 192 && frame.texts@[4].scale == 13,
        !frame.texts@[4].bold && frame.texts@[4].color == style.text_muted,
        frame.texts@[5].text@ == spec_format_size(info.used_bytes as nat),
        frame.texts@[5].x == 40 && frame.texts@[5].y == 208 && frame.texts@[5].scale == 22,
        frame.texts@[5].bold && frame.texts@[5].color == style.text_primary,
        frame.texts@[6].text@ == "Free"@,
        frame.texts@[6].x == 146 && frame.texts@[6].y == 192 && frame.texts@[6].scale == 13,
        !frame.texts@[6].bold && frame.texts@[6].color == style.text_muted,
        frame.texts@[7].text@ == spec_format_size(info.free_bytes as nat),
        frame.texts@[7].x == 146 && frame.texts@[7].y == 208 && frame.texts@[7].scale == 22,
        frame.texts@[7].bold && frame.texts@[7].color == style.text_primary,
{
    let mut canvas = Canvas::new(style.bg);
    draw_rounded_rect(&mut canvas, 16, 33, 208, 1, 0, style.separator);
    let ua: u32 = used_angle_of(info.used_bytes, info.total_bytes);
    let empty = info.total_bytes == 0;
    draw_ring(&mut canvas, ua, empty, style);
    draw_rounded_rect(&mut canvas, 26, 196, 10, 10, 3, style.pie_used);
    draw_rounded_rect(&mut canvas, 132, 196, 10, 10, 3, style.pie_free);
    proof {
        assert(canvas@ == spec_disk_canvas(
            info.used_bytes as int,
            info.total_bytes as int,
            *style,
        ));
    }

    let mut texts: Vec<TextCmd> = Vec::new();
    proof {
        crate::textfmt::lemma_format_size_len(info.total_bytes as nat);
        crate::textfmt::lemma_format_size_len(info.used_bytes as nat);
        crate::textfmt::lemma_format_size_len(info.free_bytes as nat);
        reveal_strlit("--");
        reveal_strlit("%");
        reveal_strlit("free");
        if info.total_bytes > 0 {
            lemma_free_percent_range(info.used_bytes as int, info.total_bytes as int);
            crate::textfmt::lemma_decimal_len_u64(
                crate::pie::spec_free_percent(info.used_bytes as int, info.total_bytes as int) as nat,
            );
        }
    }
    push_text_left(&mut texts, 16, 10, 17, style.text_primary, true, String::from_str("Macintosh HD"));
    push_text_right(&mut texts, 224, 11, 15, style.text_dim, false, format_size(info.total_bytes));
    let center_label: String = if info.total_bytes > 0 {
        let pct = free_percent(info.used_bytes, info.total_bytes);
        let mut t = u64_to_string(pct as u64);
        t.append("%");
        t
    } else {
        String::from_str("--")
    };
    push_text_centered(&mut texts, 120, 102, 30, style.text_primary, true, center_label);
    push_text_centered(&mut texts, 120, 130, 13, style.text_muted, false, String::from_str("free"));
    push_text_left(&mut texts, 40, 192, 13, style.text_muted, false, String::from_str("Used"));
    push_text_left(&mut texts, 40, 208, 22, style.text_primary, true, format_size(info.used_bytes));
    push_text_left(&mut texts, 146, 192, 13, style.text_muted, false, String::from_str("Free"));
    push_text_left(&mut texts, 146, 208, 22, style.text_primary, true, format_size(info.free_bytes));
    Frame { canvas, texts }
}
} // verus!
