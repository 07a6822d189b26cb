//! The fixed 240x240 RGBA canvas and the procedural drawing primitives:
//! rounded-rectangle fill, filled circle, gradient progress bar and the pace
//! marker overlay.
//!
//! Every pixel of a well-formed canvas is fully opaque, and drawing never
//! writes outside the canvas: out-of-range coordinates are silently clipped.
//! Each primitive's contract gives the new canvas pixel by pixel as a
//! function of the old one.
use vstd::prelude::*;

use crate::color::{spec_lerp, Color};
use crate::color::lerp_color;
use crate::mask::spec_inside_rounded;
use crate::mask::is_inside_rounded;

verus! {

/// Canvas width in pixels.
pub const CANVAS_W: usize = 240;

/// Canvas height in pixels.
pub const CANVAS_H: usize = 240;

/// Number of pixels on the canvas.
pub const CANVAS_PIXELS: usize = 57600;

/// The fixed-resolution canvas: 240x240 pixels, row major.
pub struct Canvas {
    pixels: Vec<Color>,
}

impl View for Canvas {
    type V = Seq<Color>;

    closed spec fn view(&self) -> Seq<Color> {
        self.pixels@
    }
}

impl Canvas {
    /// A well-formed canvas has exactly 240x240 pixels, all fully opaque.
    pub open spec fn wf(&self) -> bool {
        &&& self@.len() == 57600
        &&& forall|i: int| 0 <= i < 57600 ==> (#[trigger] self@[i]).a == 255
    }

    /// Creates a canvas filled with one opaque color.
    pub fn new(bg: Color) -> (c: Canvas)
        requires
            bg.a == 255,
        ensures
            c.wf(),
            c@ == Seq::new(57600, |i: int| bg),
    {
        let mut pixels: Vec<Color> = Vec::new();
        let mut n: usize = 0;
        while n < 57600
            invariant
                n <= 57600,
                pixels@.len() == n,
                forall|i: int| 0 <= i < n ==> pixels@[i] == bg,
            decreases 57600 - n,
        {
            pixels.push(bg);
            n = n + 1;
        }
        let c = Canvas { pixels };
        proof {
            assert(c@ =~= Seq::new(57600, |i: int| bg));
        }
        c
    }

    /// Writes one pixel; the coordinates must be on the canvas and the color
    /// opaque.
    pub fn put_pixel(&mut self, x: usize, y: usize, color: Color)
        requires
            old(self).wf(),
            x < 240,
            y < 240,
            color.a == 255,
        ensures
            final(self).wf(),
            final(self)@ == old(self)@.update((y * 240 + x) as int, color),
    {
        proof {
            lemma_pixel_index(x as int, y as int);
        }
        let idx: usize = y * 240 + x;
        self.pixels[idx] = color;
    }

    /// Reads one pixel.
    pub fn get_pixel(&self, x: usize, y: usize) -> (c: Color)
        requires
            self.wf(),
            x < 240,
            y < 240,
        ensures
            c == self@[y * 240 + x],
    {
        proof {
            lemma_pixel_index(x as int, y as int);
        }
        let idx: usize = y * 240 + x;
        self.pixels[idx]
    }

    /// Hands the canvas out as RGBA bytes, row major, four bytes per pixel.
    pub fn to_rgba_bytes(&self) -> (bytes: Vec<u8>)
        requires
            self.wf(),
        ensures
            bytes@.len() == 4 * 57600,
            forall|i: int|
                0 <= i < 57600 ==> {
                    &&& bytes@[4 * i] == (#[trigger] self@[i]).r
                    &&& bytes@[4 * i + 1] == self@[i].g
                    &&& bytes@[4 * i + 2] == self@[i].b
                    &&& bytes@[4 * i + 3] == self@[i].a
                },
    {
        let mut bytes: Vec<u8> = Vec::new();
        let mut n: usize = 0;
        while n < 57600
            invariant
                self.wf(),
                n <= 57600,
                bytes@.len() == 4 * n,
                forall|i: int|
                    0 <= i < n ==> {
                        &&& bytes@[4 * i] == (#[trigger] self@[i]).r
                        &&& bytes@[4 * i + 1] == self@[i].g
                        &&& bytes@[4 * i + 2] == self@[i].b
                        &&& bytes@[4 * i + 3] == self@[i].a
                    },
            decreases 57600 - n,
        {
            let p = self.pixels[n];
            bytes.push(p.r);
            bytes.push(p.g);
            bytes.push(p.b);
            bytes.push(p.a);
            n = n + 1;
        }
        bytes
    }
}

/// Row-major index arithmetic: pixel (x, y) sits at index y * 240 + x.
pub proof fn lemma_pixel_index(x: int, y: int)
    requires
        0 <= x < 240,
        0 <= y < 240,
    ensures
        0 <= y * 240 + x < 57600,
        (y * 240 + x) % 240 == x,
        (y * 240 + x) / 240 == y,
{
    vstd::arithmetic::div_mod::lemma_fundamental_div_mod_converse(y * 240 + x, 240, y, x);
}

/// One pixel of a rounded-rectangle fill over `c0`: inside the box and the
/// rounded mask the fill color is written, everywhere else the old pixel
/// stays.
pub open spec fn spec_rect_pixel(
    c0: Seq<Color>,
    x: int,
    y: int,
    w: int,
    h: int,
    r: int,
    color: Color,
    i: int,
) -> Color {
    let xi = i % 240;
    let yi = i / 240;
    if x <= xi < x + w && y <= yi < y + h && spec_inside_rounded(xi - x, yi - y, w, h, r) {
        color
    } else {
        c0[i]
    }
}

/// The canvas after a rounded-rectangle fill.
pub open spec fn spec_draw_rounded_rect(
    c0: Seq<Color>,
    x: int,
    y: int,
    w: int,
    h: int,
    r: int,
    color: Color,
) -> Seq<Color> {
    Seq::new(c0.len(), |i: int| spec_rect_pixel(c0, x, y, w, h, r, color, i))
}

/// One pixel of the partial fill that has completed `cols` whole columns and
/// `rows` pixels of the next column.
spec fn spec_rect_pixel_partial(
    c0: Seq<Color>,
    x: int,
    y: int,
    w: int,
    h: int,
    r: int,
    color: Color,
    cols: int,
    rows: int,
    i: int,
) -> Color {
    let xi = i % 240;
    let yi = i / 240;
    if x <= xi < x + w && y <= yi < y + h && spec_inside_rounded(xi - x, yi - y, w, h, r) && (xi - x
        < cols || (xi - x == cols && yi - y < rows)) {
        color
    } else {
        c0[i]
    }
}

/// Fills a rounded rectangle with one color, overwrite semantics, clipped to
/// the canvas.
pub fn draw_rounded_rect(canvas: &mut Canvas, x: usize, y: usize, w: u32, h: u32, r: u32, color: Color)
    requires
        old(canvas).wf(),
        color.a == 255,
        x + w <= u32::MAX,
        y + h <= u32::MAX,
    ensures
        final(canvas).wf(),
        final(canvas)@ == spec_draw_rounded_rect(
            old(canvas)@,
            x as int,
            y as int,
            w as int,
            h as int,
            r as int,
            color,
        ),
{
    let ghost c0 = canvas@;
    let mut px: u32 = 0;
    while px < w
        invariant
            canvas.wf(),
            c0.len() == 57600,
            px <= w,
            color.a == 255,
            x + w <= u32::MAX,
            y + h <= u32::MAX,
            forall|i: int|
                0 <= i < 57600 ==> #[trigger] canvas@[i] == spec_rect_pixel_partial(
                    c0,
                    x as int,
                    y as int,
                    w as int,
                    h as int,
                    r as int,
                    color,
                    px as int,
                    0,
                    i,
                ),
        decreases w - px,
    {
        let mut py: u32 = 0;
        while py < h
            invariant
                canvas.wf(),
                c0.len() == 57600,
                px < w,
                py <= h,
                color.a == 255,
                x + w <= u32::MAX,
                y + h <= u32::MAX,
                forall|i: int|
                    0 <= i < 57600 ==> #[trigger] canvas@[i] == spec_rect_pixel_partial(
                        c0,
                        x as int,
                        y as int,
                        w as int,
                        h as int,
                        r as int,
                        color,
                        px as int,
                        py as int,
                        i,
                    ),
            decreases h - py,
        {
            if is_inside_rounded(px, py, w, h, r) {
                let ax: usize = x + px as usize;
                let ay: usize = y + py as usize;
                if ax < 240 && ay < 240 {
                    proof {
                        lemma_pixel_index(ax as int, ay as int);
                    }
                    canvas.put_pixel(ax, ay, color);
                }
            }
            proof {
                assert forall|i: int| 0 <= i < 57600 implies #[trigger] canvas@[i]
                    == spec_rect_pixel_partial(
                    c0,
                    x as int,
                    y as int,
                    w as int,
                    h as int,
                    r as int,
                    color,
                    px as int,
                    py as int + 1,
                    i,
                ) by {
                    lemma_pixel_index(i % 240, i / 240);
                }
            }
            py = py + 1;
        }
        px = px + 1;
    }
    proof {
        assert(canvas@ =~= spec_draw_rounded_rect(
            c0,
            x as int,
            y as int,
            w as int,
            h as int,
            r as int,
            color,
        ));
    }
}


/// One pixel of a filled-circle draw: pixels within squared distance
/// `cr * cr` of the center are overwritten.
pub open spec fn spec_circle_pixel(
    c0: Seq<Color>,
    cx: int,
    cy: int,
    cr: int,
    color: Color,
    i: int,
) -> Color {
    let xi = i % 240;
    let yi = i / 240;
    if crate::mask::sq_dist(xi, yi, cx, cy) <= cr * cr {
        color
    } else {
        c0[i]
    }
}

/// The canvas after a filled-circle draw.
pub open spec fn spec_draw_circle(c0: Seq<Color>, cx: int, cy: int, cr: int, color: Color) -> Seq<
    Color,
> {
    Seq::new(c0.len(), |i: int| spec_circle_pixel(c0, cx, cy, cr, color, i))
}

spec fn spec_circle_pixel_partial(
    c0: Seq<Color>,
    cx: int,
    cy: int,
    cr: int,
    color: Color,
    ax: int,
    ay: int,
    i: int,
) -> Color {
    let xi = i % 240;
    let yi = i / 240;
    if crate::mask::sq_dist(xi, yi, cx, cy) <= cr * cr && (xi < ax || (xi == ax && yi < ay)) {
        color
    } else {
        c0[i]
    }
}

proof fn lemma_abs_gt_sq(a: int, r: int)
    requires
        r >= 0,
        (a > r || a < -r),
    ensures
        a * a > r * r,
{
    assert(a * a > r * r) by (nonlinear_arith)
        requires
            r >= 0,
            (a > r || a < -r),
    ;
}

proof fn lemma_sq_nonneg(a: int)
    ensures
        a * a >= 0,
{
    assert(a * a >= 0) by (nonlinear_arith);
}

/// A pixel farther than the radius from the circle center, on either axis,
/// lies outside the circle.
proof fn lemma_outside_circle(xi: int, yi: int, cx: int, cy: int, cr: int)
    requires
        cr >= 0,
        (xi - cx > cr || xi - cx < -cr || yi - cy > cr || yi - cy < -cr),
    ensures
        crate::mask::sq_dist(xi, yi, cx, cy) > cr * cr,
{
    lemma_sq_nonneg(xi - cx);
    lemma_sq_nonneg(yi - cy);
    if xi - cx > cr || xi - cx < -cr {
        lemma_abs_gt_sq(xi - cx, cr);
    } else {
        lemma_abs_gt_sq(yi - cy, cr);
    }
}

/// Draws a filled circle of radius `cr` centered at `cx`, `cy`; overwrite
/// semantics, clipped to the canvas: any part of the circle beyond the
/// canvas is silently skipped.
pub fn draw_circle(canvas: &mut Canvas, cx: usize, cy: usize, cr: u32, color: Color)
    requires
        old(canvas).wf(),
        color.a == 255,
        cx <= 100000,
        cy <= 100000,
        cr <= 100000,
    ensures
        final(canvas).wf(),
        final(canvas)@ == spec_draw_circle(
            old(canvas)@,
            cx as int,
            cy as int,
            cr as int,
            color,
        ),
{
    let ghost c0 = canvas@;
    let x_lo: usize = if cx >= cr as usize {
        cx - cr as usize
    } else {
        0
    };
    let x_hi: usize = if cx + (cr as usize) >= 239 {
        239
    } else {
        cx + cr as usize
    };
    let y_lo: usize = if cy >= cr as usize {
        cy - cr as usize
    } else {
        0
    };
    let y_hi: usize = if cy + (cr as usize) >= 239 {
        239
    } else {
        cy + cr as usize
    };
    if x_lo > 239 || y_lo > 239 {
        proof {
            assert forall|i: int| 0 <= i < 57600 implies canvas@[i] == spec_circle_pixel(
                c0,
                cx as int,
                cy as int,
                cr as int,
                color,
                i,
            ) by {
                lemma_pixel_index(i % 240, i / 240);
                lemma_outside_circle(i % 240, i / 240, cx as int, cy as int, cr as int);
            }
            assert(canvas@ =~= spec_draw_circle(c0, cx as int, cy as int, cr as int, color));
        }
        return ;
    }
    let mut ax: usize = x_lo;
    proof {
        assert forall|i: int| 0 <= i < 57600 implies canvas@[i] == spec_circle_pixel_partial(
            c0,
            cx as int,
            cy as int,
            cr as int,
            color,
            x_lo as int,
            y_lo as int,
            i,
        ) by {
            lemma_pixel_index(i % 240, i / 240);
            let xi = i % 240;
            let yi = i / 240;
            if yi - cy > cr || yi - cy < -(cr as int) || xi - cx > cr || xi - cx < -(cr as int) {
                lemma_outside_circle(xi, yi, cx as int, cy as int, cr as int);
            }
        }
    }
    while ax <= x_hi
        invariant
            canvas.wf(),
            c0.len() == 57600,
            color.a == 255,
            cx <= 100000,
            cy <= 100000,
            cr <= 100000,
            x_lo <= ax <= x_hi + 1,
            x_lo <= x_hi <= 239,
            y_lo <= y_hi <= 239,
            x_lo == if cx >= cr {
                cx - cr
            } else {
                0int
            },
            x_hi == if cx + cr >= 239 {
                239int
            } else {
                cx + cr
            },
            y_lo == if cy >= cr {
                cy - cr
            } else {
                0int
            },
            y_hi == if cy + cr >= 239 {
                239int
            } else {
                cy + cr
            },
            forall|i: int|
                0 <= i < 57600 ==> #[trigger] canvas@[i] == spec_circle_pixel_partial(
                    c0,
                    cx as int,
                    cy as int,
                    cr as int,
                    color,
                    ax as int,
                    y_lo as int,
                    i,
                ),
        decreases x_hi + 1 - ax,
    {
        let mut ay: usize = y_lo;
        while ay <= y_hi
            invariant
                canvas.wf(),
                c0.len() == 57600,
                color.a == 255,
                cx <= 100000,
                cy <= 100000,
                cr <= 100000,
                ax <= 239,
                y_lo <= ay <= y_hi + 1,
                y_lo <= y_hi <= 239,
                y_lo == if cy >= cr {
                    cy - cr
                } else {
                    0int
                },
                y_hi == if cy + cr >= 239 {
                    239int
                } else {
                    cy + cr
                },
                forall|i: int|
                    0 <= i < 57600 ==> #[trigger] canvas@[i] == spec_circle_pixel_partial(
                        c0,
                        cx as int,
                        cy as int,
                        cr as int,
                        color,
                        ax as int,
                        ay as int,
                        i,
                    ),
            decreases y_hi + 1 - ay,
        {
            let ddx: i64 = ax as i64 - cx as i64;
            let ddy: i64 = ay as i64 - cy as i64;
            proof {
                assert(0 <= ddx * ddx <= 200000 * 200000 && 0 <= ddy * ddy <= 200000 * 200000 && 0
                    <= (cr as i64) * (cr as i64) <= 200000 * 200000) by (nonlinear_arith)
                    requires
                        -200000 <= ddx <= 200000,
                        -200000 <= ddy <= 200000,
                        0 <= cr <= 200000,
                ;
            }
            if ddx * ddx + ddy * ddy <= (cr as i64) * (cr as i64) {
                proof {
                    lemma_pixel_index(ax as int, ay as int);
                }
                canvas.put_pixel(ax, ay, color);
            }
            proof {
                assert forall|i: int| 0 <= i < 57600 implies #[trigger] canvas@[i]
                    == spec_circle_pixel_partial(
                    c0,
                    cx as int,
                    cy as int,
                    cr as int,
                    color,
                    ax as int,
                    ay as int + 1,
                    i,
                ) by {
                    lemma_pixel_index(i % 240, i / 240);
                }
            }
            ay = ay + 1;
        }
        proof {
            assert forall|i: int| 0 <= i < 57600 implies #[trigger] canvas@[i]
                == spec_circle_pixel_partial(
                c0,
                cx as int,
                cy as int,
                cr as int,
                color,
                ax as int + 1,
                y_lo as int,
                i,
            ) by {
                lemma_pixel_index(i % 240, i / 240);
                let xi = i % 240;
                let yi = i / 240;
                if yi - cy > cr || yi - cy < -(cr as int) || xi - cx > cr || xi - cx < -(cr
                    as int) {
                    lemma_outside_circle(xi, yi, cx as int, cy as int, cr as int);
                }
            }
        }
        ax = ax + 1;
    }
    proof {
        assert forall|i: int| 0 <= i < 57600 implies #[trigger] canvas@[i] == spec_circle_pixel(
            c0,
            cx as int,
            cy as int,
            cr as int,
            color,
            i,
        ) by {
            lemma_pixel_index(i % 240, i / 240);
            let xi = i % 240;
            let yi = i / 240;
            if yi - cy > cr || yi - cy < -(cr as int) || xi - cx > cr || xi - cx < -(cr as int) {
                lemma_outside_circle(xi, yi, cx as int, cy as int, cr as int);
            }
        }
        assert(canvas@ =~= spec_draw_circle(c0, cx as int, cy as int, cr as int, color));
    }
}

/// One pixel of a one-column overwrite: column `x`, rows `y0` up to `y1`.
pub open spec fn spec_vline_pixel(
    c0: Seq<Color>,
    x: int,
    y0: int,
    y1: int,
    color: Color,
    i: int,
) -> Color {
    if i % 240 == x && y0 <= i / 240 < y1 {
        color
    } else {
        c0[i]
    }
}

/// The canvas after a one-column overwrite.
pub open spec fn spec_draw_vline(c0: Seq<Color>, x: int, y0: int, y1: int, color: Color) -> Seq<
    Color,
> {
    Seq::new(c0.len(), |i: int| spec_vline_pixel(c0, x, y0, y1, color, i))
}

/// One pixel of a one-column alpha blend: the overlay is composited onto the
/// old pixel in column `x`, rows `y0` up to `y1`.
pub open spec fn spec_vline_blend_pixel(
    c0: Seq<Color>,
    x: int,
    y0: int,
    y1: int,
    glow: Color,
    i: int,
) -> Color {
    if i % 240 == x && y0 <= i / 240 < y1 {
        crate::color::spec_blend_over(c0[i], glow)
    } else {
        c0[i]
    }
}

/// The canvas after a one-column alpha blend.
pub open spec fn spec_draw_vline_blend(
    c0: Seq<Color>,
    x: int,
    y0: int,
    y1: int,
    glow: Color,
) -> Seq<Color> {
    Seq::new(c0.len(), |i: int| spec_vline_blend_pixel(c0, x, y0, y1, glow, i))
}

/// Overwrites one column of pixels with an opaque color, clipped to the
/// canvas: a column or rows beyond the canvas are silently skipped.
pub fn draw_vline(canvas: &mut Canvas, x: usize, y0: usize, y1: usize, color: Color)
    requires
        old(canvas).wf(),
        y0 <= y1,
        color.a == 255,
    ensures
        final(canvas).wf(),
        final(canvas)@ == spec_draw_vline(old(canvas)@, x as int, y0 as int, y1 as int, color),
{
    let ghost c0 = canvas@;
    if x >= 240 || y0 >= 240 {
        proof {
            assert forall|i: int| 0 <= i < 57600 implies canvas@[i] == spec_vline_pixel(
                c0,
                x as int,
                y0 as int,
                y1 as int,
                color,
                i,
            ) by {
                lemma_pixel_index(i % 240, i / 240);
            }
            assert(canvas@ =~= spec_draw_vline(c0, x as int, y0 as int, y1 as int, color));
        }
        return ;
    }
    let yend: usize = if y1 > 240 {
        240
    } else {
        y1
    };
    let mut yy: usize = y0;
    while yy < yend
        invariant
            canvas.wf(),
            c0.len() == 57600,
            x < 240,
            y0 <= yy <= yend <= 240,
            yend == if y1 > 240 {
                240int
            } else {
                y1 as int
            },
            color.a == 255,
            forall|i: int|
                0 <= i < 57600 ==> #[trigger] canvas@[i] == spec_vline_pixel(
                    c0,
                    x as int,
                    y0 as int,
                    yy as int,
                    color,
                    i,
                ),
        decreases yend - yy,
    {
        proof {
            lemma_pixel_index(x as int, yy as int);
        }
        canvas.put_pixel(x, yy, color);
        proof {
            assert forall|i: int| 0 <= i < 57600 implies #[trigger] canvas@[i] == spec_vline_pixel(
                c0,
                x as int,
                y0 as int,
                yy as int + 1,
                color,
                i,
            ) by {
                lemma_pixel_index(i % 240, i / 240);
            }
        }
        yy = yy + 1;
    }
    proof {
        assert forall|i: int| 0 <= i < 57600 implies canvas@[i] == spec_vline_pixel(
            c0,
            x as int,
            y0 as int,
            y1 as int,
            color,
            i,
        ) by {
            lemma_pixel_index(i % 240, i / 240);
        }
        assert(canvas@ =~= spec_draw_vline(c0, x as int, y0 as int, y1 as int, color));
    }
}

/// Composites a semi-transparent overlay color onto one column of pixels,
/// clipped to the canvas like `draw_vline`.
pub fn draw_vline_blend(canvas: &mut Canvas, x: usize, y0: usize, y1: usize, glow: Color)
    requires
        old(canvas).wf(),
        y0 <= y1,
    ensures
        final(canvas).wf(),
        final(canvas)@ == spec_draw_vline_blend(old(canvas)@, x as int, y0 as int, y1 as int, glow),
{
    let ghost c0 = canvas@;
    if x >= 240 || y0 >= 240 {
        proof {
            assert forall|i: int| 0 <= i < 57600 implies canvas@[i] == spec_vline_blend_pixel(
                c0,
                x as int,
                y0 as int,
                y1 as int,
                glow,
                i,
            ) by {
                lemma_pixel_index(i % 240, i / 240);
            }
            assert(canvas@ =~= spec_draw_vline_blend(c0, x as int, y0 as int, y1 as int, glow));
        }
        return ;
    }
    let yend: usize = if y1 > 240 {
        240
    } else {
        y1
    };
    let mut yy: usize = y0;
    while yy < yend
        invariant
            canvas.wf(),
            c0.len() == 57600,
            x < 240,
            y0 <= yy <= yend <= 240,
            yend == if y1 > 240 {
                240int
            } else {
                y1 as int
            },
            forall|i: int|
                0 <= i < 57600 ==> #[trigger] canvas@[i] == spec_vline_blend_pixel(
                    c0,
                    x as int,
                    y0 as int,
                    yy as int,
                    glow,
                    i,
                ),
        decreases yend - yy,
    {
        proof {
            lemma_pixel_index(x as int, yy as int);
        }
        let existing = canvas.get_pixel(x, yy);
        let blended = crate::color::blend_over(existing, glow);
        canvas.put_pixel(x, yy, blended);
        proof {
            assert forall|i: int| 0 <= i < 57600 implies #[trigger] canvas@[i]
                == spec_vline_blend_pixel(c0, x as int, y0 as int, yy as int + 1, glow, i) by {
                lemma_pixel_index(i % 240, i / 240);
            }
        }
        yy = yy + 1;
    }
    proof {
        assert forall|i: int| 0 <= i < 57600 implies canvas@[i] == spec_vline_blend_pixel(
            c0,
            x as int,
            y0 as int,
            y1 as int,
            glow,
            i,
        ) by {
            lemma_pixel_index(i % 240, i / 240);
        }
        assert(canvas@ =~= spec_draw_vline_blend(c0, x as int, y0 as int, y1 as int, glow));
    }
}

/// The marker column for an expected consumption given in hundredths of a
/// percent: that share of the bar width, measured from the bar's left edge.
pub open spec fn spec_marker_x(bar_x: int, bar_w: int, expected_cpct: int) -> int {
    bar_x + bar_w * crate::pace::spec_actual_cpct(expected_cpct) / 10000
}

/// One pixel of the pace marker: a two-column solid core with one column of
/// semi-transparent glow composited on each side.
pub open spec fn spec_marker_pixel(
    c0: Seq<Color>,
    mx: int,
    y: int,
    h: int,
    core: Color,
    glow: Color,
    i: int,
) -> Color {
    let xi = i % 240;
    let yi = i / 240;
    if (xi == mx || xi == mx + 1) && y - 3 <= yi < y + h + 3 {
        core
    } else if (xi == mx - 1 || xi == mx + 2) && y - 2 <= yi < y + h + 2 {
        crate::color::spec_blend_over(c0[i], glow)
    } else {
        c0[i]
    }
}

/// The canvas after the pace marker overlay.
pub open spec fn spec_draw_pace_marker(
    c0: Seq<Color>,
    mx: int,
    y: int,
    h: int,
    core: Color,
    glow: Color,
) -> Seq<Color> {
    Seq::new(c0.len(), |i: int| spec_marker_pixel(c0, mx, y, h, core, glow, i))
}

/// Overlays the pace marker on a bar: a vertical two-pixel core at the
/// column for `expected_cpct`, drawn by overwrite, plus a one-pixel glow on
/// each side composited with `blend_over`; clipped to the canvas.
pub fn draw_pace_marker(
    canvas: &mut Canvas,
    bar_x: usize,
    bar_y: usize,
    bar_w: u32,
    bar_h: u32,
    expected_cpct: u32,
    core: Color,
    glow: Color,
)
    requires
        old(canvas).wf(),
        core.a == 255,
        bar_x <= 100000,
        bar_y <= 100000,
        bar_w <= 10000,
        bar_h <= 10000,
    ensures
        final(canvas).wf(),
        final(canvas)@ == spec_draw_pace_marker(
            old(canvas)@,
            spec_marker_x(bar_x as int, bar_w as int, expected_cpct as int),
            bar_y as int,
            bar_h as int,
            core,
            glow,
        ),
{
    let ghost c0 = canvas@;
    let clamped: u32 = if expected_cpct > 10000 {
        10000
    } else {
        expected_cpct
    };
    proof {
        assert(bar_w * clamped <= 10000 * 10000 && (bar_w as int) * (clamped as int) / 10000
            <= bar_w) by (nonlinear_arith)
            requires
                bar_w <= 10000,
                clamped <= 10000,
        ;
    }
    let mx: usize = bar_x + (bar_w * clamped / 10000) as usize;
    let y_core_top: usize = if bar_y >= 3 {
        bar_y - 3
    } else {
        0
    };
    let y_core_bot: usize = bar_y + bar_h as usize + 3;
    let y_glow_top: usize = if bar_y >= 2 {
        bar_y - 2
    } else {
        0
    };
    let y_glow_bot: usize = bar_y + bar_h as usize + 2;
    draw_vline(canvas, mx, y_core_top, y_core_bot, core);
    draw_vline(canvas, mx + 1, y_core_top, y_core_bot, core);
    if mx >= 1 {
        draw_vline_blend(canvas, mx - 1, y_glow_top, y_glow_bot, glow);
    }
    draw_vline_blend(canvas, mx + 2, y_glow_top, y_glow_bot, glow);
    proof {
        let mxi = mx as int;
        assert forall|i: int| 0 <= i < 57600 implies #[trigger] canvas@[i] == spec_marker_pixel(
            c0,
            mxi,
            bar_y as int,
            bar_h as int,
            core,
            glow,
            i,
        ) by {
            lemma_pixel_index(i % 240, i / 240);
        }
        assert(canvas@ =~= spec_draw_pace_marker(
            c0,
            mxi,
            bar_y as int,
            bar_h as int,
            core,
            glow,
        ));
    }
}

/// The progress-bar fill width for a utilization in hundredths of a percent:
/// the utilization share of the bar width, clamped to the full bar and
/// rounded to the nearest pixel.
pub open spec fn spec_bar_fill_width(total_w: int, cpct: int) -> int {
    (total_w * crate::pace::spec_actual_cpct(cpct) + 5000) / 10000
}

/// Computes the fill width of a progress bar of width `total_w` for a
/// utilization in hundredths of a percent.
pub fn bar_fill_width(total_w: u32, utilization_cpct: u32) -> (fw: u32)
    ensures
        fw == spec_bar_fill_width(total_w as int, utilization_cpct as int),
        fw <= total_w,
{
    let clamped: u32 = if utilization_cpct > 10000 {
        10000
    } else {
        utilization_cpct
    };
    proof {
        assert(total_w * clamped <= total_w * 10000) by (nonlinear_arith)
            requires
                clamped <= 10000,
                total_w >= 0,
        ;
        vstd::arithmetic::div_mod::lemma_div_is_ordered(
            total_w as int * clamped as int + 5000,
            total_w as int * 10000 + 5000,
            10000,
        );
        vstd::arithmetic::div_mod::lemma_fundamental_div_mod_converse(
            total_w as int * 10000 + 5000,
            10000,
            total_w as int,
            5000,
        );
        assert((total_w as int * clamped as int + 5000) / 10000 >= 0) by (nonlinear_arith)
            requires
                total_w as int * clamped as int >= 0,
        ;
        assert(total_w as int * clamped as int >= 0) by (nonlinear_arith)
            requires
                total_w >= 0,
                clamped >= 0,
        ;
    }
    ((total_w as u64 * clamped as u64 + 5000) / 10000) as u32
}

/// Law: the fill width is monotone: a larger utilization never yields a
/// narrower fill.
pub proof fn lemma_bar_fill_width_monotone(total_w: int, u1: int, u2: int)
    requires
        0 <= total_w,
        0 <= u1 <= u2,
    ensures
        spec_bar_fill_width(total_w, u1) <= spec_bar_fill_width(total_w, u2),
{
    let c1 = crate::pace::spec_actual_cpct(u1);
    let c2 = crate::pace::spec_actual_cpct(u2);
    assert(total_w * c1 <= total_w * c2) by (nonlinear_arith)
        requires
            0 <= total_w,
            c1 <= c2,
    ;
    vstd::arithmetic::div_mod::lemma_div_is_ordered(total_w * c1 + 5000, total_w * c2 + 5000, 10000);
}

/// The weight for the gradient color of a bar column: the column's share of
/// the bar width on the 0..=256 blend scale.
pub open spec fn spec_grad_t(px: int, total_w: int) -> int {
    if total_w > 1 {
        px * 256 / (total_w - 1)
    } else {
        0
    }
}

/// One pixel of a gradient progress bar over `c0`: the fill region gets the
/// left-to-right gradient under the fill's own rounded mask, the rest of the
/// bar box gets the track color under the bar's rounded mask, and everything
/// else keeps the old pixel.
pub open spec fn spec_gradient_pixel(
    c0: Seq<Color>,
    x: int,
    y: int,
    total_w: int,
    h: int,
    fill_w: int,
    track: Color,
    left: Color,
    right: Color,
    r: int,
    i: int,
) -> Color {
    let xi = i % 240;
    let yi = i / 240;
    if x <= xi < x + fill_w && y <= yi < y + h && spec_inside_rounded(xi - x, yi - y, fill_w, h, r) {
        spec_lerp(left, right, spec_grad_t(xi - x, total_w))
    } else {
        spec_rect_pixel(c0, x, y, total_w, h, r, track, i)
    }
}

/// The canvas after a gradient progress bar draw.
pub open spec fn spec_draw_gradient_bar(
    c0: Seq<Color>,
    x: int,
    y: int,
    total_w: int,
    h: int,
    fill_w: int,
    track: Color,
    left: Color,
    right: Color,
    r: int,
) -> Seq<Color> {
    Seq::new(
        c0.len(),
        |i: int| spec_gradient_pixel(c0, x, y, total_w, h, fill_w, track, left, right, r, i),
    )
}

spec fn spec_gradient_pixel_partial(
    c0: Seq<Color>,
    x: int,
    y: int,
    total_w: int,
    h: int,
    fill_w: int,
    track: Color,
    left: Color,
    right: Color,
    r: int,
    cols: int,
    rows: int,
    i: int,
) -> Color {
    let xi = i % 240;
    let yi = i / 240;
    if x <= xi < x + fill_w && y <= yi < y + h && spec_inside_rounded(xi - x, yi - y, fill_w, h, r)
        && (xi - x < cols || (xi - x == cols && yi - y < rows)) {
        spec_lerp(left, right, spec_grad_t(xi - x, total_w))
    } else {
        spec_rect_pixel(c0, x, y, total_w, h, r, track, i)
    }
}

/// Draws a progress bar: the track as a rounded rectangle, then the filled
/// part as a left-to-right gradient between the two fill colors, with the
/// fill width taken from the utilization.
pub fn draw_gradient_bar(
    canvas: &mut Canvas,
    x: usize,
    y: usize,
    total_w: u32,
    h: u32,
    utilization_cpct: u32,
    track: Color,
    left: Color,
    right: Color,
    corner_r: u32,
)
    requires
        old(canvas).wf(),
        track.a == 255,
        total_w <= 10000,
        x + total_w <= u32::MAX,
        y + h <= u32::MAX,
    ensures
        final(canvas).wf(),
        final(canvas)@ == spec_draw_gradient_bar(
            old(canvas)@,
            x as int,
            y as int,
            total_w as int,
            h as int,
            spec_bar_fill_width(total_w as int, utilization_cpct as int),
            track,
            left,
            right,
            corner_r as int,
        ),
{
    let ghost c0 = canvas@;
    draw_rounded_rect(canvas, x, y, total_w, h, corner_r, track);
    let ghost c1 = canvas@;
    let fill_w: u32 = bar_fill_width(total_w, utilization_cpct);
    let mut px: u32 = 0;
    while px < fill_w
        invariant
            canvas.wf(),
            c0.len() == 57600,
            px <= fill_w,
            fill_w <= total_w <= 10000,
            fill_w == spec_bar_fill_width(total_w as int, utilization_cpct as int),
            x + total_w <= u32::MAX,
            y + h <= u32::MAX,
            forall|i: int|
                0 <= i < 57600 ==> #[trigger] canvas@[i] == spec_gradient_pixel_partial(
                    c0,
                    x as int,
                    y as int,
                    total_w as int,
                    h as int,
                    fill_w as int,
                    track,
                    left,
                    right,
                    corner_r as int,
                    px as int,
                    0,
                    i,
                ),
        decreases fill_w - px,
    {
        let t: u32 = if total_w > 1 {
            px * 256 / (total_w - 1)
        } else {
            0
        };
        let col = lerp_color(left, right, t);
        assert(col == spec_lerp(left, right, spec_grad_t(px as int, total_w as int)));
        let mut py: u32 = 0;
        while py < h
            invariant
                canvas.wf(),
                c0.len() == 57600,
                px < fill_w,
                py <= h,
                fill_w <= total_w <= 10000,
                fill_w == spec_bar_fill_width(total_w as int, utilization_cpct as int),
                x + total_w <= u32::MAX,
                y + h <= u32::MAX,
                col == spec_lerp(left, right, spec_grad_t(px as int, total_w as int)),
                forall|i: int|
                    0 <= i < 57600 ==> #[trigger] canvas@[i] == spec_gradient_pixel_partial(
                        c0,
                        x as int,
                        y as int,
                        total_w as int,
                        h as int,
                        fill_w as int,
                        track,
                        left,
                        right,
                        corner_r as int,
                        px as int,
                        py as int,
                        i,
                    ),
            decreases h - py,
        {
            if is_inside_rounded(px, py, fill_w, h, corner_r) {
                let ax: usize = x + px as usize;
                let ay: usize = y + py as usize;
                if ax < 240 && ay < 240 {
                    proof {
                        lemma_pixel_index(ax as int, ay as int);
                    }
                    canvas.put_pixel(ax, ay, col);
                }
            }
            proof {
                assert forall|i: int| 0 <= i < 57600 implies #[trigger] canvas@[i]
                    == spec_gradient_pixel_partial(
                    c0,
                    x as int,
                    y as int,
                    total_w as int,
                    h as int,
                    fill_w as int,
                    track,
                    left,
                    right,
                    corner_r as int,
                    px as int,
                    py as int + 1,
                    i,
                ) by {
                    lemma_pixel_index(i % 240, i / 240);
                }
            }
            py = py + 1;
        }
        px = px + 1;
    }
    proof {
        assert(canvas@ =~= spec_draw_gradient_bar(
            c0,
            x as int,
            y as int,
            total_w as int,
            h as int,
            spec_bar_fill_width(total_w as int, utilization_cpct as int),
            track,
            left,
            right,
            corner_r as int,
        ));
    }
}
} // verus!
