//! Color blend utilities: scalar/channel interpolation and alpha compositing.
//!
//! Weights are fixed-point on a 0..=256 scale (256 stands for 1.0). Every
//! operation clamps to the 8-bit channel range and returns a fully opaque
//! color; partial transparency enters only through `blend_over`'s overlay
//! alpha, never through interpolation.
use vstd::prelude::*;

verus! {

/// One RGBA color value; 8-bit channels, alpha 255 means fully opaque.
#[derive(Clone, Copy, PartialEq, Eq, Structural, Debug)]
pub struct Color {
    pub r: u8,
    pub g: u8,
    pub b: u8,
    pub a: u8,
}

/// A blend weight, restricted to the 0..=256 fixed-point scale.
pub open spec fn clamp_weight(t: int) -> int {
    if t < 0 {
        0
    } else if t > 256 {
        256
    } else {
        t
    }
}

/// Linear interpolation of one channel from `a` toward `b` at weight `t`/256,
/// rounding down.
pub open spec fn lerp_channel(a: u8, b: u8, t: int) -> int {
    (a * (256 - clamp_weight(t)) + b * clamp_weight(t)) / 256
}

/// Interpolation of a whole color; the result is always fully opaque,
/// whatever the input alphas.
pub open spec fn spec_lerp(a: Color, b: Color, t: int) -> Color {
    Color {
        r: lerp_channel(a.r, b.r, t) as u8,
        g: lerp_channel(a.g, b.g, t) as u8,
        b: lerp_channel(a.b, b.b, t) as u8,
        a: 255,
    }
}

/// One channel of `over` composited onto `base` with weight `w`/255.
pub open spec fn blend_channel(base: u8, over: u8, w: int) -> int {
    (base * (255 - w) + over * w) / 255
}

/// Standard "overlay on top of base" compositing, weighted by the overlay's
/// alpha channel; the result is always fully opaque.
pub open spec fn spec_blend_over(base: Color, over: Color) -> Color {
    Color {
        r: blend_channel(base.r, over.r, over.a as int) as u8,
        g: blend_channel(base.g, over.g, over.a as int) as u8,
        b: blend_channel(base.b, over.b, over.a as int) as u8,
        a: 255,
    }
}

/// One channel darkened to four fifths of its value, rounding down.
pub open spec fn dim_channel(c: u8) -> int {
    4 * c / 5
}

/// A color darkened to four fifths on every channel; used for radial shading.
pub open spec fn spec_dim(c: Color) -> Color {
    Color { r: dim_channel(c.r) as u8, g: dim_channel(c.g) as u8, b: dim_channel(c.b) as u8, a: 255 }
}

proof fn lemma_lerp_channel_range(a: u8, b: u8, t: int)
    ensures
        0 <= lerp_channel(a, b, t) <= 255,
{
    let tc = clamp_weight(t);
    assert(a * (256 - tc) + b * tc <= 255 * 256) by (nonlinear_arith)
        requires
            0 <= tc <= 256,
            a <= 255,
            b <= 255,
    ;
    assert(a * (256 - tc) >= 0) by (nonlinear_arith)
        requires
            0 <= tc <= 256,
    ;
    assert(b * tc >= 0) by (nonlinear_arith)
        requires
            0 <= tc,
    ;
}

fn lerp_channel_exec(a: u8, b: u8, t: u32) -> (c: u8)
    requires
        t <= 256,
    ensures
        c as int == lerp_channel(a, b, t as int),
{
    proof {
        lemma_lerp_channel_range(a, b, t as int);
        assert((a as u32) * (256 - t) + (b as u32) * t <= 255 * 256) by (nonlinear_arith)
            requires
                t <= 256,
                a <= 255,
                b <= 255,
        ;
    }
    (((a as u32) * (256 - t) + (b as u32) * t) / 256) as u8
}

/// Per-channel linear interpolation from `a` toward `b`; `t` is clamped to
/// the 0..=256 weight scale and the result is fully opaque.
pub fn lerp_color(a: Color, b: Color, t: u32) -> (c: Color)
    ensures
        c == spec_lerp(a, b, t as int),
{
    let tc: u32 = if t > 256 {
        256
    } else {
        t
    };
    Color {
        r: lerp_channel_exec(a.r, b.r, tc),
        g: lerp_channel_exec(a.g, b.g, tc),
        b: lerp_channel_exec(a.b, b.b, tc),
        a: 255,
    }
}

proof fn lemma_blend_channel_range(base: u8, over: u8, w: int)
    requires
        0 <= w <= 255,
    ensures
        0 <= blend_channel(base, over, w) <= 255,
{
    assert(base * (255 - w) + over * w <= 255 * 255) by (nonlinear_arith)
        requires
            0 <= w <= 255,
            base <= 255,
            over <= 255,
    ;
    assert(base * (255 - w) >= 0 && over * w >= 0) by (nonlinear_arith)
        requires
            0 <= w <= 255,
    ;
}

fn blend_channel_exec(base: u8, over: u8, w: u8) -> (c: u8)
    ensures
        c as int == blend_channel(base, over, w as int),
{
    proof {
        lemma_blend_channel_range(base, over, w as int);
        assert((base as u32) * (255 - w as u32) + (over as u32) * (w as u32) <= 255 * 255)
            by (nonlinear_arith)
            requires
                base <= 255,
                over <= 255,
                w <= 255,
        ;
    }
    (((base as u32) * (255 - w as u32) + (over as u32) * (w as u32)) / 255) as u8
}

/// Composites `over` on top of `base` using the overlay's alpha channel as
/// weight; the result is always fully opaque.
pub fn blend_over(base: Color, over: Color) -> (c: Color)
    ensures
        c == spec_blend_over(base, over),
{
    Color {
        r: blend_channel_exec(base.r, over.r, over.a),
        g: blend_channel_exec(base.g, over.g, over.a),
        b: blend_channel_exec(base.b, over.b, over.a),
        a: 255,
    }
}

/// Darkens a color to four fifths of each channel; the radial-shading cue of
/// the pie renderer.
pub fn dim_color(c: Color) -> (d: Color)
    ensures
        d == spec_dim(c),
{
    Color {
        r: (4 * (c.r as u32) / 5) as u8,
        g: (4 * (c.g as u32) / 5) as u8,
        b: (4 * (c.b as u32) / 5) as u8,
        a: 255,
    }
}

} // verus!
