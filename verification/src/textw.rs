//! Text metrics approximation and text placement.
//!
//! Rendered text width is estimated from character classes without real
//! glyph metrics: the base unit is 55 hundredths of the font scale, and each
//! character contributes a class multiplier of that unit. Widths are carried
//! in ten-thousandths of the scale and rounded up to whole pixels. Glyph
//! rasterization itself is a capability of the surrounding program: the
//! renderer only emits text commands with a computed top-left origin.
use vstd::prelude::*;
use vstd::string::StrSliceExecFns;

use crate::canvas::Canvas;
use crate::color::Color;

verus! {

/// One rendered frame: the pixel canvas plus the text commands handed to
/// the glyph-rasterization capability.
pub struct Frame {
    pub canvas: Canvas,
    pub texts: Vec<TextCmd>,
}

/// The width contribution of one character, in ten-thousandths of the font
/// scale: narrow punctuation and thin letters count 55 x 55, wide letters
/// 55 x 125, a space 55 x 60, the percent sign 55 x 110, everything else
/// 55 x 100.
pub open spec fn spec_char_weight(c: char) -> int {
    if c == '.' || c == ':' || c == '!' || c == '|' || c == 'i' || c == 'l' || c == '1' {
        3025
    } else if c == 'm' || c == 'w' || c == 'M' || c == 'W' {
        6875
    } else if c == ' ' {
        3300
    } else if c == '%' {
        6050
    } else {
        5500
    }
}

/// The summed width weight of a string, in ten-thousandths of the scale.
pub open spec fn spec_text_weight(s: Seq<char>) -> int
    decreases s.len(),
{
    if s.len() == 0 {
        0
    } else {
        spec_text_weight(s.drop_last()) + spec_char_weight(s.last())
    }
}

/// The estimated pixel width of a string at a font scale: the weight scaled
/// down to pixels, rounded up.
pub open spec fn spec_text_width(s: Seq<char>, scale: int) -> int {
    (scale * spec_text_weight(s) + 9999) / 10000
}

proof fn lemma_text_weight_bounds(s: Seq<char>)
    ensures
        0 <= spec_text_weight(s) <= 6875 * s.len(),
    decreases s.len(),
{
    if s.len() > 0 {
        lemma_text_weight_bounds(s.drop_last());
    }
}

/// Estimates the rendered pixel width of a string at the given font scale.
pub fn approx_text_width(text: &str, scale: u32) -> (w: u32)
    requires
        text@.len() <= 10000,
        scale <= 1000,
    ensures
        w == spec_text_width(text@, scale as int),
{
    let n: usize = text.unicode_len();
    let mut acc: u64 = 0;
    let mut k: usize = 0;
    while k < n
        invariant
            n == text@.len() <= 10000,
            k <= n,
            acc == spec_text_weight(text@.subrange(0, k as int)),
            acc <= 6875 * k,
        decreases n - k,
    {
        let c = text.get_char(k);
        let cw: u64 = if c == '.' || c == ':' || c == '!' || c == '|' || c == 'i' || c == 'l' || c
            == '1' {
            3025
        } else if c == 'm' || c == 'w' || c == 'M' || c == 'W' {
            6875
        } else if c == ' ' {
            3300
        } else if c == '%' {
            6050
        } else {
            5500
        };
        proof {
            assert(text@.subrange(0, k as int + 1).drop_last() =~= text@.subrange(0, k as int));
            assert(text@.subrange(0, k as int + 1).last() == text@[k as int]);
        }
        acc = acc + cw;
        k = k + 1;
    }
    proof {
        assert(text@.subrange(0, n as int) =~= text@);
        lemma_text_weight_bounds(text@);
        assert(scale as u64 * acc <= 1000 * 68750000) by (nonlinear_arith)
            requires
                scale <= 1000,
                acc <= 68750000,
        ;
    }
    ((scale as u64 * acc + 9999) / 10000) as u32
}

/// One text drawing command for the glyph-rasterization capability: where to
/// place the text, at which scale, in which color, and whether the bold face
/// is used.
pub struct TextCmd {
    /// Left edge of the text run, in canvas coordinates; may be negative
    /// when right-aligned text overflows the canvas.
    pub x: i64,
    /// Top edge of the text run.
    pub y: i64,
    /// Font scale in pixels.
    pub scale: u32,
    /// Text color.
    pub color: Color,
    /// Whether the bold face is used.
    pub bold: bool,
    /// The text to rasterize.
    pub text: String,
}

/// The left edge of a centered text run: the center minus half the
/// estimated width.
pub open spec fn spec_centered_x(center_x: int, s: Seq<char>, scale: int) -> int {
    center_x - spec_text_width(s, scale) / 2
}

/// The left edge of a right-aligned text run: the right edge minus the
/// estimated width.
pub open spec fn spec_right_x(right_x: int, s: Seq<char>, scale: int) -> int {
    right_x - spec_text_width(s, scale)
}

/// Appends a left-aligned text command.
pub fn push_text_left(
    cmds: &mut Vec<TextCmd>,
    x: i64,
    y: i64,
    scale: u32,
    color: Color,
    bold: bool,
    text: String,
)
    ensures
        final(cmds)@.len() == old(cmds)@.len() + 1,
        final(cmds)@.subrange(0, old(cmds)@.len() as int) == old(cmds)@,
        final(cmds)@.last().x == x,
        final(cmds)@.last().y == y,
        final(cmds)@.last().scale == scale,
        final(cmds)@.last().color == color,
        final(cmds)@.last().bold == bold,
        final(cmds)@.last().text@ == text@,
{
    cmds.push(TextCmd { x, y, scale, color, bold, text });
    proof {
        assert(cmds@.subrange(0, old(cmds)@.len() as int) =~= old(cmds)@);
    }
}

/// Appends a center-aligned text command: the left edge is the center minus
/// half the estimated width.
pub fn push_text_centered(
    cmds: &mut Vec<TextCmd>,
    center_x: i64,
    y: i64,
    scale: u32,
    color: Color,
    bold: bool,
    text: String,
)
    requires
        text@.len() <= 10000,
        scale <= 1000,
        -1000000 <= center_x <= 1000000,
    ensures
        final(cmds)@.len() == old(cmds)@.len() + 1,
        final(cmds)@.subrange(0, old(cmds)@.len() as int) == old(cmds)@,
        final(cmds)@.last().x == spec_centered_x(center_x as int, text@, scale as int),
        final(cmds)@.last().y == y,
        final(cmds)@.last().scale == scale,
        final(cmds)@.last().color == color,
        final(cmds)@.last().bold == bold,
        final(cmds)@.last().text@ == text@,
{
    let w = approx_text_width(text.as_str(), scale);
    let x: i64 = center_x - (w / 2) as i64;
    cmds.push(TextCmd { x, y, scale, color, bold, text });
    proof {
        assert(cmds@.subrange(0, old(cmds)@.len() as int) =~= old(cmds)@);
    }
}

/// Appends a right-aligned text command: the left edge is the right edge
/// minus the estimated width.
pub fn push_text_right(
    cmds: &mut Vec<TextCmd>,
    right_x: i64,
    y: i64,
    scale: u32,
    color: Color,
    bold: bool,
    text: String,
)
    requires
        text@.len() <= 10000,
        scale <= 1000,
        -1000000 <= right_x <= 1000000,
    ensures
        final(cmds)@.len() == old(cmds)@.len() + 1,
        final(cmds)@.subrange(0, old(cmds)@.len() as int) == old(cmds)@,
        final(cmds)@.last().x == spec_right_x(right_x as int, text@, scale as int),
        final(cmds)@.last().y == y,
        final(cmds)@.last().scale == scale,
        final(cmds)@.last().color == color,
        final(cmds)@.last().bold == bold,
        final(cmds)@.last().text@ == text@,
{
    let w = approx_text_width(text.as_str(), scale);
    let x: i64 = right_x - w as i64;
    cmds.push(TextCmd { x, y, scale, color, bold, text });
    proof {
        assert(cmds@.subrange(0, old(cmds)@.len() as int) =~= old(cmds)@);
    }
}


/// The ghost description of one text command: the same fields with
/// mathematical types, for stating what a renderer emits.
pub struct TextSpec {
    pub x: int,
    pub y: int,
    pub scale: int,
    pub color: Color,
    pub bold: bool,
    pub text: Seq<char>,
}

/// The ghost description of a text command.
pub open spec fn text_view(c: TextCmd) -> TextSpec {
    TextSpec {
        x: c.x as int,
        y: c.y as int,
        scale: c.scale as int,
        color: c.color,
        bold: c.bold,
        text: c.text@,
    }
}

/// The ghost description of a whole command list.
pub open spec fn texts_view(s: Seq<TextCmd>) -> Seq<TextSpec> {
    s.map_values(|c: TextCmd| text_view(c))
}
} // verus!
