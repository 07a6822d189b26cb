//! The visual style record: every color the renderers use, injected as an
//! explicit configuration value so that themes can be swapped and tests can
//! pin the palette.
use vstd::prelude::*;

use crate::color::Color;

verus! {

/// The palette for both renderers. All colors are fully opaque except the
/// two marker glows, which carry the alpha that `blend_over` composites.
pub struct Style {
    pub bg: Color,
    pub panel_bg: Color,
    pub text_primary: Color,
    pub text_dim: Color,
    pub text_muted: Color,
    pub separator: Color,
    pub bar_track: Color,
    pub bar_fill_left: Color,
    pub bar_fill_right: Color,
    pub warn_fill_left: Color,
    pub warn_fill_right: Color,
    pub danger_fill: Color,
    pub pace_ok: Color,
    pub pace_warn: Color,
    pub pace_ok_glow: Color,
    pub pace_warn_glow: Color,
    pub pie_used: Color,
    pub pie_used_2: Color,
    pub pie_free: Color,
    pub pie_free_2: Color,
    pub pie_bg: Color,
}

impl Style {
    /// A well-formed style keeps every overwrite color fully opaque.
    pub open spec fn wf(&self) -> bool {
        &&& self.bg.a == 255
        &&& self.panel_bg.a == 255
        &&& self.text_primary.a == 255
        &&& self.text_dim.a == 255
        &&& self.text_muted.a == 255
        &&& self.separator.a == 255
        &&& self.bar_track.a == 255
        &&& self.danger_fill.a == 255
        &&& self.pace_ok.a == 255
        &&& self.pace_warn.a == 255
        &&& self.pie_used.a == 255
        &&& self.pie_free.a == 255
    }
}

/// The stock dark theme.
pub open spec fn spec_default_style() -> Style {
    Style {
        bg: Color { r: 12, g: 12, b: 16, a: 255 },
        panel_bg: Color { r: 22, g: 22, b: 30, a: 255 },
        text_primary: Color { r: 240, g: 240, b: 245, a: 255 },
        text_dim: Color { r: 113, g: 113, b: 122, a: 255 },
        text_muted: Color { r: 161, g: 161, b: 170, a: 255 },
        separator: Color { r: 35, g: 35, b: 45, a: 255 },
        bar_track: Color { r: 40, g: 40, b: 50, a: 255 },
        bar_fill_left: Color { r: 59, g: 130, b: 246, a: 255 },
        bar_fill_right: Color { r: 6, g: 182, b: 212, a: 255 },
        warn_fill_left: Color { r: 234, g: 179, b: 8, a: 255 },
        warn_fill_right: Color { r: 249, g: 115, b: 22, a: 255 },
        danger_fill: Color { r: 239, g: 68, b: 68, a: 255 },
        pace_ok: Color { r: 34, g: 197, b: 94, a: 255 },
        pace_warn: Color { r: 249, g: 115, b: 22, a: 255 },
        pace_ok_glow: Color { r: 34, g: 197, b: 94, a: 80 },
        pace_warn_glow: Color { r: 249, g: 115, b: 22, a: 80 },
        pie_used: Color { r: 99, g: 102, b: 241, a: 255 },
        pie_used_2: Color { r: 139, g: 92, b: 246, a: 255 },
        pie_free: Color { r: 34, g: 197, b: 94, a: 255 },
        pie_free_2: Color { r: 16, g: 185, b: 129, a: 255 },
        pie_bg: Color { r: 30, g: 30, b: 40, a: 255 },
    }
}

/// Builds the stock dark theme.
pub fn default_style() -> (s: Style)
    ensures
        s == spec_default_style(),
        s.wf(),
{
    Style {
        bg: Color { r: 12, g: 12, b: 16, a: 255 },
        panel_bg: Color { r: 22, g: 22, b: 30, a: 255 },
        text_primary: Color { r: 240, g: 240, b: 245, a: 255 },
        text_dim: Color { r: 113, g: 113, b: 122, a: 255 },
        text_muted: Color { r: 161, g: 161, b: 170, a: 255 },
        separator: Color { r: 35, g: 35, b: 45, a: 255 },
        bar_track: Color { r: 40, g: 40, b: 50, a: 255 },
        bar_fill_left: Color { r: 59, g: 130, b: 246, a: 255 },
        bar_fill_right: Color { r: 6, g: 182, b: 212, a: 255 },
        warn_fill_left: Color { r: 234, g: 179, b: 8, a: 255 },
        warn_fill_right: Color { r: 249, g: 115, b: 22, a: 255 },
        danger_fill: Color { r: 239, g: 68, b: 68, a: 255 },
        pace_ok: Color { r: 34, g: 197, b: 94, a: 255 },
        pace_warn: Color { r: 249, g: 115, b: 22, a: 255 },
        pace_ok_glow: Color { r: 34, g: 197, b: 94, a: 80 },
        pace_warn_glow: Color { r: 249, g: 115, b: 22, a: 80 },
        pie_used: Color { r: 99, g: 102, b: 241, a: 255 },
        pie_used_2: Color { r: 139, g: 92, b: 246, a: 255 },
        pie_free: Color { r: 34, g: 197, b: 94, a: 255 },
        pie_free_2: Color { r: 16, g: 185, b: 129, a: 255 },
        pie_bg: Color { r: 30, g: 30, b: 40, a: 255 },
    }
}

} // verus!
