//! Geometric mask primitives: the rounded-rectangle membership test.
//!
//! A pixel is given in box-local coordinates. The corner radius is clamped to
//! half the box in each direction; the four corner regions are circular
//! quadrants (a pixel there is inside when its distance from the corner
//! center is at most the radius), and every other pixel of the box is inside.
//! A radius of zero, or a degenerate box, makes every pixel inside: the mask
//! reduces to a plain rectangle test.
use vstd::prelude::*;

verus! {

/// The effective corner radius: the requested radius clamped to half the box
/// width and half the box height.
pub open spec fn eff_radius(w: int, h: int, r: int) -> int {
    let a = if r <= w / 2 {
        r
    } else {
        w / 2
    };
    if a <= h / 2 {
        a
    } else {
        h / 2
    }
}

/// Squared distance between two coordinate pairs.
pub open spec fn sq_dist(ax: int, ay: int, bx: int, by: int) -> int {
    (ax - bx) * (ax - bx) + (ay - by) * (ay - by)
}

/// Rounded-rectangle membership for a box of size `w` x `h` with corner
/// radius `r`, at box-local pixel (`px`, `py`). Each corner region is the
/// quadrant test against that corner's center; the rest of the box is inside.
pub open spec fn spec_inside_rounded(px: int, py: int, w: int, h: int, r: int) -> bool {
    if r == 0 || w == 0 || h == 0 {
        true
    } else {
        let rc = eff_radius(w, h, r);
        &&& (px < rc && py < rc ==> sq_dist(px, py, rc, rc) <= rc * rc)
        &&& (px > w - 1 - rc && py < rc ==> sq_dist(px, py, w - 1 - rc, rc) <= rc * rc)
        &&& (px < rc && py > h - 1 - rc ==> sq_dist(px, py, rc, h - 1 - rc) <= rc * rc)
        &&& (px > w - 1 - rc && py > h - 1 - rc ==> sq_dist(px, py, w - 1 - rc, h - 1 - rc) <= rc
            * rc)
    }
}

/// Absolute difference of two coordinates, as an exec helper.
fn abs_diff(a: u32, b: u32) -> (d: u32)
    ensures
        d == if a >= b {
            a - b
        } else {
            b - a
        },
{
    if a >= b {
        a - b
    } else {
        b - a
    }
}

fn corner_exceeds(dx: u32, dy: u32, rc: u32) -> (b: bool)
    requires
        dx <= rc,
        dy <= rc,
        rc <= 0x7FFF_FFFF,
    ensures
        b == ((dx as int) * (dx as int) + (dy as int) * (dy as int) > (rc as int) * (rc as int)),
{
    proof {
        assert((dx as u64) * (dx as u64) <= (rc as u64) * (rc as u64) && (dy as u64) * (dy as u64)
            <= (rc as u64) * (rc as u64) && (rc as u64) * (rc as u64) <= 0x7FFF_FFFFu64
            * 0x7FFF_FFFFu64) by (nonlinear_arith)
            requires
                dx <= rc,
                dy <= rc,
                rc <= 0x7FFF_FFFFu64,
        ;
    }
    (dx as u64) * (dx as u64) + (dy as u64) * (dy as u64) > (rc as u64) * (rc as u64)
}

/// Whether box-local pixel (`px`, `py`) lies inside the rounded rectangle of
/// size `w` x `h` with corner radius `r`.
pub fn is_inside_rounded(px: u32, py: u32, w: u32, h: u32, r: u32) -> (inside: bool)
    requires
        px < w,
        py < h,
    ensures
        inside == spec_inside_rounded(px as int, py as int, w as int, h as int, r as int),
{
    if r == 0 {
        return true;
    }
    let mut rc: u32 = r;
    if rc > w / 2 {
        rc = w / 2;
    }
    if rc > h / 2 {
        rc = h / 2;
    }
    assert(rc == eff_radius(w as int, h as int, r as int));
    let right: u32 = w - 1 - rc;
    let bottom: u32 = h - 1 - rc;
    let in_left = px < rc;
    let in_right = px > right;
    let in_top = py < rc;
    let in_bottom = py > bottom;
    if in_left && in_top {
        let dx = abs_diff(px, rc);
        let dy = abs_diff(py, rc);
        proof {
            lemma_sq_neg(px - rc, rc - px);
            lemma_sq_neg(py - rc, rc - py);
        }
        if corner_exceeds(dx, dy, rc) {
            return false;
        }
    }
    if in_right && in_top {
        let dx = abs_diff(px, right);
        let dy = abs_diff(py, rc);
        proof {
            lemma_sq_neg(py - rc, rc - py);
        }
        if corner_exceeds(dx, dy, rc) {
            return false;
        }
    }
    if in_left && in_bottom {
        let dx = abs_diff(px, rc);
        let dy = abs_diff(py, bottom);
        proof {
            lemma_sq_neg(px - rc, rc - px);
        }
        if corner_exceeds(dx, dy, rc) {
            return false;
        }
    }
    if in_right && in_bottom {
        let dx = abs_diff(px, right);
        let dy = abs_diff(py, bottom);
        if corner_exceeds(dx, dy, rc) {
            return false;
        }
    }
    true
}

/// Law: with radius zero the mask reduces to a plain rectangle test: every
/// box-local pixel is inside.
pub proof fn lemma_rounded_mask_radius_zero(px: int, py: int, w: int, h: int)
    ensures
        spec_inside_rounded(px, py, w, h, 0),
{
}

proof fn lemma_sq_neg(a: int, b: int)
    requires
        a == -b,
    ensures
        a * a == b * b,
{
    assert(a * a == b * b) by (nonlinear_arith)
        requires
            a == -b,
    ;
}

/// Law: the mask is symmetric under horizontal reflection of the box.
pub proof fn lemma_rounded_mask_mirror_x(px: int, py: int, w: int, h: int, r: int)
    requires
        0 <= px < w,
        0 <= py < h,
    ensures
        spec_inside_rounded(px, py, w, h, r) == spec_inside_rounded(w - 1 - px, py, w, h, r),
{
    if r != 0 && w != 0 && h != 0 {
        let rc = eff_radius(w, h, r);
        let q = w - 1 - px;
        lemma_sq_neg(q - rc, px - (w - 1 - rc));
        lemma_sq_neg(q - (w - 1 - rc), px - rc);
        assert(sq_dist(q, py, rc, rc) == sq_dist(px, py, w - 1 - rc, rc));
        assert(sq_dist(q, py, w - 1 - rc, rc) == sq_dist(px, py, rc, rc));
        assert(sq_dist(q, py, rc, h - 1 - rc) == sq_dist(px, py, w - 1 - rc, h - 1 - rc));
        assert(sq_dist(q, py, w - 1 - rc, h - 1 - rc) == sq_dist(px, py, rc, h - 1 - rc));
    }
}

/// Law: the mask is symmetric under vertical reflection of the box.
pub proof fn lemma_rounded_mask_mirror_y(px: int, py: int, w: int, h: int, r: int)
    requires
        0 <= px < w,
        0 <= py < h,
    ensures
        spec_inside_rounded(px, py, w, h, r) == spec_inside_rounded(px, h - 1 - py, w, h, r),
{
    if r != 0 && w != 0 && h != 0 {
        let rc = eff_radius(w, h, r);
        let q = h - 1 - py;
        lemma_sq_neg(q - rc, py - (h - 1 - rc));
        lemma_sq_neg(q - (h - 1 - rc), py - rc);
        assert(sq_dist(px, q, rc, rc) == sq_dist(px, py, rc, h - 1 - rc));
        assert(sq_dist(px, q, rc, h - 1 - rc) == sq_dist(px, py, rc, rc));
        assert(sq_dist(px, q, w - 1 - rc, rc) == sq_dist(px, py, w - 1 - rc, h - 1 - rc));
        assert(sq_dist(px, q, w - 1 - rc, h - 1 - rc) == sq_dist(px, py, w - 1 - rc, rc));
    }
}

/// Law: the mask is symmetric under the four-corner reflection, which sends a
/// box-local pixel to its mirror image through the box center.
pub proof fn lemma_rounded_mask_four_corner(px: int, py: int, w: int, h: int, r: int)
    requires
        0 <= px < w,
        0 <= py < h,
    ensures
        spec_inside_rounded(px, py, w, h, r) == spec_inside_rounded(
            w - 1 - px,
            h - 1 - py,
            w,
            h,
            r,
        ),
{
    lemma_rounded_mask_mirror_x(px, py, w, h, r);
    lemma_rounded_mask_mirror_y(w - 1 - px, py, w, h, r);
}

} // verus!
