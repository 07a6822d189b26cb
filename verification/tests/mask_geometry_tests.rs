use geekmagic_stats::mask::is_inside_rounded;
use geekmagic_stats::pie::{angle_units, isqrt, used_angle_of};

#[test]
fn mask_zero_radius_is_plain_rectangle() {
    for px in 0..20 {
        for py in 0..10 {
            assert!(is_inside_rounded(px, py, 20, 10, 0));
        }
    }
}

#[test]
fn mask_cuts_corner_pixels() {
    // The very corner pixel lies outside the quarter circle.
    assert!(!is_inside_rounded(0, 0, 100, 100, 10));
    assert!(!is_inside_rounded(99, 0, 100, 100, 10));
    assert!(!is_inside_rounded(0, 99, 100, 100, 10));
    assert!(!is_inside_rounded(99, 99, 100, 100, 10));
    // On the quarter-circle boundary: squared distance 50 <= 100.
    assert!(is_inside_rounded(5, 5, 100, 100, 10));
    assert!(is_inside_rounded(95, 2, 100, 100, 10));
    // The box interior is always inside.
    assert!(is_inside_rounded(50, 50, 100, 100, 10));
    assert!(is_inside_rounded(10, 0, 100, 100, 10));
}

#[test]
fn mask_is_symmetric_under_reflections() {
    let (w, h, r) = (50u32, 34u32, 8u32);
    for px in 0..w {
        for py in 0..h {
            let v = is_inside_rounded(px, py, w, h, r);
            assert_eq!(v, is_inside_rounded(w - 1 - px, py, w, h, r));
            assert_eq!(v, is_inside_rounded(px, h - 1 - py, w, h, r));
            assert_eq!(v, is_inside_rounded(w - 1 - px, h - 1 - py, w, h, r));
        }
    }
}

#[test]
fn mask_radius_clamps_to_half_box() {
    // A huge radius clamps to half of the smaller side.
    assert!(!is_inside_rounded(0, 0, 10, 10, 100));
    assert!(is_inside_rounded(5, 5, 10, 10, 100));
}

#[test]
fn integer_square_roots() {
    assert_eq!(isqrt(0), 0);
    assert_eq!(isqrt(1), 1);
    assert_eq!(isqrt(35), 5);
    assert_eq!(isqrt(36), 6);
    assert_eq!(isqrt(1 << 50), 1 << 25);
    assert_eq!(isqrt((1 << 50) - 1), (1 << 25) - 1);
}

#[test]
fn angles_at_the_axes() {
    assert_eq!(angle_units(0, -10), 0);
    assert_eq!(angle_units(10, 0), 16384);
    assert_eq!(angle_units(0, 10), 32768);
    assert_eq!(angle_units(-10, 0), 49152);
}

#[test]
fn angles_at_the_diagonals() {
    assert_eq!(angle_units(10, -10), 8192);
    assert_eq!(angle_units(10, 10), 24576);
    assert_eq!(angle_units(-10, 10), 40960);
    assert_eq!(angle_units(-10, -10), 57344);
}

#[test]
fn angles_stay_in_one_turn() {
    for dx in -30i64..=30 {
        for dy in -30i64..=30 {
            if dx != 0 || dy != 0 {
                assert!(angle_units(dx, dy) < 65536);
            }
        }
    }
}

#[test]
fn used_angle_shares_the_turn() {
    assert_eq!(used_angle_of(0, 4), 0);
    assert_eq!(used_angle_of(1, 2), 32768);
    assert_eq!(used_angle_of(1, 4), 16384);
    assert_eq!(used_angle_of(5, 5), 65536);
    assert_eq!(used_angle_of(0, 0), 0);
    // The free slice is the remainder of the turn, exactly.
    for (used, total) in [(0u64, 7u64), (3, 7), (7, 7), (123, 1000)] {
        let ua = used_angle_of(used, total);
        assert_eq!(ua + (65536 - ua), 65536);
        assert!(ua <= 65536);
    }
}
