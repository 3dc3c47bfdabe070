//! The resize policy on concrete dimensions: the budget bound, aspect
//! preservation within one pixel of rounding, and idempotence.

use rustpdf::resize::target_dims;

#[test]
fn no_resize_within_budget() {
    assert_eq!(target_dims(300, 200, 600), (300, 200));
    assert_eq!(target_dims(600, 600, 600), (600, 600));
    assert_eq!(target_dims(1, 1, 600), (1, 1));
}

#[test]
fn landscape_longer_side_hits_budget_exactly() {
    assert_eq!(target_dims(1600, 1200, 600), (600, 450));
    assert_eq!(target_dims(2000, 1000, 500), (500, 250));
}

#[test]
fn portrait_longer_side_hits_budget_exactly() {
    assert_eq!(target_dims(1200, 1600, 600), (450, 600));
    assert_eq!(target_dims(1000, 2000, 500), (250, 500));
}

#[test]
fn shorter_side_rounds_to_nearest() {
    // exact value 600 * 600 / 601 = 599.0016..., rounds to 599
    assert_eq!(target_dims(601, 600, 600), (600, 599));
    // exact value 2 * 300 / 1001 = 0.599..., rounds to 1
    assert_eq!(target_dims(1001, 2, 300), (300, 1));
}

#[test]
fn extreme_ratio_clamps_to_one_pixel() {
    assert_eq!(target_dims(1_000_000, 1, 600), (600, 1));
    assert_eq!(target_dims(1, 1_000_000, 600), (1, 600));
}

#[test]
fn dimension_bound_holds_over_a_grid() {
    for w in [1u32, 2, 17, 599, 600, 601, 1600, 99_999] {
        for h in [1u32, 2, 17, 599, 600, 601, 1200, 88_888] {
            let (nw, nh) = target_dims(w, h, 600);
            assert!(nw >= 1 && nw <= 600 || (w <= 600 && nw == w));
            assert!(nw <= 600 && nh <= 600);
            assert!(nw >= 1 && nh >= 1);
            if w <= 600 && h <= 600 {
                assert_eq!((nw, nh), (w, h));
            }
        }
    }
}

#[test]
fn aspect_preserved_within_rounding() {
    for (w, h) in [(1600u32, 1200u32), (4000, 3000), (1234, 987), (700, 601), (601, 700)] {
        let (nw, nh) = target_dims(w, h, 600);
        let (w, h, nw, nh) = (w as i64, h as i64, nw as i64, nh as i64);
        if h <= w {
            assert!((h * nw - w * nh).abs() <= w);
        } else {
            assert!((w * nh - h * nw).abs() <= h);
        }
    }
}

#[test]
fn resizing_is_idempotent_on_dimensions() {
    for (w, h) in [(1600u32, 1200u32), (300, 200), (99_999, 3), (601, 600)] {
        let first = target_dims(w, h, 600);
        let second = target_dims(first.0, first.1, 600);
        assert_eq!(first, second);
    }
}
