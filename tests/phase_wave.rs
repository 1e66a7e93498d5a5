use ledstrip::{triangle_wave, ONE};

#[test]
fn triangle_peaks_at_origin() {
    assert_eq!(triangle_wave(0, 0), ONE);
}

#[test]
fn triangle_exact_values() {
    assert_eq!(triangle_wave(ONE / 2, 0), -ONE);
    assert_eq!(triangle_wave(ONE / 4, 0), 0);
    assert_eq!(triangle_wave(0, 3 * ONE / 4), 0);
    assert_eq!(triangle_wave(ONE / 6, 0), ONE / 3);
}

#[test]
fn triangle_depends_on_the_sum_only() {
    assert_eq!(triangle_wave(1000, 2000), triangle_wave(3000, 0));
    assert_eq!(triangle_wave(2000, 1000), triangle_wave(0, 3000));
}

#[test]
fn triangle_has_period_one() {
    for x in [0, 1, 777, ONE / 3, ONE / 2, ONE - 1] {
        let base = triangle_wave(x, 0);
        assert_eq!(triangle_wave(x, ONE), base);
        assert_eq!(triangle_wave(x, -ONE), base);
        assert_eq!(triangle_wave(x + 5 * ONE, 0), base);
    }
}

#[test]
fn triangle_wraps_negative_arguments() {
    assert_eq!(triangle_wave(0, -ONE / 4), 0);
    assert_eq!(triangle_wave(-5 * ONE / 6, 0), ONE / 3);
    // -2^32 is 12704 modulo 60000
    assert_eq!(triangle_wave(i32::MIN, i32::MIN), triangle_wave(12704, 0));
}

#[test]
fn triangle_stays_within_unit_range() {
    let mut x = -3 * ONE;
    while x <= 3 * ONE {
        let t = triangle_wave(x, 17);
        assert!(-ONE <= t && t <= ONE);
        x += 997;
    }
}
