use ledstrip::{hsv_to_rgb8, interpolate2, interpolate3, HsvColor, Rgb8, ONE};

fn hsv(hue: i32, saturation: i32, value: i32) -> HsvColor {
    HsvColor { hue, saturation, value }
}

fn rgb(red: u8, green: u8, blue: u8) -> Rgb8 {
    Rgb8 { red, green, blue }
}

#[test]
fn sector_boundaries_give_pure_and_mixed_primaries() {
    let expected = [
        rgb(255, 0, 0),
        rgb(255, 255, 0),
        rgb(0, 255, 0),
        rgb(0, 255, 255),
        rgb(0, 0, 255),
        rgb(255, 0, 255),
    ];
    for (k, want) in expected.iter().enumerate() {
        let hue = (k as i32) * ONE / 6;
        assert_eq!(hsv_to_rgb8(&hsv(hue, ONE, ONE)), *want, "sector {}", k);
    }
}

#[test]
fn sector_boundaries_at_half_saturation() {
    // value * (1 - saturation) = 0.5, truncated to 127
    assert_eq!(hsv_to_rgb8(&hsv(0, ONE / 2, ONE)), rgb(255, 127, 127));
    assert_eq!(hsv_to_rgb8(&hsv(ONE / 6, ONE / 2, ONE)), rgb(255, 255, 127));
    assert_eq!(hsv_to_rgb8(&hsv(3 * ONE / 6, ONE / 2, ONE)), rgb(127, 255, 255));
    assert_eq!(hsv_to_rgb8(&hsv(5 * ONE / 6, ONE / 2, ONE)), rgb(255, 127, 255));
}

#[test]
fn hue_inside_a_sector_is_linear() {
    // 1/12: half way through the red-to-yellow sector
    assert_eq!(hsv_to_rgb8(&hsv(ONE / 12, ONE, ONE)), rgb(255, 127, 0));
    // 1/4: half way through the yellow-to-green sector
    assert_eq!(hsv_to_rgb8(&hsv(ONE / 4, ONE, ONE)), rgb(127, 255, 0));
}

#[test]
fn hue_wraps_modulo_one() {
    assert_eq!(hsv_to_rgb8(&hsv(-ONE / 6, ONE, ONE)), rgb(255, 0, 255));
    assert_eq!(hsv_to_rgb8(&hsv(ONE + ONE / 6, ONE, ONE)), rgb(255, 255, 0));
    assert_eq!(hsv_to_rgb8(&hsv(ONE, ONE, ONE)), rgb(255, 0, 0));
}

#[test]
fn channels_are_truncated_and_saturated() {
    assert_eq!(hsv_to_rgb8(&hsv(0, 0, ONE / 2)), rgb(127, 127, 127));
    assert_eq!(hsv_to_rgb8(&hsv(0, 0, 2 * ONE)), rgb(255, 255, 255));
    assert_eq!(hsv_to_rgb8(&hsv(0, 0, -ONE)), rgb(0, 0, 0));
    assert_eq!(hsv_to_rgb8(&hsv(0, 0, 0)), rgb(0, 0, 0));
}

#[test]
fn interpolate2_endpoints() {
    let a = hsv(1000, 2000, 3000);
    let b = hsv(7000, -4000, 3000);
    assert_eq!(interpolate2(&a, &b, 0), a);
    assert_eq!(interpolate2(&a, &b, ONE), b);
    assert_eq!(interpolate2(&b, &a, 0), b);
    assert_eq!(interpolate2(&b, &a, ONE), a);
}

#[test]
fn interpolate2_clamps_weight_above_one() {
    let a = hsv(1000, 2000, 3000);
    let b = hsv(7000, -4000, 3000);
    assert_eq!(interpolate2(&a, &b, 2 * ONE), b);
    assert_eq!(interpolate2(&a, &b, i32::MAX), b);
}

#[test]
fn interpolate2_half_way() {
    let a = hsv(1000, 2000, 3000);
    let b = hsv(7000, -4000, 3000);
    assert_eq!(interpolate2(&a, &b, ONE / 2), hsv(4000, -1000, 3000));
    // rounding is toward negative infinity
    assert_eq!(interpolate2(&hsv(0, 0, 0), &hsv(1, -1, 0), ONE / 2), hsv(0, -1, 0));
}

#[test]
fn interpolate2_extreme_channels() {
    let a = hsv(i32::MIN, i32::MAX, 0);
    let b = hsv(i32::MAX, i32::MIN, 0);
    assert_eq!(interpolate2(&a, &b, ONE), b);
    assert_eq!(interpolate2(&a, &b, 0), a);
    assert_eq!(interpolate2(&a, &b, ONE / 2), hsv(-1, -1, 0));
}

#[test]
fn interpolate3_pivot_and_extremes() {
    let a = hsv(100, 200, 300);
    let b = hsv(6100, 6200, 6300);
    let c = hsv(-5900, -5800, -5700);
    assert_eq!(interpolate3(&a, &b, &c, 0), a);
    assert_eq!(interpolate3(&a, &b, &c, ONE), b);
    assert_eq!(interpolate3(&a, &b, &c, -ONE), c);
    assert_eq!(interpolate3(&a, &b, &c, 3 * ONE), b);
    assert_eq!(interpolate3(&a, &b, &c, -3 * ONE), c);
    assert_eq!(interpolate3(&a, &b, &c, i32::MIN), c);
}

#[test]
fn interpolate3_half_way_each_side() {
    let a = hsv(100, 200, 300);
    let b = hsv(6100, 6200, 6300);
    let c = hsv(-5900, -5800, -5700);
    assert_eq!(interpolate3(&a, &b, &c, ONE / 2), hsv(3100, 3200, 3300));
    assert_eq!(interpolate3(&a, &b, &c, -ONE / 2), hsv(-2900, -2800, -2700));
}

#[test]
fn set_brightness_scales_and_limits_value() {
    let mut c = hsv(123, 456, ONE);
    c.set_brightness(ONE / 2);
    assert_eq!(c, hsv(123, 456, ONE / 2));

    let mut c = hsv(0, 0, 45000);
    c.set_brightness(40000);
    assert_eq!(c.value, 30000);

    let mut c = hsv(0, 0, 45000);
    c.set_brightness(-5);
    assert_eq!(c.value, 0);

    let mut c = hsv(0, 0, 2 * ONE);
    c.set_brightness(ONE);
    assert_eq!(c.value, ONE);

    let mut c = hsv(0, 0, -ONE);
    c.set_brightness(ONE / 2);
    assert_eq!(c.value, -ONE / 2);
}
