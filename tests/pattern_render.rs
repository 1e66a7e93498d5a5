use ledstrip::pattern::{pixel_position, render_pixel, render_strip, sparkle_mix};
use ledstrip::{HsvColor, Palette, Pattern, Rgb8, SparkleEnvelope, ONE};

fn palette() -> Palette {
    Palette {
        color1: HsvColor { hue: 0, saturation: 0, value: 0 },
        color2: HsvColor { hue: 0, saturation: 0, value: ONE },
        color3: HsvColor { hue: 0, saturation: ONE, value: ONE },
    }
}

fn rgb(red: u8, green: u8, blue: u8) -> Rgb8 {
    Rgb8 { red, green, blue }
}

fn sparkle(position: i32, level: i32, color_mix: i32) -> SparkleEnvelope {
    let mut e = SparkleEnvelope::new();
    e.position = position;
    e.level = level;
    e.falloff = ONE;
    e.color_mix = color_mix;
    e
}

#[test]
fn selectors_name_six_patterns() {
    assert_eq!(Pattern::from_selector(0), Some(Pattern::Off));
    assert_eq!(Pattern::from_selector(1), Some(Pattern::Sweep));
    assert_eq!(Pattern::from_selector(2), Some(Pattern::Scanner));
    assert_eq!(Pattern::from_selector(3), Some(Pattern::Sparkle));
    assert_eq!(Pattern::from_selector(4), Some(Pattern::TintedSparkle));
    assert_eq!(Pattern::from_selector(5), Some(Pattern::Split));
    assert_eq!(Pattern::from_selector(6), None);
    assert_eq!(Pattern::from_selector(255), None);
}

#[test]
fn pixel_positions_span_zero_to_one() {
    assert_eq!(pixel_position(0, 4), 0);
    assert_eq!(pixel_position(1, 4), ONE / 3);
    assert_eq!(pixel_position(2, 4), 2 * ONE / 3);
    assert_eq!(pixel_position(3, 4), ONE);
    assert_eq!(pixel_position(0, 1), 0);
    assert_eq!(pixel_position(1, 8), 8571);
}

#[test]
fn off_is_dark() {
    let none = Vec::new();
    assert_eq!(render_pixel(Pattern::Off, &palette(), 123, &none, ONE / 2), rgb(0, 0, 0));
}

#[test]
fn sweep_follows_the_triangle_wave() {
    let none = Vec::new();
    let pal = palette();
    assert_eq!(render_pixel(Pattern::Sweep, &pal, 0, &none, 0), rgb(255, 255, 255));
    assert_eq!(render_pixel(Pattern::Sweep, &pal, ONE / 2, &none, 0), rgb(255, 0, 0));
    assert_eq!(render_pixel(Pattern::Sweep, &pal, 0, &none, ONE / 4), rgb(0, 0, 0));
}

#[test]
fn scanner_hot_spot_and_falloff() {
    let none = Vec::new();
    let pal = palette();
    // at phase 0 the hot spot sits at position 1
    assert_eq!(render_pixel(Pattern::Scanner, &pal, 0, &none, ONE), rgb(255, 0, 0));
    assert_eq!(render_pixel(Pattern::Scanner, &pal, 0, &none, 0), rgb(0, 0, 0));
    assert_eq!(render_pixel(Pattern::Scanner, &pal, 0, &none, 57000), rgb(247, 136, 136));
}

#[test]
fn split_gradient_halves() {
    let none = Vec::new();
    let pal = palette();
    assert_eq!(render_pixel(Pattern::Split, &pal, 0, &none, 0), rgb(0, 0, 0));
    assert_eq!(render_pixel(Pattern::Split, &pal, 0, &none, ONE / 4), rgb(127, 127, 127));
    assert_eq!(render_pixel(Pattern::Split, &pal, 0, &none, 3 * ONE / 4), rgb(255, 127, 127));
    assert_eq!(render_pixel(Pattern::Split, &pal, 0, &none, ONE), rgb(255, 0, 0));
}

#[test]
fn sparkle_contributions_add_up_to_one() {
    let s = vec![sparkle(0, ONE, 0)];
    assert_eq!(sparkle_mix(&s, 0), ONE);
    assert_eq!(sparkle_mix(&s, ONE / 2), ONE / 2);
    assert_eq!(sparkle_mix(&s, ONE), 0);
    let two = vec![sparkle(0, 40000, 0), sparkle(0, 40000, 0)];
    assert_eq!(sparkle_mix(&two, 0), ONE);
    assert_eq!(sparkle_mix(&Vec::new(), 0), 0);
}

#[test]
fn sparkle_blends_toward_the_accent() {
    let s = vec![sparkle(0, ONE, 0)];
    let pal = palette();
    assert_eq!(render_pixel(Pattern::Sparkle, &pal, 0, &s, 0), rgb(255, 0, 0));
    assert_eq!(render_pixel(Pattern::Sparkle, &pal, 0, &s, ONE / 2), rgb(191, 95, 95));
}

#[test]
fn tinted_sparkle_takes_the_strongest_tint() {
    let s = vec![sparkle(0, ONE, 0), sparkle(ONE, ONE, ONE)];
    let pal = palette();
    assert_eq!(render_pixel(Pattern::TintedSparkle, &pal, 0, &s, 0), rgb(255, 255, 255));
    assert_eq!(render_pixel(Pattern::TintedSparkle, &pal, 0, &s, ONE), rgb(255, 0, 0));
    assert_eq!(render_pixel(Pattern::TintedSparkle, &pal, 0, &Vec::new(), ONE), rgb(0, 0, 0));
}

#[test]
fn strip_renders_every_pixel() {
    let none = Vec::new();
    let px = render_strip(Pattern::Split, &palette(), 0, &none, 4);
    assert_eq!(px, vec![rgb(0, 0, 0), rgb(170, 170, 170), rgb(255, 170, 170), rgb(255, 0, 0)]);
    assert!(render_strip(Pattern::Split, &palette(), 0, &none, 0).is_empty());
}
