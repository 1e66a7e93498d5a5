use vstd::prelude::*;

use crate::color::{
    blend, blend3, hsv_to_rgb8, interpolate2, interpolate3, max_int, min_int, rgb_of, HsvColor,
    Rgb8, ONE,
};
use crate::envelope::SparkleEnvelope;
use crate::wave::{tri, triangle_wave};

verus! {

/// The pattern algorithms, chosen by a selector byte 0..=5.
#[derive(Clone, Copy, Debug, PartialEq, Eq, Structural)]
pub enum Pattern {
    /// Every pixel dark.
    Off,
    /// A three-color gradient travelling along the strip.
    Sweep,
    /// A single hot spot sweeping back and forth over a two-color gradient.
    Scanner,
    /// Sparkles adding the third color onto a two-color gradient.
    Sparkle,
    /// Sparkles over the first color, tinted by the strongest sparkle.
    TintedSparkle,
    /// A static gradient split at the middle of the strip.
    Split,
}

/// The three colors a pattern is drawn with.
#[derive(Clone, Copy, Debug, PartialEq, Eq, Structural)]
pub struct Palette {
    pub color1: HsvColor,
    pub color2: HsvColor,
    pub color3: HsvColor,
}

/// Spatial falloff of the scanner's hot spot.
pub const SCANNER_FALLOFF: i32 = 600000;

/// The pattern a selector byte names, if any.
pub open spec fn pattern_of(selector: u8) -> Option<Pattern> {
    if selector == 0 {
        Some(Pattern::Off)
    } else if selector == 1 {
        Some(Pattern::Sweep)
    } else if selector == 2 {
        Some(Pattern::Scanner)
    } else if selector == 3 {
        Some(Pattern::Sparkle)
    } else if selector == 4 {
        Some(Pattern::TintedSparkle)
    } else if selector == 5 {
        Some(Pattern::Split)
    } else {
        None
    }
}

impl Pattern {
    /// Decodes a selector byte; bytes above 5 name no pattern.
    pub fn from_selector(selector: u8) -> (r: Option<Pattern>)
        ensures
            r == pattern_of(selector),
    {
        match selector {
            0 => Some(Pattern::Off),
            1 => Some(Pattern::Sweep),
            2 => Some(Pattern::Scanner),
            3 => Some(Pattern::Sparkle),
            4 => Some(Pattern::TintedSparkle),
            5 => Some(Pattern::Split),
            _ => None,
        }
    }

    /// Whether the pattern draws sparkles.
    pub open spec fn uses_sparkles(self) -> bool {
        self == Pattern::Sparkle || self == Pattern::TintedSparkle
    }
}

pub open spec fn abs_int(x: int) -> int {
    if x < 0 {
        -x
    } else {
        x
    }
}

/// Normalized position of pixel `i` on a strip of `n`: `i / (n - 1)`, and
/// 0 on a strip of one pixel.
pub open spec fn position_of(i: int, n: int) -> int {
    if n <= 1 {
        0
    } else {
        i * (ONE as int) / (n - 1)
    }
}

/// Where the scanner's hot spot is: `(triangle(phase) + 1) / 2`, in [0, 1].
pub open spec fn scanner_center(phase: int) -> int {
    (tri(phase) + ONE) / 2
}

/// How far the gradient shows through at `p`: `min(delta * (1 + falloff), 1)`.
pub open spec fn scanner_mix(p: int, center: int) -> int {
    min_int(abs_int(p - center) * (ONE + SCANNER_FALLOFF) / (ONE as int), ONE as int)
}

/// What one sparkle adds at `p`: `max(level - delta * falloff, 0)`.
pub open spec fn contribution(e: SparkleEnvelope, p: int) -> int {
    max_int(e.level - abs_int(p - e.position) * e.falloff / (ONE as int), 0)
}

/// The sparkles' summed contributions at `p`, limited to 1 after every addition.
pub open spec fn sparkle_total(s: Seq<SparkleEnvelope>, p: int) -> int
    decreases s.len(),
{
    if s.len() == 0 {
        0
    } else {
        min_int(sparkle_total(s.drop_last(), p) + contribution(s.last(), p), ONE as int)
    }
}

/// The index of the last sparkle at which the running total at `p` rose
/// (0 when it never rose).
pub open spec fn strongest(s: Seq<SparkleEnvelope>, p: int) -> int
    decreases s.len(),
{
    if s.len() == 0 {
        0
    } else if sparkle_total(s, p) > sparkle_total(s.drop_last(), p) {
        s.len() - 1
    } else {
        strongest(s.drop_last(), p)
    }
}

/// The accent color at `p`: the second color blended toward the third by the
/// strongest sparkle's selector; the second color when there are no sparkles.
pub open spec fn tint(pal: Palette, s: Seq<SparkleEnvelope>, p: int) -> HsvColor {
    if s.len() == 0 {
        pal.color2
    } else {
        blend(pal.color2, pal.color3, s[strongest(s, p)].color_mix as int)
    }
}

/// The color of the pixel at normalized position `p`.
pub open spec fn pixel_color(
    pattern: Pattern,
    pal: Palette,
    phase: int,
    s: Seq<SparkleEnvelope>,
    p: int,
) -> Rgb8 {
    match pattern {
        Pattern::Off => Rgb8 { red: 0, green: 0, blue: 0 },
        Pattern::Sweep => rgb_of(blend3(pal.color1, pal.color2, pal.color3, tri(phase + p))),
        Pattern::Scanner => rgb_of(
            blend(pal.color3, blend(pal.color1, pal.color2, p), scanner_mix(p, scanner_center(phase))),
        ),
        Pattern::Sparkle => rgb_of(
            blend(blend(pal.color1, pal.color2, p), pal.color3, sparkle_total(s, p)),
        ),
        Pattern::TintedSparkle => rgb_of(blend(pal.color1, tint(pal, s, p), sparkle_total(s, p))),
        Pattern::Split => if 2 * p < ONE {
            rgb_of(blend(pal.color1, pal.color2, 2 * p))
        } else {
            rgb_of(blend(pal.color2, pal.color3, 2 * p - ONE))
        },
    }
}

/// A whole strip of `n` pixels.
pub open spec fn strip_pixels(
    pattern: Pattern,
    pal: Palette,
    phase: int,
    s: Seq<SparkleEnvelope>,
    n: int,
) -> Seq<Rgb8> {
    Seq::new(n as nat, |i: int| pixel_color(pattern, pal, phase, s, position_of(i, n)))
}

proof fn lemma_strongest_range(s: Seq<SparkleEnvelope>, p: int)
    ensures
        s.len() > 0 ==> 0 <= strongest(s, p) < s.len(),
    decreases s.len(),
{
    if s.len() > 0 {
        lemma_strongest_range(s.drop_last(), p);
        if s.drop_last().len() == 0 {
            assert(strongest(s.drop_last(), p) == 0);
        }
    }
}

/// What sparkle `e` adds at position `p`.
fn contribution_at(e: &SparkleEnvelope, p: i32) -> (r: i128)
    ensures
        r == contribution(*e, p as int),
{
    let d: i128 = p as i128 - e.position as i128;
    let delta: i128 = if d < 0 {
        -d
    } else {
        d
    };
    assert(-0x1_0000_0000 * 0x8000_0000 <= delta * e.falloff <= 0x1_0000_0000 * 0x8000_0000)
        by (nonlinear_arith)
        requires
            0 <= delta <= 0x1_0000_0000,
            -0x8000_0000 <= e.falloff < 0x8000_0000,
    ;
    let spread: i128 = delta * e.falloff as i128;
    let q: i128 = match spread.checked_div_euclid(ONE as i128) {
        Some(q) => q,
        None => 0,
    };
    let c: i128 = e.level as i128 - q;
    if c > 0 {
        c
    } else {
        0
    }
}

/// The sparkles' summed contributions at `p`, limited to 1.
pub fn sparkle_mix(sparkles: &Vec<SparkleEnvelope>, p: i32) -> (r: i32)
    ensures
        r == sparkle_total(sparkles@, p as int),
        0 <= r <= ONE,
{
    let mut total: i32 = 0;
    let mut i: usize = 0;
    while i < sparkles.len()
        invariant
            i <= sparkles.len(),
            total == sparkle_total(sparkles@.take(i as int), p as int),
            0 <= total <= ONE,
        decreases sparkles.len() - i,
    {
        let c = contribution_at(&sparkles[i], p);
        proof {
            assert(sparkles@.take(i + 1).drop_last() =~= sparkles@.take(i as int));
        }
        total = if c >= (ONE - total) as i128 {
            ONE
        } else {
            total + c as i32
        };
        i = i + 1;
    }
    assert(sparkles@.take(i as int) =~= sparkles@);
    total
}

/// The summed contributions at `p` together with the index of the last
/// sparkle that raised the running total.
fn sparkle_mix_strongest(sparkles: &Vec<SparkleEnvelope>, p: i32) -> (r: (i32, usize))
    ensures
        r.0 == sparkle_total(sparkles@, p as int),
        r.1 == strongest(sparkles@, p as int),
        0 <= r.0 <= ONE,
        sparkles.len() > 0 ==> r.1 < sparkles.len(),
{
    let mut total: i32 = 0;
    let mut best: usize = 0;
    let mut i: usize = 0;
    while i < sparkles.len()
        invariant
            i <= sparkles.len(),
            total == sparkle_total(sparkles@.take(i as int), p as int),
            best == strongest(sparkles@.take(i as int), p as int),
            0 <= total <= ONE,
        decreases sparkles.len() - i,
    {
        let c = contribution_at(&sparkles[i], p);
        proof {
            assert(sparkles@.take(i + 1).drop_last() =~= sparkles@.take(i as int));
        }
        let next: i32 = if c >= (ONE - total) as i128 {
            ONE
        } else {
            total + c as i32
        };
        if next > total {
            best = i;
        }
        total = next;
        i = i + 1;
    }
    assert(sparkles@.take(i as int) =~= sparkles@);
    proof {
        lemma_strongest_range(sparkles@, p as int);
    }
    (total, best)
}

/// Normalized position of pixel `i` on a strip of `n` pixels.
pub fn pixel_position(i: usize, n: usize) -> (r: i32)
    requires
        i < n,
    ensures
        r == position_of(i as int, n as int),
        0 <= r <= ONE,
{
    if n <= 1 {
        0
    } else {
        assert((i as int) * 60000 <= (n as int - 1) * 60000) by (nonlinear_arith)
            requires
                i <= n - 1,
        ;
        assert((i as int) * 60000 < 0x1_0000_0000_0000_0000 * 60000) by (nonlinear_arith)
            requires
                i < 0x1_0000_0000_0000_0000,
        ;
        let q: u128 = (i as u128) * (ONE as u128) / ((n - 1) as u128);
        proof {
            vstd::arithmetic::div_mod::lemma_div_is_ordered(
                (i as int) * 60000,
                (n as int - 1) * 60000,
                n as int - 1,
            );
            vstd::arithmetic::div_mod::lemma_div_by_multiple(60000, n as int - 1);
            assert((n as int - 1) * 60000 == 60000 * (n as int - 1)) by (nonlinear_arith);
        }
        q as i32
    }
}

/// The color of the pixel at normalized position `p` (in [0, 1]) under
/// `pattern`, drawn with `pal` at animation phase `phase` and with the
/// given sparkles.
pub fn render_pixel(
    pattern: Pattern,
    pal: &Palette,
    phase: i32,
    sparkles: &Vec<SparkleEnvelope>,
    p: i32,
) -> (r: Rgb8)
    requires
        0 <= p <= ONE,
        forall|k: int| 0 <= k < sparkles.len() ==> 0 <= #[trigger] sparkles@[k].color_mix,
    ensures
        r == pixel_color(pattern, *pal, phase as int, sparkles@, p as int),
{
    match pattern {
        Pattern::Off => Rgb8 { red: 0, green: 0, blue: 0 },
        Pattern::Sweep => {
            let w = triangle_wave(phase, p);
            hsv_to_rgb8(&interpolate3(&pal.color1, &pal.color2, &pal.color3, w))
        },
        Pattern::Scanner => {
            let w = triangle_wave(phase, 0);
            let center: i32 = (w + ONE) / 2;
            let d: i32 = p - center;
            let delta: i64 = if d < 0 {
                -d as i64
            } else {
                d as i64
            };
            assert(0 <= delta * 660000 <= 60000 * 660000) by (nonlinear_arith)
                requires
                    0 <= delta <= 60000,
            ;
            let spread: i64 = delta * (ONE as i64 + SCANNER_FALLOFF as i64) / (ONE as i64);
            let mix: i32 = if spread > ONE as i64 {
                ONE
            } else {
                spread as i32
            };
            let base = interpolate2(&pal.color1, &pal.color2, p);
            hsv_to_rgb8(&interpolate2(&pal.color3, &base, mix))
        },
        Pattern::Sparkle => {
            let mix = sparkle_mix(sparkles, p);
            let base = interpolate2(&pal.color1, &pal.color2, p);
            hsv_to_rgb8(&interpolate2(&base, &pal.color3, mix))
        },
        Pattern::TintedSparkle => {
            let (mix, best) = sparkle_mix_strongest(sparkles, p);
            let accent = if sparkles.len() == 0 {
                pal.color2
            } else {
                interpolate2(&pal.color2, &pal.color3, sparkles[best].color_mix)
            };
            hsv_to_rgb8(&interpolate2(&pal.color1, &accent, mix))
        },
        Pattern::Split => {
            if 2 * p < ONE {
                hsv_to_rgb8(&interpolate2(&pal.color1, &pal.color2, 2 * p))
            } else {
                hsv_to_rgb8(&interpolate2(&pal.color2, &pal.color3, 2 * p - ONE))
            }
        },
    }
}

/// Renders a whole strip of `n` pixels; pixel `i` sits at `i / (n - 1)`.
pub fn render_strip(
    pattern: Pattern,
    pal: &Palette,
    phase: i32,
    sparkles: &Vec<SparkleEnvelope>,
    n: usize,
) -> (r: Vec<Rgb8>)
    requires
        forall|k: int| 0 <= k < sparkles.len() ==> 0 <= #[trigger] sparkles@[k].color_mix,
    ensures
        r@ == strip_pixels(pattern, *pal, phase as int, sparkles@, n as int),
{
    let mut out: Vec<Rgb8> = Vec::with_capacity(n);
    let mut i: usize = 0;
    while i < n
        invariant
            i <= n,
            out@.len() == i,
            forall|k: int| 0 <= k < sparkles.len() ==> 0 <= #[trigger] sparkles@[k].color_mix,
            forall|k: int|
                0 <= k < i ==> out@[k] == pixel_color(
                    pattern,
                    *pal,
                    phase as int,
                    sparkles@,
                    position_of(k, n as int),
                ),
        decreases n - i,
    {
        let p = pixel_position(i, n);
        let px = render_pixel(pattern, pal, phase, sparkles, p);
        out.push(px);
        i = i + 1;
    }
    assert(out@ =~= strip_pixels(pattern, *pal, phase as int, sparkles@, n as int));
    out
}

} // verus!
