use vstd::prelude::*;

verus! {

/// Fixed-point scale of the color model: the real number 1 is `ONE` units.
pub const ONE: i32 = 60000;

/// An HSV color; each channel is a fixed-point number in units of `1 / ONE`.
/// Channels are meant to lie in [0, 1]: hue wraps modulo 1, saturation and
/// value are limited where they are used, not when the color is made.
#[derive(Clone, Copy, Debug, PartialEq, Eq, Structural)]
pub struct HsvColor {
    pub hue: i32,
    pub saturation: i32,
    pub value: i32,
}

/// One quantized output pixel.
#[derive(Clone, Copy, Debug, PartialEq, Eq, Structural)]
pub struct Rgb8 {
    pub red: u8,
    pub green: u8,
    pub blue: u8,
}

pub open spec fn min_int(a: int, b: int) -> int {
    if a <= b {
        a
    } else {
        b
    }
}

pub open spec fn max_int(a: int, b: int) -> int {
    if a >= b {
        a
    } else {
        b
    }
}

/// One channel blended from `a` toward `b` by `min(t, 1)`, rounded down.
pub open spec fn lerp(a: int, b: int, t: int) -> int {
    a + (b - a) * min_int(t, ONE as int) / (ONE as int)
}

/// `interpolate2` on the model: every channel blended by the same weight.
pub open spec fn blend(a: HsvColor, b: HsvColor, t: int) -> HsvColor {
    HsvColor {
        hue: lerp(a.hue as int, b.hue as int, t) as i32,
        saturation: lerp(a.saturation as int, b.saturation as int, t) as i32,
        value: lerp(a.value as int, b.value as int, t) as i32,
    }
}

proof fn lemma_lerp_between(a: int, b: int, t: int)
    requires
        0 <= t,
    ensures
        a <= b ==> a <= lerp(a, b, t) <= b,
        b < a ==> b <= lerp(a, b, t) <= a,
{
    let tc = min_int(t, ONE as int);
    let d = b - a;
    if d >= 0 {
        assert(0 <= d * tc <= d * ONE) by (nonlinear_arith)
            requires
                d >= 0,
                0 <= tc <= ONE,
        ;
    } else {
        assert(d * ONE <= d * tc <= 0) by (nonlinear_arith)
            requires
                d < 0,
                0 <= tc <= ONE,
        ;
    }
}

fn lerp_channel(a: i32, b: i32, t: i32) -> (r: i32)
    requires
        0 <= t,
    ensures
        r == lerp(a as int, b as int, t as int),
{
    let tc: i64 = if t > ONE {
        ONE as i64
    } else {
        t as i64
    };
    let d: i64 = b as i64 - a as i64;
    assert(-0x1_0000_0000 * 60000 <= d * tc <= 0x1_0000_0000 * 60000) by (nonlinear_arith)
        requires
            -0x1_0000_0000 <= d <= 0x1_0000_0000,
            0 <= tc <= 60000,
    ;
    let prod: i64 = d * tc;
    proof {
        lemma_lerp_between(a as int, b as int, t as int);
        assert(tc == min_int(t as int, ONE as int));
        assert(a + (prod as int) / (ONE as int) == lerp(a as int, b as int, t as int));
    }
    match prod.checked_div_euclid(ONE as i64) {
        Some(q) => (a as i64 + q) as i32,
        None => a,
    }
}

/// Blends `a` toward `b` channel by channel: `a - (a - b) * min(t, 1)`.
/// The weight is limited from above only; it may not be negative.
pub fn interpolate2(a: &HsvColor, b: &HsvColor, t: i32) -> (r: HsvColor)
    requires
        0 <= t,
    ensures
        r == blend(*a, *b, t as int),
{
    HsvColor {
        hue: lerp_channel(a.hue, b.hue, t),
        saturation: lerp_channel(a.saturation, b.saturation, t),
        value: lerp_channel(a.value, b.value, t),
    }
}

/// `interpolate3` on the model: `a` at `t == 0`, toward `b` for positive `t`
/// and toward `c` for negative `t`, each reached at `|t| >= 1`.
pub open spec fn blend3(a: HsvColor, b: HsvColor, c: HsvColor, t: int) -> HsvColor {
    if t > 0 {
        blend(a, b, t)
    } else if t < 0 {
        blend(a, c, -t)
    } else {
        a
    }
}

/// Sign-dispatched blend of three colors with `a` as the pivot: for `t > 0`
/// toward `b` by `min(t, 1)`, for `t < 0` toward `c` by `min(-t, 1)`, and
/// `a` itself at `t == 0`.
pub fn interpolate3(a: &HsvColor, b: &HsvColor, c: &HsvColor, t: i32) -> (r: HsvColor)
    ensures
        r == blend3(*a, *b, *c, t as int),
{
    if t > 0 {
        interpolate2(a, b, t)
    } else if t < 0 {
        let w: i32 = if t < -ONE {
            ONE
        } else {
            -t
        };
        let r = interpolate2(a, c, w);
        assert(min_int(w as int, ONE as int) == min_int(-t, ONE as int));
        r
    } else {
        *a
    }
}

/// `value` after a brightness cap: scaled by `max(cap, 0)`, then limited to 1.
pub open spec fn dimmed(value: int, cap: int) -> int {
    min_int(value * max_int(cap, 0) / (ONE as int), ONE as int)
}

impl HsvColor {
    /// Scales `value` by `max(cap, 0)` and limits it to at most 1; hue and
    /// saturation are kept. The cap is a brightness ceiling in [0, 1].
    pub fn set_brightness(&mut self, cap: i32)
        requires
            cap <= ONE,
        ensures
            final(self).hue == old(self).hue,
            final(self).saturation == old(self).saturation,
            final(self).value == dimmed(old(self).value as int, cap as int),
    {
        let c: i64 = if cap > 0 {
            cap as i64
        } else {
            0
        };
        let v: i64 = self.value as i64;
        proof {
            let vi = v as int;
            let ci = c as int;
            if vi >= 0 {
                assert(0 <= vi * ci <= vi * 60000) by (nonlinear_arith)
                    requires
                        vi >= 0,
                        0 <= ci <= 60000,
                ;
            } else {
                assert(vi * 60000 <= vi * ci <= 0) by (nonlinear_arith)
                    requires
                        vi < 0,
                        0 <= ci <= 60000,
                ;
            }
            assert(c as int == max_int(cap as int, 0));
        }
        let prod: i64 = v * c;
        let q: i64 = match prod.checked_div_euclid(ONE as i64) {
            Some(q) => q,
            None => 0,
        };
        self.value = if q > ONE as i64 {
            ONE
        } else {
            q as i32
        };
    }
}

/// Denominator of the exact channel numerators below: `ONE` cubed.
pub open spec fn cube() -> int {
    (ONE as int) * (ONE as int) * (ONE as int)
}

/// A channel whose exact value is `n / ONE^3`, scaled to 0..=255 and
/// truncated; negative values give 0 and values above 1 give 255.
pub open spec fn channel_byte(n: int) -> u8 {
    if n <= 0 {
        0
    } else {
        min_int(n * 255 / cube(), 255) as u8
    }
}

/// Hue wrapped into [0, 1).
pub open spec fn wrapped_hue(c: HsvColor) -> int {
    (c.hue as int) % (ONE as int)
}

/// The sector 0..=5 of the hue circle that the wrapped hue lies in.
pub open spec fn hue_sector(c: HsvColor) -> int {
    wrapped_hue(c) * 6 / (ONE as int)
}

/// Position of the hue within its sector, in [0, 1).
pub open spec fn hue_fraction(c: HsvColor) -> int {
    (wrapped_hue(c) * 6) % (ONE as int)
}

/// `value`, as a numerator over `ONE^3`.
pub open spec fn full_level(c: HsvColor) -> int {
    c.value * (ONE as int) * (ONE as int)
}

/// `value * (1 - saturation)`, as a numerator over `ONE^3`.
pub open spec fn low_level(c: HsvColor) -> int {
    c.value * ((ONE as int) - c.saturation) * (ONE as int)
}

/// `value * (1 - saturation * f)`, falling across the sector.
pub open spec fn falling_level(c: HsvColor) -> int {
    c.value * ((ONE as int) * (ONE as int) - c.saturation * hue_fraction(c))
}

/// `value * (1 - saturation * (1 - f))`, rising across the sector.
pub open spec fn rising_level(c: HsvColor) -> int {
    c.value * ((ONE as int) * (ONE as int) - c.saturation * ((ONE as int) - hue_fraction(c)))
}

/// The standard hue-sector conversion of `c`, each channel truncated to a byte.
pub open spec fn rgb_of(c: HsvColor) -> Rgb8 {
    let full = channel_byte(full_level(c));
    let low = channel_byte(low_level(c));
    let fall = channel_byte(falling_level(c));
    let rise = channel_byte(rising_level(c));
    let sector = hue_sector(c);
    if sector == 0 {
        Rgb8 { red: full, green: rise, blue: low }
    } else if sector == 1 {
        Rgb8 { red: fall, green: full, blue: low }
    } else if sector == 2 {
        Rgb8 { red: low, green: full, blue: rise }
    } else if sector == 3 {
        Rgb8 { red: low, green: fall, blue: full }
    } else if sector == 4 {
        Rgb8 { red: rise, green: low, blue: full }
    } else {
        Rgb8 { red: full, green: low, blue: fall }
    }
}

/// Bound on the magnitude of every channel numerator.
spec fn level_bound() -> int {
    0x1_0000_0000_0000_0000_0000
}

fn to_byte(n: i128) -> (r: u8)
    requires
        -level_bound() <= n <= level_bound(),
    ensures
        r == channel_byte(n as int),
{
    if n <= 0 {
        0
    } else {
        let q: u128 = (n as u128) * 255 / 216_000_000_000_000;
        if q >= 255 {
            255
        } else {
            q as u8
        }
    }
}

proof fn lemma_product_bound(v: int, w: int)
    requires
        -0x8000_0000 <= v <= 0x8000_0000,
        -0x8000_0000 * 60000 - 3_600_000_000 <= w <= 0x8000_0000 * 60000 + 3_600_000_000,
    ensures
        -level_bound() <= v * w <= level_bound(),
{
    let k = 0x8000_0000 * 60000 + 3_600_000_000;
    assert(-0x8000_0000 * k <= v * w <= 0x8000_0000 * k) by (nonlinear_arith)
        requires
            -0x8000_0000 <= v <= 0x8000_0000,
            -k <= w <= k,
    ;
}

proof fn lemma_level_bounds(v: int, s: int, f: int)
    requires
        -0x8000_0000 <= v < 0x8000_0000,
        -0x8000_0000 <= s < 0x8000_0000,
        0 <= f < ONE,
    ensures
        -0x8000_0000 * 60000 <= s * f <= 0x8000_0000 * 60000,
        -0x8000_0000 * 60000 <= s * ((ONE as int) - f) <= 0x8000_0000 * 60000,
        -level_bound() <= v * (ONE as int) * (ONE as int) <= level_bound(),
        -level_bound() <= v * ((ONE as int) - s) * (ONE as int) <= level_bound(),
        -level_bound() <= v * ((ONE as int) * (ONE as int) - s * f) <= level_bound(),
        -level_bound() <= v * ((ONE as int) * (ONE as int) - s * ((ONE as int) - f))
            <= level_bound(),
{
    assert(-0x8000_0000 * 60000 <= s * f <= 0x8000_0000 * 60000) by (nonlinear_arith)
        requires
            -0x8000_0000 <= s < 0x8000_0000,
            0 <= f < 60000,
    ;
    assert(-0x8000_0000 * 60000 <= s * (60000 - f) <= 0x8000_0000 * 60000)
        by (nonlinear_arith)
        requires
            -0x8000_0000 <= s < 0x8000_0000,
            0 <= f < 60000,
    ;
    lemma_product_bound(v, 3_600_000_000);
    lemma_product_bound(v, (60000 - s) * 60000);
    lemma_product_bound(v, 3_600_000_000 - s * f);
    lemma_product_bound(v, 3_600_000_000 - s * (60000 - f));
    assert(v * 60000 * 60000 == v * 3_600_000_000) by (nonlinear_arith);
    assert(v * (60000 - s) * 60000 == v * ((60000 - s) * 60000)) by (nonlinear_arith);
}

/// Converts `c` to a byte triple by the standard hue-sector rule. The hue
/// is taken modulo 1 (always non-negative); within the sector each channel
/// is linear in the hue's position, saturation and value, scaled to 0..=255
/// and truncated.
pub fn hsv_to_rgb8(c: &HsvColor) -> (r: Rgb8)
    ensures
        r == rgb_of(*c),
{
    let hw: i32 = match c.hue.checked_rem_euclid(ONE) {
        Some(h) => h,
        None => 0,
    };
    assert(hw == wrapped_hue(*c));
    let x: u64 = hw as u64 * 6;
    let sector: u64 = x / (ONE as u64);
    let f: i128 = (x % (ONE as u64)) as i128;
    let one: i128 = ONE as i128;
    let v: i128 = c.value as i128;
    let s: i128 = c.saturation as i128;
    proof {
        lemma_level_bounds(v as int, s as int, f as int);
    }
    let full = to_byte(v * one * one);
    let low = to_byte(v * (one - s) * one);
    let fall = to_byte(v * (one * one - s * f));
    let rise = to_byte(v * (one * one - s * (one - f)));
    if sector == 0 {
        Rgb8 { red: full, green: rise, blue: low }
    } else if sector == 1 {
        Rgb8 { red: fall, green: full, blue: low }
    } else if sector == 2 {
        Rgb8 { red: low, green: full, blue: rise }
    } else if sector == 3 {
        Rgb8 { red: low, green: fall, blue: full }
    } else if sector == 4 {
        Rgb8 { red: rise, green: low, blue: full }
    } else {
        Rgb8 { red: full, green: low, blue: fall }
    }
}

/// `x` (a fixed-point number) scaled to 0..=255 and truncated.
pub open spec fn unit_byte(x: int) -> int {
    if x <= 0 {
        0
    } else {
        min_int(x * 255 / (ONE as int), 255)
    }
}

/// The product `x * y` of two fixed-point numbers scaled to 0..=255 and truncated.
pub open spec fn product_byte(x: int, y: int) -> int {
    if x * y <= 0 {
        0
    } else {
        min_int(x * y * 255 / ((ONE as int) * (ONE as int)), 255)
    }
}

/// The pixel expected at the `k`-th sector boundary (hue `k / 6`), with
/// `hi` for the channels at full value and `lo` for those at `value * (1 - saturation)`:
/// red, yellow, green, cyan, blue, magenta.
pub open spec fn boundary_rgb(k: int, hi: u8, lo: u8) -> Rgb8 {
    if k == 0 {
        Rgb8 { red: hi, green: lo, blue: lo }
    } else if k == 1 {
        Rgb8 { red: hi, green: hi, blue: lo }
    } else if k == 2 {
        Rgb8 { red: lo, green: hi, blue: lo }
    } else if k == 3 {
        Rgb8 { red: lo, green: hi, blue: hi }
    } else if k == 4 {
        Rgb8 { red: lo, green: lo, blue: hi }
    } else {
        Rgb8 { red: hi, green: lo, blue: hi }
    }
}

/// At a hue exactly on a sector boundary (`k / 6` modulo 1) the conversion
/// gives the analytic pure or mixed primary with no rounding beyond the
/// final truncation: each channel is either `value` or
/// `value * (1 - saturation)`, scaled to 0..=255 and truncated.
pub proof fn lemma_sector_boundary(c: HsvColor, k: int)
    requires
        0 <= k < 6,
        wrapped_hue(c) == k * (ONE as int) / 6,
    ensures
        rgb_of(c) == boundary_rgb(
            k,
            unit_byte(c.value as int) as u8,
            product_byte(c.value as int, (ONE as int) - c.saturation) as u8,
        ),
{
    let v = c.value as int;
    let s = c.saturation as int;
    assert(wrapped_hue(c) * 6 == k * 60000);
    assert((k * 60000) % 60000 == 0 && (k * 60000) / 60000 == k) by {
        vstd::arithmetic::div_mod::lemma_mod_multiples_basic(k, 60000);
        vstd::arithmetic::div_mod::lemma_div_multiples_vanish(k, 60000);
    }
    assert(hue_fraction(c) == 0);
    assert(hue_sector(c) == k);
    assert(falling_level(c) == full_level(c)) by (nonlinear_arith)
        requires
            hue_fraction(c) == 0,
    ;
    assert(rising_level(c) == low_level(c)) by (nonlinear_arith)
        requires
            hue_fraction(c) == 0,
    ;
    assert(channel_byte(full_level(c)) == unit_byte(v)) by {
        assert(v * 60000 * 60000 == 3_600_000_000 * v) by (nonlinear_arith);
        if v > 0 {
            assert(3_600_000_000 * v > 0) by (nonlinear_arith)
                requires
                    v > 0,
            ;
            assert(3_600_000_000 * v * 255 == 3_600_000_000 * (v * 255)) by (nonlinear_arith);
            assert(cube() == 3_600_000_000 * 60000);
            vstd::arithmetic::div_mod::lemma_div_multiples_vanish_quotient(
                3_600_000_000,
                v * 255,
                60000,
            );
        } else {
            assert(3_600_000_000 * v <= 0) by (nonlinear_arith)
                requires
                    v <= 0,
            ;
        }
    }
    assert(channel_byte(low_level(c)) == product_byte(v, 60000 - s)) by {
        let p = v * (60000 - s);
        assert(v * (60000 - s) * 60000 == 60000 * p) by (nonlinear_arith)
            requires
                p == v * (60000 - s),
        ;
        if p > 0 {
            assert(60000 * p > 0) by (nonlinear_arith)
                requires
                    p > 0,
            ;
            assert(60000 * p * 255 == 60000 * (p * 255)) by (nonlinear_arith);
            assert(cube() == 60000 * 3_600_000_000);
            vstd::arithmetic::div_mod::lemma_div_multiples_vanish_quotient(
                60000,
                p * 255,
                3_600_000_000,
            );
        } else {
            assert(60000 * p <= 0) by (nonlinear_arith)
                requires
                    p <= 0,
            ;
        }
    }
}

/// Blending by weight 0 gives the first color and by weight 1 the second,
/// for any two colors.
pub proof fn lemma_blend_endpoints(a: HsvColor, b: HsvColor)
    ensures
        blend(a, b, 0) == a,
        blend(a, b, ONE as int) == b,
{
    lemma_lerp_endpoints(a.hue as int, b.hue as int);
    lemma_lerp_endpoints(a.saturation as int, b.saturation as int);
    lemma_lerp_endpoints(a.value as int, b.value as int);
}

proof fn lemma_lerp_endpoints(x: int, y: int)
    ensures
        lerp(x, y, 0) == x,
        lerp(x, y, ONE as int) == y,
{
    assert((y - x) * 0 == 0);
    vstd::arithmetic::div_mod::lemma_div_by_multiple(0, 60000);
    assert((y - x) * 60000 == 60000 * (y - x)) by (nonlinear_arith);
    vstd::arithmetic::div_mod::lemma_div_multiples_vanish(y - x, 60000);
}

/// The three-way blend gives its pivot at 0, the first extreme at 1 and
/// the second at -1.
pub proof fn lemma_blend3_pivots(a: HsvColor, b: HsvColor, c: HsvColor)
    ensures
        blend3(a, b, c, 0) == a,
        blend3(a, b, c, ONE as int) == b,
        blend3(a, b, c, -(ONE as int)) == c,
{
    lemma_blend_endpoints(a, b);
    lemma_blend_endpoints(a, c);
}

} // verus!
