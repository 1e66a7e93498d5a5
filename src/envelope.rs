use vstd::prelude::*;

use crate::color::{min_int, ONE};

verus! {

/// Life stage of a sparkle envelope.
#[derive(Clone, Copy, Debug, PartialEq, Eq, Structural)]
pub enum Stage {
    Attack,
    Sustain,
    Release,
}

/// One independent, randomly placed flash. Durations and the timer are in
/// microseconds; `position`, `falloff`, `level` and `color_mix` are
/// fixed-point numbers in units of `1 / ONE`.
#[derive(Clone, Copy, Debug, PartialEq, Eq, Structural)]
pub struct SparkleEnvelope {
    /// Location on the strip, in [0, 1].
    pub position: i32,
    /// Spatial decay rate of the flash.
    pub falloff: i32,
    /// False once a release has run out; the envelope then waits to be respawned.
    pub live: bool,
    pub stage: Stage,
    /// Time spent in the current stage.
    pub timer_us: u64,
    /// Current intensity, in [0, 1].
    pub level: i32,
    pub attack_us: u32,
    pub sustain_us: u32,
    pub release_us: u32,
    /// Selector in [0, 1] between two accent colors.
    pub color_mix: i32,
}

/// Fresh parameters for a sparkle that is placed anew.
#[derive(Clone, Copy, Debug, PartialEq, Eq, Structural)]
pub struct SparkleSeed {
    pub position: i32,
    pub attack_us: u32,
    pub release_us: u32,
    pub color_mix: i32,
}

/// The part of a ramp of length `d` covered while the stage timer moves from
/// `t0` to `t1`, in units of `1 / ONE`. Rounding each end of the interval
/// (rather than the step itself) makes the steps add up exactly, so a ramp
/// is complete exactly when its timer reaches `d`. A ramp of length zero
/// completes at once.
pub open spec fn ramp_step(t0: int, t1: int, d: int) -> int {
    if d == 0 {
        ONE as int
    } else {
        t1 * (ONE as int) / d - t0 * (ONE as int) / d
    }
}

/// Stage timer after `dt` more microseconds.
pub open spec fn later(timer: u64, dt: int) -> u64 {
    min_int(timer + dt, u64::MAX as int) as u64
}

/// One tick of `dt` microseconds of the envelope's life cycle.
pub open spec fn advanced(e: SparkleEnvelope, dt: int) -> SparkleEnvelope {
    let t1 = later(e.timer_us, dt);
    if !e.live {
        e
    } else {
        match e.stage {
            Stage::Attack => {
                let lvl = min_int(e.level + ramp_step(e.timer_us as int, t1 as int, e.attack_us as int), ONE as int);
                if lvl >= ONE {
                    SparkleEnvelope { stage: Stage::Sustain, timer_us: 0, level: ONE, ..e }
                } else {
                    SparkleEnvelope { timer_us: t1, level: lvl as i32, ..e }
                }
            },
            Stage::Sustain => {
                if t1 >= e.sustain_us {
                    SparkleEnvelope { stage: Stage::Release, timer_us: 0, ..e }
                } else {
                    SparkleEnvelope { timer_us: t1, ..e }
                }
            },
            Stage::Release => {
                let lvl = e.level - ramp_step(e.timer_us as int, t1 as int, e.release_us as int);
                if lvl <= 0 {
                    SparkleEnvelope { timer_us: t1, level: 0, live: false, ..e }
                } else {
                    SparkleEnvelope { timer_us: t1, level: lvl as i32, ..e }
                }
            },
        }
    }
}

/// `e` back at the start of its life: live, attacking, with timer and level at zero.
pub open spec fn restarted(e: SparkleEnvelope) -> SparkleEnvelope {
    SparkleEnvelope { live: true, stage: Stage::Attack, timer_us: 0, level: 0, ..e }
}

/// `e` placed anew from `seed`: position and durations replaced (and the
/// accent selector too when `with_mix`), then restarted.
pub open spec fn respawned(e: SparkleEnvelope, seed: SparkleSeed, with_mix: bool) -> SparkleEnvelope {
    restarted(
        SparkleEnvelope {
            position: seed.position,
            attack_us: seed.attack_us,
            release_us: seed.release_us,
            color_mix: if with_mix {
                seed.color_mix
            } else {
                e.color_mix
            },
            ..e
        },
    )
}

fn step_of(t0: u64, t1: u64, d: u32) -> (r: u128)
    requires
        t0 <= t1,
    ensures
        r == ramp_step(t0 as int, t1 as int, d as int),
    no_unwind
{
    if d == 0 {
        ONE as u128
    } else {
        assert((t1 as int) * 60000 <= 0x1_0000_0000_0000_0000 * 60000) by (nonlinear_arith)
            requires
                t1 < 0x1_0000_0000_0000_0000,
        ;
        let a: u128 = (t1 as u128) * (ONE as u128) / (d as u128);
        let b: u128 = (t0 as u128) * (ONE as u128) / (d as u128);
        proof {
            assert((t0 as int) * 60000 <= (t1 as int) * 60000);
            vstd::arithmetic::div_mod::lemma_div_is_ordered(
                (t0 as int) * 60000,
                (t1 as int) * 60000,
                d as int,
            );
        }
        a - b
    }
}

impl SparkleEnvelope {
    /// The level and the accent selector stay within [0, 1].
    pub open spec fn wf(self) -> bool {
        &&& 0 <= self.level <= ONE
        &&& 0 <= self.color_mix <= ONE
    }

    /// A live envelope at the start of its attack, at position 0, with
    /// one-second stages.
    pub fn new() -> (r: SparkleEnvelope)
        ensures
            r.wf(),
            r.live,
            r.stage == Stage::Attack,
            r.timer_us == 0,
            r.level == 0,
            r.position == 0,
            r.falloff == ONE,
            r.attack_us == 1_000_000,
            r.sustain_us == 1_000_000,
            r.release_us == 1_000_000,
            r.color_mix == 0,
    {
        SparkleEnvelope {
            position: 0,
            falloff: ONE,
            live: true,
            stage: Stage::Attack,
            timer_us: 0,
            level: 0,
            attack_us: 1_000_000,
            sustain_us: 1_000_000,
            release_us: 1_000_000,
            color_mix: 0,
        }
    }

    /// Advances the life cycle by one tick of `dt` microseconds.
    /// Attack raises the level by `dt / attack` (limited to 1) and moves on to
    /// sustain when it reaches 1; sustain holds the level until its timer
    /// reaches the sustain duration; release lowers the level by
    /// `dt / release`, and when nothing is left the envelope stops being
    /// live. A stopped envelope does not change. Each stage change resets the
    /// timer.
    pub fn run(&mut self, dt: u32)
        requires
            old(self).wf(),
        ensures
            *final(self) == advanced(*old(self), dt as int),
            final(self).wf(),
        no_unwind
    {
        if !self.live {
            return;
        }
        let t0 = self.timer_us;
        let t1: u64 = if t0 > u64::MAX - dt as u64 {
            u64::MAX
        } else {
            t0 + dt as u64
        };
        match self.stage {
            Stage::Attack => {
                let step = step_of(t0, t1, self.attack_us);
                if step >= (ONE - self.level) as u128 {
                    self.stage = Stage::Sustain;
                    self.timer_us = 0;
                    self.level = ONE;
                } else {
                    self.timer_us = t1;
                    self.level = self.level + step as i32;
                }
            },
            Stage::Sustain => {
                if t1 >= self.sustain_us as u64 {
                    self.stage = Stage::Release;
                    self.timer_us = 0;
                } else {
                    self.timer_us = t1;
                }
            },
            Stage::Release => {
                let step = step_of(t0, t1, self.release_us);
                self.timer_us = t1;
                if step >= self.level as u128 {
                    self.level = 0;
                    self.live = false;
                } else {
                    self.level = self.level - step as i32;
                }
            },
        }
    }

    /// Restarts the life cycle: live, attacking, timer and level at zero.
    /// Position, durations, falloff and accent selector are kept.
    pub fn reset(&mut self)
        requires
            old(self).wf(),
        ensures
            *final(self) == restarted(*old(self)),
            final(self).wf(),
        no_unwind
    {
        self.live = true;
        self.stage = Stage::Attack;
        self.timer_us = 0;
        self.level = 0;
    }

    /// Places the envelope anew from `seed` (position, attack and release,
    /// and the accent selector when `with_mix`) and restarts it.
    pub fn respawn(&mut self, seed: &SparkleSeed, with_mix: bool)
        requires
            old(self).wf(),
            with_mix ==> 0 <= seed.color_mix <= ONE,
        ensures
            *final(self) == respawned(*old(self), *seed, with_mix),
            final(self).wf(),
        no_unwind
    {
        self.position = seed.position;
        self.attack_us = seed.attack_us;
        self.release_us = seed.release_us;
        if with_mix {
            self.color_mix = seed.color_mix;
        }
        self.reset();
    }
}

/// The envelope after `n` ticks of `dt` microseconds each.
pub open spec fn ticks(e: SparkleEnvelope, dt: int, n: nat) -> SparkleEnvelope
    decreases n,
{
    if n == 0 {
        e
    } else {
        advanced(ticks(e, dt, (n - 1) as nat), dt)
    }
}

/// Number of ticks of `dt` it takes to cover a duration `d`: `ceil(d / dt)`.
pub open spec fn ticks_for(d: int, dt: int) -> int {
    (d + dt - 1) / dt
}

proof fn lemma_ticks_split(e: SparkleEnvelope, dt: int, a: nat, b: nat)
    ensures
        ticks(e, dt, a + b) == ticks(ticks(e, dt, a), dt, b),
    decreases b,
{
    if b > 0 {
        lemma_ticks_split(e, dt, a, (b - 1) as nat);
        assert(((a + b) - 1) as nat == a + ((b - 1) as nat));
    }
}

proof fn lemma_ceil_ticks(d: int, dt: int)
    requires
        d > 0,
        dt > 0,
    ensures
        ticks_for(d, dt) >= 1,
        (ticks_for(d, dt) - 1) * dt < d,
        d <= ticks_for(d, dt) * dt < d + dt,
{
    let n = ticks_for(d, dt);
    vstd::arithmetic::div_mod::lemma_fundamental_div_mod(d + dt - 1, dt);
    let r = (d + dt - 1) % dt;
    assert(d + dt - 1 == dt * n + r);
    assert(0 <= r < dt);
    assert(n * dt == dt * n) by (nonlinear_arith);
    assert((n - 1) * dt == n * dt - dt) by (nonlinear_arith);
    assert(n >= 1) by (nonlinear_arith)
        requires
            d + dt - 1 == dt * n + r,
            r < dt,
            d > 0,
            dt > 0,
    ;
}

/// `x / d` as a fixed-point fraction, compared with 1.
proof fn lemma_fraction(x: int, d: int)
    requires
        0 <= x,
        d > 0,
    ensures
        0 <= x * (ONE as int) / d,
        x < d ==> x * (ONE as int) / d < ONE,
        x >= d ==> x * (ONE as int) / d >= ONE,
{
    let m = x * 60000;
    vstd::arithmetic::div_mod::lemma_fundamental_div_mod(m, d);
    let q = m / d;
    let r = m % d;
    assert(0 <= m) by (nonlinear_arith)
        requires
            0 <= x,
            m == x * 60000,
    ;
    assert(0 <= q) by (nonlinear_arith)
        requires
            m == d * q + r,
            0 <= r < d,
            0 <= m,
    ;
    if x < d {
        assert(q < 60000) by (nonlinear_arith)
            requires
                m == x * 60000,
                m == d * q + r,
                0 <= r < d,
                x < d,
        ;
    } else {
        assert(q >= 60000) by (nonlinear_arith)
            requires
                m == x * 60000,
                m == d * q + r,
                0 <= r < d,
                x >= d,
        ;
    }
}

proof fn lemma_fraction_ordered(x: int, y: int, d: int)
    requires
        0 <= x <= y,
        d > 0,
    ensures
        x * (ONE as int) / d <= y * (ONE as int) / d,
{
    assert(x * 60000 <= y * 60000);
    vstd::arithmetic::div_mod::lemma_div_is_ordered(x * 60000, y * 60000, d);
}

/// The attack stage, `k` ticks after a restart: the level is the covered
/// fraction of the attack duration.
proof fn lemma_attack_ticks(e: SparkleEnvelope, dt: int, k: nat)
    requires
        e == restarted(e),
        e.attack_us > 0,
        0 < dt <= u32::MAX,
        k * dt < e.attack_us,
    ensures
        ticks(e, dt, k) == (SparkleEnvelope {
            timer_us: (k * dt) as u64,
            level: (k * dt * (ONE as int) / (e.attack_us as int)) as i32,
            ..e
        }),
    decreases k,
{
    let d = e.attack_us as int;
    lemma_fraction(k * dt, d);
    if k > 0 {
        let j = (k - 1) as nat;
        assert(j * dt == k * dt - dt) by (nonlinear_arith)
            requires
                j == k - 1,
        ;
        lemma_attack_ticks(e, dt, j);
        lemma_fraction(j * dt, d);
    } else {
        assert(0 * dt == 0);
    }
}

/// A stage of length `d` driven by its timer alone (sustain): `k` ticks in.
proof fn lemma_sustain_ticks(e: SparkleEnvelope, dt: int, k: nat)
    requires
        e.live,
        e.stage == Stage::Sustain,
        e.timer_us == 0,
        0 < dt <= u32::MAX,
        k * dt < e.sustain_us,
    ensures
        ticks(e, dt, k) == (SparkleEnvelope { timer_us: (k * dt) as u64, ..e }),
    decreases k,
{
    if k > 0 {
        let j = (k - 1) as nat;
        assert(j * dt == k * dt - dt) by (nonlinear_arith)
            requires
                j == k - 1,
        ;
        lemma_sustain_ticks(e, dt, j);
    } else {
        assert(0 * dt == 0);
    }
}

/// The release stage, `k` ticks in: the level is 1 less the covered
/// fraction of the release duration.
proof fn lemma_release_ticks(e: SparkleEnvelope, dt: int, k: nat)
    requires
        e.live,
        e.stage == Stage::Release,
        e.timer_us == 0,
        e.level == ONE,
        e.release_us > 0,
        0 < dt <= u32::MAX,
        k * dt < e.release_us,
    ensures
        ticks(e, dt, k) == (SparkleEnvelope {
            timer_us: (k * dt) as u64,
            level: (ONE - k * dt * (ONE as int) / (e.release_us as int)) as i32,
            ..e
        }),
    decreases k,
{
    let d = e.release_us as int;
    lemma_fraction(k * dt, d);
    if k > 0 {
        let j = (k - 1) as nat;
        assert(j * dt == k * dt - dt) by (nonlinear_arith)
            requires
                j == k - 1,
        ;
        lemma_release_ticks(e, dt, j);
        lemma_fraction(j * dt, d);
    } else {
        assert(0 * dt == 0);
    }
}

proof fn lemma_dead_ticks(e: SparkleEnvelope, dt: int, k: nat)
    requires
        !e.live,
    ensures
        ticks(e, dt, k) == e,
    decreases k,
{
    if k > 0 {
        lemma_dead_ticks(e, dt, (k - 1) as nat);
    }
}

/// A restarted envelope whose three stages all last as long as its attack,
/// driven by ticks of `dt > 0`.
pub open spec fn even_cycle_start(e: SparkleEnvelope, dt: int) -> bool {
    &&& e == restarted(e)
    &&& e.attack_us > 0
    &&& e.sustain_us == e.attack_us
    &&& e.release_us == e.attack_us
    &&& 0 < dt <= u32::MAX
}

proof fn lemma_cycle_attack_at(e: SparkleEnvelope, dt: int, k: nat)
    requires
        even_cycle_start(e, dt),
        k < ticks_for(e.attack_us as int, dt),
    ensures
        ticks(e, dt, k).live,
        ticks(e, dt, k).stage == Stage::Attack,
        ticks(e, dt, k).level == k * dt * (ONE as int) / (e.attack_us as int),
        ticks(e, dt, k).level < ONE,
        ticks(e, dt, k).level <= ticks(e, dt, k + 1).level,
{
    let d = e.attack_us as int;
    let n = ticks_for(d, dt);
    lemma_ceil_ticks(d, dt);
    assert(k * dt <= (n - 1) * dt) by (nonlinear_arith)
        requires
            k <= n - 1,
            dt > 0,
    ;
    lemma_attack_ticks(e, dt, k);
    lemma_fraction(k * dt, d);
    if k + 1 < n {
        assert((k + 1) * dt <= (n - 1) * dt) by (nonlinear_arith)
            requires
                k + 1 <= n - 1,
                dt > 0,
        ;
        lemma_attack_ticks(e, dt, (k + 1) as nat);
        lemma_fraction_ordered(k * dt, (k + 1) * dt, d);
    } else {
        lemma_cycle_sustain_start(e, dt);
    }
}

proof fn lemma_cycle_sustain_start(e: SparkleEnvelope, dt: int)
    requires
        even_cycle_start(e, dt),
    ensures
        ticks(e, dt, ticks_for(e.attack_us as int, dt) as nat) == (SparkleEnvelope {
            stage: Stage::Sustain,
            timer_us: 0,
            level: ONE,
            ..e
        }),
{
    let d = e.attack_us as int;
    let n = ticks_for(d, dt);
    lemma_ceil_ticks(d, dt);
    let last = (n - 1) as nat;
    lemma_attack_ticks(e, dt, last);
    assert(last * dt + dt == n * dt) by (nonlinear_arith)
        requires
            last == n - 1,
    ;
    lemma_fraction(n * dt, d);
    lemma_fraction(last * dt, d);
    assert(ticks(e, dt, n as nat) == advanced(ticks(e, dt, last), dt));
}

proof fn lemma_cycle_sustain_at(e: SparkleEnvelope, dt: int, k: nat)
    requires
        even_cycle_start(e, dt),
        ticks_for(e.attack_us as int, dt) <= k < 2 * ticks_for(e.attack_us as int, dt),
    ensures
        ticks(e, dt, k).live,
        ticks(e, dt, k).stage == Stage::Sustain,
        ticks(e, dt, k).level == ONE,
{
    let d = e.attack_us as int;
    let n = ticks_for(d, dt);
    lemma_ceil_ticks(d, dt);
    lemma_cycle_sustain_start(e, dt);
    let s0 = ticks(e, dt, n as nat);
    let j = (k - n) as nat;
    lemma_ticks_split(e, dt, n as nat, j);
    assert(j * dt <= (n - 1) * dt) by (nonlinear_arith)
        requires
            j <= n - 1,
            dt > 0,
    ;
    lemma_sustain_ticks(s0, dt, j);
}

proof fn lemma_cycle_release_start(e: SparkleEnvelope, dt: int)
    requires
        even_cycle_start(e, dt),
    ensures
        ticks(e, dt, (2 * ticks_for(e.attack_us as int, dt)) as nat) == (SparkleEnvelope {
            stage: Stage::Release,
            timer_us: 0,
            level: ONE,
            ..e
        }),
{
    let d = e.attack_us as int;
    let n = ticks_for(d, dt);
    lemma_ceil_ticks(d, dt);
    lemma_cycle_sustain_start(e, dt);
    let s0 = ticks(e, dt, n as nat);
    let last = (n - 1) as nat;
    lemma_sustain_ticks(s0, dt, last);
    assert(last * dt + dt == n * dt) by (nonlinear_arith)
        requires
            last == n - 1,
    ;
    lemma_ticks_split(e, dt, n as nat, n as nat);
    assert(ticks(s0, dt, n as nat) == advanced(ticks(s0, dt, last), dt));
}

proof fn lemma_cycle_release_at(e: SparkleEnvelope, dt: int, k: nat)
    requires
        even_cycle_start(e, dt),
        2 * ticks_for(e.attack_us as int, dt) <= k < 3 * ticks_for(e.attack_us as int, dt),
    ensures
        ticks(e, dt, k).live,
        ticks(e, dt, k).stage == Stage::Release,
        ticks(e, dt, k).level == ONE - (k - 2 * ticks_for(e.attack_us as int, dt)) * dt * (
        ONE as int) / (e.attack_us as int),
        ticks(e, dt, k).level > 0,
        ticks(e, dt, k + 1).level <= ticks(e, dt, k).level,
{
    let d = e.attack_us as int;
    let n = ticks_for(d, dt);
    lemma_ceil_ticks(d, dt);
    lemma_cycle_release_start(e, dt);
    let r0 = ticks(e, dt, (2 * n) as nat);
    let j = (k - 2 * n) as nat;
    lemma_ticks_split(e, dt, (2 * n) as nat, j);
    lemma_ticks_split(e, dt, (2 * n) as nat, j + 1);
    assert(j * dt <= (n - 1) * dt) by (nonlinear_arith)
        requires
            j <= n - 1,
            dt > 0,
    ;
    lemma_release_ticks(r0, dt, j);
    lemma_fraction(j * dt, d);
    if j + 1 < n {
        assert((j + 1) * dt <= (n - 1) * dt) by (nonlinear_arith)
            requires
                j + 1 <= n - 1,
                dt > 0,
        ;
        lemma_release_ticks(r0, dt, j + 1);
        lemma_fraction_ordered(j * dt, (j + 1) * dt, d);
    } else {
        assert(j * dt + dt == (j + 1) * dt) by (nonlinear_arith);
        lemma_fraction_ordered(j * dt, (j + 1) * dt, d);
        assert(ticks(r0, dt, j + 1) == advanced(ticks(r0, dt, j), dt));
    }
    assert(ticks(e, dt, k + 1) == ticks(r0, dt, j + 1));
}

proof fn lemma_cycle_end(e: SparkleEnvelope, dt: int, k: nat)
    requires
        even_cycle_start(e, dt),
        k >= 3 * ticks_for(e.attack_us as int, dt),
    ensures
        !ticks(e, dt, k).live,
        ticks(e, dt, k).level == 0,
{
    let d = e.attack_us as int;
    let n = ticks_for(d, dt);
    lemma_ceil_ticks(d, dt);
    lemma_cycle_release_start(e, dt);
    let r0 = ticks(e, dt, (2 * n) as nat);
    let last = (n - 1) as nat;
    lemma_release_ticks(r0, dt, last);
    assert(last * dt + dt == n * dt) by (nonlinear_arith)
        requires
            last == n - 1,
    ;
    lemma_fraction(n * dt, d);
    lemma_fraction(last * dt, d);
    lemma_ticks_split(e, dt, (2 * n) as nat, n as nat);
    assert(ticks(r0, dt, n as nat) == advanced(ticks(r0, dt, last), dt));
    let z = ticks(e, dt, (3 * n) as nat);
    lemma_ticks_split(e, dt, (3 * n) as nat, (k - 3 * n) as nat);
    lemma_dead_ticks(z, dt, (k - 3 * n) as nat);
}

/// With attack, sustain and release all `d` and ticks of `dt > 0`, a
/// restarted envelope takes `n = ceil(d / dt)` ticks for each stage: its
/// level rises monotonically and reaches 1 at tick `n`, holds at 1 while
/// sustaining up to tick `2n`, falls monotonically while releasing and
/// reaches 0 at tick `3n`, when the envelope stops being live and then
/// stays so.
pub proof fn lemma_envelope_cycle(e: SparkleEnvelope, dt: int)
    requires
        even_cycle_start(e, dt),
    ensures
        ({
            let d = e.attack_us as int;
            let n = ticks_for(d, dt);
            &&& n >= 1
            &&& forall|k: nat|
                k < n ==> {
                    let x = #[trigger] ticks(e, dt, k);
                    &&& x.live
                    &&& x.stage == Stage::Attack
                    &&& x.level == k * dt * (ONE as int) / d
                    &&& x.level <= ticks(e, dt, k + 1).level
                }
            &&& ticks(e, dt, n as nat).stage == Stage::Sustain
            &&& ticks(e, dt, n as nat).level == ONE
            &&& forall|k: nat|
                n <= k < 2 * n ==> {
                    let x = #[trigger] ticks(e, dt, k);
                    &&& x.live
                    &&& x.stage == Stage::Sustain
                    &&& x.level == ONE
                }
            &&& ticks(e, dt, (2 * n) as nat).stage == Stage::Release
            &&& forall|k: nat|
                2 * n <= k < 3 * n ==> {
                    let x = #[trigger] ticks(e, dt, k);
                    &&& x.live
                    &&& x.stage == Stage::Release
                    &&& x.level == ONE - (k - 2 * n) * dt * (ONE as int) / d
                    &&& x.level > 0
                    &&& ticks(e, dt, k + 1).level <= x.level
                }
            &&& forall|k: nat|
                k >= 3 * n ==> {
                    let x = #[trigger] ticks(e, dt, k);
                    &&& !x.live
                    &&& x.level == 0
                }
        }),
{
    let d = e.attack_us as int;
    let n = ticks_for(d, dt);
    lemma_ceil_ticks(d, dt);
    lemma_cycle_sustain_start(e, dt);
    lemma_cycle_release_start(e, dt);
    assert forall|k: nat| k < n implies {
        let x = #[trigger] ticks(e, dt, k);
        &&& x.live
        &&& x.stage == Stage::Attack
        &&& x.level == k * dt * (ONE as int) / d
        &&& x.level <= ticks(e, dt, k + 1).level
    } by {
        lemma_cycle_attack_at(e, dt, k);
    }
    assert forall|k: nat| n <= k < 2 * n implies {
        let x = #[trigger] ticks(e, dt, k);
        &&& x.live
        &&& x.stage == Stage::Sustain
        &&& x.level == ONE
    } by {
        lemma_cycle_sustain_at(e, dt, k);
    }
    assert forall|k: nat| 2 * n <= k < 3 * n implies {
        let x = #[trigger] ticks(e, dt, k);
        &&& x.live
        &&& x.stage == Stage::Release
        &&& x.level == ONE - (k - 2 * n) * dt * (ONE as int) / d
        &&& x.level > 0
        &&& ticks(e, dt, k + 1).level <= x.level
    } by {
        lemma_cycle_release_at(e, dt, k);
    }
    assert forall|k: nat| k >= 3 * n implies {
        let x = #[trigger] ticks(e, dt, k);
        &&& !x.live
        &&& x.level == 0
    } by {
        lemma_cycle_end(e, dt, k);
    }
}

} // verus!
