use vstd::prelude::*;

use crate::color::{dimmed, HsvColor, ONE};
use crate::envelope::{advanced, respawned, SparkleEnvelope, SparkleSeed, Stage};
use crate::frame::{encode_frame, frame_bytes};
use crate::pattern::{pattern_of, render_strip, strip_pixels, Palette, Pattern};
use crate::random::random_below;

verus! {

/// Nominal render period: 60 frames per second, in microseconds.
pub const FRAME_PERIOD_US: u32 = 16_667;

/// How far the animation phase moves each tick: 1/2000 of a cycle.
pub const PHASE_STEP: i32 = 30;

/// Shortest attack or release of a freshly placed sparkle.
pub const STAGE_BASE_US: u32 = 1_000_000;

/// Range of the random part added to a sparkle's attack and release.
pub const STAGE_JITTER_US: u32 = 1_000_000;

/// How long every sparkle holds its full level.
pub const SUSTAIN_US: u32 = 2_000_000;

/// Settings read once at startup and fixed for the engine's lifetime.
#[derive(Clone, Copy, Debug, PartialEq, Eq, Structural)]
pub struct EngineConfig {
    /// Number of pixels on the strip.
    pub pixel_count: usize,
    /// Brightness cap in [0, 1] applied to every commanded color.
    pub brightness: i32,
    /// Number of sparkle envelopes.
    pub sparkle_count: usize,
    /// Spatial falloff of every sparkle.
    pub sparkle_falloff: i32,
}

/// A pattern change: three colors and a selector byte. It replaces all of
/// the pattern parameters at once.
#[derive(Clone, Copy, Debug, PartialEq, Eq, Structural)]
pub struct PatternCommand {
    pub color1: HsvColor,
    pub color2: HsvColor,
    pub color3: HsvColor,
    pub pattern: u8,
}

/// The abstract state of a render engine.
pub ghost struct EngineState {
    pub config: EngineConfig,
    pub pattern: Pattern,
    pub palette: Palette,
    pub phase: int,
    pub sparkles: Seq<SparkleEnvelope>,
}

/// Settings an engine can run with: a brightness cap of at most 1, and a
/// strip whose frame fits in memory.
pub open spec fn config_ok(config: EngineConfig) -> bool {
    &&& config.brightness <= ONE
    &&& 5 * config.pixel_count + 8 <= usize::MAX
}

/// Whether every seed is one that respawning may use.
pub open spec fn seeds_ok(seeds: Seq<SparkleSeed>) -> bool {
    forall|i: int| 0 <= i < seeds.len() ==> 0 <= #[trigger] seeds[i].color_mix <= ONE
}

/// A seed as the engine draws them: position and accent selector in [0, 1),
/// attack and release within the configured jitter.
pub open spec fn seed_drawn(seed: SparkleSeed) -> bool {
    &&& 0 <= seed.position < ONE
    &&& 0 <= seed.color_mix < ONE
    &&& STAGE_BASE_US <= seed.attack_us < STAGE_BASE_US + STAGE_JITTER_US
    &&& STAGE_BASE_US <= seed.release_us < STAGE_BASE_US + STAGE_JITTER_US
}

pub open spec fn all_drawn(seeds: Seq<SparkleSeed>) -> bool {
    forall|i: int| 0 <= i < seeds.len() ==> seed_drawn(#[trigger] seeds[i])
}

/// A color under the brightness cap.
pub open spec fn capped(c: HsvColor, cap: int) -> HsvColor {
    HsvColor { value: dimmed(c.value as int, cap) as i32, ..c }
}

/// The palette a command sets up, under the brightness cap.
pub open spec fn capped_palette(cmd: PatternCommand, cap: int) -> Palette {
    Palette {
        color1: capped(cmd.color1, cap),
        color2: capped(cmd.color2, cap),
        color3: capped(cmd.color3, cap),
    }
}

/// Sparkles moved to the seeds' positions (and given their accent
/// selectors too when `with_mix`); nothing else about them changes.
pub open spec fn repositioned(
    s: Seq<SparkleEnvelope>,
    seeds: Seq<SparkleSeed>,
    with_mix: bool,
) -> Seq<SparkleEnvelope> {
    Seq::new(
        s.len(),
        |i: int|
            SparkleEnvelope {
                position: seeds[i].position,
                color_mix: if with_mix {
                    seeds[i].color_mix
                } else {
                    s[i].color_mix
                },
                ..s[i]
            },
    )
}

/// One tick of every sparkle: one that is no longer live is first placed
/// anew from its seed, then each advances by `dt`.
pub open spec fn sparkles_ticked(
    s: Seq<SparkleEnvelope>,
    seeds: Seq<SparkleSeed>,
    with_mix: bool,
    dt: int,
) -> Seq<SparkleEnvelope> {
    Seq::new(
        s.len(),
        |i: int|
            advanced(
                if s[i].live {
                    s[i]
                } else {
                    respawned(s[i], seeds[i], with_mix)
                },
                dt,
            ),
    )
}

/// The state after a command. A selector that names no pattern changes
/// nothing. Otherwise the pattern and the capped colors replace the old
/// ones, and the sparkle patterns also move every sparkle to a fresh
/// position (the tinted one gives each a fresh accent selector too), even
/// when the pattern was already running.
pub open spec fn commanded(st: EngineState, cmd: PatternCommand, seeds: Seq<SparkleSeed>) -> EngineState {
    match pattern_of(cmd.pattern) {
        None => st,
        Some(p) => EngineState {
            pattern: p,
            palette: capped_palette(cmd, st.config.brightness as int),
            sparkles: if p.uses_sparkles() {
                repositioned(st.sparkles, seeds, p == Pattern::TintedSparkle)
            } else {
                st.sparkles
            },
            ..st
        },
    }
}

/// The state that a tick renders: the command applied, then the sparkles
/// advanced when the pattern uses them.
pub open spec fn rendered_state(
    st: EngineState,
    cmd: Option<PatternCommand>,
    seeds: Seq<SparkleSeed>,
) -> EngineState {
    let s1 = match cmd {
        Some(c) => commanded(st, c, seeds),
        None => st,
    };
    if s1.pattern.uses_sparkles() {
        EngineState {
            sparkles: sparkles_ticked(
                s1.sparkles,
                seeds,
                s1.pattern == Pattern::TintedSparkle,
                FRAME_PERIOD_US as int,
            ),
            ..s1
        }
    } else {
        s1
    }
}

/// The pixels a tick renders.
pub open spec fn tick_pixels(
    st: EngineState,
    cmd: Option<PatternCommand>,
    seeds: Seq<SparkleSeed>,
) -> Seq<crate::color::Rgb8> {
    let r = rendered_state(st, cmd, seeds);
    strip_pixels(r.pattern, r.palette, r.phase, r.sparkles, st.config.pixel_count as int)
}

/// The state after a tick: the rendered state with the phase moved on by
/// one step, wrapped into [0, 1).
pub open spec fn after_tick(
    st: EngineState,
    cmd: Option<PatternCommand>,
    seeds: Seq<SparkleSeed>,
) -> EngineState {
    let r = rendered_state(st, cmd, seeds);
    EngineState { phase: (r.phase + PHASE_STEP) % (ONE as int), ..r }
}

/// A sparkle as the engine first places it.
pub open spec fn spawned(seed: SparkleSeed, falloff: i32) -> SparkleEnvelope {
    SparkleEnvelope {
        position: seed.position,
        falloff: falloff,
        live: true,
        stage: Stage::Attack,
        timer_us: 0,
        level: 0,
        attack_us: seed.attack_us,
        sustain_us: SUSTAIN_US,
        release_us: seed.release_us,
        color_mix: seed.color_mix,
    }
}

/// The render loop's working state: the active pattern, its capped colors,
/// the animation phase and the sparkle envelopes, which are recycled and
/// never dropped.
pub struct RenderEngine {
    config: EngineConfig,
    pattern: Pattern,
    palette: Palette,
    phase: i32,
    sparkles: Vec<SparkleEnvelope>,
}

impl View for RenderEngine {
    type V = EngineState;

    closed spec fn view(&self) -> EngineState {
        EngineState {
            config: self.config,
            pattern: self.pattern,
            palette: self.palette,
            phase: self.phase as int,
            sparkles: self.sparkles@,
        }
    }
}

/// Invariant of every engine state: settings as `config_ok` asks, one
/// well-formed envelope per configured sparkle, and a phase in [0, 1).
pub open spec fn state_ok(st: EngineState) -> bool {
    &&& config_ok(st.config)
    &&& st.sparkles.len() == st.config.sparkle_count
    &&& forall|i: int| 0 <= i < st.sparkles.len() ==> (#[trigger] st.sparkles[i]).wf()
    &&& 0 <= st.phase < ONE
}

fn capped_color(c: &HsvColor, cap: i32) -> (r: HsvColor)
    requires
        cap <= ONE,
    ensures
        r == capped(*c, cap as int),
{
    let mut r = *c;
    r.set_brightness(cap);
    r
}

/// Moves every sparkle to its seed's position (and accent selector).
fn reposition_all(sparkles: &mut Vec<SparkleEnvelope>, seeds: &Vec<SparkleSeed>, with_mix: bool)
    requires
        old(sparkles).len() == seeds.len(),
        seeds_ok(seeds@),
        forall|i: int| 0 <= i < old(sparkles).len() ==> (#[trigger] old(sparkles)@[i]).wf(),
    ensures
        final(sparkles)@ == repositioned(old(sparkles)@, seeds@, with_mix),
        forall|i: int| 0 <= i < final(sparkles).len() ==> (#[trigger] final(sparkles)@[i]).wf(),
    no_unwind
{
    let n = sparkles.len();
    let mut i: usize = 0;
    while i < n
        invariant
            n == sparkles.len(),
            n == seeds.len(),
            n == old(sparkles).len(),
            i <= n,
            seeds_ok(seeds@),
            forall|k: int| 0 <= k < n ==> (#[trigger] sparkles@[k]).wf(),
            forall|k: int|
                0 <= k < i ==> sparkles@[k] == repositioned(old(sparkles)@, seeds@, with_mix)[k],
            forall|k: int| i <= k < n ==> sparkles@[k] == old(sparkles)@[k],
        decreases n - i,
    {
        let mut e = sparkles[i];
        e.position = seeds[i].position;
        if with_mix {
            e.color_mix = seeds[i].color_mix;
        }
        sparkles[i] = e;
        i = i + 1;
    }
    assert(sparkles@ =~= repositioned(old(sparkles)@, seeds@, with_mix));
}

/// One tick of every sparkle, respawning from the seeds those that are no
/// longer live.
fn tick_all(sparkles: &mut Vec<SparkleEnvelope>, seeds: &Vec<SparkleSeed>, with_mix: bool, dt: u32)
    requires
        old(sparkles).len() == seeds.len(),
        seeds_ok(seeds@),
        forall|i: int| 0 <= i < old(sparkles).len() ==> (#[trigger] old(sparkles)@[i]).wf(),
    ensures
        final(sparkles)@ == sparkles_ticked(old(sparkles)@, seeds@, with_mix, dt as int),
        forall|i: int| 0 <= i < final(sparkles).len() ==> (#[trigger] final(sparkles)@[i]).wf(),
    no_unwind
{
    let n = sparkles.len();
    let mut i: usize = 0;
    while i < n
        invariant
            n == sparkles.len(),
            n == seeds.len(),
            n == old(sparkles).len(),
            i <= n,
            seeds_ok(seeds@),
            forall|k: int| 0 <= k < n ==> (#[trigger] sparkles@[k]).wf(),
            forall|k: int|
                0 <= k < i ==> sparkles@[k] == sparkles_ticked(
                    old(sparkles)@,
                    seeds@,
                    with_mix,
                    dt as int,
                )[k],
            forall|k: int| i <= k < n ==> sparkles@[k] == old(sparkles)@[k],
        decreases n - i,
    {
        let mut e = sparkles[i];
        if !e.live {
            e.respawn(&seeds[i], with_mix);
        }
        e.run(dt);
        sparkles[i] = e;
        i = i + 1;
    }
    assert(sparkles@ =~= sparkles_ticked(old(sparkles)@, seeds@, with_mix, dt as int));
}

/// Draws one seed per sparkle from the random number source.
pub fn draw_seeds(count: usize) -> (r: Vec<SparkleSeed>)
    ensures
        r.len() == count,
        all_drawn(r@),
        seeds_ok(r@),
{
    let mut out: Vec<SparkleSeed> = Vec::with_capacity(count);
    let mut i: usize = 0;
    while i < count
        invariant
            i <= count,
            out.len() == i,
            all_drawn(out@),
        decreases count - i,
    {
        let position = random_below(ONE as u32) as i32;
        let attack_us = STAGE_BASE_US + random_below(STAGE_JITTER_US);
        let release_us = STAGE_BASE_US + random_below(STAGE_JITTER_US);
        let color_mix = random_below(ONE as u32) as i32;
        out.push(SparkleSeed { position, attack_us, release_us, color_mix });
        i = i + 1;
    }
    out
}

impl RenderEngine {
    #[verifier::type_invariant]
    closed spec fn inv(self) -> bool {
        state_ok(self@)
    }

    /// A dark engine (pattern off, all colors zero, phase 0) whose sparkles
    /// are placed from `seeds`, one each, all at the start of their attack.
    pub fn with_seeds(config: EngineConfig, seeds: &Vec<SparkleSeed>) -> (r: RenderEngine)
        requires
            config_ok(config),
            seeds.len() == config.sparkle_count,
            seeds_ok(seeds@),
        ensures
            r@.config == config,
            r@.pattern == Pattern::Off,
            r@.palette == (Palette {
                color1: HsvColor { hue: 0, saturation: 0, value: 0 },
                color2: HsvColor { hue: 0, saturation: 0, value: 0 },
                color3: HsvColor { hue: 0, saturation: 0, value: 0 },
            }),
            r@.phase == 0,
            r@.sparkles == Seq::new(
                seeds.len() as nat,
                |i: int| spawned(seeds@[i], config.sparkle_falloff),
            ),
            state_ok(r@),
    {
        let mut sparkles: Vec<SparkleEnvelope> = Vec::with_capacity(seeds.len());
        let mut i: usize = 0;
        while i < seeds.len()
            invariant
                i <= seeds.len(),
                sparkles.len() == i,
                seeds_ok(seeds@),
                forall|k: int|
                    0 <= k < i ==> #[trigger] sparkles@[k] == spawned(
                        seeds@[k],
                        config.sparkle_falloff,
                    ),
            decreases seeds.len() - i,
        {
            let seed = seeds[i];
            sparkles.push(
                SparkleEnvelope {
                    position: seed.position,
                    falloff: config.sparkle_falloff,
                    live: true,
                    stage: Stage::Attack,
                    timer_us: 0,
                    level: 0,
                    attack_us: seed.attack_us,
                    sustain_us: SUSTAIN_US,
                    release_us: seed.release_us,
                    color_mix: seed.color_mix,
                },
            );
            i = i + 1;
        }
        let black = HsvColor { hue: 0, saturation: 0, value: 0 };
        let r = RenderEngine {
            config,
            pattern: Pattern::Off,
            palette: Palette { color1: black, color2: black, color3: black },
            phase: 0,
            sparkles,
        };
        assert(r@.sparkles =~= Seq::new(
            seeds.len() as nat,
            |i: int| spawned(seeds@[i], config.sparkle_falloff),
        ));
        r
    }

    /// A dark engine whose sparkles are placed at random.
    pub fn new(config: EngineConfig) -> (r: RenderEngine)
        requires
            config_ok(config),
        ensures
            exists|seeds: Seq<SparkleSeed>|
                {
                    &&& seeds.len() == config.sparkle_count
                    &&& all_drawn(seeds)
                    &&& r@.sparkles == Seq::new(
                        seeds.len(),
                        |i: int| spawned(seeds[i], config.sparkle_falloff),
                    )
                },
            r@.config == config,
            r@.pattern == Pattern::Off,
            r@.phase == 0,
            state_ok(r@),
    {
        let seeds = draw_seeds(config.sparkle_count);
        let r = RenderEngine::with_seeds(config, &seeds);
        assert(seeds@.len() == config.sparkle_count && all_drawn(seeds@));
        r
    }

    /// Applies a command, taking fresh sparkle positions (and accent
    /// selectors) from `seeds` where the pattern uses them.
    pub fn apply_command(&mut self, cmd: &PatternCommand, seeds: &Vec<SparkleSeed>)
        requires
            seeds.len() == old(self)@.config.sparkle_count,
            seeds_ok(seeds@),
        ensures
            final(self)@ == commanded(old(self)@, *cmd, seeds@),
    {
        proof {
            use_type_invariant(&*self);
        }
        match Pattern::from_selector(cmd.pattern) {
            None => {},
            Some(p) => {
                let cap = self.config.brightness;
                self.palette = Palette {
                    color1: capped_color(&cmd.color1, cap),
                    color2: capped_color(&cmd.color2, cap),
                    color3: capped_color(&cmd.color3, cap),
                };
                self.pattern = p;
                match p {
                    Pattern::Sparkle => reposition_all(&mut self.sparkles, seeds, false),
                    Pattern::TintedSparkle => reposition_all(&mut self.sparkles, seeds, true),
                    _ => {},
                }
            },
        }
    }

    /// One render tick with the random draws given as `seeds`: applies the
    /// pending command if there is one, advances the sparkles when the
    /// pattern uses them (respawning those that have died), renders the
    /// strip and frames it for transmission, then moves the phase on by one
    /// step. Selector 0 renders every pixel dark.
    pub fn tick_seeded(&mut self, cmd: Option<PatternCommand>, seeds: &Vec<SparkleSeed>) -> (r: Vec<u8>)
        requires
            seeds.len() == old(self)@.config.sparkle_count,
            seeds_ok(seeds@),
        ensures
            final(self)@ == after_tick(old(self)@, cmd, seeds@),
            r@ == frame_bytes(tick_pixels(old(self)@, cmd, seeds@), 0),
    {
        proof {
            use_type_invariant(&*self);
        }
        match cmd {
            Some(c) => self.apply_command(&c, seeds),
            None => {},
        }
        proof {
            use_type_invariant(&*self);
        }
        match self.pattern {
            Pattern::Sparkle => tick_all(&mut self.sparkles, seeds, false, FRAME_PERIOD_US),
            Pattern::TintedSparkle => tick_all(&mut self.sparkles, seeds, true, FRAME_PERIOD_US),
            _ => {},
        }
        let pixels = render_strip(
            self.pattern,
            &self.palette,
            self.phase,
            &self.sparkles,
            self.config.pixel_count,
        );
        let frame = encode_frame(&pixels, 0);
        let next = self.phase + PHASE_STEP;
        self.phase = if next >= ONE {
            next - ONE
        } else {
            next
        };
        frame
    }

    /// One render tick: draws fresh random seeds, then does what
    /// `tick_seeded` does with them.
    pub fn tick(&mut self, cmd: Option<PatternCommand>) -> (r: Vec<u8>)
        ensures
            exists|seeds: Seq<SparkleSeed>|
                {
                    &&& seeds.len() == old(self)@.config.sparkle_count
                    &&& all_drawn(seeds)
                    &&& final(self)@ == after_tick(old(self)@, cmd, seeds)
                    &&& r@ == frame_bytes(tick_pixels(old(self)@, cmd, seeds), 0)
                },
    {
        let seeds = draw_seeds(self.config.sparkle_count);
        let r = self.tick_seeded(cmd, &seeds);
        assert(seeds@.len() == old(self)@.config.sparkle_count && all_drawn(seeds@));
        r
    }

    /// The settings the engine runs with.
    pub fn config(&self) -> (r: EngineConfig)
        ensures
            r == self@.config,
    {
        self.config
    }

    /// The active pattern.
    pub fn pattern(&self) -> (r: Pattern)
        ensures
            r == self@.pattern,
    {
        self.pattern
    }

    /// The active colors, after the brightness cap.
    pub fn palette(&self) -> (r: Palette)
        ensures
            r == self@.palette,
    {
        self.palette
    }

    /// The animation phase, in [0, 1).
    pub fn phase(&self) -> (r: i32)
        ensures
            r == self@.phase,
            0 <= r < ONE,
    {
        proof {
            use_type_invariant(self);
        }
        self.phase
    }

    /// The sparkle envelopes.
    pub fn sparkles(&self) -> (r: &Vec<SparkleEnvelope>)
        ensures
            r@ == self@.sparkles,
    {
        &self.sparkles
    }
}

/// A command with selector 0 turns every pixel of the very next frame dark,
/// whatever pattern, phase and sparkles came before, and the frames after
/// it stay dark until another command comes. A later command that names a
/// pattern then sets up exactly the state it would have set up had the
/// strip never been turned off.
pub proof fn lemma_off_command(
    st: EngineState,
    off: PatternCommand,
    next: PatternCommand,
    s1: Seq<SparkleSeed>,
    s2: Seq<SparkleSeed>,
    s3: Seq<SparkleSeed>,
)
    requires
        off.pattern == 0,
        pattern_of(next.pattern) is Some,
    ensures
        tick_pixels(st, Some(off), s1).len() == st.config.pixel_count,
        forall|i: int|
            0 <= i < st.config.pixel_count ==> #[trigger] tick_pixels(st, Some(off), s1)[i] == (
            crate::color::Rgb8 { red: 0, green: 0, blue: 0 }),
        forall|i: int|
            0 <= i < st.config.pixel_count ==> #[trigger] tick_pixels(
                after_tick(st, Some(off), s1),
                None,
                s3,
            )[i] == (crate::color::Rgb8 { red: 0, green: 0, blue: 0 }),
        commanded(commanded(st, off, s1), next, s2) == commanded(st, next, s2),
{
}

/// Issuing the same command for a sparkle pattern twice places the
/// sparkles from the second draw alone: the result is what one command
/// with that draw would give, so the positions (and, for the tinted
/// pattern, the accent selectors) owe nothing to the first draw.
pub proof fn lemma_repeated_command(
    st: EngineState,
    cmd: PatternCommand,
    s1: Seq<SparkleSeed>,
    s2: Seq<SparkleSeed>,
)
    requires
        pattern_of(cmd.pattern) == Some(Pattern::Sparkle) || pattern_of(cmd.pattern) == Some(
            Pattern::TintedSparkle,
        ),
        s1.len() == st.sparkles.len(),
        s2.len() == st.sparkles.len(),
    ensures
        commanded(commanded(st, cmd, s1), cmd, s2) == commanded(st, cmd, s2),
        forall|i: int|
            0 <= i < st.sparkles.len() ==> #[trigger] commanded(st, cmd, s1).sparkles[i].position
                == s1[i].position,
        forall|i: int|
            0 <= i < st.sparkles.len() ==> #[trigger] commanded(
                commanded(st, cmd, s1),
                cmd,
                s2,
            ).sparkles[i].position == s2[i].position,
{
    let once = commanded(st, cmd, s1);
    let twice = commanded(once, cmd, s2);
    assert(twice.sparkles =~= commanded(st, cmd, s2).sparkles);
}

} // verus!
