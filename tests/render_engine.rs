use ledstrip::engine::draw_seeds;
use ledstrip::{index, EngineConfig, HsvColor, Pattern, PatternCommand, RenderEngine, SparkleSeed, ONE};

fn config(pixel_count: usize, sparkle_count: usize) -> EngineConfig {
    EngineConfig { pixel_count, brightness: ONE, sparkle_count, sparkle_falloff: 10 * ONE }
}

fn command(c: HsvColor, pattern: u8) -> PatternCommand {
    PatternCommand { color1: c, color2: c, color3: c, pattern }
}

fn white() -> HsvColor {
    HsvColor { hue: 0, saturation: 0, value: ONE }
}

fn frame_of(pixels: &[[u8; 3]]) -> Vec<u8> {
    let mut f = vec![0, 0, 0, 0];
    for p in pixels {
        f.extend_from_slice(&[0xFF, p[2], p[1], p[0]]);
    }
    f.extend(std::iter::repeat(0).take((pixels.len() + 1) / 2));
    f
}

#[test]
fn white_split_gradient_on_four_pixels() {
    let mut e = RenderEngine::new(config(4, 3));
    let f = e.tick(Some(command(white(), 5)));
    assert_eq!(f, frame_of(&[[255, 255, 255]; 4]));
    assert_eq!(e.pattern(), Pattern::Split);
}

#[test]
fn off_command_darkens_next_frame_and_pattern_resumes() {
    let mut e = RenderEngine::new(config(6, 8));
    let red = HsvColor { hue: 0, saturation: ONE, value: ONE };
    e.tick(Some(command(red, 3)));
    for _ in 0..20 {
        e.tick(None);
    }
    let f = e.tick(Some(command(red, 0)));
    assert_eq!(f, frame_of(&[[0, 0, 0]; 6]));
    assert_eq!(e.tick(None), frame_of(&[[0, 0, 0]; 6]));
    let f = e.tick(Some(command(white(), 5)));
    assert_eq!(f, frame_of(&[[255, 255, 255]; 6]));
}

#[test]
fn repeated_command_redraws_sparkle_positions() {
    let mut e = RenderEngine::new(config(4, 8));
    let cmd = command(white(), 3);
    e.tick(Some(cmd));
    let first: Vec<i32> = e.sparkles().iter().map(|s| s.position).collect();
    e.tick(Some(cmd));
    let second: Vec<i32> = e.sparkles().iter().map(|s| s.position).collect();
    assert_ne!(first, second);
    assert!(second.iter().all(|&p| 0 <= p && p < ONE));
}

#[test]
fn command_takes_positions_from_the_seeds() {
    let seeds: Vec<SparkleSeed> = (0..3)
        .map(|i| SparkleSeed { position: 1000 * (i + 1), attack_us: 1_000_000, release_us: 1_000_000, color_mix: 500 * i })
        .collect();
    let mut e = RenderEngine::with_seeds(config(4, 3), &seeds);
    let fresh: Vec<SparkleSeed> = (0..3)
        .map(|i| SparkleSeed { position: 7000 + i, attack_us: 1_100_000, release_us: 1_200_000, color_mix: 9000 + i })
        .collect();
    e.apply_command(&command(white(), 4), &fresh);
    let got: Vec<(i32, i32, u32)> = e.sparkles().iter().map(|s| (s.position, s.color_mix, s.attack_us)).collect();
    assert_eq!(got, vec![(7000, 9000, 1_000_000), (7001, 9001, 1_000_000), (7002, 9002, 1_000_000)]);
    e.apply_command(&command(white(), 3), &seeds);
    let got: Vec<(i32, i32)> = e.sparkles().iter().map(|s| (s.position, s.color_mix)).collect();
    assert_eq!(got, vec![(1000, 9000), (2000, 9001), (3000, 9002)]);
}

#[test]
fn unknown_selector_is_ignored() {
    let mut e = RenderEngine::new(config(4, 2));
    e.tick(Some(command(white(), 5)));
    let red = HsvColor { hue: 0, saturation: ONE, value: ONE };
    let f = e.tick(Some(command(red, 9)));
    assert_eq!(f, frame_of(&[[255, 255, 255]; 4]));
    assert_eq!(e.pattern(), Pattern::Split);
    assert_eq!(e.palette().color1, white());
}

#[test]
fn brightness_cap_applies_to_commanded_colors() {
    let mut cfg = config(2, 1);
    cfg.brightness = ONE / 2;
    let mut e = RenderEngine::new(cfg);
    let f = e.tick(Some(command(white(), 5)));
    assert_eq!(f, frame_of(&[[127, 127, 127]; 2]));
    assert_eq!(e.palette().color2.value, ONE / 2);
}

#[test]
fn phase_advances_and_wraps() {
    let mut e = RenderEngine::new(config(3, 0));
    assert_eq!(e.phase(), 0);
    e.tick(None);
    assert_eq!(e.phase(), 30);
    for _ in 1..2000 {
        e.tick(None);
    }
    assert_eq!(e.phase(), 0);
}

#[test]
fn sparkles_respawn_after_dying() {
    let seeds = vec![SparkleSeed { position: 100, attack_us: 1_000_000, release_us: 1_000_000, color_mix: 0 }];
    let mut e = RenderEngine::with_seeds(config(2, 1), &seeds);
    e.apply_command(&command(white(), 3), &seeds);
    // attack, sustain and release take 60 + 120 + 60 ticks
    for _ in 0..240 {
        e.tick_seeded(None, &seeds);
    }
    assert!(!e.sparkles()[0].live);
    let later = vec![SparkleSeed { position: 5000, attack_us: 1_500_000, release_us: 1_700_000, color_mix: 0 }];
    e.tick_seeded(None, &later);
    let s = e.sparkles()[0];
    assert!(s.live);
    assert_eq!((s.position, s.attack_us, s.release_us), (5000, 1_500_000, 1_700_000));
    assert_eq!(s.timer_us, 16_667);
}

#[test]
fn drawn_seeds_lie_in_their_ranges() {
    let seeds = draw_seeds(200);
    assert_eq!(seeds.len(), 200);
    for s in &seeds {
        assert!(0 <= s.position && s.position < ONE);
        assert!(0 <= s.color_mix && s.color_mix < ONE);
        assert!(1_000_000 <= s.attack_us && s.attack_us < 2_000_000);
        assert!(1_000_000 <= s.release_us && s.release_us < 2_000_000);
    }
    assert!(seeds.iter().any(|s| s.position != seeds[0].position));
}

#[test]
fn new_engine_is_dark() {
    let mut e = RenderEngine::new(config(3, 4));
    assert_eq!(e.pattern(), Pattern::Off);
    assert_eq!(e.sparkles().len(), 4);
    assert_eq!(e.tick(None), frame_of(&[[0, 0, 0]; 3]));
}

#[test]
fn index_greets() {
    assert_eq!(index(), "foo bar");
}
