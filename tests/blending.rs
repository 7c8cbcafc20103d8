use oseti::compositor::{blend_channel, compose_frame, composite};
use oseti::fade::{advance, Fade, FADE_RATE, MIX_SCALE};
use oseti::pattern::{pattern_channel, pattern_level, render_pattern};
use oseti::switcher::{Frame, Switcher};

fn sample_source() -> Vec<u8> {
    vec![10, 20, 30, 100, 150, 200, 0, 255, 7, 255, 0, 128]
}

fn sample_pattern() -> Vec<u8> {
    vec![200, 100, 50, 200, 100, 50, 1, 2, 3, 240, 120, 255]
}

#[test]
fn two_pixels_half_mix_with_fixed_pattern_color() {
    let source = vec![10, 20, 30, 100, 150, 200];
    let pattern = vec![200, 100, 50, 200, 100, 50];
    let out = composite(&source, &pattern, 2, 1, MIX_SCALE / 2);
    assert_eq!(out, vec![105, 60, 40, 255, 150, 125, 125, 255]);
}

#[test]
fn mix_zero_gives_camera_channels() {
    let source = sample_source();
    let out = composite(&source, &sample_pattern(), 2, 2, 0);
    for i in 0..4 {
        assert_eq!(&out[4 * i..4 * i + 3], &source[3 * i..3 * i + 3]);
        assert_eq!(out[4 * i + 3], 255);
    }
}

#[test]
fn full_mix_gives_pattern_channels_whatever_the_camera() {
    let pattern = sample_pattern();
    let a = composite(&sample_source(), &pattern, 4, 1, MIX_SCALE);
    let b = composite(&vec![0u8; 12], &pattern, 4, 1, MIX_SCALE);
    assert_eq!(a, b);
    for i in 0..4 {
        assert_eq!(&a[4 * i..4 * i + 3], &pattern[3 * i..3 * i + 3]);
        assert_eq!(a[4 * i + 3], 255);
    }
}

#[test]
fn output_length_is_four_bytes_per_pixel() {
    for (w, h) in [(0usize, 0usize), (0, 5), (3, 0), (1, 1), (3, 2), (5, 7)] {
        let n = w * h;
        let out = composite(&vec![9u8; n * 3], &vec![99u8; n * 3], w, h, 300);
        assert_eq!(out.len(), n * 4);
    }
}

#[test]
fn channels_move_monotonically_with_mix() {
    let source = sample_source();
    let pattern = sample_pattern();
    let mut prev = composite(&source, &pattern, 2, 2, 0);
    let last = composite(&source, &pattern, 2, 2, MIX_SCALE);
    for mix in (50..=MIX_SCALE).step_by(50) {
        let cur = composite(&source, &pattern, 2, 2, mix);
        for k in 0..cur.len() {
            if k % 4 == 3 {
                assert_eq!(cur[k], 255);
                continue;
            }
            let j = k / 4 * 3 + k % 4;
            if source[j] <= pattern[j] {
                assert!(prev[k] <= cur[k] && cur[k] <= last[k]);
            } else {
                assert!(prev[k] >= cur[k] && cur[k] >= last[k]);
            }
        }
        prev = cur;
    }
}

#[test]
fn blend_channel_truncates() {
    assert_eq!(blend_channel(10, 200, 500), 105);
    assert_eq!(blend_channel(150, 100, 500), 125);
    assert_eq!(blend_channel(0, 255, 333), 84);
    assert_eq!(blend_channel(255, 255, 777), 255);
    assert_eq!(blend_channel(255, 0, 1), 254);
}

#[test]
fn pattern_level_values() {
    assert_eq!(pattern_level(0, 0, 0), 180);
    assert_eq!(pattern_level(1, 0, 0), 181);
    assert_eq!(pattern_level(32, 0, 0), 240);
    assert_eq!(pattern_level(64, 0, 0), 179);
    assert_eq!(pattern_level(0, 64, 0), 60);
    assert_eq!(pattern_level(128, 0, 0), 180);
    assert_eq!(pattern_level(0, 0, 1536), 119);
}

#[test]
fn pattern_channels_follow_level() {
    assert_eq!(pattern_channel(180, 0), 180);
    assert_eq!(pattern_channel(181, 1), 90);
    assert_eq!(pattern_channel(7, 2), 255);
    assert_eq!(pattern_channel(0, 2), 255);
}

#[test]
fn render_pattern_two_by_two() {
    let p = render_pattern(2, 2, 0);
    assert_eq!(p, vec![180, 90, 255, 181, 90, 255, 178, 89, 255, 180, 90, 255]);
    assert_eq!(render_pattern(0, 3, 10), Vec::<u8>::new());
}

#[test]
fn compose_frame_blends_with_rendered_pattern() {
    let source = vec![0u8; 12];
    let out = compose_frame(&source, 2, 2, MIX_SCALE, 0).unwrap();
    assert_eq!(out, vec![180, 90, 255, 255, 181, 90, 255, 255, 178, 89, 255, 255, 180, 90, 255, 255]);
    let cam = compose_frame(&sample_source(), 2, 2, 0, 12345).unwrap();
    assert_eq!(cam, vec![10, 20, 30, 255, 100, 150, 200, 255, 0, 255, 7, 255, 255, 0, 128, 255]);
}

#[test]
fn compose_frame_skips_frames_of_the_wrong_size() {
    assert_eq!(compose_frame(&vec![1, 2, 3, 4, 5], 2, 1, 500, 0), None);
    assert_eq!(compose_frame(&sample_source(), 3, 2, 500, 0), None);
    assert_eq!(compose_frame(&Vec::new(), usize::MAX, 2, 500, 0), None);
    assert_eq!(compose_frame(&Vec::new(), usize::MAX / 2, 1, 500, 0), None);
    assert_eq!(compose_frame(&Vec::new(), 0, 9, 500, 0), Some(Vec::new()));
}

#[test]
fn advance_moves_by_rate_times_dt() {
    assert_eq!(advance(0, 1000, 0, 16_000, FADE_RATE), (32, 0));
    assert_eq!(advance(1000, 0, 0, 16_000, FADE_RATE), (968, 0));
    assert_eq!(advance(0, 1000, 0, 500, FADE_RATE), (1, 0));
    assert_eq!(advance(0, 1000, 0, 16_667, FADE_RATE), (33, 334_000));
}

#[test]
fn advance_carries_what_a_short_tick_owes() {
    assert_eq!(advance(0, 1000, 0, 499, FADE_RATE), (0, 998_000));
    assert_eq!(advance(0, 1000, 998_000, 499, FADE_RATE), (1, 996_000));
    assert_eq!(advance(500, 0, 999_999, 1, 1), (499, 0));
}

#[test]
fn advance_never_overshoots() {
    for &(c, t) in &[(0u32, 1000u32), (1000, 0), (300, 500), (500, 300), (0, 1), (999, 1000)] {
        for &dt in &[0u32, 1, 500, 16_000, 100_000, 400_000, 500_000, u32::MAX] {
            for &carry in &[0u32, 1, 999_999] {
                let (r, rest) = advance(c, t, carry, dt, FADE_RATE);
                assert!(c.min(t) <= r && r <= c.max(t));
                assert!(rest < 1_000_000);
            }
        }
    }
    assert_eq!(advance(990, 1000, 0, 16_000, FADE_RATE), (1000, 0));
    assert_eq!(advance(10, 0, 0, 16_000, FADE_RATE), (0, 0));
    assert_eq!(advance(300, 500, 999_999, u32::MAX, u32::MAX), (500, 0));
}

fn ticks_to_full(dt_us: u32) -> u32 {
    let mut f = Fade::new();
    f.set_target(MIX_SCALE);
    let mut ticks = 0;
    while f.current != MIX_SCALE {
        f.tick(dt_us);
        ticks += 1;
        assert!(ticks <= 1_000_000);
    }
    f.tick(dt_us);
    assert_eq!(f.current, MIX_SCALE);
    ticks
}

#[test]
fn fade_reaches_target_after_repeated_ticks() {
    assert_eq!(ticks_to_full(16_000), 32);
    assert_eq!(ticks_to_full(16_667), 30);
    assert_eq!(ticks_to_full(400), 1250);
    assert_eq!(ticks_to_full(1), 500_000);
    assert_eq!(ticks_to_full(500_000), 1);
}

#[test]
fn advance_is_idempotent_once_settled() {
    for v in [0u32, 1, 500, 999, 1000] {
        assert_eq!(advance(v, v, 0, 16_000, FADE_RATE), (v, 0));
        assert_eq!(advance(v, v, 123_456, u32::MAX, FADE_RATE), (v, 0));
    }
}

#[test]
fn zero_dt_leaves_mix_unchanged() {
    assert_eq!(advance(250, 1000, 0, 0, FADE_RATE), (250, 0));
    assert_eq!(advance(250, 0, 0, 0, FADE_RATE), (250, 0));
}

#[test]
fn fade_tick_reports_settled() {
    let mut f = Fade::new();
    assert!(f.is_settled());
    assert!(f.tick(16_000));
    assert_eq!(f.current, 0);
    f.set_target(MIX_SCALE);
    assert!(!f.tick(100_250));
    assert_eq!((f.current, f.carry), (200, 500_000));
    f.set_current(2000);
    assert_eq!((f.current, f.carry), (MIX_SCALE, 0));
    assert!(f.tick(100_000));
    f.set_target(5000);
    assert_eq!(f.target, MIX_SCALE);
    f.set_target(0);
    assert!(!f.tick(250_000));
    assert_eq!(f.current, 500);
}

#[test]
fn no_devices_at_startup_shows_placeholder() {
    let mut s = Switcher::new(0);
    assert_eq!(s.initial_device(), None);
    for _ in 0..10 {
        assert_eq!(s.tick(16_000, None, 100), None);
    }
    assert!(!s.showing_image);
    assert_eq!(s.select(0), None);
    assert_eq!(s.selected, 0);
}

#[test]
fn switcher_selects_other_devices_only() {
    let mut s = Switcher::new(3);
    assert_eq!(s.initial_device(), Some(0));
    assert_eq!(s.select(0), None);
    assert_eq!(s.select(2), Some(2));
    assert_eq!(s.selected, 2);
    assert_eq!(s.select(3), None);
    assert_eq!(s.selected, 2);
    assert_eq!(s.select(1), Some(1));
}

#[test]
fn switcher_tick_fades_and_blends() {
    let mut s = Switcher::new(1);
    s.show_pattern();
    let frame = Frame { pixels: sample_source(), width: 2, height: 2 };
    let img = s.tick(250_000, Some(&frame), 0).unwrap();
    assert_eq!(s.fade.current, 500);
    assert!(s.showing_image);
    let pattern = render_pattern(2, 2, 0);
    assert_eq!(img, composite(&frame.pixels, &pattern, 2, 2, 500));
    let bad = Frame { pixels: vec![1, 2, 3], width: 2, height: 2 };
    assert_eq!(s.tick(0, Some(&bad), 10), None);
    assert!(s.showing_image);
    s.show_camera();
    assert_eq!(s.fade.target, 0);
    s.set_mix(1234);
    assert_eq!(s.fade.current, MIX_SCALE);
    s.set_mix(100);
    assert_eq!(s.fade.current, 100);
}

#[test]
fn composed_frames_move_monotonically_with_mix() {
    let white = vec![255u8; 3];
    for mix in (0..=MIX_SCALE).step_by(100) {
        let out = compose_frame(&white, 1, 1, mix, 0).unwrap();
        assert_eq!(out[2], 255);
    }
    let source = sample_source();
    let lo = compose_frame(&source, 2, 2, 0, 777).unwrap();
    let hi = compose_frame(&source, 2, 2, MIX_SCALE, 777).unwrap();
    let mut prev = lo.clone();
    for mix in (25..=MIX_SCALE).step_by(25) {
        let cur = compose_frame(&source, 2, 2, mix, 777).unwrap();
        for k in 0..cur.len() {
            if lo[k] <= hi[k] {
                assert!(lo[k] <= prev[k] && prev[k] <= cur[k] && cur[k] <= hi[k]);
            } else {
                assert!(hi[k] <= cur[k] && cur[k] <= prev[k] && prev[k] <= lo[k]);
            }
        }
        prev = cur;
    }
    assert_eq!(prev, hi);
}
