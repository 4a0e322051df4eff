use planeticon::color::{
    adjust_hue2, hsl_to_rgb, pick_colors, pick_hues, Rgba, FULL_TURN, HUE_CORR, MIN_HUE_DIFF,
};
use planeticon::icon::{cool_diagonal, draw_icon, isqrt, mix, ring_alpha};

const SCALE: u64 = 16777216;

fn alpha_at(buf: &[u8], x: usize, y: usize) -> u8 {
    buf[4 * (128 * y + x) + 3]
}

fn dist2(x: usize, y: usize) -> u64 {
    let dx = x as i64 - 64;
    let dy = y as i64 - 64;
    (dx * dx + dy * dy) as u64
}

#[test]
fn determinism_same_seed_same_buffer() {
    let a = draw_icon("my-app");
    let b = draw_icon("my-app");
    assert_eq!(a, b);
    let c = draw_icon("some-other-tool");
    let d = draw_icon("some-other-tool");
    assert_eq!(c, d);
}

#[test]
fn determinism_same_seed_same_hues() {
    assert_eq!(pick_hues("alpha"), pick_hues("alpha"));
    assert_eq!(pick_colors("alpha"), pick_colors("alpha"));
}

#[test]
fn seed_sensitivity_hue_pairs_vary() {
    let seeds = ["alpha", "beta", "gamma", "delta", "epsilon", "zeta"];
    let pairs: Vec<(u64, u64)> = seeds.iter().map(|s| pick_hues(s)).collect();
    let first = pairs[0];
    assert!(pairs.iter().any(|p| *p != first));
}

#[test]
fn hue_separation_over_raw_pairs() {
    // The separation rule guarantees 75 degrees around the circle, except in
    // its two own blind spots: both shifts firing in sequence, and raw hues
    // numerically farther apart than a turn minus the threshold.
    let mut h1 = 0u64;
    while h1 < FULL_TURN {
        let mut h2 = 0u64;
        while h2 < FULL_TURN {
            let diff = if h1 >= h2 { h1 - h2 } else { h2 - h1 };
            let two_step = diff < MIN_HUE_DIFF && {
                let up = h2 + HUE_CORR;
                let d2 = if up >= h1 { up - h1 } else { h1 - up };
                d2 < MIN_HUE_DIFF
            };
            if !two_step && diff <= FULL_TURN - MIN_HUE_DIFF {
                let adjusted = adjust_hue2(h1, h2);
                let d = if h1 >= adjusted { h1 - adjusted } else { adjusted - h1 };
                let circ = d.min(FULL_TURN - d);
                assert!(circ >= MIN_HUE_DIFF, "raw hues {h1} {h2} end up too close");
            }
            h2 += 7 * SCALE + 12345;
        }
        h1 += 11 * SCALE + 54321;
    }
}

#[test]
fn disc_containment_and_full_coverage() {
    let buf = draw_icon("my-app");
    assert_eq!(buf.len(), 65536);
    for y in 0..128 {
        for x in 0..128 {
            let d2 = dist2(x, y);
            let a = alpha_at(&buf, x, y);
            if d2 >= 57 * 57 {
                assert_eq!(a, 0, "pixel ({x},{y}) outside the disc is not transparent");
            } else if d2 < 56 * 56 {
                assert_eq!(a, 255, "pixel ({x},{y}) inside the disc is not opaque");
            }
        }
    }
}

#[test]
fn ring_pixels_match_ring_alpha() {
    let buf = draw_icon("my-app");
    for y in 0..128 {
        for x in 0..128 {
            let d2 = dist2(x, y);
            if (3136..3249).contains(&d2) {
                assert_eq!(alpha_at(&buf, x, y), ring_alpha(d2, 56));
            }
        }
    }
}

#[test]
fn gradient_matches_mix() {
    let buf = draw_icon("my-app");
    let (c1, c2) = pick_colors("my-app");
    for y in 0..128 {
        for x in 0..128 {
            if dist2(x, y) < 3249 {
                let expected = mix(c1, c2, cool_diagonal(x as u32, y as u32), 1792);
                let base = 4 * (128 * y + x);
                assert_eq!(buf[base], expected.r, "red at ({x},{y})");
                assert_eq!(buf[base + 1], expected.g, "green at ({x},{y})");
                assert_eq!(buf[base + 2], expected.b, "blue at ({x},{y})");
            }
        }
    }
}

#[test]
fn round_trip_center_and_corner() {
    let buf = draw_icon("my-app");
    assert_eq!(alpha_at(&buf, 64, 64), 255);
    assert_eq!(alpha_at(&buf, 0, 0), 0);
}

#[test]
fn antialias_ring_alpha_monotone() {
    let mut last: u8 = 255;
    for d2 in 3136u64..3249 {
        let a = ring_alpha(d2, 56);
        assert!(a <= last, "ring alpha rose from {last} to {a} at squared distance {d2}");
        last = a;
    }
}

#[test]
fn antialias_ring_alpha_matches_float_formula() {
    for d2 in 3136u64..3249 {
        let a = ring_alpha(d2, 56);
        let exact = (57.0f64 - (d2 as f64).sqrt()) * 255.0;
        let expected = exact.floor() as i64;
        assert_eq!(a as i64, expected, "ring alpha at squared distance {d2}");
    }
}

#[test]
fn boundary_alpha_near_half_coverage() {
    // squared distance 3192 is the grid value closest to (56.5)^2
    let a = ring_alpha(3192, 56);
    assert!((a as i64 - 127).abs() <= 2, "half-coverage alpha was {a}");
    assert_eq!(a, 128);
}

#[test]
fn ring_alpha_edges() {
    assert_eq!(ring_alpha(3136, 56), 255);
    assert_eq!(ring_alpha(3248, 56), 2);
}

#[test]
fn isqrt_small_values() {
    assert_eq!(isqrt(0), 0);
    assert_eq!(isqrt(1), 1);
    assert_eq!(isqrt(3), 1);
    assert_eq!(isqrt(4), 2);
    assert_eq!(isqrt(65025 * 3136), 14280);
    assert_eq!(isqrt(0xFFFF_FFFF), 65535);
}

#[test]
fn grayscale_degeneracy() {
    for h in [0u64, 120 * SCALE, 275 * SCALE, 359 * SCALE] {
        for l in [0u64, 10, 55, 100] {
            let c = hsl_to_rgb(h, 0, l);
            let v = (255 * l / 100) as u8;
            assert_eq!(c, Rgba { r: v, g: v, b: v, a: 255 });
        }
    }
}

#[test]
fn hsl_primary_colors() {
    assert_eq!(hsl_to_rgb(0, 100, 50), Rgba { r: 255, g: 0, b: 0, a: 255 });
    assert_eq!(hsl_to_rgb(120 * SCALE, 100, 50), Rgba { r: 0, g: 255, b: 0, a: 255 });
    assert_eq!(hsl_to_rgb(240 * SCALE, 100, 50), Rgba { r: 0, g: 0, b: 255, a: 255 });
    assert_eq!(hsl_to_rgb(360 * SCALE, 100, 50), Rgba { r: 255, g: 0, b: 0, a: 255 });
}

#[test]
fn mix_endpoints_and_midpoint() {
    let black = Rgba { r: 0, g: 0, b: 0, a: 255 };
    let white = Rgba { r: 255, g: 255, b: 255, a: 255 };
    assert_eq!(mix(black, white, 0, 1792), black);
    assert_eq!(mix(black, white, 1792, 1792), white);
    assert_eq!(mix(black, white, 896, 1792), Rgba { r: 127, g: 127, b: 127, a: 255 });
    let teal = Rgba { r: 10, g: 200, b: 180, a: 255 };
    assert_eq!(mix(teal, teal, 500, 1792), teal);
}

#[test]
fn diagonal_metric_values() {
    assert_eq!(cool_diagonal(0, 0), 0);
    assert_eq!(cool_diagonal(1, 1), 14);
    assert_eq!(cool_diagonal(128, 128), 1792);
    assert_eq!(cool_diagonal(127, 127), 1778);
}

#[test]
fn adjust_hue2_shifts() {
    // close hues are pushed up by the correction
    assert_eq!(adjust_hue2(0, 10 * SCALE), 135 * SCALE);
    // far hues stay where they are
    assert_eq!(adjust_hue2(0, 180 * SCALE), 180 * SCALE);
    // a pushed hue that leaves the circle wraps back into it
    assert_eq!(adjust_hue2(300 * SCALE, 290 * SCALE), 55 * SCALE);
    // the documented two-step case: both shifts fire and cancel
    assert_eq!(adjust_hue2(70 * SCALE, 0), 0);
}

#[test]
fn seed_my_app_exact_values() {
    // the fixed seeding scheme pins these hues (about 205.7 and 142.2
    // degrees); this seed happens to fall into the two-step adjustment edge
    // case, so its hues sit closer than the usual threshold
    let (h1, h2) = pick_hues("my-app");
    assert_eq!((h1, h2), (3450379680, 2385604800));
    let (c1, c2) = pick_colors("my-app");
    assert_eq!(c1, Rgba { r: 31, g: 156, b: 249, a: 255 });
    assert_eq!(c2, Rgba { r: 31, g: 249, b: 111, a: 255 });
    assert_eq!((c1, c2), (hsl_to_rgb(h1, 95, 55), hsl_to_rgb(h2, 95, 55)));
}
