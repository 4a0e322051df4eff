//! The seeded color picker and the HSL to RGB conversion.
//!
//! Hue arithmetic is carried out exactly, on integers. A hue is measured in
//! units of `1 / 2^24` of a degree, so that a whole turn, the separation
//! threshold and the correction offset are all exact integer constants, and a
//! raw 24-bit generator draw `m` (a uniform value in `[0, 1)` with 24
//! fraction bits) maps to the exact hue `m * 360` units. HSL ratios are
//! carried as exact numerators over a fixed denominator, and every channel is
//! the value `255 * v` truncated, never rounded.

use vstd::prelude::*;
use vstd::math::abs;
use crate::rng::{SeedRng, pcg_draw};

verus! {

/// Hue units per degree: 2^24.
pub const HUE_SCALE: u64 = 16777216;

/// A whole turn, 360 degrees, in hue units.
pub const FULL_TURN: u64 = 360 * 16777216;

/// The denominator of the hue ratios fed into the channel formula: ratios
/// are thirds of a turn, so they are carried over `3 * FULL_TURN`.
pub const RATIO_ONE: u64 = 3 * 360 * 16777216;

/// Minimum hue separation, 75 degrees, in hue units.
pub const MIN_HUE_DIFF: u64 = 75 * 16777216;

/// Correction offset applied to a too-close second hue, 125 degrees.
pub const HUE_CORR: u64 = 125 * 16777216;

/// Saturation of both picked colors, in percent.
pub const SATURATION: u64 = 95;

/// Lightness of both picked colors, in percent.
pub const LIGHTNESS: u64 = 55;

/// An RGBA color with 8-bit channels.
#[derive(Clone, Copy, PartialEq, Eq, Structural, Debug)]
pub struct Rgba {
    pub r: u8,
    pub g: u8,
    pub b: u8,
    pub a: u8,
}

/// Numerator over 10^4 of the first intermediate HSL value,
/// `l*(1+s)` below half lightness and `l+s-l*s` above, with `s` and `l`
/// given in percent.
pub open spec fn temp1_numer(s: int, l: int) -> int {
    if l < 50 {
        l * (100 + s)
    } else {
        100 * (l + s) - l * s
    }
}

/// Numerator over 10^4 of the second intermediate HSL value, `2*l - temp1`.
pub open spec fn temp2_numer(s: int, l: int) -> int {
    200 * l - temp1_numer(s, l)
}

/// Wrapping a ratio numerator into `[0, RATIO_ONE]` by repeatedly adding or
/// subtracting a whole turn, exactly as the bounding loop does.
pub open spec fn bound_ratio_spec(n: int) -> int
    decreases (if n < 0 { RATIO_ONE - n } else { n }),
{
    if n < 0 {
        bound_ratio_spec(n + RATIO_ONE)
    } else if n > RATIO_ONE {
        bound_ratio_spec(n - RATIO_ONE)
    } else {
        n
    }
}

/// One 8-bit channel from a wrapped ratio numerator `r` over `RATIO_ONE` and
/// the two intermediate values `t1`, `t2` as numerators over 10^4: the
/// five-branch piecewise ramp, scaled by 255 and truncated.
pub open spec fn rgb_unit_spec(r: int, t1: int, t2: int) -> int {
    if 2 * r < FULL_TURN {
        (t2 * RATIO_ONE + (t1 - t2) * (6 * r)) * 255 / (RATIO_ONE as int * 10000)
    } else if 2 * r < RATIO_ONE {
        t1 * 255 / 10000
    } else if r < 2 * FULL_TURN {
        (t2 * RATIO_ONE + (t1 - t2) * (12 * FULL_TURN - 6 * r)) * 255 / (RATIO_ONE as int
            * 10000)
    } else {
        t2 * 255 / 10000
    }
}

/// HSL to RGB: hue `h` in hue units of a turn `[0, FULL_TURN]`, saturation
/// and lightness in percent. Zero saturation yields the gray
/// `255 * l` truncated; otherwise each channel comes from its third-of-a-turn
/// rotated ratio through the piecewise ramp.
pub open spec fn hsl_to_rgb_spec(h: int, s: int, l: int) -> Rgba {
    if s == 0 {
        let v = (255 * l / 100) as u8;
        Rgba { r: v, g: v, b: v, a: 255 }
    } else {
        let t1 = temp1_numer(s, l);
        let t2 = temp2_numer(s, l);
        Rgba {
            r: rgb_unit_spec(bound_ratio_spec(3 * h + FULL_TURN), t1, t2) as u8,
            g: rgb_unit_spec(bound_ratio_spec(3 * h), t1, t2) as u8,
            b: rgb_unit_spec(bound_ratio_spec(3 * h - FULL_TURN), t1, t2) as u8,
            a: 255,
        }
    }
}

/// The exact hue of a raw generator draw: the top 24 bits are a uniform
/// fraction of a turn, so the hue is that fraction times 360 degrees.
pub open spec fn hue_of_draw(d: int) -> int {
    (d / 256) * 360
}

/// The second hue after the separation rule: shift it up by the correction
/// when it sits within the threshold of the first hue, shift it back down
/// when it still does, and wrap it into a single turn.
pub open spec fn adjust_hue2_spec(h1: int, h2: int) -> int {
    let up = if abs(h1 - h2) < MIN_HUE_DIFF {
        h2 + HUE_CORR
    } else {
        h2
    };
    let down = if abs(up - h1) < MIN_HUE_DIFF {
        up - HUE_CORR
    } else {
        up
    };
    if down >= FULL_TURN {
        down - FULL_TURN
    } else {
        down
    }
}

/// The first hue drawn for a seed.
pub open spec fn hue1_of(seed: Seq<char>) -> int {
    hue_of_draw(pcg_draw(seed, 0) as int)
}

/// The second hue drawn for a seed, after the separation rule.
pub open spec fn hue2_of(seed: Seq<char>) -> int {
    adjust_hue2_spec(hue1_of(seed), hue_of_draw(pcg_draw(seed, 1) as int))
}

/// The first color picked for a seed.
pub open spec fn color1_of(seed: Seq<char>) -> Rgba {
    hsl_to_rgb_spec(hue1_of(seed), SATURATION as int, LIGHTNESS as int)
}

/// The second color picked for a seed.
pub open spec fn color2_of(seed: Seq<char>) -> Rgba {
    hsl_to_rgb_spec(hue2_of(seed), SATURATION as int, LIGHTNESS as int)
}

/// Distance between two hues around the color circle.
pub open spec fn circular_distance(a: int, b: int) -> int {
    let d = abs(a - b) as int;
    if d <= FULL_TURN - d {
        d
    } else {
        FULL_TURN - d
    }
}

/// Wrap a ratio numerator into `[0, RATIO_ONE]`, one whole turn at a time.
pub fn bound_ratio(n: i64) -> (r: i64)
    ensures
        r as int == bound_ratio_spec(n as int),
        0 <= r <= RATIO_ONE,
{
    let mut v: i64 = n;
    while v < 0 || v > RATIO_ONE as i64
        invariant
            bound_ratio_spec(v as int) == bound_ratio_spec(n as int),
        decreases (if v < 0 { RATIO_ONE as int - v } else { v as int }),
    {
        if v < 0 {
            v = v + RATIO_ONE as i64;
        } else {
            v = v - RATIO_ONE as i64;
        }
    }
    v
}

/// One 8-bit channel from a wrapped ratio numerator and the two intermediate
/// HSL values. The ramp value stays between `t2` and `t1`, so the channel
/// stays between 0 and 255.
pub fn calc_rgb_unit(r: u64, t1: u64, t2: u64) -> (ch: u8)
    requires
        r <= RATIO_ONE,
        t2 <= t1,
        t1 <= 10000,
    ensures
        ch as int == rgb_unit_spec(r as int, t1 as int, t2 as int),
{
    let diff: u64 = t1 - t2;
    if 2 * r < FULL_TURN {
        let rise: u64 = 6 * r;
        proof {
            assert(diff * rise <= diff * 18119393280) by (nonlinear_arith)
                requires
                    0 <= diff,
                    rise <= 18119393280,
            ;
        }
        let num: u64 = (t2 * RATIO_ONE + diff * rise) * 255;
        proof {
            assert(t2 * 18119393280 + diff * 18119393280 == t1 * 18119393280) by (nonlinear_arith)
                requires
                    diff == t1 - t2,
            ;
            vstd::arithmetic::div_mod::lemma_div_is_ordered(
                num as int,
                46204452864000000,
                181193932800000,
            );
        }
        (num / (RATIO_ONE * 10000)) as u8
    } else if 2 * r < RATIO_ONE {
        (t1 * 255 / 10000) as u8
    } else if r < 2 * FULL_TURN {
        let fall: u64 = 12 * FULL_TURN - 6 * r;
        proof {
            assert(diff * fall <= diff * 18119393280) by (nonlinear_arith)
                requires
                    0 <= diff,
                    fall <= 18119393280,
            ;
        }
        let num: u64 = (t2 * RATIO_ONE + diff * fall) * 255;
        proof {
            assert(t2 * 18119393280 + diff * 18119393280 == t1 * 18119393280) by (nonlinear_arith)
                requires
                    diff == t1 - t2,
            ;
            vstd::arithmetic::div_mod::lemma_div_is_ordered(
                num as int,
                46204452864000000,
                181193932800000,
            );
        }
        (num / (RATIO_ONE * 10000)) as u8
    } else {
        (t2 * 255 / 10000) as u8
    }
}

/// HSL to RGB over exact integers: hue in hue units, saturation and
/// lightness in percent. The gray case truncates `255 * l`; the chromatic
/// case sends each third-of-a-turn rotated ratio through the piecewise ramp.
pub fn hsl_to_rgb(h: u64, s: u64, l: u64) -> (c: Rgba)
    requires
        h <= FULL_TURN,
        s <= 100,
        l <= 100,
    ensures
        c == hsl_to_rgb_spec(h as int, s as int, l as int),
{
    if s == 0 {
        let v = (255 * l / 100) as u8;
        return Rgba { r: v, g: v, b: v, a: 255 };
    }
    let t1: u64 = if l < 50 {
        proof {
            assert(100 * l <= l * (100 + s) <= 200 * l && l * (100 + s) <= 10000)
                by (nonlinear_arith)
                requires
                    l <= 49,
                    s <= 100,
            ;
        }
        l * (100 + s)
    } else {
        proof {
            assert(l * s <= 100 * (l + s) && 100 * l <= 100 * (l + s) - l * s <= 10000)
                by (nonlinear_arith)
                requires
                    50 <= l <= 100,
                    s <= 100,
            ;
        }
        100 * (l + s) - l * s
    };
    let t2: u64 = 200 * l - t1;
    let h3: i64 = 3 * (h as i64);
    let tr = bound_ratio(h3 + FULL_TURN as i64);
    let tg = bound_ratio(h3);
    let tb = bound_ratio(h3 - FULL_TURN as i64);
    let red = calc_rgb_unit(tr as u64, t1, t2);
    let green = calc_rgb_unit(tg as u64, t1, t2);
    let blue = calc_rgb_unit(tb as u64, t1, t2);
    Rgba { r: red, g: green, b: blue, a: 255 }
}

/// The exact hue of a raw draw: take the top 24 bits and scale to degrees.
pub fn hue_from_draw(draw: u32) -> (h: u64)
    ensures
        h as int == hue_of_draw(draw as int),
        h < FULL_TURN,
{
    let m: u32 = draw >> 8;
    proof {
        assert(draw >> 8 == draw / 256) by (bit_vector);
    }
    (m as u64) * 360
}

/// Apply the separation rule to the second hue. When both shifts fire in
/// sequence they cancel out and the hues may stay closer than the
/// threshold; that edge case is part of the rule and is kept deliberately,
/// since changing it would change every icon already generated.
pub fn adjust_hue2(h1: u64, h2: u64) -> (r: u64)
    requires
        h1 < FULL_TURN,
        h2 < FULL_TURN,
    ensures
        r as int == adjust_hue2_spec(h1 as int, h2 as int),
        r < FULL_TURN,
{
    let d1 = if h1 >= h2 {
        h1 - h2
    } else {
        h2 - h1
    };
    let up = if d1 < MIN_HUE_DIFF {
        h2 + HUE_CORR
    } else {
        h2
    };
    let d2 = if up >= h1 {
        up - h1
    } else {
        h1 - up
    };
    let down = if d2 < MIN_HUE_DIFF {
        assert(up == h2 + HUE_CORR);
        up - HUE_CORR
    } else {
        up
    };
    if down >= FULL_TURN {
        down - FULL_TURN
    } else {
        down
    }
}

/// Draw the two hues for a seed: two uniform draws scaled to degrees, the
/// second pushed away from the first by the separation rule.
pub fn pick_hues(seed: &str) -> (hues: (u64, u64))
    ensures
        hues.0 as int == hue1_of(seed@),
        hues.1 as int == hue2_of(seed@),
        hues.0 < FULL_TURN,
        hues.1 < FULL_TURN,
{
    let mut rng = SeedRng::from_seed(seed);
    let d1 = rng.next_u32();
    let d2 = rng.next_u32();
    let h1 = hue_from_draw(d1);
    let h2raw = hue_from_draw(d2);
    let h2 = adjust_hue2(h1, h2raw);
    (h1, h2)
}

/// Pick the two fully saturated, moderately bright colors for a seed.
pub fn pick_colors(seed: &str) -> (colors: (Rgba, Rgba))
    ensures
        colors.0 == color1_of(seed@),
        colors.1 == color2_of(seed@),
{
    let (h1, h2) = pick_hues(seed);
    let c1 = hsl_to_rgb(h1, SATURATION, LIGHTNESS);
    let c2 = hsl_to_rgb(h2, SATURATION, LIGHTNESS);
    (c1, c2)
}

/// Grayscale degeneracy: with zero saturation every channel is `255 * l`
/// truncated, for any hue.
pub proof fn lemma_grayscale_degeneracy(h: int, l: int)
    ensures
        hsl_to_rgb_spec(h, 0, l) == (Rgba {
            r: (255 * l / 100) as u8,
            g: (255 * l / 100) as u8,
            b: (255 * l / 100) as u8,
            a: 255,
        }),
{
}

/// Hue separation: after the separation rule the two hues sit at least the
/// threshold apart around the circle, except in two cases the rule itself
/// admits: when both shifts fire in sequence and cancel out, and when the
/// raw hues lie so far apart numerically (beyond a whole turn minus the
/// threshold) that they are close on the circle yet are never adjusted.
pub proof fn lemma_hue_separation(h1: int, h2: int)
    requires
        0 <= h1 < FULL_TURN,
        0 <= h2 < FULL_TURN,
        !(abs(h1 - h2) < MIN_HUE_DIFF && abs(h2 + HUE_CORR - h1) < MIN_HUE_DIFF),
        abs(h1 - h2) <= FULL_TURN - MIN_HUE_DIFF,
    ensures
        circular_distance(h1, adjust_hue2_spec(h1, h2)) >= MIN_HUE_DIFF,
{
}

} // verus!
