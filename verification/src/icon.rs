//! The planet rasterizer: a 128 by 128 RGBA canvas holding an anti-aliased
//! disc, diagonally blended between two colors.
//!
//! All geometry is exact: disc membership is decided on squared distances,
//! and the boundary alpha `(radius + 1 - dist) * 255` truncated is computed
//! through an integer square root of `255^2` times the squared distance, so
//! no approximation enters the raster.

use vstd::prelude::*;
use vstd::arithmetic::div_mod::{lemma_div_is_ordered, lemma_div_multiples_vanish};
use crate::color::{Rgba, color1_of, color2_of};

verus! {

/// Canvas width in pixels.
pub const XMAX: u32 = 128;

/// Canvas height in pixels.
pub const YMAX: u32 = 128;

/// Margin kept clear between the disc and the canvas edge, in pixels.
pub const EMPTY_PIXELS: u32 = 8;

/// Squared distance of pixel `(x, y)` from the canvas center `(64, 64)`.
pub open spec fn pixel_dist2(x: int, y: int) -> int {
    (x - 64) * (x - 64) + (y - 64) * (y - 64)
}

/// `r` is the integer square root of `n`, rounded down.
pub open spec fn is_sqrt_floor(n: int, r: int) -> bool {
    0 <= r && r * r <= n && n < (r + 1) * (r + 1)
}

/// The integer square root of `n`, rounded down.
pub open spec fn sqrt_floor(n: int) -> int {
    choose|r: int| is_sqrt_floor(n, r)
}

/// Every non-negative integer has an integer square root.
pub proof fn lemma_sqrt_floor_exists(n: int)
    requires
        n >= 0,
    ensures
        is_sqrt_floor(n, sqrt_floor(n)),
    decreases n,
{
    if n == 0 {
        assert(is_sqrt_floor(0, 0));
    } else {
        lemma_sqrt_floor_exists(n - 1);
        let r = sqrt_floor(n - 1);
        if n < (r + 1) * (r + 1) {
            assert(is_sqrt_floor(n, r));
        } else {
            assert(n == (r + 1) * (r + 1));
            assert((r + 1) * (r + 1) < (r + 2) * (r + 2)) by (nonlinear_arith)
                requires
                    r >= 0,
            ;
            assert(is_sqrt_floor(n, r + 1));
        }
    }
}

/// The integer square root is unique.
pub proof fn lemma_sqrt_floor_is(n: int, r: int)
    requires
        is_sqrt_floor(n, r),
    ensures
        sqrt_floor(n) == r,
{
    let c = sqrt_floor(n);
    assert(is_sqrt_floor(n, c));
    if c < r {
        assert((c + 1) * (c + 1) <= r * r) by (nonlinear_arith)
            requires
                0 <= c,
                c + 1 <= r,
        ;
    }
    if r < c {
        assert((r + 1) * (r + 1) <= c * c) by (nonlinear_arith)
            requires
                0 <= r,
                r + 1 <= c,
        ;
    }
}

/// The integer square root of `n`, rounded up.
pub open spec fn ceil_sqrt(n: int) -> int {
    if sqrt_floor(n) * sqrt_floor(n) == n {
        sqrt_floor(n)
    } else {
        sqrt_floor(n) + 1
    }
}

/// The anti-aliasing alpha of a boundary pixel at squared distance `d2`:
/// the coverage `(radius + 1 - dist) * 255` truncated, computed exactly as
/// `255 * (radius + 1)` minus `sqrt(255^2 * d2)` rounded up.
pub open spec fn ring_alpha_spec(d2: int, radius: int) -> int {
    255 * (radius + 1) - ceil_sqrt(65025 * d2)
}

/// One channel of the blend of `a` toward `b` by the fraction `num / den`,
/// scaled and truncated in channel units.
pub open spec fn mix_channel(a: int, b: int, num: int, den: int) -> int {
    (a * (den - num) + b * num) / den
}

/// The blend of two opaque colors by the fraction `num / den`.
pub open spec fn mix_spec(c1: Rgba, c2: Rgba, num: int, den: int) -> Rgba {
    Rgba {
        r: mix_channel(c1.r as int, c2.r as int, num, den) as u8,
        g: mix_channel(c1.g as int, c2.g as int, num, den) as u8,
        b: mix_channel(c1.b as int, c2.b as int, num, den) as u8,
        a: 255,
    }
}

/// What the rasterizer leaves at pixel `(x, y)`: the blended color fully
/// opaque inside the disc, the blended color with the anti-aliasing alpha on
/// the boundary ring, and nothing (`None`) outside.
pub open spec fn planet_pixel_spec(c1: Rgba, c2: Rgba, radius: int, x: int, y: int) -> Option<
    Rgba,
> {
    let d2 = pixel_dist2(x, y);
    let m = mix_spec(c1, c2, 10 * x + 4 * y, 1792);
    if d2 < radius * radius {
        Some(m)
    } else if d2 < (radius + 1) * (radius + 1) {
        Some(Rgba { r: m.r, g: m.g, b: m.b, a: ring_alpha_spec(d2, radius) as u8 })
    } else {
        None
    }
}

/// Channel `k` of a color, in RGBA order.
pub open spec fn rgba_channel(p: Rgba, k: int) -> u8 {
    if k == 0 {
        p.r
    } else if k == 1 {
        p.g
    } else if k == 2 {
        p.b
    } else {
        p.a
    }
}

/// Byte `i` of the icon for `seed`: the raster is row-major, four bytes per
/// pixel, radius 56 (half the canvas minus the margin), over an initially
/// transparent canvas.
pub open spec fn icon_byte(seed: Seq<char>, i: int) -> u8 {
    let x = (i / 4) % 128;
    let y = (i / 4) / 128;
    match planet_pixel_spec(color1_of(seed), color2_of(seed), 56, x, y) {
        Some(p) => rgba_channel(p, i % 4),
        None => 0,
    }
}

/// The full icon raster for `seed`: 128 * 128 pixels, four bytes each.
pub open spec fn icon_pixels(seed: Seq<char>) -> Seq<u8> {
    Seq::new(65536, |i: int| icon_byte(seed, i))
}

/// The integer square root, rounded down, by bisection.
pub fn isqrt(n: u64) -> (r: u64)
    requires
        n <= 0xFFFF_FFFF,
    ensures
        r as int == sqrt_floor(n as int),
        is_sqrt_floor(n as int, r as int),
{
    let mut lo: u64 = 0;
    let mut hi: u64 = 65536;
    while lo + 1 < hi
        invariant
            lo < hi <= 65536,
            lo * lo <= n,
            n < hi * hi,
        decreases hi - lo,
    {
        let mid = lo + (hi - lo) / 2;
        proof {
            assert(mid * mid <= 65536 * 65536) by (nonlinear_arith)
                requires
                    mid <= 65536,
            ;
        }
        if mid * mid <= n {
            lo = mid;
        } else {
            hi = mid;
        }
    }
    proof {
        lemma_sqrt_floor_is(n as int, lo as int);
    }
    lo
}

/// The anti-aliasing alpha of a boundary-ring pixel at squared distance
/// `d2` from the center.
pub fn ring_alpha(d2: u64, radius: u32) -> (a: u8)
    requires
        radius <= 63,
        radius * radius <= d2,
        d2 < (radius + 1) * (radius + 1),
    ensures
        a as int == ring_alpha_spec(d2 as int, radius as int),
{
    proof {
        assert((radius as int + 1) * (radius as int + 1) <= 4096) by (nonlinear_arith)
            requires
                radius <= 63,
        ;
    }
    let n: u64 = 65025 * d2;
    let s = isqrt(n);
    proof {
        if s >= 65536 {
            assert(65536 * 65536 <= s as int * s as int) by (nonlinear_arith)
                requires
                    65536 <= s,
            ;
        }
    }
    let c: u64 = if s * s == n {
        s
    } else {
        s + 1
    };
    let edge: u64 = 255 * (radius as u64 + 1);
    proof {
        let ri = radius as int;
        assert(65025 * (ri * ri) == (255 * ri) * (255 * ri) && 65025 * ((ri + 1) * (ri + 1)) == (
        255 * (ri + 1)) * (255 * (ri + 1))) by (nonlinear_arith);
        // the root is at least 255 * radius ...
        if (s as int) < 255 * ri {
            assert((s + 1) * (s + 1) <= (255 * ri) * (255 * ri)) by (nonlinear_arith)
                requires
                    0 <= s,
                    s + 1 <= 255 * ri,
            ;
            assert(65025 * (ri * ri) <= 65025 * (d2 as int));
        }
        // ... and stays below 255 * (radius + 1)
        if (s as int) >= 255 * (ri + 1) {
            assert((255 * (ri + 1)) * (255 * (ri + 1)) <= s * s) by (nonlinear_arith)
                requires
                    0 <= 255 * (ri + 1) <= s,
            ;
            assert(65025 * (d2 as int) < 65025 * ((ri + 1) * (ri + 1)));
        }
    }
    (edge - c) as u8
}

/// The diagonal blend metric `x + y / 2.5`, scaled by 10 so that it stays in
/// integers: `10 * x + 4 * y`.
pub fn cool_diagonal(x: u32, y: u32) -> (r: u32)
    requires
        x <= 128,
        y <= 128,
    ensures
        r == 10 * x + 4 * y,
{
    10 * x + 4 * y
}

/// One blended channel, `a` toward `b` by `num / den`, truncated.
fn mix_channel_exec(a: u8, b: u8, num: u64, den: u64) -> (c: u8)
    requires
        0 < den <= 100000,
        num <= den,
    ensures
        c as int == mix_channel(a as int, b as int, num as int, den as int),
{
    let av = a as u64;
    let bv = b as u64;
    proof {
        assert(av * (den - num) <= 255 * (den - num) && bv * num <= 255 * num)
            by (nonlinear_arith)
            requires
                av <= 255,
                bv <= 255,
                num <= den,
        ;
        lemma_div_is_ordered(
            av as int * (den - num) + bv as int * (num as int),
            255 * (den as int),
            den as int,
        );
        lemma_div_multiples_vanish(255, den as int);
    }
    let q = (av * (den - num) + bv * num) / den;
    q as u8
}

/// Blend two opaque colors channel by channel by the fraction `num / den`.
pub fn mix(color1: Rgba, color2: Rgba, num: u32, den: u32) -> (c: Rgba)
    requires
        0 < den <= 100000,
        num <= den,
    ensures
        c == mix_spec(color1, color2, num as int, den as int),
{
    let red = mix_channel_exec(color1.r, color2.r, num as u64, den as u64);
    let green = mix_channel_exec(color1.g, color2.g, num as u64, den as u64);
    let blue = mix_channel_exec(color1.b, color2.b, num as u64, den as u64);
    Rgba { r: red, g: green, b: blue, a: 255 }
}

/// Squared distance of a pixel from the canvas center.
fn dist2(x: u32, y: u32) -> (d: u64)
    requires
        x < 128,
        y < 128,
    ensures
        d as int == pixel_dist2(x as int, y as int),
        d <= 8192,
{
    let dx: u64 = if x >= 64 {
        (x - 64) as u64
    } else {
        (64 - x) as u64
    };
    let dy: u64 = if y >= 64 {
        (y - 64) as u64
    } else {
        (64 - y) as u64
    };
    proof {
        assert(dx * dx <= 4096 && dx as int * dx as int == (x as int - 64) * (x as int - 64))
            by (nonlinear_arith)
            requires
                dx <= 64,
                dx == x as int - 64 || dx == 64 - x as int,
        ;
        assert(dy * dy <= 4096 && dy as int * dy as int == (y as int - 64) * (y as int - 64))
            by (nonlinear_arith)
            requires
                dy <= 64,
                dy == y as int - 64 || dy == 64 - y as int,
        ;
    }
    dx * dx + dy * dy
}

/// Pixel `(x, y)` of `cur` holds what the rasterizer leaves there, over a
/// canvas that held `init`.
pub open spec fn pixel_bytes_match(
    cur: Seq<u8>,
    init: Seq<u8>,
    c1: Rgba,
    c2: Rgba,
    radius: int,
    x: int,
    y: int,
) -> bool {
    let i = 4 * (128 * y + x);
    match planet_pixel_spec(c1, c2, radius, x, y) {
        Some(p) => cur[i] == p.r && cur[i + 1] == p.g && cur[i + 2] == p.b && cur[i + 3] == p.a,
        None => cur[i] == init[i] && cur[i + 1] == init[i + 1] && cur[i + 2] == init[i + 2] && cur[
            i + 3
        ] == init[i + 3],
    }
}

/// Paint the disc onto the canvas: every pixel inside the disc gets the
/// diagonally blended color at full opacity, every pixel on the boundary
/// ring gets it with the anti-aliasing alpha, and every pixel outside is
/// left untouched. Compositing a color onto a fully transparent pixel
/// leaves exactly that color, so the blended value is written directly.
pub fn draw_planet(imgbuf: &mut Vec<u8>, color1: Rgba, color2: Rgba, radius: u32)
    requires
        old(imgbuf).len() == 65536,
        radius <= 63,
    ensures
        final(imgbuf).len() == 65536,
        forall|x: int, y: int|
            0 <= x < 128 && 0 <= y < 128 ==> pixel_bytes_match(
                final(imgbuf)@,
                old(imgbuf)@,
                color1,
                color2,
                radius as int,
                x,
                y,
            ),
{
    proof {
        assert(radius as int * radius as int <= 63 * 63 && (radius as int + 1) * (radius as int
            + 1) <= 64 * 64) by (nonlinear_arith)
            requires
                radius <= 63,
        ;
    }
    let r2: u32 = radius * radius;
    let r1sq: u32 = (radius + 1) * (radius + 1);
    let den = cool_diagonal(XMAX, YMAX);
    let ghost init = imgbuf@;
    let mut y: u32 = 0;
    while y < 128
        invariant
            y <= 128,
            radius <= 63,
            r2 == radius * radius,
            r1sq == (radius + 1) * (radius + 1),
            den == 1792,
            imgbuf.len() == 65536,
            init.len() == 65536,
            init == old(imgbuf)@,
            forall|xx: int, yy: int|
                0 <= xx < 128 && 0 <= yy < y ==> pixel_bytes_match(
                    imgbuf@,
                    init,
                    color1,
                    color2,
                    radius as int,
                    xx,
                    yy,
                ),
            forall|i: int| 512 * y <= i < 65536 ==> #[trigger] imgbuf@[i] == init[i],
        decreases 128 - y,
    {
        let mut x: u32 = 0;
        while x < 128
            invariant
                y < 128,
                x <= 128,
                radius <= 63,
                r2 == radius * radius,
                r1sq == (radius + 1) * (radius + 1),
                den == 1792,
                imgbuf.len() == 65536,
                init.len() == 65536,
                forall|xx: int, yy: int|
                    0 <= xx < 128 && (0 <= yy < y || (yy == y && 0 <= xx < x))
                        ==> pixel_bytes_match(
                        imgbuf@,
                        init,
                        color1,
                        color2,
                        radius as int,
                        xx,
                        yy,
                    ),
                forall|i: int| 512 * y + 4 * x <= i < 65536 ==> #[trigger] imgbuf@[i] == init[i],
            decreases 128 - x,
        {
            let d2 = dist2(x, y);
            let num = cool_diagonal(x, y);
            let m = mix(color1, color2, num, den);
            let base: usize = 4 * (128 * (y as usize) + (x as usize));
            let ghost before = imgbuf@;
            if d2 < r2 as u64 {
                imgbuf[base] = m.r;
                imgbuf[base + 1] = m.g;
                imgbuf[base + 2] = m.b;
                imgbuf[base + 3] = m.a;
            } else if d2 < r1sq as u64 {
                let a = ring_alpha(d2, radius);
                imgbuf[base] = m.r;
                imgbuf[base + 1] = m.g;
                imgbuf[base + 2] = m.b;
                imgbuf[base + 3] = a;
            }
            proof {
                assert forall|xx: int, yy: int|
                    0 <= xx < 128 && (0 <= yy < y || (yy == y && 0 <= xx < x + 1))
                        implies pixel_bytes_match(
                    imgbuf@,
                    init,
                    color1,
                    color2,
                    radius as int,
                    xx,
                    yy,
                ) by {
                    if yy < y || xx < x {
                        assert(4 * (128 * yy + xx) + 3 < base);
                        assert(pixel_bytes_match(
                            before,
                            init,
                            color1,
                            color2,
                            radius as int,
                            xx,
                            yy,
                        ));
                    } else {
                        assert(xx == x && yy == y);
                    }
                }
            }
            x = x + 1;
        }
        y = y + 1;
    }
}

/// Synthesize the icon for a seed: pick the two colors, start from a fully
/// transparent canvas, and paint the disc of radius 56 (half the canvas
/// minus the margin).
pub fn draw_icon(seed: &str) -> (buf: Vec<u8>)
    ensures
        buf@ == icon_pixels(seed@),
{
    let (c1, c2) = crate::color::pick_colors(seed);
    let mut buf: Vec<u8> = Vec::new();
    while buf.len() < 65536
        invariant
            buf.len() <= 65536,
            forall|i: int| 0 <= i < buf.len() ==> buf@[i] == 0,
        decreases 65536 - buf.len(),
    {
        buf.push(0);
    }
    let radius = XMAX / 2 - EMPTY_PIXELS;
    let ghost pre = buf@;
    draw_planet(&mut buf, c1, c2, radius);
    proof {
        assert forall|i: int| 0 <= i < 65536 implies buf@[i] == icon_byte(seed@, i) by {
            let x = (i / 4) % 128;
            let y = (i / 4) / 128;
            let k = i % 4;
            assert(0 <= k < 4 && i == 4 * (i / 4) + k);
            assert(0 <= x < 128 && 0 <= y < 128 && i / 4 == 128 * y + x) by {
                assert(0 <= i / 4 < 16384);
            }
            assert(4 * (128 * y + x) == i - k);
            assert(pixel_bytes_match(buf@, pre, c1, c2, 56, x, y));
        }
        assert(buf@ =~= icon_pixels(seed@));
    }
    buf
}

/// Determinism: the icon raster is a function of the seed alone, so any two
/// rasters generated from the same seed are byte-identical.
pub proof fn lemma_icon_deterministic(seed: Seq<char>, b1: Seq<u8>, b2: Seq<u8>)
    requires
        b1 == icon_pixels(seed),
        b2 == icon_pixels(seed),
    ensures
        b1 == b2,
{
}

/// Disc containment: every pixel at squared distance at least
/// `(radius + 1)^2` from the center stays fully transparent.
pub proof fn lemma_disc_containment(seed: Seq<char>, x: int, y: int)
    requires
        0 <= x < 128,
        0 <= y < 128,
        pixel_dist2(x, y) >= 57 * 57,
    ensures
        icon_pixels(seed)[4 * (128 * y + x) + 3] == 0,
{
    let i = 4 * (128 * y + x) + 3;
    assert(i / 4 == 128 * y + x && i % 4 == 3);
    assert((i / 4) % 128 == x && (i / 4) / 128 == y);
}

/// Full coverage: every pixel at squared distance below `radius^2` from the
/// center is fully opaque.
pub proof fn lemma_full_coverage(seed: Seq<char>, x: int, y: int)
    requires
        0 <= x < 128,
        0 <= y < 128,
        pixel_dist2(x, y) < 56 * 56,
    ensures
        icon_pixels(seed)[4 * (128 * y + x) + 3] == 255,
{
    let i = 4 * (128 * y + x) + 3;
    assert(i / 4 == 128 * y + x && i % 4 == 3);
    assert((i / 4) % 128 == x && (i / 4) / 128 == y);
}

/// Anti-alias monotonicity: across the boundary ring, the alpha does not
/// increase as the squared distance grows.
pub proof fn lemma_antialias_monotone(d2a: int, d2b: int, radius: int)
    requires
        radius >= 0,
        radius * radius <= d2a <= d2b,
        d2b < (radius + 1) * (radius + 1),
    ensures
        ring_alpha_spec(d2a, radius) >= ring_alpha_spec(d2b, radius),
{
    let na = 65025 * d2a;
    let nb = 65025 * d2b;
    lemma_sqrt_floor_exists(na);
    lemma_sqrt_floor_exists(nb);
    let sa = sqrt_floor(na);
    let sb = sqrt_floor(nb);
    if sa > sb {
        assert((sb + 1) * (sb + 1) <= sa * sa) by (nonlinear_arith)
            requires
                0 <= sb,
                sb + 1 <= sa,
        ;
    }
    assert(sa <= sb);
    if sa * sa != na && sb * sb == nb && sa == sb {
        assert(na > sa * sa && nb == sb * sb && na <= nb);
    }
}

} // verus!
