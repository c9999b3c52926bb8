//! Pixel arithmetic of the GPU: 24-bit to 15-bit colour conversion with and
//! without dithering, texture modulation, semi-transparency blending, and
//! the interpolation used by shaded primitives.
use vstd::prelude::*;

verus! {

broadcast use crate::bits::group_bits;

/// Packs the top five bits of each 8-bit channel into a BGR555 pixel.
pub open spec fn bgr555_spec(rgb: u32) -> u16 {
    (((rgb >> 3u32) & 0x1f) | (((rgb >> 11u32) & 0x1f) << 5u32) | (((rgb >> 19u32) & 0x1f) << 10u32)) as u16
}

pub fn rgb24_to_bgr555(rgb: u32) -> (r: u16)
    ensures
        r == bgr555_spec(rgb),
{
    let red = ((rgb >> 3u32) & 0x1f) as u16;
    let green = ((rgb >> 11u32) & 0x1f) as u16;
    let blue = ((rgb >> 19u32) & 0x1f) as u16;
    assert(((rgb >> 3u32) & 0x1f) as u16 | ((((rgb >> 11u32) & 0x1f) as u16) << 5u16) | ((((rgb >> 19u32) & 0x1f) as u16)
        << 10u16) == bgr555_spec(rgb)) by (bit_vector);
    red | (green << 5u16) | (blue << 10u16)
}

/// The 4x4 ordered-dither matrix, indexed by the low two bits of y and x.
pub open spec fn dither_offset_spec(row: int, col: int) -> i32 {
    if row == 0 {
        if col == 0 { -4i32 } else if col == 1 { 0i32 } else if col == 2 { -3i32 } else { 1i32 }
    } else if row == 1 {
        if col == 0 { 2i32 } else if col == 1 { -2i32 } else if col == 2 { 3i32 } else { -1i32 }
    } else if row == 2 {
        if col == 0 { -3i32 } else if col == 1 { 1i32 } else if col == 2 { -4i32 } else { 0i32 }
    } else {
        if col == 0 { 3i32 } else if col == 1 { -1i32 } else if col == 2 { 2i32 } else { -2i32 }
    }
}

fn dither_offset(row: usize, col: usize) -> (r: i32)
    ensures
        r == dither_offset_spec(row as int, col as int),
{
    if row == 0 {
        if col == 0 { -4 } else if col == 1 { 0 } else if col == 2 { -3 } else { 1 }
    } else if row == 1 {
        if col == 0 { 2 } else if col == 1 { -2 } else if col == 2 { 3 } else { -1 }
    } else if row == 2 {
        if col == 0 { -3 } else if col == 1 { 1 } else if col == 2 { -4 } else { 0 }
    } else {
        if col == 0 { 3 } else if col == 1 { -1 } else if col == 2 { 2 } else { -2 }
    }
}

/// A dithered 8-bit channel clamped to 0..=255, reduced to five bits.
pub open spec fn dither_channel_spec(value: int, dither: int) -> u16 {
    let v = value + dither;
    let c = if v < 0 { 0 } else if v > 255 { 255 } else { v };
    (c / 8) as u16
}

fn dither_channel(value: i32, dither: i32) -> (r: u16)
    requires
        0 <= value <= 255,
        -4 <= dither <= 3,
    ensures
        r == dither_channel_spec(value as int, dither as int),
        r <= 31,
{
    let v = value + dither;
    let c: u16 = if v < 0 {
        0
    } else if v > 255 {
        255
    } else {
        v as u16
    };
    c / 8
}

/// The dithered conversion: the matrix entry for (x, y) is added to each
/// channel before it is clamped and reduced.
pub open spec fn bgr555_dither_spec(rgb: u32, x: i32, y: i32) -> u16 {
    let d = dither_offset_spec(((y as u32) & 3) as int, ((x as u32) & 3) as int) as int;
    let r = dither_channel_spec((rgb & 0xff) as int, d);
    let g = dither_channel_spec(((rgb >> 8u32) & 0xff) as int, d);
    let b = dither_channel_spec(((rgb >> 16u32) & 0xff) as int, d);
    (r + 32 * g + 1024 * b) as u16
}

pub fn rgb24_to_bgr555_dither(rgb: u32, x: i32, y: i32) -> (r: u16)
    ensures
        r == bgr555_dither_spec(rgb, x, y),
{
    let d = dither_offset(((y as u32) & 3) as usize, ((x as u32) & 3) as usize);
    let red = dither_channel((rgb & 0xff) as i32, d);
    let green = dither_channel(((rgb >> 8u32) & 0xff) as i32, d);
    let blue = dither_channel(((rgb >> 16u32) & 0xff) as i32, d);
    assert(red <= 31 && green <= 31 && blue <= 31 ==> red | (green << 5u16) | (blue << 10u16) == red + 32 * green + 1024
        * blue) by (bit_vector);
    red | (green << 5u16) | (blue << 10u16)
}

/// One channel of a texel scaled by a shade channel (0x80 is unity), saturated to five bits.
pub open spec fn modulate_channel(texel: int, shade: int) -> int {
    let p = (texel * shade) / 128;
    if p > 31 { 31 } else { p }
}

/// A texel tinted by the shade colour, dithered or not, keeping its mask bit.
pub open spec fn modulate_texel_spec(texel: u16, shade: u32, dither: bool, x: i32, y: i32) -> u16 {
    let r = modulate_channel((texel % 32) as int, (shade % 256) as int);
    let g = modulate_channel(((texel / 32) % 32) as int, ((shade / 256) % 256) as int);
    let b = modulate_channel(((texel / 1024) % 32) as int, ((shade / 65536) % 256) as int);
    let color = if dither {
        bgr555_dither_spec((r * 8 + (g * 8) * 256 + (b * 8) * 65536) as u32, x, y)
    } else {
        (r + 32 * g + 1024 * b) as u16
    };
    (color + (if texel >= 0x8000 { 0x8000u16 } else { 0u16 })) as u16
}

fn modulate_component(texel: u32, shade: u32) -> (r: u32)
    requires
        texel <= 31,
        shade <= 255,
    ensures
        r == modulate_channel(texel as int, shade as int),
{
    proof {
        crate::bits::lemma_mul_bounds(texel as int, shade as int, 31, 255);
    }
    let p = texel * shade;
    let q = p / 128;
    if q > 0x1f {
        0x1f
    } else {
        q
    }
}

pub fn modulate_texel(texel: u16, shade: u32, dither: bool, x: i32, y: i32) -> (r: u16)
    ensures
        r == modulate_texel_spec(texel, shade, dither, x, y),
{
    proof {
        crate::bits::lemma_channel_fields(texel, shade);
    }
    let red = modulate_component((texel & 0x001f) as u32, shade & 0xff);
    let green = modulate_component(((texel >> 5u16) & 0x001f) as u32, (shade >> 8u32) & 0xff);
    let blue = modulate_component(((texel >> 10u16) & 0x001f) as u32, (shade >> 16u32) & 0xff);
    let color: u16 = if dither {
        let rgb = (red << 3u32) | ((green << 3u32) << 8u32) | ((blue << 3u32) << 16u32);
        assert(red <= 31 && green <= 31 && blue <= 31 ==> (red << 3u32) | ((green << 3u32) << 8u32) | ((blue << 3u32)
            << 16u32) == red * 8 + (green * 8) * 256 + (blue * 8) * 65536) by (bit_vector);
        rgb24_to_bgr555_dither(rgb, x, y)
    } else {
        assert(red <= 31 && green <= 31 && blue <= 31 ==> (red | (green << 5u32) | (blue << 10u32)) as u16 == red + 32
            * green + 1024 * blue) by (bit_vector);
        (red | (green << 5u32) | (blue << 10u32)) as u16
    };
    assert(color <= 0x7fff ==> color | (texel & 0x8000) == color + (if texel >= 0x8000 { 0x8000u16 } else { 0u16 }))
        by (bit_vector);
    color | (texel & 0x8000)
}

/// One 5-bit channel of a semi-transparent blend: average, add, subtract,
/// or add a quarter, clamped to 0..=31.
pub open spec fn blend_channel(back: int, front: int, mode: u16) -> int {
    let v = if mode == 0 {
        (back + front) / 2
    } else if mode == 1 {
        back + front
    } else if mode == 2 {
        back - front
    } else {
        back + front / 4
    };
    if v < 0 { 0 } else if v > 31 { 31 } else { v }
}

/// Blends the front pixel over the back one; the front pixel's mask bit is kept.
pub open spec fn blend555_spec(back: u16, front: u16, mode: u16) -> u16 {
    let r = blend_channel((back % 32) as int, (front % 32) as int, mode);
    let g = blend_channel(((back / 32) % 32) as int, ((front / 32) % 32) as int, mode);
    let b = blend_channel(((back / 1024) % 32) as int, ((front / 1024) % 32) as int, mode);
    (r + 32 * g + 1024 * b + (if front >= 0x8000 { 0x8000int } else { 0int })) as u16
}

fn blend(back: i32, front: i32, mode: u16) -> (r: u16)
    requires
        0 <= back <= 31,
        0 <= front <= 31,
    ensures
        r == blend_channel(back as int, front as int, mode),
{
    let v = if mode == 0 {
        (back + front) / 2
    } else if mode == 1 {
        back + front
    } else if mode == 2 {
        back - front
    } else {
        back + front / 4
    };
    if v < 0 {
        0
    } else if v > 31 {
        31
    } else {
        v as u16
    }
}

pub fn blend555(back: u16, front: u16, mode: u16) -> (r: u16)
    ensures
        r == blend555_spec(back, front, mode),
{
    proof {
        crate::bits::lemma_channel_fields(back, 0);
        crate::bits::lemma_channel_fields(front, 0);
    }
    let red = blend((back & 0x1f) as i32, (front & 0x1f) as i32, mode);
    let green = blend(((back >> 5u16) & 0x1f) as i32, ((front >> 5u16) & 0x1f) as i32, mode);
    let blue = blend(((back >> 10u16) & 0x1f) as i32, ((front >> 10u16) & 0x1f) as i32, mode);
    assert(red <= 31 && green <= 31 && blue <= 31 ==> red | (green << 5u16) | (blue << 10u16) | (front & 0x8000) == red
        + 32 * green + 1024 * blue + (if front >= 0x8000 { 0x8000u16 } else { 0u16 })) by (bit_vector);
    red | (green << 5u16) | (blue << 10u16) | (front & 0x8000)
}

/// Division of a non-negative numerator by a positive denominator.
pub fn div_nonneg(n: i64, d: i64) -> (r: i64)
    requires
        n >= 0,
        d > 0,
    ensures
        r == n / d,
{
    ((n as u64) / (d as u64)) as i64
}

/// Barycentric interpolation of three values with non-negative weights.
pub open spec fn interpolate_spec(a: int, b: int, c: int, w0: int, w1: int, w2: int, area: int) -> int {
    (a * w0 + b * w1 + c * w2) / area
}

/// Bounds that keep an interpolation inside 64 bits.
pub open spec fn weights_ok(w0: i64, w1: i64, w2: i64, area: i64) -> bool {
    &&& 0 <= w0 <= 0x1_0000_0000
    &&& 0 <= w1 <= 0x1_0000_0000
    &&& 0 <= w2 <= 0x1_0000_0000
    &&& area > 0
}

pub fn interpolate_component(a: u32, b: u32, c: u32, w0: i64, w1: i64, w2: i64, area: i64) -> (r: u32)
    requires
        a <= 255 && b <= 255 && c <= 255,
        weights_ok(w0, w1, w2, area),
    ensures
        r == interpolate_spec(a as int, b as int, c as int, w0 as int, w1 as int, w2 as int, area as int) as u32,
{
    proof {
        crate::bits::lemma_mul_bounds(a as int, w0 as int, 255, 0x1_0000_0000);
        crate::bits::lemma_mul_bounds(b as int, w1 as int, 255, 0x1_0000_0000);
        crate::bits::lemma_mul_bounds(c as int, w2 as int, 255, 0x1_0000_0000);
        assert(0 <= a * w0 && 0 <= b * w1 && 0 <= c * w2) by (nonlinear_arith)
            requires
                0 <= a,
                0 <= w0,
                0 <= b,
                0 <= w1,
                0 <= c,
                0 <= w2,
        ;
    }
    div_nonneg(a as i64 * w0 + b as i64 * w1 + c as i64 * w2, area) as u32
}

pub fn interpolate_i32(a: i32, b: i32, c: i32, w0: i64, w1: i64, w2: i64, area: i64) -> (r: i32)
    requires
        0 <= a <= 255 && 0 <= b <= 255 && 0 <= c <= 255,
        weights_ok(w0, w1, w2, area),
    ensures
        r == interpolate_spec(a as int, b as int, c as int, w0 as int, w1 as int, w2 as int, area as int) as i32,
{
    proof {
        crate::bits::lemma_mul_bounds(a as int, w0 as int, 255, 0x1_0000_0000);
        crate::bits::lemma_mul_bounds(b as int, w1 as int, 255, 0x1_0000_0000);
        crate::bits::lemma_mul_bounds(c as int, w2 as int, 255, 0x1_0000_0000);
        assert(0 <= a * w0 && 0 <= b * w1 && 0 <= c * w2) by (nonlinear_arith)
            requires
                0 <= a,
                0 <= w0,
                0 <= b,
                0 <= w1,
                0 <= c,
                0 <= w2,
        ;
    }
    div_nonneg(a as i64 * w0 + b as i64 * w1 + c as i64 * w2, area) as i32
}

/// Per-channel interpolation of three 24-bit colours.
pub open spec fn interpolate_rgb24_spec(c0: u32, c1: u32, c2: u32, w0: i64, w1: i64, w2: i64, area: i64) -> u32 {
    let r = interpolate_spec((c0 & 0xff) as int, (c1 & 0xff) as int, (c2 & 0xff) as int, w0 as int, w1 as int, w2 as int, area as int) as u32;
    let g = interpolate_spec(((c0 >> 8u32) & 0xff) as int, ((c1 >> 8u32) & 0xff) as int, ((c2 >> 8u32) & 0xff) as int, w0 as int, w1 as int, w2 as int, area as int) as u32;
    let b = interpolate_spec(((c0 >> 16u32) & 0xff) as int, ((c1 >> 16u32) & 0xff) as int, ((c2 >> 16u32) & 0xff) as int, w0 as int, w1 as int, w2 as int, area as int) as u32;
    r | (g << 8u32) | (b << 16u32)
}

pub fn interpolate_rgb24(c0: u32, c1: u32, c2: u32, w0: i64, w1: i64, w2: i64, area: i64) -> (r: u32)
    requires
        weights_ok(w0, w1, w2, area),
    ensures
        r == interpolate_rgb24_spec(c0, c1, c2, w0, w1, w2, area),
{
    let red = interpolate_component(c0 & 0xff, c1 & 0xff, c2 & 0xff, w0, w1, w2, area);
    let green = interpolate_component((c0 >> 8u32) & 0xff, (c1 >> 8u32) & 0xff, (c2 >> 8u32) & 0xff, w0, w1, w2, area);
    let blue = interpolate_component((c0 >> 16u32) & 0xff, (c1 >> 16u32) & 0xff, (c2 >> 16u32) & 0xff, w0, w1, w2, area);
    red | (green << 8u32) | (blue << 16u32)
}

/// One channel of a Gouraud line: the start value moved `step/steps` of the
/// way to the end value (the quotient truncated toward zero), clamped.
pub open spec fn line_channel(a: int, b: int, step: int, steps: int) -> int {
    let num = (b - a) * step;
    let q = if num >= 0 { num / steps } else { -((-num) / steps) };
    let v = a + q;
    if v < 0 { 0 } else if v > 255 { 255 } else { v }
}

pub open spec fn line_color_spec(start: u32, end: u32, step: i32, steps: i32) -> u32 {
    let r = line_channel((start & 0xff) as int, (end & 0xff) as int, step as int, steps as int);
    let g = line_channel(((start >> 8u32) & 0xff) as int, ((end >> 8u32) & 0xff) as int, step as int, steps as int);
    let b = line_channel(((start >> 16u32) & 0xff) as int, ((end >> 16u32) & 0xff) as int, step as int, steps as int);
    (r + 256 * g + 65536 * b) as u32
}

fn line_scale(a: i32, b: i32, step: i32, steps: i32) -> (r: u32)
    requires
        0 <= a <= 255,
        0 <= b <= 255,
        0 <= step <= 0x1_0000,
        0 < steps,
    ensures
        r == line_channel(a as int, b as int, step as int, steps as int),
        r <= 255,
{
    proof {
        crate::bits::lemma_mul_bounds((b - a) as int, step as int, 255, 0x1_0000);
    }
    let num: i64 = (b - a) as i64 * step as i64;
    let q: i64 = if num >= 0 {
        div_nonneg(num, steps as i64)
    } else {
        -div_nonneg(-num, steps as i64)
    };
    proof {
        assert(-0x100_0000 <= q <= 0x100_0000) by (nonlinear_arith)
            requires
                -0x100_0000 <= num <= 0x100_0000,
                steps >= 1,
                num >= 0 ==> q == (num as int) / (steps as int),
                num < 0 ==> q == -((-(num as int)) / (steps as int)),
        ;
    }
    let v = a as i64 + q;
    if v < 0 {
        0
    } else if v > 255 {
        255
    } else {
        v as u32
    }
}

pub fn interpolate_line_color(start: u32, end: u32, step: i32, steps: i32) -> (r: u32)
    requires
        0 <= step <= 0x1_0000,
        0 < steps,
    ensures
        r == line_color_spec(start, end, step, steps),
{
    let red = line_scale((start & 0xff) as i32, (end & 0xff) as i32, step, steps);
    let green = line_scale(((start >> 8u32) & 0xff) as i32, ((end >> 8u32) & 0xff) as i32, step, steps);
    let blue = line_scale(((start >> 16u32) & 0xff) as i32, ((end >> 16u32) & 0xff) as i32, step, steps);
    assert(red <= 255 && green <= 255 && blue <= 255 ==> red | (green << 8u32) | (blue << 16u32) == red + 256 * green
        + 65536 * blue) by (bit_vector);
    red | (green << 8u32) | (blue << 16u32)
}

} // verus!
