//! Bit-level facts shared by the device models.
use vstd::prelude::*;

verus! {

/// Masking never produces a value above the mask.
pub broadcast proof fn lemma_and_le_u32(x: u32, m: u32)
    ensures
        #[trigger] (x & m) <= m,
        x & m <= x,
{
    assert(x & m <= m && x & m <= x) by (bit_vector);
}

/// Masking never produces a value above the mask.
pub broadcast proof fn lemma_and_le_u16(x: u16, m: u16)
    ensures
        #[trigger] (x & m) <= m,
        x & m <= x,
{
    assert(x & m <= m && x & m <= x) by (bit_vector);
}

/// Masking never produces a value above the mask.
pub broadcast proof fn lemma_and_le_u8(x: u8, m: u8)
    ensures
        #[trigger] (x & m) <= m,
        x & m <= x,
{
    assert(x & m <= m && x & m <= x) by (bit_vector);
}


} // verus!

verus! {

/// Masking never produces a value above the mask.
pub broadcast proof fn lemma_and_le_usize(x: usize, m: usize)
    ensures
        #[trigger] (x & m) <= m,
        x & m <= x,
{
    assert(x & m <= m && x & m <= x) by (bit_vector);
}

/// A 32-bit value survives the trip through the unsigned type unchanged.
pub broadcast proof fn lemma_i32_u32_round_trip(x: i32)
    ensures
        #[trigger] ((x as u32) as i32) == x,
{
    assert(((x as u32) as i32) == x) by (bit_vector);
}

/// An unsigned 32-bit value survives the trip through the signed type unchanged.
pub broadcast proof fn lemma_u32_i32_round_trip(x: u32)
    ensures
        #[trigger] ((x as i32) as u32) == x,
{
    assert(((x as i32) as u32) == x) by (bit_vector);
}

/// An arithmetic right shift by 12 of a 32-bit value fits in 20 bits.
pub proof fn lemma_shr12_i32_bounds(x: i32)
    ensures
        -0x80000 <= (x >> 12i32) <= 0x7ffff,
{
    assert(-0x80000 <= (x >> 12i32) <= 0x7ffff) by (bit_vector);
}

/// Bounds of a product of two bounded factors.
pub proof fn lemma_mul_bounds(a: int, b: int, ba: int, bb: int)
    requires
        0 <= ba,
        0 <= bb,
        -ba <= a <= ba,
        -bb <= b <= bb,
    ensures
        -(ba * bb) <= a * b <= ba * bb,
{
    assert(-(ba * bb) <= a * b <= ba * bb) by (nonlinear_arith)
        requires
            0 <= ba,
            0 <= bb,
            -ba <= a <= ba,
            -bb <= b <= bb,
    ;
}

} // verus!

verus! {

pub broadcast group group_bits {
    lemma_and_le_u32,
    lemma_and_le_u16,
    lemma_and_le_u8,
    lemma_and_le_usize,
    lemma_i32_u32_round_trip,
    lemma_u32_i32_round_trip,
    lemma_i32_low_byte,
    lemma_i32_low_bits,
    lemma_usize_mask_1023,
}

/// An even address inside sound RAM is its own halfword slot, and the next
/// halfword wraps at the end of the 512 KiB.
pub proof fn lemma_spu_address(a: u32)
    requires
        a < 0x8_0000,
        a % 2 == 0,
    ensures
        a & 0x7_ffffu32 & !1u32 == a,
        (a + 2) as u32 & 0x7_ffffu32 == (a + 2) % 0x8_0000,
{
    let b: u32 = (a + 2) as u32;
    assert(a & 0x7_ffffu32 & !1u32 == a) by (bit_vector)
        requires
            a < 0x8_0000u32,
            a % 2 == 0,
    ;
    assert(b & 0x7_ffffu32 == b % 0x8_0000u32) by (bit_vector);
}

/// The 5-bit fields of a BGR555 pixel and the 8-bit channels of a 24-bit colour.
pub proof fn lemma_channel_fields(x: u16, c: u32)
    ensures
        x & 0x1f == x % 32,
        (x >> 5u16) & 0x1f == (x / 32) % 32,
        (x >> 10u16) & 0x1f == (x / 1024) % 32,
        c & 0xff == c % 256,
        (c >> 8u32) & 0xff == (c / 256) % 256,
        (c >> 16u32) & 0xff == (c / 65536) % 256,
{
    assert(x & 0x1f == x % 32 && (x >> 5u16) & 0x1f == (x / 32) % 32 && (x >> 10u16) & 0x1f == (x / 1024) % 32)
        by (bit_vector);
    assert(c & 0xff == c % 256 && (c >> 8u32) & 0xff == (c / 256) % 256 && (c >> 16u32) & 0xff == (c / 65536) % 256)
        by (bit_vector);
}

/// The low byte of a signed 32-bit value lies in 0..=255.
pub broadcast proof fn lemma_i32_low_byte(x: i32)
    ensures
        0 <= #[trigger] (x & 0xff) <= 255,
{
    assert(0 <= (x & 0xff) <= 255) by (bit_vector);
}

/// The low two bits of a signed 32-bit value.
pub broadcast proof fn lemma_i32_low_bits(x: i32)
    ensures
        0 <= #[trigger] (x & 3) <= 3,
{
    assert(0 <= (x & 3) <= 3) by (bit_vector);
}

/// Masking an index with 1023 is reduction modulo 1024.
pub broadcast proof fn lemma_usize_mask_1023(x: usize)
    ensures
        #[trigger] (x & 1023) == x % 1024,
{
    assert(x & 1023 == x % 1024) by (bit_vector);
}

/// An 11-bit field read as a two's-complement number.
pub open spec fn sign_extend11_spec(value: u32) -> i32 {
    if value >= 0x400 {
        (value - 0x800) as i32
    } else {
        value as i32
    }
}

/// Field masks of words as remainders, and clearing the top bit twice.
pub proof fn lemma_gpu_fields(w: u32)
    ensures
        w & 0x3ff == w % 0x400,
        (w >> 10u32) & 0x1ff == (w / 0x400) % 0x200,
        (w >> 16u32) & 0x1ff == (w / 0x1_0000) % 0x200,
        w & 0x7ff == w % 0x800,
        (w >> 11u32) & 0x7ff == (w / 0x800) % 0x800,
        (w >> 16u32) & 0x7ff == (w / 0x1_0000) % 0x800,
        w & 0xffff == w % 0x1_0000,
        (w >> 16u32) & 0xffff == w / 0x1_0000,
        w >> 24u32 == w / 0x100_0000,
        (w & !3u32) + w % 4 == w,
        (w & !0x0fu32) + w % 16 == w,
        (w >> 2u32) & 3 == (w / 4) % 4,
        (w & !0x8000_0000u32) & !0x8000_0000u32 == w & !0x8000_0000u32,
{
    assert(w & 0x3ff == w % 0x400 && (w >> 10u32) & 0x1ff == (w / 0x400) % 0x200 && (w >> 16u32) & 0x1ff == (w
        / 0x1_0000) % 0x200 && w & 0x7ff == w % 0x800 && (w >> 11u32) & 0x7ff == (w / 0x800) % 0x800 && (w >> 16u32)
        & 0x7ff == (w / 0x1_0000) % 0x800 && w & 0xffff == w % 0x1_0000 && (w >> 16u32) & 0xffff == w / 0x1_0000 && w
        >> 24u32 == w / 0x100_0000 && (w & !3u32) + w % 4 == w && (w & !0x0fu32) + w % 16 == w && (w >> 2u32) & 3 == (w
        / 4) % 4 && (w & !0x8000_0000u32) & !0x8000_0000u32 == w & !0x8000_0000u32) by (bit_vector);
}

/// Masks of the memory map as remainders (index arithmetic on addresses).
pub proof fn lemma_mask_mod_usize(x: usize)
    ensures
        x & 0x1f_ffff == x % 0x20_0000,
        x & 0x7_ffff == x % 0x8_0000,
        x & 0x3ff == x % 0x400,
        x & 0x1fff == x % 0x2000,
        x & 0xfff == x % 0x1000,
{
    vstd::bits::lemma_low_bits_mask_values();
    vstd::arithmetic::power2::lemma2_to64();
    vstd::bits::lemma_usize_low_bits_mask_is_mod(x, 21);
    vstd::bits::lemma_usize_low_bits_mask_is_mod(x, 19);
    vstd::bits::lemma_usize_low_bits_mask_is_mod(x, 10);
    vstd::bits::lemma_usize_low_bits_mask_is_mod(x, 13);
    vstd::bits::lemma_usize_low_bits_mask_is_mod(x, 12);
}

/// The low five bits of an index as a remainder.
pub proof fn lemma_mask_31_usize(x: usize)
    ensures
        x & 31 == x % 32,
{
    vstd::bits::lemma_low_bits_mask_values();
    vstd::arithmetic::power2::lemma2_to64();
    vstd::bits::lemma_usize_low_bits_mask_is_mod(x, 5);
}

/// Masks of the memory map as remainders (address arithmetic).
pub proof fn lemma_mask_mod_u32(x: u32)
    ensures
        x & 0x1f_ffff == x % 0x20_0000,
        x & 0x0fff == x % 0x1000,
        x & 3 == x % 4,
        x & 1 == x % 2,
        x & 0x1f == x % 0x20,
        x & 0xffff == x % 0x1_0000,
        x & 0xff == x % 0x100,
{
    vstd::bits::lemma_low_bits_mask_values();
    vstd::arithmetic::power2::lemma2_to64();
    vstd::bits::lemma_u32_low_bits_mask_is_mod(x, 21);
    vstd::bits::lemma_u32_low_bits_mask_is_mod(x, 12);
    vstd::bits::lemma_u32_low_bits_mask_is_mod(x, 2);
    vstd::bits::lemma_u32_low_bits_mask_is_mod(x, 1);
    vstd::bits::lemma_u32_low_bits_mask_is_mod(x, 5);
    vstd::bits::lemma_u32_low_bits_mask_is_mod(x, 16);
    vstd::bits::lemma_u32_low_bits_mask_is_mod(x, 8);
}

/// Two single-bit masks of 32-bit words overlap exactly when they name the
/// same bit.
pub proof fn lemma_single_bits_overlap(d: u32, r: u32)
    by (bit_vector)
    requires
        d < 32,
        r < 32,
    ensures
        ((0u32 | (1u32 << d)) & (1u32 << r) == 0) <==> d != r,
        0u32 & (1u32 << r) == 0,
{
}

} // verus!
