//! Bit-level helpers shared by the decoder.

use vstd::arithmetic::div_mod::lemma_small_mod;
use vstd::arithmetic::power2::*;
use vstd::bits::*;
use vstd::prelude::*;

verus! {

/// The value of the low `width` bits of `value`, read as a two's-complement
/// number of `width` bits.
pub open spec fn sign_extended(value: int, width: nat) -> int {
    let low = value % (pow2(width) as int);
    if low >= pow2((width - 1) as nat) {
        low - pow2(width)
    } else {
        low
    }
}

/// A value sign-extended from `width` bits lies in the signed range of that width.
pub proof fn lemma_sign_extended_range(value: int, width: nat)
    requires
        width >= 1,
    ensures
        -pow2((width - 1) as nat) <= sign_extended(value, width) < pow2((width - 1) as nat),
{
    lemma_pow2_unfold(width);
    lemma_pow2_pos(width);
}

/// Sign extension of the four boundary patterns of a width: all ones gives
/// -1, all zeros gives 0, the largest positive value keeps its value, and
/// the sign bit alone gives the most negative value of that width.
pub proof fn lemma_sign_extended_patterns(width: nat)
    requires
        1 <= width <= 64,
    ensures
        sign_extended(pow2(width) - 1, width) == -1,
        sign_extended(0, width) == 0,
        sign_extended(pow2((width - 1) as nat) - 1, width) == pow2((width - 1) as nat) - 1,
        sign_extended(pow2((width - 1) as nat) as int, width) == -pow2((width - 1) as nat),
{
    lemma_pow2_unfold(width);
    lemma_pow2_pos((width - 1) as nat);
    lemma_small_mod((pow2(width) - 1) as nat, pow2(width));
    lemma_small_mod(0, pow2(width));
    lemma_small_mod((pow2((width - 1) as nat) - 1) as nat, pow2(width));
    lemma_small_mod(pow2((width - 1) as nat), pow2(width));
}

/// Sign-extends the low `size` bits of `value` to a signed 64-bit integer.
pub fn sign_extend_u64_to_i64(value: u64, size: usize) -> (r: i64)
    requires
        1 <= size <= 64,
    ensures
        r as int == sign_extended(value as int, size as nat),
{
    let k: u64 = (size - 1) as u64;
    proof {
        lemma_u64_pow2_no_overflow(k as nat);
        lemma_u64_shl_is_mul(1, k);
        lemma_pow2_unfold(size as nat);
        lemma2_to64();
    }
    // half == 2^(size - 1), the weight of the sign bit
    let half: u64 = 1u64 << k;
    let low: u64 = if size == 64 {
        value
    } else {
        proof {
            lemma_pow2_strictly_increases(size as nat, 64);
        }
        value % (2 * half)
    };
    if low < half {
        low as i64
    } else {
        let m: u64 = low - half;
        m as i64 - (half - 1) as i64 - 1
    }
}

/// Sign-extends the low `size` bits of `value` to a signed 8-bit integer.
pub fn sign_extend_u8_to_i8(value: u8, size: usize) -> (r: i8)
    requires
        1 <= size <= 8,
    ensures
        r as int == sign_extended(value as int, size as nat),
{
    let wide = sign_extend_u64_to_i64(value as u64, size);
    proof {
        lemma_sign_extended_range(value as int, size as nat);
        if size < 8 {
            lemma_pow2_strictly_increases((size - 1) as nat, 7);
        }
        lemma2_to64();
    }
    wide as i8
}

/// Sign-extends the low `size` bits of `value` to a signed 16-bit integer.
pub fn sign_extend_u16_to_i16(value: u16, size: usize) -> (r: i16)
    requires
        1 <= size <= 16,
    ensures
        r as int == sign_extended(value as int, size as nat),
{
    let wide = sign_extend_u64_to_i64(value as u64, size);
    proof {
        lemma_sign_extended_range(value as int, size as nat);
        if size < 16 {
            lemma_pow2_strictly_increases((size - 1) as nat, 15);
        }
        lemma2_to64();
    }
    wide as i16
}

/// Sign-extends the low `size` bits of `value` to a signed 32-bit integer.
pub fn sign_extend_u32_to_i32(value: u32, size: usize) -> (r: i32)
    requires
        1 <= size <= 32,
    ensures
        r as int == sign_extended(value as int, size as nat),
{
    let wide = sign_extend_u64_to_i64(value as u64, size);
    proof {
        lemma_sign_extended_range(value as int, size as nat);
        if size < 32 {
            lemma_pow2_strictly_increases((size - 1) as nat, 31);
        }
        lemma2_to64();
    }
    wide as i32
}

} // verus!
