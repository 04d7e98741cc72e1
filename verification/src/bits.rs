//! Bit windows of a `u64`, proved against division and remainder.

use crate::layout::window;
use vstd::arithmetic::power2::{
    lemma2_to64, lemma_pow2_adds, lemma_pow2_pos, lemma_pow2_strictly_increases, pow2,
};
use vstd::bits::{
    lemma_u64_low_bits_mask_is_mod, lemma_u64_pow2_no_overflow, lemma_u64_shl_is_mul,
    lemma_u64_shr_is_div,
};
use vstd::prelude::*;

verus! {

/// Two to the power of `exponent`.
pub fn power_of_two(exponent: u8) -> (power: u64)
    requires
        exponent < 64,
    ensures
        power == pow2(exponent as nat),
{
    proof {
        lemma_u64_pow2_no_overflow(exponent as nat);
        lemma_u64_shl_is_mul(1, exponent as u64);
    }
    1u64 << (exponent as u64)
}

/// The mask of the lowest `width` bits.
pub fn low_mask(width: u8) -> (mask: u64)
    requires
        width < 64,
    ensures
        mask == pow2(width as nat) - 1,
{
    proof {
        lemma_pow2_pos(width as nat);
    }
    power_of_two(width) - 1
}

/// Reads the `width` bits of `id` that start at bit `shift`.
pub fn read_window(id: u64, shift: u8, width: u8) -> (value: u64)
    requires
        shift + width <= 64,
    ensures
        value == window(id as nat, shift as nat, width as nat),
{
    if width == 0 {
        proof {
            lemma2_to64();
        }
        0
    } else if width == 64 {
        proof {
            lemma2_to64();
            assert(id as nat / pow2(0) == id as nat);
        }
        id
    } else {
        let mask = low_mask(width);
        let shifted = id >> (shift as u64);
        proof {
            lemma_u64_shr_is_div(id, shift as u64);
            lemma_u64_low_bits_mask_is_mod(shifted, width as nat);
            lemma_u64_pow2_no_overflow(width as nat);
        }
        shifted & mask
    }
}

/// A number below `2^width`, moved up by `shift` bits, stays below
/// `2^(shift + width)`.
pub proof fn lemma_shifted_bound(value: nat, shift: nat, width: nat)
    requires
        value < pow2(width),
    ensures
        value * pow2(shift) + pow2(shift) <= pow2(shift + width),
{
    lemma_pow2_adds(shift, width);
    lemma_pow2_pos(shift);
    let p = pow2(shift) as int;
    let q = pow2(width) as int;
    let v = value as int;
    assert(v * p + p <= q * p) by (nonlinear_arith)
        requires
            0 <= v < q,
            0 < p,
    ;
}

/// `value`, reduced to `width` bits and moved up to the window that starts at
/// bit `shift`.
pub fn write_window(value: u64, shift: u8, width: u8) -> (part: u64)
    requires
        shift + width <= 64,
    ensures
        part == (value as nat % pow2(width as nat)) * pow2(shift as nat),
{
    if width == 0 {
        proof {
            lemma2_to64();
            let field = value as nat % pow2(width as nat);
            assert(field * pow2(shift as nat) == 0) by (nonlinear_arith)
                requires
                    field == 0,
            ;
        }
        0
    } else if width == 64 {
        proof {
            lemma2_to64();
            let field = value as nat % pow2(width as nat);
            let unit = pow2(shift as nat);
            assert(field * unit == value) by (nonlinear_arith)
                requires
                    field == value,
                    unit == 1,
            ;
        }
        value
    } else {
        let mask = low_mask(width);
        let field = value & mask;
        proof {
            lemma_u64_low_bits_mask_is_mod(value, width as nat);
            lemma_u64_pow2_no_overflow(width as nat);
            lemma_shifted_bound(field as nat, shift as nat, width as nat);
            lemma_pow2_at_most_64((shift + width) as nat);
            lemma_u64_shl_is_mul(field, shift as u64);
        }
        field << (shift as u64)
    }
}

/// Powers of two grow with the exponent.
pub proof fn lemma_pow2_monotone(smaller: nat, larger: nat)
    requires
        smaller <= larger,
    ensures
        pow2(smaller) <= pow2(larger),
{
    if smaller < larger {
        lemma_pow2_strictly_increases(smaller, larger);
    }
}

/// No power of two up to the 64th exceeds `2^64`.
pub proof fn lemma_pow2_at_most_64(n: nat)
    requires
        n <= 64,
    ensures
        pow2(n) <= 0x1_0000_0000_0000_0000,
{
    lemma2_to64();
    if n < 64 {
        lemma_pow2_strictly_increases(n, 64);
    }
}

/// Two numbers that share no bit, the one below `2^k` and the other a
/// multiple of `2^k`, have their sum as their bitwise or.
pub proof fn lemma_or_is_sum(low: u64, high: u64, k: nat)
    requires
        k <= 64,
        low < pow2(k),
        high as nat % pow2(k) == 0,
    ensures
        low | high == low + high,
        high | low == low + high,
{
    if k == 64 {
        lemma2_to64();
        assert(low | 0 == low && 0 | low == low) by (bit_vector);
    } else {
        let s = k as u64;
        let bound = 1u64 << s;
        let mask = (bound - 1) as u64;
        lemma_u64_pow2_no_overflow(k);
        lemma_u64_shl_is_mul(1, s);
        lemma_u64_low_bits_mask_is_mod(high, k);
        assert(low | high == low + high && high | low == low + high) by (bit_vector)
            requires
                s < 64,
                bound == 1u64 << s,
                mask == (bound - 1) as u64,
                low < bound,
                high & mask == 0,
        ;
    }
}

} // verus!
