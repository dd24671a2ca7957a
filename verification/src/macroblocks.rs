//! Macroblock count of a picture, as the keyframe heuristic scales by it.

use vstd::arithmetic::div_mod::{
    lemma_fundamental_div_mod, lemma_fundamental_div_mod_converse_mod, lemma_mod_multiples_basic,
    lemma_mod_bound,
};
use vstd::arithmetic::power2::{lemma2_to64, lemma_pow2_strictly_increases, pow2};
use vstd::bits::{lemma_u64_pow2_no_overflow, lemma_u64_shl_is_mul};
use vstd::prelude::*;

verus! {

/// Number of low bits dropped when turning aligned pixels into mode-info units.
pub const MI_SIZE_LOG2: u32 = 2;

/// The least multiple of `2^n` that is not below `value`.
pub open spec fn aligned_up(value: int, n: nat) -> int {
    value + (-value) % (pow2(n) as int)
}

/// Macroblock columns (or rows) covering `pixels` pixels: align up to a
/// multiple of 8, drop two bits for mode-info units, then round to the
/// nearest group of four.
pub open spec fn mb_span(pixels: int) -> int {
    (aligned_up(pixels, 3) / 4 + 2) / 4
}

/// Macroblock count of a `width` by `height` picture.
pub open spec fn mbs_count(width: int, height: int) -> int {
    mb_span(height) * mb_span(width)
}

/// `aligned_up` is a multiple of the step, at least `value`, and less than
/// one step above it.
pub proof fn lemma_aligned_up_is_least_multiple(value: int, n: nat)
    ensures
        aligned_up(value, n) % (pow2(n) as int) == 0,
        value <= aligned_up(value, n) < value + pow2(n),
{
    let p = pow2(n) as int;
    vstd::arithmetic::power2::lemma_pow2_pos(n);
    let q = (-value) / p;
    lemma_fundamental_div_mod(-value, p);
    lemma_mod_bound(-value, p);
    assert(p * q == q * p) by (nonlinear_arith);
    assert(aligned_up(value, n) == (-q) * p) by (nonlinear_arith)
        requires
            -value == q * p + (-value) % p,
            aligned_up(value, n) == value + (-value) % p,
    ;
    lemma_mod_multiples_basic(-q, p);
}

/// Rounds `value` up to a multiple of `2^n`.
pub fn align_power_of_two(value: i32, n: i32) -> (aligned: i32)
    requires
        0 <= n <= 30,
        aligned_up(value as int, n as nat) <= i32::MAX,
    ensures
        aligned == aligned_up(value as int, n as nat),
{
    proof {
        lemma_u64_pow2_no_overflow(n as nat);
        lemma_u64_shl_is_mul(1, n as u64);
        lemma2_to64();
        if n < 30 {
            lemma_pow2_strictly_increases(n as nat, 30);
        }
    }
    let step: u64 = 1u64 << (n as u64);
    assert(step == pow2(n as nat));
    assert(0 < step <= 0x4000_0000);
    if value < 0 {
        let m: u64 = (-(value as i64)) as u64;
        let r: u64 = m % step;
        (value as i64 + r as i64) as i32
    } else {
        let r: u64 = (value as u64) % step;
        proof {
            let v = value as int;
            let p = step as int;
            let q = v / p;
            lemma_fundamental_div_mod(v, p);
            assert(p * q == q * p) by (nonlinear_arith);
            if r == 0 {
                assert(-v == (-q) * p + 0) by (nonlinear_arith)
                    requires
                        v == q * p,
                ;
                lemma_fundamental_div_mod_converse_mod(-v, p, -q, 0);
            } else {
                assert(-v == (-q - 1) * p + (p - r)) by (nonlinear_arith)
                    requires
                        v == q * p + r,
                ;
                lemma_fundamental_div_mod_converse_mod(-v, p, -q - 1, p - r);
            }
        }
        if r == 0 {
            value
        } else {
            (value as i64 + (step - r) as i64) as i32
        }
    }
}

/// Whether a picture's width and height can be aligned within 32 bits and
/// its macroblock count fits 32 bits.
pub open spec fn countable(width: int, height: int) -> bool {
    &&& aligned_up(width, 3) <= i32::MAX
    &&& aligned_up(height, 3) <= i32::MAX
    &&& mbs_count(width, height) <= u32::MAX
}

fn span(pixels: u32) -> (blocks: u32)
    requires
        aligned_up(pixels as int, 3) <= i32::MAX,
    ensures
        blocks == mb_span(pixels as int),
        blocks <= 0x0800_0000,
{
    proof {
        lemma_aligned_up_is_least_multiple(pixels as int, 3);
        lemma2_to64();
    }
    let aligned: i32 = align_power_of_two(pixels as i32, 3);
    let mi: u32 = (aligned as u32) >> MI_SIZE_LOG2;
    assert(mi == (aligned as u32) / 4) by (bit_vector)
        requires
            mi == (aligned as u32) >> 2u32,
    ;
    let blocks: u32 = (mi + 2) >> 2;
    assert(blocks == (mi + 2) / 4) by (bit_vector)
        requires
            mi <= 0x2000_0000,
            blocks == ((mi + 2) as u32) >> 2u32,
    ;
    blocks
}

/// Macroblock count of a `width` by `height` picture.
pub fn mbs(width: u32, height: u32) -> (count: u32)
    requires
        countable(width as int, height as int),
    ensures
        count == mbs_count(width as int, height as int),
{
    let mb_cols: u32 = span(width);
    let mb_rows: u32 = span(height);
    assert(0 <= mb_rows * mb_cols <= 0x0800_0000 * 0x0800_0000) by (nonlinear_arith)
        requires
            0 <= mb_rows <= 0x0800_0000,
            0 <= mb_cols <= 0x0800_0000,
    ;
    let count: u64 = (mb_rows as u64) * (mb_cols as u64);
    count as u32
}

/// Macroblock count of a `width` by `height` picture, or `None` where the
/// picture is too large to count.
pub fn checked_mbs(width: u32, height: u32) -> (count: Option<u32>)
    ensures
        count == if countable(width as int, height as int) {
            Some(mbs_count(width as int, height as int) as u32)
        } else {
            None
        },
{
    proof {
        lemma_aligned_up_is_least_multiple(width as int, 3);
        lemma_aligned_up_is_least_multiple(height as int, 3);
        lemma2_to64();
    }
    if width > 0x7FFF_FFF8 || height > 0x7FFF_FFF8 {
        return None;
    }
    let mb_cols: u32 = span(width);
    let mb_rows: u32 = span(height);
    assert(0 <= mb_rows * mb_cols <= 0x0800_0000 * 0x0800_0000) by (nonlinear_arith)
        requires
            0 <= mb_rows <= 0x0800_0000,
            0 <= mb_cols <= 0x0800_0000,
    ;
    let count: u64 = (mb_rows as u64) * (mb_cols as u64);
    if count <= u32::MAX as u64 {
        Some(count as u32)
    } else {
        None
    }
}

} // verus!
