//! Narrowing of signed integers, reduced modulo the width of the target.
use vstd::prelude::*;

verus! {

/// The residue of `x` modulo the number of `usize` values: `x` itself where it is one of them.
pub open spec fn residue_usize(x: int) -> nat {
    if 0 <= x <= usize::MAX {
        x as nat
    } else {
        (x % (usize::MAX + 1)) as nat
    }
}

/// The residue of `x` modulo the number of `u32` values.
pub open spec fn residue_u32(x: int) -> u32 {
    (x % (u32::MAX + 1)) as u32
}

/// The quotient of `x` and eight, rounded toward zero.
pub open spec fn eighth(x: int) -> int {
    if x >= 0 {
        x / 8
    } else {
        -((-x) / 8)
    }
}

/// Reduces `x` to a `usize`.
pub fn i64_to_usize(x: i64) -> (res: usize)
    ensures
        res == residue_usize(x as int),
{
    proof {
        assert(usize::BITS == 64 ==> (x as usize) as int == (x as int)
            % 0x1_0000_0000_0000_0000) by (bit_vector);
        assert(usize::BITS == 32 ==> (x as usize) as int == (x as int) % 0x1_0000_0000)
            by (bit_vector);
    }
    #[verifier::truncate]
    (x as usize)
}

/// Reduces `x` to a `u32`.
pub fn i64_to_u32(x: i64) -> (res: u32)
    ensures
        res == residue_u32(x as int),
{
    proof {
        assert((x as u32) as int == (x as int) % 0x1_0000_0000) by (bit_vector);
    }
    #[verifier::truncate]
    (x as u32)
}

/// Divides by eight, rounding toward zero.
pub fn div_eight(x: i64) -> (res: i64)
    ensures
        res == eighth(x as int),
{
    x / 8
}

/// A number becomes the `usize` that it is congruent to, and itself where it is one.
pub proof fn usize_is_congruent(x: i64, res: usize)
    requires
        call_ensures(i64_to_usize, (x,), res),
    ensures
        (x - res) % (usize::MAX + 1) == 0,
        0 <= x <= usize::MAX ==> res == x,
        -1 - usize::MAX <= x < 0 ==> res == usize::MAX + 1 + x,
{
    let m = usize::MAX + 1;
    if !(0 <= x <= usize::MAX) {
        vstd::arithmetic::div_mod::lemma_fundamental_div_mod(x as int, m);
        vstd::arithmetic::div_mod::lemma_mod_multiples_basic(x as int / m, m);
        assert(m * (x as int / m) == (x as int / m) * m) by (nonlinear_arith);
    }
    if -1 - usize::MAX <= x < 0 {
        vstd::arithmetic::div_mod::lemma_mod_add_multiples_vanish(x as int, m);
        vstd::arithmetic::div_mod::lemma_small_mod((m + x) as nat, m as nat);
    }
}

/// A number becomes the `u32` that it is congruent to, and itself where it is one.
pub proof fn u32_is_congruent(x: i64, res: u32)
    requires
        call_ensures(i64_to_u32, (x,), res),
    ensures
        (x - res) % 0x1_0000_0000 == 0,
        0 <= x <= 0xFFFF_FFFF ==> res == x,
{
}

/// Division by eight leaves less than eight, of the sign of the number divided.
pub proof fn quotient_is_rounded_toward_zero(x: i64, res: i64)
    requires
        call_ensures(div_eight, (x,), res),
    ensures
        x >= 0 ==> 0 <= x - 8 * res < 8,
        x <= 0 ==> -8 < x - 8 * res <= 0,
{
}

} // verus!
