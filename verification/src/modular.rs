//! Modular exponentiation by square-and-multiply.

use vstd::arithmetic::div_mod::{lemma_mul_mod_noop_general, lemma_small_mod};
use vstd::arithmetic::power::{
    lemma_pow0, lemma_pow1, lemma_pow_adds, lemma_pow_mod_noop, lemma_pow_multiplies,
    lemma_square_is_pow2, pow,
};
use vstd::prelude::*;

verus! {

/// The value of `base` to the power `exponent`, reduced modulo `modulus`.
///
/// A zero modulus gives 0. A zero exponent gives 1 for every other modulus,
/// the modulus 1 included: the empty product is never reduced.
pub open spec fn power_mod(base: nat, exponent: nat, modulus: nat) -> nat {
    if modulus == 0 {
        0
    } else if exponent == 0 {
        1
    } else {
        (pow(base as int, exponent) % (modulus as int)) as nat
    }
}

/// Splitting off the lowest bit of the exponent: `b^e = (b*b)^(e/2) * b^(e%2)`.
proof fn lemma_pow_halve(b: int, e: nat)
    ensures
        pow(b, e) == pow(b * b, e / 2) * (if e % 2 == 1 { b } else { 1 }),
{
    let q: nat = e / 2;
    lemma_square_is_pow2(b);
    lemma_pow_multiplies(b, 2, q);
    assert(pow(b * b, q) == pow(b, 2 * q));
    if e % 2 == 1 {
        assert(e == 2 * q + 1);
        lemma_pow_adds(b, 2 * q, 1);
        lemma_pow1(b);
    } else {
        assert(e == 2 * q);
    }
}

/// One round of square-and-multiply keeps `r * b^e` unchanged modulo `m`.
proof fn lemma_square_and_multiply_round(r: int, b: int, e: nat, m: int)
    requires
        m > 0,
    ensures
        ((if e % 2 == 1 { (r * b) % m } else { r }) * pow((b * b) % m, e / 2)) % m
            == (r * pow(b, e)) % m,
{
    let q: nat = e / 2;
    let sq = pow(b * b, q);
    let sq_reduced = pow((b * b) % m, q);
    lemma_pow_halve(b, e);
    lemma_pow_mod_noop(b * b, q, m);
    assert(sq_reduced % m == sq % m);
    if e % 2 == 1 {
        assert(r * pow(b, e) == (r * b) * sq) by (nonlinear_arith)
            requires
                pow(b, e) == sq * b,
        ;
        lemma_mul_mod_noop_general(r * b, sq, m);
        lemma_mul_mod_noop_general((r * b) % m, sq_reduced, m);
        lemma_mul_mod_noop_general((r * b) % m, sq, m);
    } else {
        assert(r * pow(b, e) == r * sq) by (nonlinear_arith)
            requires
                pow(b, e) == sq * 1,
        ;
        lemma_mul_mod_noop_general(r, sq, m);
        lemma_mul_mod_noop_general(r, sq_reduced, m);
    }
}

/// Computes `base` to the power `exponent` modulo `modulus` with a 128-bit
/// accumulator, taking the exponent's bits from the lowest up.
pub fn mod_pow(base: u64, exponent: u64, modulus: u64) -> (result: u64)
    ensures
        result == power_mod(base as nat, exponent as nat, modulus as nat),
{
    if modulus == 0 {
        return 0;
    }
    let modulus_128: u128 = modulus as u128;
    let mut result: u128 = 1;
    let mut base_128: u128 = (base as u128) % modulus_128;
    let mut remaining: u64 = exponent;

    proof {
        lemma_pow_mod_noop(base as int, exponent as nat, modulus as int);
        lemma_mul_mod_noop_general(1, pow(base as int, exponent as nat), modulus as int);
        assert(1 * pow(base_128 as int, exponent as nat) == pow(base_128 as int, exponent as nat));
    }

    while remaining > 0
        invariant
            modulus > 0,
            modulus_128 == modulus,
            base_128 < modulus_128,
            remaining <= exponent,
            exponent == 0 ==> result == 1,
            result < modulus_128 || (result == 1 && (remaining == 0 ==> exponent == 0)),
            (result * pow(base_128 as int, remaining as nat)) % (modulus as int) == pow(
                base as int,
                exponent as nat,
            ) % (modulus as int),
        decreases remaining,
    {
        proof {
            lemma_square_and_multiply_round(
                result as int,
                base_128 as int,
                remaining as nat,
                modulus as int,
            );
            assert((remaining & 1) == 1 <==> remaining % 2 == 1) by (bit_vector);
            assert(remaining >> 1 == remaining / 2) by (bit_vector);
            assert(remaining / 2 <= remaining);
            assert(result * base_128 <= 0xFFFF_FFFF_FFFF_FFFF * 0xFFFF_FFFF_FFFF_FFFF)
                by (nonlinear_arith)
                requires
                    result <= 0xFFFF_FFFF_FFFF_FFFF,
                    base_128 <= 0xFFFF_FFFF_FFFF_FFFF,
            ;
            assert(base_128 * base_128 <= 0xFFFF_FFFF_FFFF_FFFF * 0xFFFF_FFFF_FFFF_FFFF)
                by (nonlinear_arith)
                requires
                    base_128 <= 0xFFFF_FFFF_FFFF_FFFF,
            ;
        }
        if (remaining & 1) == 1 {
            result = (result * base_128) % modulus_128;
        }
        base_128 = (base_128 * base_128) % modulus_128;
        remaining = remaining >> 1;
    }

    proof {
        lemma_pow0(base_128 as int);
        assert(result * pow(base_128 as int, 0) == result) by (nonlinear_arith)
            requires
                pow(base_128 as int, 0) == 1,
        ;
        if result < modulus_128 {
            lemma_small_mod(result as nat, modulus as nat);
        }
    }
    result as u64
}

/// Under a modulus above 1 the degenerate cases vanish: `power_mod` is the
/// power reduced modulo the modulus, for every exponent.
pub proof fn lemma_power_mod_is_reduced_power(base: nat, exponent: nat, modulus: nat)
    requires
        modulus > 1,
    ensures
        power_mod(base, exponent, modulus) == pow(base as int, exponent) % (modulus as int),
        power_mod(base, exponent, modulus) < modulus,
{
    if exponent == 0 {
        lemma_pow0(base as int);
        lemma_small_mod(1, modulus);
    }
}

/// Anything to the power 0 is 1, whatever the base, under every modulus but 0.
pub proof fn lemma_power_mod_zero_exponent(base: nat, modulus: nat)
    requires
        modulus > 0,
    ensures
        power_mod(base, 0, modulus) == 1,
{
}

/// A power of a power: `(g^a)^b` and `g^(a*b)` agree modulo a modulus above 1.
proof fn lemma_power_of_power(g: nat, a: nat, b: nat, p: nat)
    requires
        p > 1,
    ensures
        power_mod(power_mod(g, a, p), b, p) == pow(g as int, a * b) % (p as int),
{
    let inner = pow(g as int, a);
    lemma_power_mod_is_reduced_power(g, a, p);
    lemma_power_mod_is_reduced_power(power_mod(g, a, p), b, p);
    lemma_pow_mod_noop(inner, b, p as int);
    lemma_pow_multiplies(g as int, a, b);
}

/// Key agreement: raising `g^a` to `b` and raising `g^b` to `a` give the same
/// value modulo `p`, for every pair of exponents.
///
/// Under the modulus 1 the empty product is not reduced, so there the two
/// sides agree only if both exponents are zero or neither is.
pub proof fn lemma_power_mod_commutes(g: nat, a: nat, b: nat, p: nat)
    requires
        p != 1 || (a == 0 <==> b == 0),
    ensures
        power_mod(power_mod(g, a, p), b, p) == power_mod(power_mod(g, b, p), a, p),
{
    if p > 1 {
        lemma_power_of_power(g, a, b, p);
        lemma_power_of_power(g, b, a, p);
        assert(a * b == b * a) by (nonlinear_arith);
    }
}

} // verus!
