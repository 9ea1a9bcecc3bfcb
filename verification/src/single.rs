//! Single-precision rounding of whole numbers.
//!
//! The disc test of an avatar is computed in single precision. Every number in
//! it is a whole number of quarters, so that each operation is an exact one on
//! integers followed by one rounding to twenty-four significant bits.
use vstd::prelude::*;

verus! {

/// Two to the number of significant bits: from here on not every integer can
/// be held.
pub const PRECISION: u128 = 0x100_0000;

/// The distance between neighbouring single-precision numbers around `n`.
pub open spec fn ulp(n: nat) -> nat
    decreases n,
{
    if n < PRECISION {
        1
    } else {
        2 * ulp(n / 2)
    }
}

/// `n` rounded to the nearest single-precision number, and to the one with the
/// even significand where two are equally near.
pub open spec fn rounded(n: nat) -> nat {
    let u = ulp(n);
    let below = n / u;
    let rest = n % u;
    if 2 * rest < u || (2 * rest == u && below % 2 == 0) {
        below * u
    } else {
        (below + 1) * u
    }
}

/// Basic bounds on the spacing.
pub proof fn lemma_ulp(n: nat)
    ensures
        1 <= ulp(n),
        n < PRECISION * ulp(n),
        n >= PRECISION ==> PRECISION * ulp(n) <= 2 * n,
    decreases n,
{
    if n >= PRECISION {
        lemma_ulp(n / 2);
        assert(PRECISION * (2 * ulp(n / 2)) == 2 * (PRECISION * ulp(n / 2))) by (nonlinear_arith);
    }
}

/// Rounding keeps every number that fits into the significand.
pub proof fn law_rounding_keeps_small_numbers(n: nat)
    requires
        n <= PRECISION,
    ensures
        rounded(n) == n,
{
    if n == PRECISION {
        reveal_with_fuel(ulp, 2);
        assert(ulp(n) == 2);
        assert(n / 2 * 2 == n);
        assert(n % 2 == 0);
    } else {
        assert(ulp(n) == 1);
        assert(n / 1 == n && n % 1 == 0);
        assert(n * 1 == n);
    }
}

/// Rounding keeps every multiple of the spacing.
pub proof fn law_rounding_keeps_multiples(n: nat)
    requires
        n % ulp(n) == 0,
    ensures
        rounded(n) == n,
{
    lemma_ulp(n);
    let u = ulp(n);
    vstd::arithmetic::div_mod::lemma_fundamental_div_mod(n as int, u as int);
    assert((n / u) * u == u * (n / u)) by (nonlinear_arith);
}

/// Where two neighbours are equally near, rounding takes the one with the even
/// significand.
pub proof fn law_ties_go_to_even(n: nat)
    requires
        2 * (n % ulp(n)) == ulp(n),
    ensures
        rounded(n) / ulp(n) % 2 == 0,
{
    lemma_ulp(n);
    let u = ulp(n) as int;
    let below = n as int / u;
    vstd::arithmetic::div_mod::lemma_div_multiples_vanish(below, u);
    vstd::arithmetic::div_mod::lemma_div_multiples_vanish(below + 1, u);
    assert(below * u == u * below && (below + 1) * u == u * (below + 1)) by (nonlinear_arith);
}

/// The spacing is one up to the precision, and doubles with the number.
pub proof fn law_spacing_doubles(n: nat)
    ensures
        n < 0x100_0000 ==> ulp(n) == 1,
        n >= 0x100_0000 ==> ulp(n) == 2 * ulp(n / 2),
{
}

/// The spacing doubles with each power of two.
pub proof fn lemma_first_spacings(n: nat)
    requires
        n < 8 * PRECISION,
    ensures
        ulp(n) == if n < PRECISION {
            1nat
        } else if n < 2 * PRECISION {
            2
        } else if n < 4 * PRECISION {
            4
        } else {
            8
        },
{
    reveal_with_fuel(ulp, 4);
}

/// Rounding gives a multiple of the spacing, at most half a spacing away.
pub proof fn law_rounding_is_to_nearest(n: nat)
    ensures
        rounded(n) % ulp(n) == 0,
        2 * (rounded(n) - n) <= ulp(n),
        2 * (n - rounded(n)) <= ulp(n),
{
    lemma_ulp(n);
    let u = ulp(n);
    vstd::arithmetic::div_mod::lemma_fundamental_div_mod(n as int, u as int);
    vstd::arithmetic::div_mod::lemma_mod_multiples_basic((n / u) as int, u as int);
    vstd::arithmetic::div_mod::lemma_mod_multiples_basic((n / u + 1) as int, u as int);
    assert((n / u + 1) * u == u * (n / u) + u) by (nonlinear_arith);
    assert((n / u) * u == u * (n / u)) by (nonlinear_arith);
}

/// Rounding at most doubles a number.
pub proof fn lemma_rounded_bound(n: nat)
    ensures
        rounded(n) <= 2 * n,
{
    lemma_ulp(n);
    let u = ulp(n);
    if n >= PRECISION {
        vstd::arithmetic::div_mod::lemma_fundamental_div_mod(n as int, u as int);
        assert(u <= n) by (nonlinear_arith)
            requires
                PRECISION * u <= 2 * n,
                PRECISION >= 2,
        ;
        assert((n / u + 1) * u == u * (n / u) + u) by (nonlinear_arith);
        assert((n / u) * u == u * (n / u)) by (nonlinear_arith);
    }
}

/// Rounds `n` as a conversion to single precision does.
pub fn round(n: u128) -> (r: u128)
    requires
        n <= 0x7fff_ffff_ffff_ffff_ffff_ffff_ffff_ffff,
    ensures
        r == rounded(n as nat),
{
    let mut rest: u128 = n;
    let mut u: u128 = 1;
    while rest >= PRECISION
        invariant
            n <= 0x7fff_ffff_ffff_ffff_ffff_ffff_ffff_ffff,
            u >= 1,
            ulp(n as nat) == u * ulp(rest as nat),
            u * rest <= n,
        decreases rest,
    {
        proof {
            assert(2 * u * (rest / 2) <= u * rest) by (nonlinear_arith)
                requires
                    u >= 1,
            ;
            assert(u * (2 * ulp(rest as nat / 2)) == (2 * u) * ulp(rest as nat / 2)) by (nonlinear_arith);
            assert(u <= n) by (nonlinear_arith)
                requires
                    u * rest <= n,
                    rest >= 1,
                    u >= 1,
            ;
        }
        rest = rest / 2;
        u = 2 * u;
    }
    proof {
        assert(u * 1 == u);
        lemma_rounded_bound(n as nat);
    }
    let below: u128 = n / u;
    let over: u128 = n % u;
    proof {
        vstd::arithmetic::div_mod::lemma_fundamental_div_mod(n as int, u as int);
        assert(below * u <= n) by (nonlinear_arith)
            requires
                n == u * below + over,
                over >= 0,
        ;
    }
    if over < u - over || (over == u - over && below % 2 == 0) {
        below * u
    } else {
        (below + 1) * u
    }
}

} // verus!
