//! Times in seconds, held as the bit pattern of a double-precision number.
//!
//! Nothing here computes with such numbers: they are only compared. The order
//! is stated over the exact value of the pattern, an integer count of the
//! smallest positive double.
use vstd::arithmetic::power2::{lemma_pow2_adds, lemma_pow2_pos, lemma_pow2_strictly_increases, pow2};
use vstd::prelude::*;

verus! {

/// The weight of the sign bit.
pub const SIGN: u64 = 0x8000_0000_0000_0000;

/// The weight of the lowest exponent bit: one more than the largest fraction.
pub const HIDDEN: u64 = 0x10_0000_0000_0000;

/// The pattern of positive infinity; what lies above it, sign apart, is no number.
pub const INFINITY: u64 = 0x7ff0_0000_0000_0000;

/// A number of seconds, as the bits of a double-precision number.
#[derive(Clone, Copy, Debug, PartialEq, Eq, Structural)]
pub struct Seconds {
    /// The sign bit, eleven exponent bits and fifty-two fraction bits.
    pub bits: u64,
}

/// The bits of five seconds: how long an item stays that is no video and names no duration.
pub const DEFAULT_DURATION: u64 = 0x4014_0000_0000_0000;

/// The pattern without its sign bit.
pub open spec fn unsigned_part(bits: u64) -> int {
    bits as int % SIGN as int
}

/// The size of a non-negative pattern, counted in the smallest positive double.
///
/// Infinity counts as the power of two after the largest finite number, which
/// places it above them all.
pub open spec fn magnitude(part: int) -> int {
    let exponent = part / HIDDEN as int;
    let fraction = part % HIDDEN as int;
    if exponent == 0 {
        fraction
    } else {
        (HIDDEN + fraction) * pow2((exponent - 1) as nat)
    }
}

impl Seconds {
    /// Whether the pattern is no number at all.
    pub open spec fn is_nan(self) -> bool {
        unsigned_part(self.bits) > INFINITY
    }

    /// The value, counted in the smallest positive double.
    pub open spec fn value(self) -> int {
        if self.bits < SIGN {
            magnitude(unsigned_part(self.bits))
        } else {
            -magnitude(unsigned_part(self.bits))
        }
    }

    /// `self <= other` as floating-point numbers compare: never true of what is
    /// no number.
    pub open spec fn le(self, other: Seconds) -> bool {
        !self.is_nan() && !other.is_nan() && self.value() <= other.value()
    }

    /// Whether `self <= other` as floating-point numbers compare.
    pub fn at_most(self, other: Seconds) -> (r: bool)
        ensures
            r == self.le(other),
    {
        let a: u64 = self.bits % SIGN;
        let b: u64 = other.bits % SIGN;
        if a > INFINITY || b > INFINITY {
            return false;
        }
        proof {
            lemma_magnitude_order(a as int, b as int);
            lemma_magnitude_order(b as int, a as int);
            lemma_magnitude_order(0, a as int);
            lemma_magnitude_order(0, b as int);
            assert(magnitude(0) == 0);
        }
        if self.bits < SIGN {
            if other.bits < SIGN {
                a <= b
            } else {
                a == 0 && b == 0
            }
        } else if other.bits < SIGN {
            true
        } else {
            b <= a
        }
    }
}

/// A larger pattern has a larger size: patterns without a sign are ordered as
/// the numbers that they stand for.
pub proof fn lemma_magnitude_order(a: int, b: int)
    requires
        0 <= a,
        0 <= b,
    ensures
        a < b ==> magnitude(a) < magnitude(b),
        a == b ==> magnitude(a) == magnitude(b),
{
    if a < b {
        let h = HIDDEN as int;
        let (ea, fa) = (a / h, a % h);
        let (eb, fb) = (b / h, b % h);
        assert(ea <= eb);
        if ea == eb {
            assert(fa < fb);
            if ea > 0 {
                let p = pow2((ea - 1) as nat);
                lemma_pow2_pos((ea - 1) as nat);
                assert((h + fa) * p < (h + fb) * p) by (nonlinear_arith)
                    requires
                        fa < fb,
                        p > 0,
                ;
            }
        } else {
            let q = pow2((eb - 1) as nat);
            lemma_pow2_pos((eb - 1) as nat);
            assert(h * q <= (h + fb) * q) by (nonlinear_arith)
                requires
                    fb >= 0,
                    q > 0,
            ;
            if ea == 0 {
                assert(h <= h * q) by (nonlinear_arith)
                    requires
                        h > 0,
                        q >= 1,
                ;
            } else {
                let p = pow2((ea - 1) as nat);
                lemma_pow2_pos((ea - 1) as nat);
                lemma_pow2_adds((ea - 1) as nat, 1);
                assert(pow2(1) == 2) by {
                    vstd::arithmetic::power2::lemma2_to64();
                }
                if ea < eb - 1 {
                    lemma_pow2_strictly_increases(ea as nat, (eb - 1) as nat);
                }
                assert(2 * p <= q);
                assert((h + fa) * p < h * q) by (nonlinear_arith)
                    requires
                        fa < h,
                        p > 0,
                        h > 0,
                        2 * p <= q,
                ;
            }
        }
    }
}

/// The bits are those of a double-precision number: a sign, eleven bits of
/// exponent and fifty-two of fraction. Without an exponent the fraction counts
/// in the smallest double; with one it gains a leading bit and doubles with each
/// further step. The highest exponent with a fraction is no number.
pub proof fn law_bits_are_double_precision(negative: bool, exponent: nat, fraction: nat, bits: u64)
    requires
        exponent < 2048,
        fraction < 0x10_0000_0000_0000,
        bits == (if negative {
            0x8000_0000_0000_0000int
        } else {
            0
        }) + exponent * 0x10_0000_0000_0000 + fraction,
    ensures
        ({
            let size = if exponent == 0 {
                fraction
            } else {
                (0x10_0000_0000_0000 + fraction) * pow2((exponent - 1) as nat)
            };
            let seconds = Seconds { bits };
            &&& seconds.value() == if negative {
                -size
            } else {
                size as int
            }
            &&& seconds.is_nan() <==> exponent == 2047 && fraction > 0
        }),
{
    let part = exponent * 0x10_0000_0000_0000 + fraction;
    assert(unsigned_part(bits) == part);
    assert(part as int / HIDDEN as int == exponent && part as int % HIDDEN as int == fraction);
}

/// Numbers compare as their values do; what is no number does not compare.
pub proof fn law_le_compares_values(a: Seconds, b: Seconds)
    ensures
        !a.is_nan() && !b.is_nan() ==> (a.le(b) <==> a.value() <= b.value()),
        a.is_nan() || b.is_nan() ==> !a.le(b),
{
}

/// Comparing is transitive.
pub proof fn law_le_transitive(a: Seconds, b: Seconds, c: Seconds)
    requires
        a.le(b),
        b.le(c),
    ensures
        a.le(c),
{
}

/// Any two numbers compare one way or the other; what is no number compares
/// with nothing, itself included.
pub proof fn law_le_total_on_numbers(a: Seconds, b: Seconds)
    ensures
        a.le(b) || b.le(a) <==> !a.is_nan() && !b.is_nan(),
        a.le(a) <==> !a.is_nan(),
{
}

/// One second is two to the power of 1074 of the smallest positive double, so
/// the default duration is five of them.
pub proof fn law_default_duration_is_five_seconds()
    ensures
        (Seconds { bits: DEFAULT_DURATION }).value() == 5 * pow2(1074),
        !(Seconds { bits: DEFAULT_DURATION }).is_nan(),
{
    assert(pow2(50) == 0x4_0000_0000_0000) by {
        vstd::arithmetic::power2::lemma2_to64_rest();
    }
    lemma_pow2_adds(50, 1024);
    let p = pow2(1024) as int;
    assert((HIDDEN + 0x4_0000_0000_0000) * p == 5 * (0x4_0000_0000_0000 * p)) by (nonlinear_arith)
        requires
            HIDDEN == 0x10_0000_0000_0000,
    ;
}

} // verus!
