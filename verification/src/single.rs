//! IEEE 754 single-precision numbers, held by their bit patterns.

use vstd::arithmetic::power2::{lemma2_to64, lemma_pow2_adds, lemma_pow2_pos, pow2};
use vstd::prelude::*;

verus! {

/// A single-precision number: a sign bit, 8 bits of exponent and 23 bits of fraction. All bits
/// zero is the number zero.
#[derive(Clone, Copy, Debug, Default, PartialEq, Eq, Structural)]
pub struct Single {
    pub bits: u32,
}

/// The bit pattern of one half.
pub const HALF_BITS: u32 = 0x3F00_0000;

/// The bit pattern of positive infinity. Above it are the patterns of not-a-number and of the
/// negative numbers.
pub const INFINITY_BITS: u32 = 0x7F80_0000;

/// The sign bit.
pub const SIGN_BIT: u32 = 0x8000_0000;

impl Single {
    /// The sign bit is set.
    pub open spec fn is_negative(self) -> bool {
        self.bits >= SIGN_BIT
    }

    /// The exponent field.
    pub open spec fn exponent(self) -> nat {
        (self.bits as int / 0x80_0000 % 256) as nat
    }

    /// The fraction field.
    pub open spec fn fraction(self) -> int {
        self.bits as int % 0x80_0000
    }

    /// The number is neither infinite nor not-a-number.
    pub open spec fn is_finite(self) -> bool {
        self.exponent() < 255
    }

    /// The distance of a finite number from zero, in units of `2^-149`.
    pub open spec fn magnitude(self) -> int {
        if self.exponent() == 0 {
            self.fraction()
        } else {
            (self.fraction() + 0x80_0000) * pow2((self.exponent() - 1) as nat)
        }
    }

    /// The value of a finite number in units of `2^-149`, of which every finite number is a
    /// multiple.
    pub open spec fn value(self) -> int {
        if self.is_negative() {
            -self.magnitude()
        } else {
            self.magnitude()
        }
    }

    /// The number is finite and is `n` tenths.
    pub open spec fn is_tenths(self, n: int) -> bool {
        self.is_finite() && 10 * self.value() == n * pow2(149)
    }

    /// The number zero.
    pub open spec fn zero_spec() -> Single {
        Single { bits: 0 }
    }

    /// The number with the opposite sign.
    pub open spec fn negated_spec(self) -> Single {
        Single {
            bits: if self.is_negative() {
                (self.bits - SIGN_BIT) as u32
            } else {
                (self.bits + SIGN_BIT) as u32
            },
        }
    }

    /// The larger of the number and one half; one half for what is not a number. (The patterns of
    /// the positive numbers are ordered as the numbers are.)
    pub open spec fn at_least_half_spec(self) -> Single {
        if HALF_BITS < self.bits <= INFINITY_BITS {
            self
        } else {
            Single { bits: HALF_BITS }
        }
    }

    /// Returns the number zero.
    pub fn zero() -> (out: Single)
        ensures
            out == Single::zero_spec(),
    {
        Single { bits: 0 }
    }

    /// Returns the number with the opposite sign.
    pub fn negated(self) -> (out: Single)
        ensures
            out == self.negated_spec(),
    {
        if self.bits >= SIGN_BIT {
            Single { bits: self.bits - SIGN_BIT }
        } else {
            Single { bits: self.bits + SIGN_BIT }
        }
    }

    /// Returns the larger of the number and one half.
    pub fn at_least_half(self) -> (out: Single)
        ensures
            out == self.at_least_half_spec(),
    {
        if HALF_BITS < self.bits && self.bits <= INFINITY_BITS {
            self
        } else {
            Single { bits: HALF_BITS }
        }
    }
}

/// Negation changes the sign of the value and nothing else, and undoes itself.
pub proof fn lemma_negation(x: Single)
    ensures
        x.negated_spec().is_finite() == x.is_finite(),
        x.negated_spec().value() == -x.value(),
        x.negated_spec().negated_spec() == x,
{
    let y = x.negated_spec();
    assert(y.exponent() == x.exponent());
    assert(y.fraction() == x.fraction());
}

/// A number whose exponent field is not zero is not zero.
pub(crate) proof fn lemma_magnitude_is_positive(x: Single)
    requires
        x.exponent() > 0,
    ensures
        x.magnitude() > 0,
{
    let unit = pow2((x.exponent() - 1) as nat) as int;
    let digits = x.fraction() + 0x80_0000;
    lemma_pow2_pos((x.exponent() - 1) as nat);
    assert(digits * unit > 0) by (nonlinear_arith)
        requires
            digits > 0,
            unit > 0,
    ;
}

/// Among the patterns without a sign bit, a larger one has the larger magnitude.
proof fn lemma_magnitude_is_monotonic(x: Single, y: Single)
    requires
        x.bits <= y.bits,
        y.bits < INFINITY_BITS,
    ensures
        x.magnitude() <= y.magnitude(),
{
    lemma2_to64();
    let a = x.fraction() + 0x80_0000;
    let b = y.fraction() + 0x80_0000;
    assert(x.exponent() <= y.exponent());
    if y.exponent() == 0 {
        assert(x.fraction() <= y.fraction());
    } else {
        let top = pow2((y.exponent() - 1) as nat) as int;
        lemma_pow2_pos((y.exponent() - 1) as nat);
        if x.exponent() == y.exponent() {
            assert(x.fraction() <= y.fraction());
            assert(a * top <= b * top) by (nonlinear_arith)
                requires
                    a <= b,
                    top > 0,
            ;
        } else {
            // Everything below the smallest number with y's exponent.
            assert(0x80_0000 * top <= b * top) by (nonlinear_arith)
                requires
                    0x80_0000 <= b,
                    top > 0,
            ;
            if x.exponent() == 0 {
                assert(x.fraction() < 0x80_0000 * top);
            } else {
                let unit = pow2((x.exponent() - 1) as nat) as int;
                let gap = (y.exponent() - x.exponent() - 1) as nat;
                lemma_pow2_pos((x.exponent() - 1) as nat);
                lemma_pow2_pos(gap);
                lemma_pow2_adds((x.exponent() - 1) as nat, 1);
                lemma_pow2_adds(x.exponent(), gap);
                assert(pow2(x.exponent()) == 2 * unit);
                let times = pow2(gap) as int;
                assert(top == 2 * unit * times);
                assert(a * unit <= 0x80_0000 * top) by (nonlinear_arith)
                    requires
                        a <= 0x100_0000,
                        unit > 0,
                        times >= 1,
                        top == 2 * unit * times,
                ;
            }
        }
    }
}

/// Of a finite number and one half, `at_least_half` is the larger.
pub proof fn lemma_at_least_half_is_the_larger(x: Single)
    requires
        x.is_finite(),
    ensures
        ({
            let half = Single { bits: HALF_BITS };
            x.at_least_half_spec().value() == (if x.value() > half.value() {
                x.value()
            } else {
                half.value()
            })
        }),
        (Single { bits: HALF_BITS }).is_tenths(5),
{
    let half = Single { bits: HALF_BITS };
    lemma2_to64();
    lemma_tenths(half, 5, 24);
    lemma_magnitude_is_positive(half);
    if x.is_negative() {
        if x.exponent() > 0 {
            lemma_magnitude_is_positive(x);
        }
    } else if x.bits <= HALF_BITS {
        lemma_magnitude_is_monotonic(x, half);
    } else {
        assert(x.bits < INFINITY_BITS);
        lemma_magnitude_is_monotonic(half, x);
    }
}

/// A pattern is that of `n` tenths if its digits are, `k` places up.
pub(crate) proof fn lemma_tenths(x: Single, n: int, k: nat)
    requires
        !x.is_negative(),
        0 < x.exponent() < 255,
        x.exponent() + k == 150,
        10 * (x.fraction() + 0x80_0000) == n * pow2(k),
    ensures
        x.is_tenths(n),
{
    let unit = pow2((x.exponent() - 1) as nat) as int;
    let digits = x.fraction() + 0x80_0000;
    let places = pow2(k) as int;
    lemma_pow2_adds((x.exponent() - 1) as nat, k);
    assert(10 * (digits * unit) == n * (unit * places)) by (nonlinear_arith)
        requires
            10 * digits == n * places,
    ;
}

/// The patterns themselves: zero is all zeros, negation changes the highest bit and no other, and
/// `at_least_half` keeps exactly the patterns above that of 0.5 and up to infinity.
pub proof fn lemma_patterns(x: Single)
    ensures
        Single::zero_spec().bits == 0,
        x.negated_spec().bits - x.bits == 0x8000_0000 || x.bits - x.negated_spec().bits
            == 0x8000_0000,
        0x3F00_0000 < x.bits <= 0x7F80_0000 ==> x.at_least_half_spec() == x,
        !(0x3F00_0000 < x.bits <= 0x7F80_0000) ==> x.at_least_half_spec().bits == 0x3F00_0000,
{
}

/// What each operation gives.
pub proof fn lemma_single_operations(x: Single, out: Single)
    ensures
        call_ensures(Single::zero, (), out) ==> out.bits == 0,
        call_ensures(Single::negated, (x,), out) ==> out == x.negated_spec(),
        call_ensures(Single::at_least_half, (x,), out) ==> out == x.at_least_half_spec(),
{
}

} // verus!
