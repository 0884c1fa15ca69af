//! IEEE 754 values by their bit patterns.
//!
//! A value of type `Double` or `Single` is the 64-bit or 32-bit pattern of a
//! floating-point number. This module compares such values; it does no
//! arithmetic on them. Every number that is not NaN has an integer position on
//! the line of all representable numbers, and the comparisons are comparisons
//! of positions.
use vstd::arithmetic::div_mod::lemma_div_denominator;
use vstd::arithmetic::power2::{
    lemma2_to64, lemma2_to64_rest, lemma_pow2_strictly_increases, lemma_pow2_unfold, pow2,
};
use vstd::prelude::*;

verus! {

/// A binary64 value.
#[derive(Clone, Copy, Debug, PartialEq, Eq, Structural)]
pub struct Double {
    pub bits: u64,
}

/// A binary32 value.
#[derive(Clone, Copy, Debug, PartialEq, Eq, Structural)]
pub struct Single {
    pub bits: u32,
}

pub const DOUBLE_SIGN: u64 = 0x8000_0000_0000_0000;

pub const DOUBLE_INFINITY: u64 = 0x7FF0_0000_0000_0000;

pub const SINGLE_SIGN: u32 = 0x8000_0000;

pub const SINGLE_INFINITY: u32 = 0x7F80_0000;

impl Double {
    /// The pattern without its sign bit.
    pub open spec fn magnitude(self) -> int {
        if self.bits >= DOUBLE_SIGN {
            self.bits - DOUBLE_SIGN
        } else {
            self.bits as int
        }
    }

    pub open spec fn is_nan_spec(self) -> bool {
        self.magnitude() > DOUBLE_INFINITY
    }

    pub open spec fn is_finite_spec(self) -> bool {
        self.magnitude() < DOUBLE_INFINITY
    }

    /// Position on the number line; both zeros are at 0.
    pub open spec fn position(self) -> int {
        if self.bits >= DOUBLE_SIGN {
            -self.magnitude()
        } else {
            self.magnitude()
        }
    }

    /// Position in the total order, in which -0 stands just below +0.
    pub open spec fn total_position(self) -> int {
        if self.bits >= DOUBLE_SIGN {
            -self.magnitude() - 1
        } else {
            self.magnitude()
        }
    }

    /// `self < other`: false whenever either side is NaN.
    pub open spec fn less(self, other: Double) -> bool {
        !self.is_nan_spec() && !other.is_nan_spec() && self.position() < other.position()
    }

    /// `self <= other`: false whenever either side is NaN.
    pub open spec fn at_most(self, other: Double) -> bool {
        !self.is_nan_spec() && !other.is_nan_spec() && self.position() <= other.position()
    }

    /// `self == other` as numbers.
    pub open spec fn equals(self, other: Double) -> bool {
        !self.is_nan_spec() && !other.is_nan_spec() && self.position() == other.position()
    }

    /// The smaller of two numbers; the other one when one is NaN.
    pub open spec fn least(self, other: Double) -> Double {
        if self.is_nan_spec() || other.less(self) {
            other
        } else {
            self
        }
    }

    /// The greater of two numbers; the other one when one is NaN.
    pub open spec fn greatest(self, other: Double) -> Double {
        if self.is_nan_spec() || self.less(other) {
            other
        } else {
            self
        }
    }

    pub fn min(self, other: Double) -> (smaller: Double)
        ensures
            smaller == self.least(other),
    {
        if self.is_nan() || other.lt(self) {
            other
        } else {
            self
        }
    }

    pub fn max(self, other: Double) -> (greater: Double)
        ensures
            greater == self.greatest(other),
    {
        if self.is_nan() || self.lt(other) {
            other
        } else {
            self
        }
    }

    pub fn is_nan(self) -> (nan: bool)
        ensures
            nan == self.is_nan_spec(),
    {
        if self.bits >= DOUBLE_SIGN {
            self.bits - DOUBLE_SIGN > DOUBLE_INFINITY
        } else {
            self.bits > DOUBLE_INFINITY
        }
    }

    pub fn is_finite(self) -> (finite: bool)
        ensures
            finite == self.is_finite_spec(),
    {
        if self.bits >= DOUBLE_SIGN {
            self.bits - DOUBLE_SIGN < DOUBLE_INFINITY
        } else {
            self.bits < DOUBLE_INFINITY
        }
    }

    /// The position on the number line as a machine integer.
    pub fn place(self) -> (place: i64)
        ensures
            place == self.position(),
    {
        if self.bits >= DOUBLE_SIGN {
            -((self.bits - DOUBLE_SIGN) as i64)
        } else {
            self.bits as i64
        }
    }

    /// The position in the total order as a machine integer.
    pub fn total_place(self) -> (place: i64)
        ensures
            place == self.total_position(),
    {
        if self.bits >= DOUBLE_SIGN {
            -((self.bits - DOUBLE_SIGN) as i64) - 1
        } else {
            self.bits as i64
        }
    }

    pub fn lt(self, other: Double) -> (holds: bool)
        ensures
            holds == self.less(other),
    {
        !self.is_nan() && !other.is_nan() && self.place() < other.place()
    }

    pub fn le(self, other: Double) -> (holds: bool)
        ensures
            holds == self.at_most(other),
    {
        !self.is_nan() && !other.is_nan() && self.place() <= other.place()
    }

    pub fn same(self, other: Double) -> (holds: bool)
        ensures
            holds == self.equals(other),
    {
        !self.is_nan() && !other.is_nan() && self.place() == other.place()
    }
}

/// Number of binary digits of `n`.
pub open spec fn bit_length(n: nat) -> nat
    decreases n,
{
    if n == 0 {
        0
    } else {
        1 + bit_length(n / 2)
    }
}

/// `n` in 53 binary digits: padded with zeros at the end, or rounded to the
/// nearest, and to the even one of two that are equally near.
pub open spec fn significand(n: nat) -> nat {
    let length = bit_length(n);
    if length <= 53 {
        n * pow2((53 - length) as nat)
    } else {
        let unit = pow2((length - 53) as nat);
        let below = n / unit;
        let rest = n % unit;
        if 2 * rest > unit || (2 * rest == unit && below % 2 == 1) {
            below + 1
        } else {
            below
        }
    }
}

/// The pattern of the number nearest to a positive integer: its exponent, and
/// its significand without the leading digit. A significand rounded up to
/// the next power of two carries into the exponent.
pub open spec fn pattern_of(n: nat) -> int {
    if n == 0 {
        0
    } else {
        (1022 + bit_length(n)) * 0x10_0000_0000_0000 + (significand(n) - 0x10_0000_0000_0000)
    }
}

proof fn lemma_bit_length_bounds(n: nat)
    requires
        n > 0,
    ensures
        bit_length(n) > 0,
        pow2((bit_length(n) - 1) as nat) <= n < pow2(bit_length(n)),
    decreases n,
{
    lemma2_to64();
    reveal_with_fuel(bit_length, 2);
    if n > 1 {
        lemma_bit_length_bounds(n / 2);
        lemma_pow2_unfold(bit_length(n));
        lemma_pow2_unfold(bit_length(n / 2));
    }
}

proof fn lemma_bit_length_is_53(n: nat)
    requires
        0x10_0000_0000_0000 <= n < 0x20_0000_0000_0000,
    ensures
        bit_length(n) == 53,
{
    lemma_bit_length_bounds(n);
    lemma2_to64();
    lemma2_to64_rest();
    let length = bit_length(n);
    if length < 53 {
        lemma_pow2_strictly_increases(length, 53);
        if length < 52 {
            lemma_pow2_strictly_increases(length, 52);
        }
    }
    if length > 53 {
        if length > 54 {
            lemma_pow2_strictly_increases(53, (length - 1) as nat);
        }
    }
}

fn pattern(n: u64) -> (bits: u64)
    requires
        n <= 0x8000_0000_0000_0000,
    ensures
        bits == pattern_of(n as nat),
        bits < DOUBLE_INFINITY,
{
    if n == 0 {
        return 0;
    }
    proof {
        lemma2_to64();
    }
    if n < 0x20_0000_0000_0000 {
        let mut sig: u64 = n;
        let mut exponent: u64 = 1075;
        proof {
            lemma_small_bit_length(n as nat);
            assert(pow2((1075 - exponent) as nat) == 1);
        }
        while sig < 0x10_0000_0000_0000
            invariant
                0 < n,
                0 < sig < 0x20_0000_0000_0000,
                exponent <= 1075,
                bit_length(sig as nat) == bit_length(n as nat) + 1075 - exponent,
                bit_length(sig as nat) <= 53,
                sig == n * pow2((1075 - exponent) as nat),
            decreases 0x20_0000_0000_0000 - sig,
        {
            proof {
                let k = (1075 - exponent) as nat;
                lemma_pow2_unfold(k + 1);
                assert((sig * 2) as nat / 2 == sig as nat);
                assert(n * pow2(k) * 2 == n * (2 * pow2(k))) by (nonlinear_arith);
                lemma_small_bit_length(sig as nat * 2);
            }
            sig = sig * 2;
            exponent = exponent - 1;
        }
        proof {
            lemma_bit_length_is_53(sig as nat);
        }
        exponent * 0x10_0000_0000_0000 + (sig - 0x10_0000_0000_0000)
    } else {
        let mut unit: u64 = 1;
        let mut exponent: u64 = 1075;
        let mut below: u64 = n;
        proof {
            assert(n as nat / 1 == n);
            lemma_exponent_bound(n as nat);
        }
        while below >= 0x20_0000_0000_0000
            invariant
                n <= 0x8000_0000_0000_0000,
                0x10_0000_0000_0000 <= below,
                1075 <= exponent,
                unit == pow2((exponent - 1075) as nat),
                below == n as nat / unit as nat,
                1 <= unit,
                below * unit <= n,
                bit_length(n as nat) == bit_length(below as nat) + exponent - 1075,
                bit_length(n as nat) <= 64,
            decreases below,
        {
            proof {
                lemma_pow2_unfold((exponent - 1075 + 1) as nat);
                lemma_div_denominator(n as int, unit as int, 2);
                assert(unit * 0x20_0000_0000_0000 <= n) by (nonlinear_arith)
                    requires
                        below * unit <= n,
                        below >= 0x20_0000_0000_0000,
                        unit >= 1,
                ;
                assert((below / 2) * (unit * 2) <= below * unit) by (nonlinear_arith)
                    requires
                        unit >= 1,
                ;
            }
            below = below / 2;
            unit = unit * 2;
            exponent = exponent + 1;
        }
        proof {
            lemma_bit_length_is_53(below as nat);
        }
        let rest: u64 = n % unit;
        assert(unit <= 0x800) by {
            lemma2_to64();
            if exponent < 1086 {
                lemma_pow2_strictly_increases((exponent - 1075) as nat, 11);
            }
        }
        let sig: u64 = if 2 * rest > unit || (2 * rest == unit && below % 2 == 1) {
            below + 1
        } else {
            below
        };
        proof {
            if exponent == 1075 {
                assert(n as nat % 1 == 0);
                assert(below as nat == n as nat / 1);
            }
        }
        exponent * 0x10_0000_0000_0000 + (sig - 0x10_0000_0000_0000)
    }
}

proof fn lemma_small_bit_length(n: nat)
    requires
        0 < n < 0x20_0000_0000_0000,
    ensures
        bit_length(n) <= 53,
{
    lemma_bit_length_bounds(n);
    lemma2_to64_rest();
    if bit_length(n) > 54 {
        lemma_pow2_strictly_increases(53, (bit_length(n) - 1) as nat);
    }
}

proof fn lemma_exponent_bound(n: nat)
    requires
        0 < n <= 0x8000_0000_0000_0000,
    ensures
        bit_length(n) <= 64,
{
    lemma_bit_length_bounds(n);
    lemma2_to64();
    if bit_length(n) > 65 {
        lemma_pow2_strictly_increases(64, (bit_length(n) - 1) as nat);
    }
}

impl Double {
    /// The number nearest to an integer.
    pub open spec fn of_integer(n: int) -> Double {
        Double {
            bits: (if n < 0 {
                DOUBLE_SIGN + pattern_of((-n) as nat)
            } else {
                pattern_of(n as nat)
            }) as u64,
        }
    }

    pub fn from_i64(n: i64) -> (x: Double)
        ensures
            x == Double::of_integer(n as int),
            x.is_finite_spec(),
    {
        if n == i64::MIN {
            Double { bits: DOUBLE_SIGN + pattern(0x8000_0000_0000_0000) }
        } else if n < 0 {
            Double { bits: DOUBLE_SIGN + pattern((-n) as u64) }
        } else {
            Double { bits: pattern(n as u64) }
        }
    }
}

impl Single {
    /// The pattern without its sign bit.
    pub open spec fn magnitude(self) -> int {
        if self.bits >= SINGLE_SIGN {
            self.bits - SINGLE_SIGN
        } else {
            self.bits as int
        }
    }

    pub open spec fn is_nan_spec(self) -> bool {
        self.magnitude() > SINGLE_INFINITY
    }

    pub open spec fn is_finite_spec(self) -> bool {
        self.magnitude() < SINGLE_INFINITY
    }

    /// Position on the number line; both zeros are at 0.
    pub open spec fn position(self) -> int {
        if self.bits >= SINGLE_SIGN {
            -self.magnitude()
        } else {
            self.magnitude()
        }
    }

    /// `self < other`: false whenever either side is NaN.
    pub open spec fn less(self, other: Single) -> bool {
        !self.is_nan_spec() && !other.is_nan_spec() && self.position() < other.position()
    }

    /// `self <= other`: false whenever either side is NaN.
    pub open spec fn at_most(self, other: Single) -> bool {
        !self.is_nan_spec() && !other.is_nan_spec() && self.position() <= other.position()
    }

    pub fn is_nan(self) -> (nan: bool)
        ensures
            nan == self.is_nan_spec(),
    {
        if self.bits >= SINGLE_SIGN {
            self.bits - SINGLE_SIGN > SINGLE_INFINITY
        } else {
            self.bits > SINGLE_INFINITY
        }
    }

    pub fn is_finite(self) -> (finite: bool)
        ensures
            finite == self.is_finite_spec(),
    {
        if self.bits >= SINGLE_SIGN {
            self.bits - SINGLE_SIGN < SINGLE_INFINITY
        } else {
            self.bits < SINGLE_INFINITY
        }
    }

    /// The position on the number line as a machine integer.
    pub fn place(self) -> (place: i64)
        ensures
            place == self.position(),
    {
        if self.bits >= SINGLE_SIGN {
            -((self.bits - SINGLE_SIGN) as i64)
        } else {
            self.bits as i64
        }
    }

    pub fn lt(self, other: Single) -> (holds: bool)
        ensures
            holds == self.less(other),
    {
        !self.is_nan() && !other.is_nan() && self.place() < other.place()
    }

    pub fn le(self, other: Single) -> (holds: bool)
        ensures
            holds == self.at_most(other),
    {
        !self.is_nan() && !other.is_nan() && self.place() <= other.place()
    }
}

}
