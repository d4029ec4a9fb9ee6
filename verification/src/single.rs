//! IEEE 754 binary32 numbers, held as bit patterns and compared as such.
use vstd::arithmetic::power2::{
    lemma2_to64, lemma_pow2_adds, lemma_pow2_pos, lemma_pow2_unfold, pow2,
};
use vstd::prelude::*;

verus! {

/// The weight of the sign bit.
pub const SIGN_WEIGHT: u32 = 0x8000_0000;

/// The magnitude of the two infinities; larger magnitudes are not numbers.
pub const INFINITY_MAGNITUDE: u32 = 0x7f80_0000;

/// The magnitude of machine epsilon, two to the power of minus 23.
pub const EPSILON_MAGNITUDE: u32 = 0x3400_0000;

/// The number of values of the significand field.
pub const FRACTION_RANGE: u32 = 0x80_0000;

/// A binary32 number. Equality is equality of bit patterns.
#[derive(Clone, Copy, Debug, PartialEq, Eq, Structural)]
pub struct Single {
    pub bits: u32,
}

/// The significand of the number of magnitude `m`, with its hidden bit.
pub open spec fn significand(m: nat) -> nat {
    if m / FRACTION_RANGE as nat == 0 {
        m % FRACTION_RANGE as nat
    } else {
        (m % FRACTION_RANGE as nat + FRACTION_RANGE as nat) as nat
    }
}

/// The exponent field of the number of magnitude `m`, where subnormal numbers share the smallest
/// exponent of normal ones.
pub open spec fn exponent(m: nat) -> nat {
    if m / FRACTION_RANGE as nat == 0 {
        1
    } else {
        m / FRACTION_RANGE as nat
    }
}

/// The number of magnitude `m`, in units of two to the power of minus 150.
pub open spec fn scaled(m: nat) -> nat {
    significand(m) * pow2(exponent(m))
}

impl Single {
    /// The bit pattern without its sign.
    pub open spec fn magnitude(self) -> nat {
        if self.bits >= SIGN_WEIGHT {
            (self.bits - SIGN_WEIGHT) as nat
        } else {
            self.bits as nat
        }
    }

    /// Whether the sign bit is set.
    pub open spec fn negative(self) -> bool {
        self.bits >= SIGN_WEIGHT
    }

    /// Whether this is not a number.
    pub open spec fn nan(self) -> bool {
        self.magnitude() > INFINITY_MAGNITUDE
    }

    /// Whether this is a number other than the infinities.
    pub open spec fn finite(self) -> bool {
        self.magnitude() < INFINITY_MAGNITUDE
    }

    /// The place of a number in the order of all numbers; both zeros have place zero.
    pub open spec fn rank(self) -> int {
        if self.negative() {
            -(self.magnitude() as int)
        } else {
            self.magnitude() as int
        }
    }

    /// `self < other`.
    pub open spec fn lt(self, other: Single) -> bool {
        !self.nan() && !other.nan() && self.rank() < other.rank()
    }

    /// `self >= other`.
    pub open spec fn ge(self, other: Single) -> bool {
        !self.nan() && !other.nan() && self.rank() >= other.rank()
    }

    /// The real number that a value stands for; the next power of two beyond the finite numbers,
    /// or its opposite, for an infinity.
    pub open spec fn value(self) -> real {
        let size = (scaled(self.magnitude()) as real) / (pow2(150) as real);
        if self.negative() {
            (0 as real) - size
        } else {
            size
        }
    }

    /// The number with the given bit pattern.
    pub fn from_bits(bits: u32) -> (r: Self)
        ensures
            r.bits == bits,
    {
        Single { bits }
    }

    /// The number zero.
    pub fn zero() -> (r: Self)
        ensures
            r.bits == 0,
    {
        Single { bits: 0 }
    }

    /// The number one.
    pub fn one() -> (r: Self)
        ensures
            r.bits == 0x3f80_0000,
    {
        Single { bits: 0x3f80_0000 }
    }

    fn size_bits(&self) -> (r: u32)
        ensures
            r == self.magnitude(),
    {
        if self.bits >= SIGN_WEIGHT {
            self.bits - SIGN_WEIGHT
        } else {
            self.bits
        }
    }

    /// Whether `self < other`. False where either is not a number.
    pub fn less_than(&self, other: &Single) -> (r: bool)
        ensures
            r == self.lt(*other),
    {
        let a: u32 = self.size_bits();
        let b: u32 = other.size_bits();
        if a > INFINITY_MAGNITUDE || b > INFINITY_MAGNITUDE {
            return false;
        }
        if self.bits >= SIGN_WEIGHT {
            if other.bits >= SIGN_WEIGHT {
                b < a
            } else {
                a > 0 || b > 0
            }
        } else if other.bits >= SIGN_WEIGHT {
            false
        } else {
            a < b
        }
    }

    /// Whether `self >= other`. False where either is not a number.
    pub fn at_least(&self, other: &Single) -> (r: bool)
        ensures
            r == self.ge(*other),
    {
        self.size_bits() <= INFINITY_MAGNITUDE && other.size_bits() <= INFINITY_MAGNITUDE
            && !self.less_than(other)
    }

    /// Whether this differs from zero. What is not a number does.
    pub fn is_nonzero(&self) -> (r: bool)
        ensures
            r == (self.nan() || self.rank() != 0),
            r == (self.bits % 0x8000_0000 != 0),
    {
        self.size_bits() != 0
    }

    /// Whether the absolute value exceeds machine epsilon. False of what is not a number.
    pub fn exceeds_epsilon(&self) -> (r: bool)
        ensures
            r == (!self.nan() && self.magnitude() > EPSILON_MAGNITUDE),
            r == (0x3400_0000 < self.bits % 0x8000_0000 <= 0x7f80_0000),
    {
        let size: u32 = self.size_bits();
        size <= INFINITY_MAGNITUDE && size > EPSILON_MAGNITUDE
    }

    /// The number with the opposite sign.
    pub open spec fn opposite(self) -> Single {
        if self.negative() {
            Single { bits: (self.bits - SIGN_WEIGHT) as u32 }
        } else {
            Single { bits: (self.bits + SIGN_WEIGHT) as u32 }
        }
    }

    /// The number with the opposite sign.
    pub fn negated(&self) -> (r: Self)
        ensures
            r == self.opposite(),
            r.bits == (self.bits + 0x8000_0000) % 0x1_0000_0000,
    {
        if self.bits >= SIGN_WEIGHT {
            Single { bits: self.bits - SIGN_WEIGHT }
        } else {
            Single { bits: self.bits + SIGN_WEIGHT }
        }
    }
}

proof fn lemma_scaled_step(m: nat)
    ensures
        scaled(m) < scaled(m + 1),
{
    let range = FRACTION_RANGE as nat;
    let e = m / range;
    let f = m % range;
    lemma_pow2_pos(exponent(m));
    if f + 1 < range {
        assert((m + 1) / range == e && (m + 1) % range == f + 1);
        assert(significand(m + 1) == significand(m) + 1);
        let p = pow2(exponent(m)) as int;
        let s = significand(m) as int;
        assert((s + 1) * p == s * p + p) by (nonlinear_arith);
    } else {
        assert((m + 1) / range == e + 1 && (m + 1) % range == 0);
        let p = pow2(exponent(m)) as int;
        if e == 0 {
            assert(((range - 1) as int) * p + p == (range as int) * p) by (nonlinear_arith)
                requires
                    range >= 1,
            ;
        } else {
            lemma_pow2_unfold(exponent(m + 1));
            assert(pow2(exponent(m + 1)) == 2 * p);
            assert((2 * range - 1) * p + p == range * (2 * p)) by (nonlinear_arith);
        }
    }
}

proof fn lemma_scaled_monotone(a: nat, b: nat)
    requires
        a < b,
    ensures
        scaled(a) < scaled(b),
    decreases b - a,
{
    if a + 1 < b {
        lemma_scaled_monotone(a, (b - 1) as nat);
    }
    lemma_scaled_step((b - 1) as nat);
}

proof fn lemma_quotient_order(x: real, y: real, d: real)
    requires
        d > 0 as real,
    ensures
        x < y <==> x / d < y / d,
        x == y <==> x / d == y / d,
{
    assert((x < y <==> x / d < y / d) && (x == y <==> x / d == y / d)) by (nonlinear_arith)
        requires
            d > 0 as real,
    ;
}

/// Comparing bit patterns compares the numbers: `less_than` and `at_least` hold exactly when the
/// real numbers that the values stand for are so ordered. An infinity takes part with a number
/// beyond every finite one.
pub proof fn lemma_order_is_numeric(a: Single, b: Single)
    requires
        !a.nan(),
        !b.nan(),
    ensures
        a.lt(b) <==> a.value() < b.value(),
        a.ge(b) <==> a.value() >= b.value(),
{
    let ma = a.magnitude();
    let mb = b.magnitude();
    assert(scaled(0) == 0) by {
        assert(0 * pow2(1) == 0);
    }
    if ma < mb {
        lemma_scaled_monotone(ma, mb);
    }
    if mb < ma {
        lemma_scaled_monotone(mb, ma);
    }
    if 0 < ma {
        lemma_scaled_monotone(0, ma);
    }
    if 0 < mb {
        lemma_scaled_monotone(0, mb);
    }
    lemma_pow2_pos(150);
    let d = pow2(150) as real;
    let x = scaled(ma) as real;
    let y = scaled(mb) as real;
    assert(scaled(ma) < scaled(mb) <==> x < y);
    assert(scaled(ma) == scaled(mb) <==> x == y);
    assert(scaled(ma) > 0 <==> x > 0 as real);
    assert(scaled(mb) > 0 <==> y > 0 as real);
    assert(x >= 0 as real && y >= 0 as real);
    lemma_quotient_order(x, y, d);
    lemma_quotient_order(0 as real, x, d);
    lemma_quotient_order(0 as real, y, d);
    let qa = x / d;
    let qb = y / d;
    assert((0 as real) / d == 0 as real) by (nonlinear_arith)
        requires
            d > 0 as real,
    ;
    assert(a.value() == if a.negative() {
        (0 as real) - qa
    } else {
        qa
    });
    assert(b.value() == if b.negative() {
        (0 as real) - qb
    } else {
        qb
    });
}

/// The pattern of one stands for the real number one, and flipping the sign negates.
pub proof fn lemma_one_and_opposite(a: Single)
    ensures
        (Single { bits: 0x3f80_0000 }).value() == 1 as real,
        (Single { bits: 0 }).value() == 0 as real,
        a.opposite().value() == (0 as real) - a.value(),
{
    lemma_pow2_pos(150);
    assert(pow2(23) == FRACTION_RANGE) by {
        vstd::arithmetic::power2::lemma2_to64();
    }
    lemma_pow2_adds(23, 127);
    let d = pow2(150) as real;
    assert(0x3f80_0000nat / 0x80_0000nat == 127 && 0x3f80_0000nat % 0x80_0000nat == 0);
    assert(scaled(0x3f80_0000) == pow2(150));
    assert(scaled(0) == 0) by {
        assert(0 * pow2(1) == 0);
    }
    assert(d / d == 1 as real && (0 as real) / d == 0 as real) by (nonlinear_arith)
        requires
            d > 0 as real,
    ;
}

/// The pattern of machine epsilon stands for two to the power of minus 23, and a value exceeds it
/// in size exactly when the number is further from zero.
pub proof fn lemma_epsilon_is_numeric(a: Single)
    requires
        !a.nan(),
    ensures
        ({
            let epsilon = (Single { bits: EPSILON_MAGNITUDE }).value();
            &&& epsilon * (FRACTION_RANGE as real) == 1 as real
            &&& a.magnitude() > EPSILON_MAGNITUDE <==> a.value() > epsilon || a.value() < (
            0 as real) - epsilon
        }),
{
    let e = Single { bits: EPSILON_MAGNITUDE };
    lemma_pow2_pos(150);
    assert(pow2(23) == FRACTION_RANGE) by {
        vstd::arithmetic::power2::lemma2_to64();
    }
    lemma_pow2_adds(23, 104);
    lemma_pow2_adds(127, 23);
    assert(0x3400_0000nat / 0x80_0000nat == 104 && 0x3400_0000nat % 0x80_0000nat == 0);
    assert(scaled(0x3400_0000) == pow2(127));
    let d = pow2(150) as real;
    let n = pow2(127) as real;
    let f = FRACTION_RANGE as real;
    let p = pow2(127) as int;
    assert(0x80_0000int * p == pow2(150) as int);
    assert((0x80_0000int * p) as real == (0x80_0000int as real) * (p as real));
    assert(n * f == d) by (nonlinear_arith)
        requires
            d == f * n,
    ;
    assert((n / d) * f == (n * f) / d && d / d == 1 as real) by (nonlinear_arith)
        requires
            d > 0 as real,
    ;
    lemma_order_is_numeric(e, a);
    lemma_order_is_numeric(a, e.opposite());
    lemma_one_and_opposite(e);
}

/// Which patterns are numbers: the exponent field of what is not a number is all ones and its
/// fraction is not zero, that of an infinity is all ones with fraction zero, and any other pattern
/// is finite.
pub proof fn lemma_number_classes(a: Single)
    ensures
        a.nan() <==> a.bits as int / 0x80_0000 % 256 == 255 && a.bits as int % 0x80_0000 != 0,
        a.finite() <==> a.bits as int / 0x80_0000 % 256 != 255,
        a.negative() <==> a.bits as int / 0x8000_0000 == 1,
        a.magnitude() == a.bits as int % 0x8000_0000,
{
}

/// What is not a number is in no order with anything; of two numbers, one is below the other or
/// they are at least each other.
pub proof fn lemma_unordered(a: Single, b: Single)
    ensures
        a.nan() || b.nan() ==> !a.lt(b) && !a.ge(b),
        !a.nan() && !b.nan() ==> (a.lt(b) <==> !a.ge(b)) && (a.lt(b) ==> b.ge(a)),
{
}

/// The number that a pattern stands for, from its fields: fraction over two to the power of 149 where
/// the exponent field is zero, and otherwise fraction with hidden bit, times two to the power of
/// the exponent less 150.
pub proof fn lemma_value_from_fields(a: Single)
    ensures
        ({
            let fraction = a.bits as int % 0x80_0000;
            let exponent = a.bits as int / 0x80_0000 % 256;
            let size = if a.value() < 0 as real {
                (0 as real) - a.value()
            } else {
                a.value()
            };
            &&& exponent == 0 ==> size * (pow2(149) as real) == fraction as real
            &&& exponent != 0 ==> size * (pow2(150) as real) == ((fraction + 0x80_0000) * pow2(
                exponent as nat,
            ) as int) as real
            &&& a.value() < 0 as real ==> a.bits as int / 0x8000_0000 == 1
            &&& a.value() > 0 as real ==> a.bits as int / 0x8000_0000 == 0
        }),
{
    let m = a.magnitude();
    let d = pow2(150) as real;
    let n = scaled(m) as real;
    lemma_pow2_pos(150);
    lemma_pow2_pos(149);
    lemma_pow2_unfold(150);
    lemma2_to64();
    assert(scaled(m) >= 0);
    assert((n / d) * d == n && (n >= 0 as real ==> n / d >= 0 as real)) by (nonlinear_arith)
        requires
            d > 0 as real,
    ;
    let q = n / d;
    let h = pow2(149) as real;
    assert(d == 2 as real * h) by {
        assert(pow2(150) == 2 * pow2(149));
    }
    if m / 0x80_0000 == 0 {
        assert(scaled(m) == m % 0x80_0000 * 2);
        assert(q * h == (m % 0x80_0000) as real) by {
            assert(n == 2 as real * ((m % 0x80_0000) as real));
            assert(q * h == (m % 0x80_0000) as real) by (nonlinear_arith)
                requires
                    q * d == n,
                    d == 2 as real * h,
                    n == 2 as real * ((m % 0x80_0000) as real),
            ;
        }
    }
}

/// A value stands for zero exactly when its pattern is that of one of the two zeros.
pub proof fn lemma_zero_is_numeric(a: Single)
    ensures
        a.value() == 0 as real <==> a.bits as int % 0x8000_0000 == 0,
        a.rank() == 0 <==> a.value() == 0 as real,
{
    let m = a.magnitude();
    let d = pow2(150) as real;
    lemma_pow2_pos(150);
    assert(scaled(0) == 0) by {
        assert(0 * pow2(1) == 0);
    }
    if 0 < m {
        lemma_scaled_monotone(0, m);
    }
    lemma_quotient_order(0 as real, scaled(m) as real, d);
    assert((0 as real) / d == 0 as real) by (nonlinear_arith)
        requires
            d > 0 as real,
    ;
}

} // verus!
