//! Binary floating-point numbers carried as their bit patterns.
//!
//! Calibration profiles, mappings and pen samples hold 64-bit floating-point
//! settings. The library never computes with them; it only has to compare
//! them, and an IEEE 754 comparison is a comparison of integers. [`Double`]
//! holds the encoding, and its order is stated over the exact value.
use vstd::arithmetic::power2::{lemma_pow2_adds, lemma_pow2_pos, lemma_pow2_strictly_increases, pow2};
use vstd::prelude::*;

verus! {

/// Weight of the sign bit of the encoding.
pub const SIGN_WEIGHT: u64 = 0x8000_0000_0000_0000;

/// Magnitude of the encoding of infinity; larger magnitudes are NaNs.
pub const INFINITE_MAGNITUDE: u64 = 0x7ff0_0000_0000_0000;

/// Number of encodings that share one exponent.
pub const MANTISSA_SPAN: u64 = 0x10_0000_0000_0000;

/// A 64-bit floating-point number, held as its IEEE 754 encoding.
#[derive(Clone, Copy, Debug, PartialEq, Eq, Structural)]
pub struct Double {
    /// Sign, exponent and mantissa, most significant first.
    pub bits: u64,
}

/// The value that a magnitude encodes, counted in units of the smallest
/// positive number. Infinity counts as one step past the largest finite value.
pub open spec fn units(magnitude: nat) -> nat {
    let exponent = magnitude / (MANTISSA_SPAN as nat);
    let mantissa = magnitude % (MANTISSA_SPAN as nat);
    if exponent == 0 {
        mantissa
    } else {
        (MANTISSA_SPAN as nat + mantissa) * pow2((exponent - 1) as nat)
    }
}

impl Double {
    /// The encoding without its sign bit.
    pub open spec fn magnitude_spec(self) -> nat {
        if self.bits < SIGN_WEIGHT {
            self.bits as nat
        } else {
            (self.bits - SIGN_WEIGHT) as nat
        }
    }

    /// Is this the encoding of something that is no number?
    pub open spec fn nan(self) -> bool {
        self.magnitude_spec() > INFINITE_MAGNITUDE
    }

    /// The exact value in units of the smallest positive number. Both zeros
    /// have rank 0.
    pub open spec fn rank(self) -> int {
        if self.bits < SIGN_WEIGHT {
            units(self.magnitude_spec()) as int
        } else {
            -(units(self.magnitude_spec()) as int)
        }
    }

    /// `self < other` on numbers; false where either is NaN.
    pub open spec fn less(self, other: Double) -> bool {
        !self.nan() && !other.nan() && self.rank() < other.rank()
    }

    /// `self <= other` on numbers; false where either is NaN.
    pub open spec fn at_most(self, other: Double) -> bool {
        !self.nan() && !other.nan() && self.rank() <= other.rank()
    }

    /// The number 0.
    pub open spec fn zero_spec() -> Double {
        Double { bits: 0 }
    }

    /// The number 1.
    pub open spec fn one_spec() -> Double {
        Double { bits: 0x3ff0_0000_0000_0000 }
    }

    /// The rank of a whole number.
    pub open spec fn whole_rank(n: int) -> int {
        n * pow2(1074)
    }

    /// The nearest whole number within `0..=max`, halves rounded away from
    /// zero; 0 for something that is no number.
    pub open spec fn rounded_spec(self, max: int) -> int {
        if self.nan() || self.rank() < 0 {
            0
        } else {
            let nearest = (2 * self.rank() + pow2(1074)) / (2 * pow2(1074) as int);
            if nearest > max {
                max
            } else {
                nearest
            }
        }
    }

    /// A number from its encoding.
    pub fn from_bits(bits: u64) -> (r: Double)
        ensures
            r.bits == bits,
    {
        Double { bits }
    }

    /// The encoding of the number.
    pub fn to_bits(self) -> (r: u64)
        ensures
            r == self.bits,
    {
        self.bits
    }

    /// The number 0.
    pub fn zero() -> (r: Double)
        ensures
            r == Double::zero_spec(),
    {
        Double { bits: 0 }
    }

    /// The number 1.
    pub fn one() -> (r: Double)
        ensures
            r == Double::one_spec(),
    {
        Double { bits: 0x3ff0_0000_0000_0000 }
    }

    fn magnitude(self) -> (r: u64)
        ensures
            r == self.magnitude_spec(),
            r < SIGN_WEIGHT,
    {
        if self.bits < SIGN_WEIGHT {
            self.bits
        } else {
            self.bits - SIGN_WEIGHT
        }
    }

    /// Is this no number?
    pub fn is_nan(self) -> (r: bool)
        ensures
            r == self.nan(),
    {
        self.magnitude() > INFINITE_MAGNITUDE
    }

    /// Floating-point `<`.
    pub fn lt(self, other: Double) -> (r: bool)
        ensures
            r == self.less(other),
    {
        if self.is_nan() || other.is_nan() {
            return false;
        }
        let a: u64 = self.magnitude();
        let b: u64 = other.magnitude();
        proof {
            lemma_units_order(a as nat, b as nat);
            lemma_units_order(b as nat, a as nat);
            lemma_units_order(0, a as nat);
            lemma_units_order(0, b as nat);
        }
        if self.bits < SIGN_WEIGHT {
            other.bits < SIGN_WEIGHT && a < b
        } else if other.bits < SIGN_WEIGHT {
            a > 0 || b > 0
        } else {
            b < a
        }
    }

    /// Floating-point `<=`.
    pub fn le(self, other: Double) -> (r: bool)
        ensures
            r == self.at_most(other),
    {
        !self.is_nan() && !other.is_nan() && !other.lt(self)
    }

    /// Is the whole number `n` greater than this number?
    pub fn exceeded_by(self, n: u8) -> (r: bool)
        ensures
            r == (!self.nan() && self.rank() < Double::whole_rank(n as int)),
    {
        let m: u64 = self.magnitude();
        proof {
            lemma_pow2_pos(1074);
            lemma_units_order(0, m as nat);
            assert(n * pow2(1074) >= n && (n == 0 ==> n * pow2(1074) == 0)) by (nonlinear_arith)
                requires
                    n >= 0,
                    pow2(1074) > 0,
            ;
        }
        if m > INFINITE_MAGNITUDE {
            false
        } else if self.bits >= SIGN_WEIGHT {
            n > 0 || m > 0
        } else {
            let exponent: u64 = m / MANTISSA_SPAN;
            let mantissa: u64 = m % MANTISSA_SPAN;
            if exponent < 1023 {
                proof {
                    lemma_units_of_power(1023);
                    lemma_units_order(m as nat, 1023 * MANTISSA_SPAN as nat);
                    assert(n > 0 ==> n * pow2(1074) >= pow2(1074)) by (nonlinear_arith)
                        requires
                            pow2(1074) > 0,
                    ;
                }
                n > 0
            } else if exponent > 1030 {
                proof {
                    lemma_units_of_power(1031);
                    lemma_units_order(m as nat, 1031 * MANTISSA_SPAN as nat);
                    lemma_pow2_adds(8, 1074);
                    vstd::arithmetic::power2::lemma2_to64();
                    assert(n * pow2(1074) < 256 * pow2(1074)) by (nonlinear_arith)
                        requires
                            n < 256,
                            pow2(1074) > 0,
                    ;
                }
                false
            } else {
                let scale: u64 = match exponent - 1023 {
                    0 => 1,
                    1 => 2,
                    2 => 4,
                    3 => 8,
                    4 => 16,
                    5 => 32,
                    6 => 64,
                    _ => 128,
                };
                proof {
                    vstd::arithmetic::power2::lemma2_to64();
                    let k = (exponent - 1023) as nat;
                    assert(pow2(k) == scale);
                    lemma_pow2_adds(k, 1022);
                    lemma_pow2_adds(52, 1022);
                    vstd::arithmetic::power2::lemma2_to64_rest();
                    lemma_pow2_pos(1022);
                    let p = pow2(1022);
                    let w = MANTISSA_SPAN + mantissa;
                    assert(w * (scale * p) == (w * scale) * p) by (nonlinear_arith);
                    assert(n * (MANTISSA_SPAN * p) == (n * MANTISSA_SPAN) * p) by (nonlinear_arith);
                    assert((w * scale) * p < (n * MANTISSA_SPAN) * p <==> w * scale < n * MANTISSA_SPAN)
                        by (nonlinear_arith)
                        requires
                            p > 0,
                    ;
                    assert(w * scale <= 0x20_0000_0000_0000 * 128) by (nonlinear_arith)
                        requires
                            w <= 0x20_0000_0000_0000,
                            scale <= 128,
                            w >= 0,
                    ;
                }
                (MANTISSA_SPAN + mantissa) * scale < n as u64 * MANTISSA_SPAN
            }
        }
    }

    /// The whole number nearest to this one, halves rounded away from zero,
    /// within `0..=max`. Something that is no number counts as 0.
    pub fn rounded(self, max: u8) -> (r: u8)
        ensures
            r == self.rounded_spec(max as int),
    {
        let m: u64 = self.magnitude();
        let exponent: u64 = m / MANTISSA_SPAN;
        let mantissa: u64 = m % MANTISSA_SPAN;
        let ghost unit = pow2(1074) as int;
        proof {
            lemma_pow2_pos(1074);
            lemma_pow2_adds(1, 1074);
            vstd::arithmetic::power2::lemma2_to64();
            vstd::arithmetic::power2::lemma2_to64_rest();
            lemma_units_order(0, m as nat);
        }
        if m > INFINITE_MAGNITUDE {
            return 0;
        }
        if self.bits >= SIGN_WEIGHT || exponent < 1022 {
            proof {
                lemma_units_of_power(1022);
                lemma_units_order(m as nat, 1022 * MANTISSA_SPAN as nat);
                lemma_pow2_adds(1, 1073);
                if self.bits < SIGN_WEIGHT {
                    assert(self.rank() < pow2(1073));
                    assert((2 * self.rank() + unit) / (2 * unit) == 0) by {
                        vstd::arithmetic::div_mod::lemma_basic_div(2 * self.rank() + unit, 2 * unit);
                    }
                } else if self.rank() == 0 {
                    assert(unit / (2 * unit) == 0) by {
                        vstd::arithmetic::div_mod::lemma_basic_div(unit, 2 * unit);
                    }
                }
            }
            return 0;
        }
        if exponent > 1030 {
            proof {
                lemma_units_of_power(1031);
                lemma_units_order(m as nat, 1031 * MANTISSA_SPAN as nat);
                lemma_pow2_adds(8, 1074);
                vstd::arithmetic::div_mod::lemma_div_is_ordered(
                    256 * (2 * unit),
                    2 * self.rank() + unit,
                    2 * unit,
                );
                vstd::arithmetic::div_mod::lemma_div_by_multiple(256, 2 * unit);
            }
            return max;
        }
        // Twice the number, as a multiple of MANTISSA_SPAN.
        let scale: u64 = match exponent - 1022 {
            0 => 1,
            1 => 2,
            2 => 4,
            3 => 8,
            4 => 16,
            5 => 32,
            6 => 64,
            7 => 128,
            _ => 256,
        };
        let ghost w = (MANTISSA_SPAN + mantissa) as int;
        proof {
            assert(w * scale <= 0x20_0000_0000_0000 * 256) by (nonlinear_arith)
                requires
                    0 <= w <= 0x20_0000_0000_0000,
                    scale <= 256,
            ;
        }
        let doubled: u64 = (MANTISSA_SPAN + mantissa) * scale;
        let nearest: u64 = (doubled + MANTISSA_SPAN) / (2 * MANTISSA_SPAN);
        proof {
            let k = (exponent - 1022) as nat;
            assert(pow2(k) == scale);
            lemma_pow2_adds(k, 1021);
            lemma_pow2_adds(52, 1022);
            lemma_pow2_adds(1, 1021);
            let p = pow2(1022) as int;
            let q = pow2(1021) as int;
            lemma_pow2_pos(1022);
            assert(w * (scale * q) * 2 == (w * scale) * (2 * q)) by (nonlinear_arith);
            assert(2 * self.rank() == doubled * p);
            assert(unit == MANTISSA_SPAN * p);
            assert(doubled * p + MANTISSA_SPAN * p == (doubled + MANTISSA_SPAN) * p) by (nonlinear_arith);
            assert(2 * (MANTISSA_SPAN * p) == (2 * MANTISSA_SPAN) * p) by (nonlinear_arith);
            vstd::arithmetic::div_mod::lemma_div_multiples_vanish_quotient(
                p,
                (doubled + MANTISSA_SPAN) as int,
                (2 * MANTISSA_SPAN) as int,
            );
            vstd::arithmetic::mul::lemma_mul_is_commutative(p, (doubled + MANTISSA_SPAN) as int);
            vstd::arithmetic::mul::lemma_mul_is_commutative(p, (2 * MANTISSA_SPAN) as int);
        }
        if nearest > max as u64 {
            max
        } else {
            nearest as u8
        }
    }

    /// Floating-point `lo <= self && self <= hi`.
    pub fn within(self, lo: Double, hi: Double) -> (r: bool)
        ensures
            r == (lo.at_most(self) && self.at_most(hi)),
    {
        lo.le(self) && self.le(hi)
    }

    /// The number within `lo` and `hi`; something that is no number stays as
    /// it is.
    pub open spec fn clamp_spec(self, lo: Double, hi: Double) -> Double {
        if self.less(lo) {
            lo
        } else if hi.less(self) {
            hi
        } else {
            self
        }
    }

    /// The number within `lo` and `hi`.
    pub fn clamp(self, lo: Double, hi: Double) -> (r: Double)
        ensures
            r == self.clamp_spec(lo, hi),
    {
        if self.lt(lo) {
            lo
        } else if hi.lt(self) {
            hi
        } else {
            self
        }
    }

    /// The number within 0 and 1; something that is no number counts as 0.
    pub open spec fn unit_spec(self) -> Double {
        if !Double::zero_spec().at_most(self) {
            Double::zero_spec()
        } else if !self.at_most(Double::one_spec()) {
            Double::one_spec()
        } else {
            self
        }
    }

    /// The number within 0 and 1.
    pub fn unit(self) -> (r: Double)
        ensures
            r == self.unit_spec(),
    {
        if !Double::zero().le(self) {
            Double::zero()
        } else if !self.le(Double::one()) {
            Double::one()
        } else {
            self
        }
    }
}

/// Magnitudes and the values that they encode have the same order.
pub proof fn lemma_units_order(a: nat, b: nat)
    ensures
        a < b <==> units(a) < units(b),
        a == b <==> units(a) == units(b),
{
    if a < b {
        lemma_units_increase(a, b);
    } else if b < a {
        lemma_units_increase(b, a);
    }
}

/// What the encoding of a power of two stands for.
proof fn lemma_units_of_power(exponent: nat)
    requires
        exponent > 0,
    ensures
        units(exponent * MANTISSA_SPAN as nat) == pow2(exponent + 51),
{
    let span = MANTISSA_SPAN as nat;
    assert((exponent * span) / span == exponent && (exponent * span) % span == 0) by {
        vstd::arithmetic::div_mod::lemma_div_by_multiple(exponent as int, span as int);
        vstd::arithmetic::div_mod::lemma_mod_multiples_basic(exponent as int, span as int);
    }
    lemma_pow2_adds(52, (exponent - 1) as nat);
    vstd::arithmetic::power2::lemma2_to64_rest();
}

proof fn lemma_units_increase(a: nat, b: nat)
    requires
        a < b,
    ensures
        units(a) < units(b),
{
    let span = MANTISSA_SPAN as nat;
    let ea = a / span;
    let eb = b / span;
    let ma = a % span;
    let mb = b % span;
    assert(a == span * ea + ma && b == span * eb + mb && ma < span && mb < span && ea <= eb) by (nonlinear_arith)
        requires
            span == 0x10_0000_0000_0000,
            ea == a / span,
            eb == b / span,
            ma == a % span,
            mb == b % span,
            a < b,
    ;
    if ea == eb {
        assert(ma < mb);
        if ea > 0 {
            let p = pow2((ea - 1) as nat);
            lemma_pow2_pos((ea - 1) as nat);
            assert((span + ma) * p < (span + mb) * p) by (nonlinear_arith)
                requires
                    ma < mb,
                    p > 0,
            ;
        }
    } else {
        let p = pow2((eb - 1) as nat);
        lemma_pow2_pos((eb - 1) as nat);
        assert((span + mb) * p >= span * p) by (nonlinear_arith)
            requires
                p > 0,
                mb >= 0,
        ;
        if ea == 0 {
            assert(span * p >= span) by (nonlinear_arith)
                requires
                    p > 0,
            ;
        } else {
            let q = pow2((ea - 1) as nat);
            assert(2 * q <= p) by {
                lemma_pow2_adds(1, (ea - 1) as nat);
                vstd::arithmetic::power2::lemma2_to64();
                if ea < eb - 1 {
                    lemma_pow2_strictly_increases(ea, (eb - 1) as nat);
                }
            }
            lemma_pow2_pos((ea - 1) as nat);
            assert((span + ma) * q < (2 * span) * q) by (nonlinear_arith)
                requires
                    ma < span,
                    q > 0,
            ;
            assert((2 * span) * q <= span * p) by (nonlinear_arith)
                requires
                    2 * q <= p,
            ;
        }
    }
}

/// Two numbers are equal, or one of them is less than the other. What is no
/// number is less than nothing, and nothing is less than it.
pub proof fn numbers_are_ordered(a: Double, b: Double, ab: bool, ba: bool, le: bool, a_nan: bool, b_nan: bool)
    requires
        call_ensures(Double::lt, (a, b), ab),
        call_ensures(Double::lt, (b, a), ba),
        call_ensures(Double::le, (a, b), le),
        call_ensures(Double::is_nan, (a,), a_nan),
        call_ensures(Double::is_nan, (b,), b_nan),
    ensures
        !(ab && ba),
        a_nan || b_nan ==> !ab && !ba && !le,
        !a_nan && !b_nan ==> (le <==> !ba),
        a_nan <==> 0x7ff0_0000_0000_0000 < a.bits < 0x8000_0000_0000_0000 || a.bits > 0xfff0_0000_0000_0000,
        !a_nan && !b_nan && a.bits < 0x8000_0000_0000_0000 && b.bits < 0x8000_0000_0000_0000 ==> (ab <==> a.bits < b.bits),
        !a_nan && !b_nan && a.bits >= 0x8000_0000_0000_0000 && b.bits >= 0x8000_0000_0000_0000 ==> (ab <==> a.bits > b.bits),
        !a_nan && !b_nan && a.bits > 0x8000_0000_0000_0000 && b.bits < 0x8000_0000_0000_0000 ==> ab,
        a.bits == 0x8000_0000_0000_0000 && b.bits == 0 ==> !ab && !ba,
{
    lemma_units_order(a.magnitude_spec(), b.magnitude_spec());
    lemma_units_order(b.magnitude_spec(), a.magnitude_spec());
    lemma_units_order(0, a.magnitude_spec());
    lemma_units_order(0, b.magnitude_spec());
}

/// Clamping leaves what lies within the limits, and gives the limit that was
/// passed otherwise. What is no number stays, but counts as 0 within 0 and 1.
pub proof fn clamping_gives_the_limit_that_was_passed(
    x: Double,
    lo: Double,
    hi: Double,
    inside: bool,
    below: bool,
    above: bool,
    clamped: Double,
    unit: Double,
    unit_inside: bool,
)
    requires
        call_ensures(Double::lt, (lo, hi), true),
        call_ensures(Double::within, (x, lo, hi), inside),
        call_ensures(Double::lt, (x, lo), below),
        call_ensures(Double::lt, (hi, x), above),
        call_ensures(Double::clamp, (x, lo, hi), clamped),
        call_ensures(Double::unit, (x,), unit),
        call_ensures(Double::within, (x, Double { bits: 0 }, Double { bits: 0x3ff0_0000_0000_0000 }), unit_inside),
    ensures
        inside ==> clamped == x && !below && !above,
        below ==> clamped == lo,
        above ==> clamped == hi,
        x.nan() ==> clamped == x && unit == (Double { bits: 0 }),
        !x.nan() ==> inside || below || above,
        unit_inside ==> unit == x,
        x.less(Double { bits: 0 }) ==> unit == (Double { bits: 0 }),
        (Double { bits: 0x3ff0_0000_0000_0000 }).less(x) ==> unit == (Double { bits: 0x3ff0_0000_0000_0000 }),
{
    lemma_units_order(0, 0x3ff0_0000_0000_0000);
}

/// Rounding finds the whole number that is at most a half away, the upper one of
/// two; below 0 it is 0, beyond the largest it is the largest.
pub proof fn rounding_stays_within_a_half(x: Double, max: u8, r: u8, n: u8, exceeded: bool)
    requires
        !x.nan(),
        call_ensures(Double::rounded, (x, max), r),
        call_ensures(Double::exceeded_by, (x, n), exceeded),
    ensures
        r <= max,
        0 < r ==> (2 * r - 1) * pow2(1074) <= 2 * x.rank(),
        r < max ==> 2 * x.rank() < (2 * r + 1) * pow2(1074),
        exceeded <==> x.rank() < n * pow2(1074),
        (Double { bits: 0x3ff0_0000_0000_0000 }).rank() == pow2(1074),
{
    let unit = pow2(1074) as int;
    lemma_pow2_pos(1074);
    lemma_units_of_power(1023);
    assert(1023 * MANTISSA_SPAN as nat == 0x3ff0_0000_0000_0000);
    let twice = 2 * x.rank() + unit;
    if x.rank() >= 0 {
        let nearest = twice / (2 * unit);
        assert(nearest * (2 * unit) <= twice < (nearest + 1) * (2 * unit) && nearest >= 0) by (nonlinear_arith)
            requires
                nearest == twice / (2 * unit),
                unit > 0,
                twice >= 0,
        ;
        if nearest <= max {
            assert((2 * r - 1) * unit == r * (2 * unit) - unit) by (nonlinear_arith);
            assert((2 * r + 1) * unit == (r + 1) * (2 * unit) - unit) by (nonlinear_arith);
        } else {
            assert((2 * r - 1) * unit <= nearest * (2 * unit) - unit) by (nonlinear_arith)
                requires
                    r <= nearest,
                    unit > 0,
            ;
        }
    } else {
        assert((2 * r + 1) * unit == unit) by (nonlinear_arith)
            requires
                r == 0,
        ;
    }
}

/// A number is its encoding; 0 and 1 are encoded as they are in IEEE 754.
pub proof fn numbers_are_their_encoding(bits: u64, r: Double, back: u64, zero: Double, one: Double)
    requires
        call_ensures(Double::from_bits, (bits,), r),
        call_ensures(Double::to_bits, (r,), back),
        call_ensures(Double::zero, (), zero),
        call_ensures(Double::one, (), one),
    ensures
        back == bits,
        r.bits == bits,
        zero.bits == 0,
        one.bits == 0x3ff0_0000_0000_0000,
{
}

} // verus!
