//! IEEE 754 numbers carried by their bit patterns.
//!
//! The estimator's geometry is computed in floating point outside this library. What reaches the
//! library is the bit pattern of a result, and the questions asked of it here (is it finite, is it
//! positive, does it exceed a limit, which of two is larger) are questions about those bits. Every
//! one is answered exactly, and [`Double::exact`] and [`Single::exact`] say which number a pattern
//! stands for, so the answers can be read as statements about numbers.
use vstd::arithmetic::power2::{
    lemma_pow2_adds, lemma_pow2_pos, lemma_pow2_strictly_increases, lemma_pow2_unfold, pow2,
};
use vstd::prelude::*;

verus! {

/// A binary64 value, by its bit pattern.
#[derive(Clone, Copy, Debug, PartialEq, Eq, Structural)]
pub struct Double {
    /// The pattern, as `to_bits` gives it.
    pub bits: u64,
}

/// A binary32 value, by its bit pattern.
#[derive(Clone, Copy, Debug, PartialEq, Eq, Structural)]
pub struct Single {
    /// The pattern, as `to_bits` gives it.
    pub bits: u32,
}

/// The sign bit of a binary64 pattern.
pub const SIGN64: u64 = 0x8000_0000_0000_0000;

/// The pattern of binary64 positive infinity; anything above it, the sign aside, is a NaN.
pub const INF64: u64 = 0x7ff0_0000_0000_0000;

/// The number of binary64 fraction patterns, `2^52`.
pub const FRACTIONS64: u64 = 0x10_0000_0000_0000;

/// The sign bit of a binary32 pattern.
pub const SIGN32: u32 = 0x8000_0000;

/// The pattern of binary32 positive infinity.
pub const INF32: u32 = 0x7f80_0000;

/// The number of binary32 fraction patterns, `2^23`.
pub const FRACTIONS32: u32 = 0x80_0000;

/// The magnitude that an exponent field and a fraction field stand for, in units of the smallest
/// positive subnormal, where `fractions` is the number of fraction patterns.
pub open spec fn field_magnitude(exponent: nat, fraction: nat, fractions: nat) -> nat {
    if exponent == 0 {
        fraction
    } else {
        (fractions + fraction) * pow2((exponent - 1) as nat)
    }
}

/// A fraction doubled until its leading bit is the implicit one, and the exponent field lowered as
/// often.
pub open spec fn normalized(m: nat, field: int) -> (nat, int)
    decreases 2 * FRACTIONS32 - m,
{
    if m == 0 || m >= FRACTIONS32 {
        (m, field)
    } else {
        normalized(2 * m, field - 1)
    }
}

/// How many binary64 fraction patterns fall on one binary32 fraction pattern, `2^29`.
pub const WIDENING: u64 = 0x2000_0000;

/// The leading fraction bit of binary64, which a quiet NaN has set.
pub const QUIET64: u64 = 0x8_0000_0000_0000;

impl Double {
    /// The pattern of `0.0`.
    pub open spec fn zero_spec() -> Double {
        Double { bits: 0 }
    }

    /// The pattern without its sign bit.
    pub open spec fn magnitude(self) -> int {
        if self.bits >= SIGN64 {
            self.bits - SIGN64
        } else {
            self.bits as int
        }
    }

    /// Whether the sign bit is set.
    pub open spec fn negative(self) -> bool {
        self.bits >= SIGN64
    }

    /// Whether this is a NaN.
    pub open spec fn nan(self) -> bool {
        self.magnitude() > INF64
    }

    /// Whether this is a number: neither infinite nor a NaN.
    pub open spec fn finite(self) -> bool {
        self.magnitude() < INF64
    }

    /// The pattern as a signed position on the number line: numbers that are not NaN compare as
    /// their ranks do, and both zeros have rank 0.
    pub open spec fn rank(self) -> int {
        if self.negative() {
            -self.magnitude()
        } else {
            self.magnitude()
        }
    }

    /// The position in the order that also places negative zero before zero and every NaN.
    pub open spec fn total_rank(self) -> int {
        if self.negative() {
            -1 - self.magnitude()
        } else {
            self.magnitude()
        }
    }

    /// The number this pattern stands for, in units of `2^-1074`; meaningful if finite.
    pub open spec fn exact(self) -> int {
        let m = field_magnitude(
            (self.magnitude() / FRACTIONS64 as int) as nat,
            (self.magnitude() % FRACTIONS64 as int) as nat,
            FRACTIONS64 as nat,
        );
        if self.negative() {
            -m
        } else {
            m as int
        }
    }

    /// `self < other` on numbers; false if either is a NaN.
    pub open spec fn lt_spec(self, other: Double) -> bool {
        !self.nan() && !other.nan() && self.rank() < other.rank()
    }

    /// `self <= other` on numbers; false if either is a NaN.
    pub open spec fn le_spec(self, other: Double) -> bool {
        !self.nan() && !other.nan() && self.rank() <= other.rank()
    }

    /// `self == other` on numbers: false if either is a NaN, true of the two zeros.
    pub open spec fn same_spec(self, other: Double) -> bool {
        !self.nan() && !other.nan() && self.rank() == other.rank()
    }

    /// The larger of two numbers; the other one where one is a NaN.
    pub open spec fn max_spec(self, other: Double) -> Double {
        if self.nan() {
            other
        } else if other.nan() || other.rank() <= self.rank() {
            self
        } else {
            other
        }
    }

    /// The absolute value.
    pub open spec fn abs_spec(self) -> Double {
        Double { bits: self.magnitude() as u64 }
    }

    /// Whether this is a number greater than zero and not infinite.
    pub open spec fn positive_finite(self) -> bool {
        self.finite() && 0 < self.rank()
    }

    /// The value with the given pattern.
    pub fn from_bits(bits: u64) -> (r: Double)
        ensures
            r.bits == bits,
    {
        Double { bits }
    }

    fn magnitude_bits(self) -> (r: u64)
        ensures
            r == self.magnitude(),
    {
        if self.bits >= SIGN64 {
            self.bits - SIGN64
        } else {
            self.bits
        }
    }

    /// Whether this is a NaN.
    pub fn is_nan(self) -> (r: bool)
        ensures
            r == self.nan(),
    {
        self.magnitude_bits() > INF64
    }

    /// Whether this is neither infinite nor a NaN.
    pub fn is_finite(self) -> (r: bool)
        ensures
            r == self.finite(),
    {
        self.magnitude_bits() < INF64
    }

    /// `self < other` on numbers.
    pub fn lt(self, other: Double) -> (r: bool)
        ensures
            r == self.lt_spec(other),
    {
        if self.is_nan() || other.is_nan() {
            return false;
        }
        let a: u64 = self.magnitude_bits();
        let b: u64 = other.magnitude_bits();
        if self.bits >= SIGN64 {
            if other.bits >= SIGN64 {
                b < a
            } else {
                a != 0 || b != 0
            }
        } else if other.bits >= SIGN64 {
            false
        } else {
            a < b
        }
    }

    /// `self <= other` on numbers.
    pub fn le(self, other: Double) -> (r: bool)
        ensures
            r == self.le_spec(other),
    {
        !self.is_nan() && !other.is_nan() && !other.lt(self)
    }

    /// `self == other` on numbers.
    pub fn same(self, other: Double) -> (r: bool)
        ensures
            r == self.same_spec(other),
    {
        self.le(other) && other.le(self)
    }

    /// The larger of two numbers, passing over a NaN.
    pub fn max(self, other: Double) -> (r: Double)
        ensures
            r == self.max_spec(other),
    {
        if self.is_nan() {
            other
        } else if other.is_nan() || other.le(self) {
            self
        } else {
            other
        }
    }

    /// The absolute value.
    pub fn abs(self) -> (r: Double)
        ensures
            r == self.abs_spec(),
    {
        Double { bits: self.magnitude_bits() }
    }

    /// Whether this is a number greater than zero and not infinite.
    pub fn is_positive_finite(self) -> (r: bool)
        ensures
            r == self.positive_finite(),
    {
        self.is_finite() && Double { bits: 0 }.lt(self)
    }

    /// Whether this is a zero of either sign.
    pub fn is_zero(self) -> (r: bool)
        ensures
            r == self.same_spec(Double::zero_spec()),
    {
        self.magnitude_bits() == 0
    }
}

impl Single {
    /// The pattern without its sign bit.
    pub open spec fn magnitude(self) -> int {
        if self.bits >= SIGN32 {
            self.bits - SIGN32
        } else {
            self.bits as int
        }
    }

    /// Whether the sign bit is set.
    pub open spec fn negative(self) -> bool {
        self.bits >= SIGN32
    }

    /// Whether this is a NaN.
    pub open spec fn nan(self) -> bool {
        self.magnitude() > INF32
    }

    /// Whether this is a number: neither infinite nor a NaN.
    pub open spec fn finite(self) -> bool {
        self.magnitude() < INF32
    }

    /// The pattern as a signed position on the number line, as [`Double::rank`].
    pub open spec fn rank(self) -> int {
        if self.negative() {
            -self.magnitude()
        } else {
            self.magnitude()
        }
    }

    /// `self < other` on numbers; false if either is a NaN.
    pub open spec fn lt_spec(self, other: Single) -> bool {
        !self.nan() && !other.nan() && self.rank() < other.rank()
    }

    /// Whether this is a number, or positive infinity, above zero.
    pub open spec fn positive(self) -> bool {
        !self.negative() && 0 < self.magnitude() <= INF32
    }

    /// The number this pattern stands for, in units of `2^-149`; meaningful if finite.
    pub open spec fn exact(self) -> int {
        let m = field_magnitude(
            (self.magnitude() / FRACTIONS32 as int) as nat,
            (self.magnitude() % FRACTIONS32 as int) as nat,
            FRACTIONS32 as nat,
        );
        if self.negative() {
            -m
        } else {
            m as int
        }
    }

    /// The value with the given pattern.
    pub fn from_bits(bits: u32) -> (r: Single)
        ensures
            r.bits == bits,
    {
        Single { bits }
    }

    fn magnitude_bits(self) -> (r: u32)
        ensures
            r == self.magnitude(),
    {
        if self.bits >= SIGN32 {
            self.bits - SIGN32
        } else {
            self.bits
        }
    }

    /// Whether this is neither infinite nor a NaN.
    pub fn is_finite(self) -> (r: bool)
        ensures
            r == self.finite(),
    {
        self.magnitude_bits() < INF32
    }

    /// Whether this is a NaN.
    pub fn is_nan(self) -> (r: bool)
        ensures
            r == self.nan(),
    {
        self.magnitude_bits() > INF32
    }

    /// `self < other` on numbers.
    pub fn lt(self, other: Single) -> (r: bool)
        ensures
            r == self.lt_spec(other),
    {
        if self.is_nan() || other.is_nan() {
            return false;
        }
        let a: u32 = self.magnitude_bits();
        let b: u32 = other.magnitude_bits();
        if self.bits >= SIGN32 {
            if other.bits >= SIGN32 {
                b < a
            } else {
                a != 0 || b != 0
            }
        } else if other.bits >= SIGN32 {
            false
        } else {
            a < b
        }
    }

    /// The whole part of a number that is not negative; zero for the rest.
    pub open spec fn whole(self) -> nat {
        if self.negative() || self.nan() {
            0
        } else {
            (self.exact() / pow2(149) as int) as nat
        }
    }

    /// The number truncated towards zero, saturating: what is negative or a NaN gives 0, what is
    /// too large gives the maximum.
    pub fn to_usize(self) -> (r: usize)
        ensures
            !self.negative() && self.magnitude() == INF32 ==> r == usize::MAX,
            self.finite() || self.nan() || self.negative() ==> r == if self.whole() <= usize::MAX {
                self.whole() as int
            } else {
                usize::MAX as int
            },
    {
        if self.bits >= SIGN32 || self.bits > INF32 {
            return 0;
        }
        if self.bits == INF32 {
            return usize::MAX;
        }
        let e: u32 = self.bits / FRACTIONS32;
        let f: u32 = self.bits % FRACTIONS32;
        proof {
            assert(e < 255) by (nonlinear_arith)
                requires
                    self.bits < INF32,
                    e == self.bits / FRACTIONS32,
            ;
        }
        if e < 127 {
            proof {
                lemma_whole_below_one(e as nat, f as nat);
            }
            return 0;
        }
        let m: u64 = FRACTIONS32 as u64 + f as u64;
        if e > 190 {
            proof {
                lemma_whole_of_large(e as nat, f as nat);
                lemma_large_exceeds(m as nat, (e - 150) as nat);
            }
            return usize::MAX;
        }
        let v: u64 = if e <= 150 {
            let shift: u64 = 150 - e as u64;
            proof {
                vstd::bits::lemma_u64_shr_is_div(m, shift);
                lemma_whole_of_small(e as nat, f as nat);
            }
            m >> shift
        } else {
            let shift: u64 = e as u64 - 150;
            proof {
                lemma_whole_of_large(e as nat, f as nat);
                lemma_small_fits(m as nat, shift as nat);
                vstd::bits::lemma_u64_shl_is_mul(m, shift);
            }
            m << shift
        };
        if v > usize::MAX as u64 {
            usize::MAX
        } else {
            v as usize
        }
    }

    /// The same number in binary64: the fields moved over, a subnormal made normal, and a NaN made
    /// quiet.
    pub open spec fn widen_spec(self) -> Double {
        let sign = if self.negative() {
            SIGN64 as int
        } else {
            0
        };
        let e = self.magnitude() / FRACTIONS32 as int;
        let f = self.magnitude() % FRACTIONS32 as int;
        let magnitude = if e == 255 {
            INF64 + if f != 0 && f * WIDENING < QUIET64 {
                f * WIDENING + QUIET64
            } else {
                f * WIDENING
            }
        } else if e > 0 {
            (e + 896) * FRACTIONS64 + f * WIDENING
        } else if f == 0 {
            0
        } else {
            let (m, field) = normalized(f as nat, 897);
            field * FRACTIONS64 + (m - FRACTIONS32) * WIDENING
        };
        Double { bits: (sign + magnitude) as u64 }
    }

    /// The same number in binary64. A NaN stays a NaN.
    pub fn widen(self) -> (r: Double)
        ensures
            r == self.widen_spec(),
            r.negative() == self.negative(),
            r.finite() == self.finite(),
            r.nan() == self.nan(),
            self.finite() ==> r.exact() == self.exact() * pow2(925),
    {
        let mag: u32 = self.magnitude_bits();
        let sign: u64 = if self.bits >= SIGN32 {
            SIGN64
        } else {
            0
        };
        let e: u32 = mag / FRACTIONS32;
        let f: u32 = mag % FRACTIONS32;
        proof {
            assert(mag == e * FRACTIONS32 + f && f < FRACTIONS32 && e <= 255) by (nonlinear_arith)
                requires
                    mag < SIGN32,
                    e == mag / FRACTIONS32,
                    f == mag % FRACTIONS32,
            ;
        }
        if e == 255 {
            let payload: u64 = f as u64 * WIDENING;
            let quiet: u64 = if f != 0 && payload < QUIET64 {
                payload + QUIET64
            } else {
                payload
            };
            return Double { bits: sign + INF64 + quiet };
        }
        if e > 0 {
            let r = Double {
                bits: sign + (e as u64 + 896) * FRACTIONS64 + f as u64 * WIDENING,
            };
            proof {
                lemma_fields(r, e as nat + 896, f as nat * WIDENING as nat);
                lemma_widen_normal(e as nat, f as nat);
                lemma_negated_product(field_magnitude(e as nat, f as nat, FRACTIONS32 as nat));
            }
            return r;
        }
        if f == 0 {
            proof {
                lemma_fields(Double { bits: sign }, 0, 0);
                assert(0 * pow2(925) == 0);
            }
            return Double { bits: sign };
        }
        let mut m: u32 = f;
        let mut field: u64 = 897;
        let ghost mut k: nat = 0;
        proof {
            vstd::arithmetic::power2::lemma2_to64();
        }
        while m < FRACTIONS32
            invariant
                0 < f < FRACTIONS32,
                k <= 23,
                field == 897 - k,
                m == f * pow2(k),
                0 < m < 2 * FRACTIONS32,
                normalized(m as nat, field as int) == normalized(f as nat, 897),
                pow2(23) == FRACTIONS32,
            decreases 23 - k,
        {
            proof {
                lemma_pow2_unfold(k + 1);
                assert(f * pow2(k + 1) == 2 * (f * pow2(k))) by (nonlinear_arith)
                    requires
                        pow2(k + 1) == 2 * pow2(k),
                ;
                if k == 23 {
                    assert(f * pow2(k) >= pow2(k)) by (nonlinear_arith)
                        requires
                            f >= 1,
                    ;
                }
                k = k + 1;
            }
            m = m * 2;
            field = field - 1;
        }
        let r = Double {
            bits: sign + field * FRACTIONS64 + (m - FRACTIONS32) as u64 * WIDENING,
        };
        proof {
            lemma_fields(r, field as nat, (m - FRACTIONS32) as nat * WIDENING as nat);
            lemma_widen_subnormal(f as nat, k, m as nat);
            lemma_negated_product(f as nat);
        }
        r
    }

    /// Whether this is above zero; a NaN is not.
    pub fn is_positive(self) -> (r: bool)
        ensures
            r == self.positive(),
    {
        0 < self.bits && self.bits <= INF32
    }
}

proof fn lemma_fields(x: Double, exponent: nat, fraction: nat)
    requires
        exponent < 2047,
        fraction < FRACTIONS64,
        x.magnitude() == exponent * FRACTIONS64 + fraction,
    ensures
        x.finite(),
        x.exact() == if x.negative() {
            -field_magnitude(exponent, fraction, FRACTIONS64 as nat)
        } else {
            field_magnitude(exponent, fraction, FRACTIONS64 as nat) as int
        },
{
    let n = FRACTIONS64 as int;
    let m = x.magnitude();
    vstd::arithmetic::div_mod::lemma_fundamental_div_mod_converse(
        m,
        n,
        exponent as int,
        fraction as int,
    );
}

proof fn lemma_negated_product(x: nat)
    ensures
        (-x) * pow2(925) == -(x * pow2(925)),
{
    let p = pow2(925);
    assert((-x) * p == -(x * p)) by (nonlinear_arith);
}

proof fn lemma_widen_normal(e: nat, f: nat)
    requires
        0 < e < 255,
        f < FRACTIONS32,
    ensures
        field_magnitude(e + 896, f * WIDENING as nat, FRACTIONS64 as nat) == field_magnitude(
            e,
            f,
            FRACTIONS32 as nat,
        ) * pow2(925),
{
    lemma_pow2_adds((e - 1) as nat, 896);
    lemma_pow2_adds(29, 896);
    vstd::arithmetic::power2::lemma2_to64();
    let a = pow2((e - 1) as nat);
    let b = pow2(896);
    let w = WIDENING as nat;
    assert((FRACTIONS64 + f * w) * (a * b) == ((FRACTIONS32 + f) * a) * (w * b)) by (
    nonlinear_arith)
        requires
            FRACTIONS64 == FRACTIONS32 * w,
    ;
}

proof fn lemma_widen_subnormal(f: nat, k: nat, m: nat)
    requires
        0 < f < FRACTIONS32,
        k <= 23,
        m == f * pow2(k),
        FRACTIONS32 <= m < 2 * FRACTIONS32,
    ensures
        field_magnitude(
            (897 - k) as nat,
            (m - FRACTIONS32) as nat * WIDENING as nat,
            FRACTIONS64 as nat,
        ) == f * pow2(925),
{
    let w = WIDENING as nat;
    lemma_pow2_adds(k, (896 - k) as nat);
    lemma_pow2_adds(29, 896);
    vstd::arithmetic::power2::lemma2_to64();
    let a = pow2(k);
    let b = pow2((896 - k) as nat);
    assert(FRACTIONS64 + (m - FRACTIONS32) * w == m * w) by (nonlinear_arith)
        requires
            FRACTIONS64 == FRACTIONS32 * w,
    ;
    assert((m * w) * b == f * (w * (a * b))) by (nonlinear_arith)
        requires
            m == f * a,
    ;
}

proof fn lemma_whole_below_one(e: nat, f: nat)
    requires
        e < 127,
        f < FRACTIONS32,
    ensures
        field_magnitude(e, f, FRACTIONS32 as nat) / pow2(149) == 0,
{
    lemma_pow2_pos(149);
    vstd::arithmetic::power2::lemma2_to64();
    if e > 0 {
        if e < 126 {
            lemma_pow2_strictly_increases((e - 1) as nat, 125);
        }
        lemma_pow2_adds(24, 125);
        let a = pow2((e - 1) as nat);
        let b = pow2(125);
        assert((FRACTIONS32 + f) * a < 0x100_0000 * b) by (nonlinear_arith)
            requires
                FRACTIONS32 + f < 0x100_0000,
                a <= b,
                0 < b,
        ;
        assert(pow2(24) == 0x100_0000);
    } else {
        lemma_pow2_strictly_increases(23, 149);
    }
    vstd::arithmetic::div_mod::lemma_basic_div(
        field_magnitude(e, f, FRACTIONS32 as nat) as int,
        pow2(149) as int,
    );
}

proof fn lemma_whole_of_small(e: nat, f: nat)
    requires
        127 <= e <= 150,
        f < FRACTIONS32,
    ensures
        field_magnitude(e, f, FRACTIONS32 as nat) / pow2(149) == (FRACTIONS32 + f) as nat / pow2(
            (150 - e) as nat,
        ),
{
    let a = pow2((e - 1) as nat) as int;
    let b = pow2((150 - e) as nat) as int;
    lemma_pow2_pos((e - 1) as nat);
    lemma_pow2_pos((150 - e) as nat);
    lemma_pow2_adds((e - 1) as nat, (150 - e) as nat);
    let m = FRACTIONS32 + f;
    assert(a * b == b * a) by (nonlinear_arith);
    assert(m * a == a * m) by (nonlinear_arith);
    vstd::arithmetic::div_mod::lemma_truncate_middle(m, a, b);
    vstd::arithmetic::div_mod::lemma_div_denominator(m * a, a, b);
    vstd::arithmetic::div_mod::lemma_div_by_multiple(m, a);
}

proof fn lemma_whole_of_large(e: nat, f: nat)
    requires
        150 <= e,
        f < FRACTIONS32,
    ensures
        field_magnitude(e, f, FRACTIONS32 as nat) / pow2(149) == (FRACTIONS32 + f) * pow2(
            (e - 150) as nat,
        ),
{
    let a = pow2((e - 150) as nat) as int;
    let b = pow2(149) as int;
    lemma_pow2_pos(149);
    lemma_pow2_adds((e - 150) as nat, 149);
    let m = FRACTIONS32 + f;
    assert(m * (a * b) == (m * a) * b) by (nonlinear_arith);
    vstd::arithmetic::div_mod::lemma_div_by_multiple(m * a, b);
}

proof fn lemma_large_exceeds(m: nat, shift: nat)
    requires
        m >= FRACTIONS32,
        shift >= 41,
    ensures
        m * pow2(shift) > u64::MAX,
{
    vstd::arithmetic::power2::lemma2_to64_rest();
    vstd::arithmetic::power2::lemma2_to64();
    lemma_pow2_adds(23, 41);
    if shift > 41 {
        lemma_pow2_strictly_increases(41, shift);
    }
    let a = pow2(41);
    let b = pow2(shift);
    assert(m * b >= 0x80_0000 * a) by (nonlinear_arith)
        requires
            m >= 0x80_0000,
            b >= a,
    ;
}

proof fn lemma_small_fits(m: nat, shift: nat)
    requires
        m < 0x100_0000,
        shift <= 40,
    ensures
        m * pow2(shift) <= u64::MAX,
{
    vstd::arithmetic::power2::lemma2_to64_rest();
    vstd::arithmetic::power2::lemma2_to64();
    lemma_pow2_adds(24, 40);
    if shift < 40 {
        lemma_pow2_strictly_increases(shift, 40);
    }
    lemma_pow2_pos(shift);
    let a = pow2(40);
    let b = pow2(shift);
    assert(m * b <= (0x100_0000 - 1) * a) by (nonlinear_arith)
        requires
            m <= 0x100_0000 - 1,
            0 < b <= a,
    ;
    assert((0x100_0000 - 1) * a <= 0x100_0000 * a);
}

proof fn lemma_field_magnitude_increases(e1: nat, f1: nat, e2: nat, f2: nat, fractions: nat)
    requires
        f1 < fractions,
        f2 < fractions,
        e1 < e2 || (e1 == e2 && f1 < f2),
    ensures
        field_magnitude(e1, f1, fractions) < field_magnitude(e2, f2, fractions),
{
    if e1 == e2 {
        if e1 > 0 {
            lemma_pow2_pos((e1 - 1) as nat);
            let p = pow2((e1 - 1) as nat);
            assert((fractions + f1) * p < (fractions + f2) * p) by (nonlinear_arith)
                requires
                    f1 < f2,
                    p > 0,
            ;
        }
    } else {
        let q = pow2((e2 - 1) as nat);
        lemma_pow2_pos((e2 - 1) as nat);
        assert(fractions * q <= (fractions + f2) * q) by (nonlinear_arith)
            requires
                q > 0,
        ;
        if e1 == 0 {
            assert(fractions <= fractions * q) by (nonlinear_arith)
                requires
                    q > 0,
            ;
        } else {
            let p = pow2((e1 - 1) as nat);
            lemma_pow2_pos((e1 - 1) as nat);
            lemma_pow2_adds((e1 - 1) as nat, 1);
            assert(pow2(1) == 2) by {
                vstd::arithmetic::power2::lemma2_to64();
            }
            if e1 < e2 - 1 {
                lemma_pow2_strictly_increases(e1, (e2 - 1) as nat);
            }
            assert(2 * p <= q);
            assert((fractions + f1) * p < fractions * (2 * p)) by (nonlinear_arith)
                requires
                    f1 < fractions,
                    p > 0,
            ;
            assert(fractions * (2 * p) <= fractions * q) by (nonlinear_arith)
                requires
                    2 * p <= q,
            ;
        }
    }
}

proof fn lemma_magnitude_order(m1: int, m2: int, fractions: int)
    requires
        0 <= m1 < m2,
        0 < fractions,
    ensures
        0 <= m1 / fractions,
        0 <= m1 % fractions < fractions,
        0 <= m2 / fractions,
        0 <= m2 % fractions < fractions,
        m1 / fractions < m2 / fractions || (m1 / fractions == m2 / fractions && m1 % fractions < m2
            % fractions),
{
    vstd::arithmetic::div_mod::lemma_fundamental_div_mod(m1, fractions);
    vstd::arithmetic::div_mod::lemma_fundamental_div_mod(m2, fractions);
    vstd::arithmetic::div_mod::lemma_div_is_ordered(m1, m2, fractions);
    vstd::arithmetic::div_mod::lemma_div_pos_is_pos(m1, fractions);
    vstd::arithmetic::div_mod::lemma_mod_bound(m1, fractions);
    vstd::arithmetic::div_mod::lemma_mod_bound(m2, fractions);
}

/// Comparing finite binary64 patterns by rank compares the numbers they stand for.
pub proof fn double_order_is_numeric(a: Double, b: Double)
    requires
        a.finite(),
        b.finite(),
    ensures
        a.rank() < b.rank() <==> a.exact() < b.exact(),
        a.rank() == b.rank() <==> a.exact() == b.exact(),
{
    let n = FRACTIONS64 as int;
    let ma = a.magnitude();
    let mb = b.magnitude();
    if ma != mb {
        let lo = if ma < mb { ma } else { mb };
        let hi = if ma < mb { mb } else { ma };
        lemma_magnitude_order(lo, hi, n);
        lemma_field_magnitude_increases(
            (lo / n) as nat,
            (lo % n) as nat,
            (hi / n) as nat,
            (hi % n) as nat,
            n as nat,
        );
    }
    if ma > 0 {
        lemma_magnitude_order(0, ma, n);
        lemma_field_magnitude_increases(0, 0, (ma / n) as nat, (ma % n) as nat, n as nat);
    }
    if mb > 0 {
        lemma_magnitude_order(0, mb, n);
        lemma_field_magnitude_increases(0, 0, (mb / n) as nat, (mb % n) as nat, n as nat);
    }
}

/// A binary64 pattern is a positive finite number exactly where the number it stands for is.
pub proof fn positive_finite_is_numeric(a: Double)
    requires
        a.finite(),
    ensures
        a.positive_finite() <==> 0 < a.exact(),
{
    double_order_is_numeric(Double::zero_spec(), a);
}

} // verus!
