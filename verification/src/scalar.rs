//! Single-precision numbers held as bit patterns.
//!
//! The library compares, clamps and carries these numbers; arithmetic on them
//! happens outside, and its results come back in as patterns.
use vstd::prelude::*;

verus! {

/// The sign bit of a pattern.
pub const SIGN_BIT: u32 = 0x8000_0000;

/// The pattern of positive infinity.
pub const INFINITY_BITS: u32 = 0x7f80_0000;

/// The pattern of one.
pub const ONE_BITS: u32 = 0x3f80_0000;

/// An IEEE-754 single-precision number, held as its bit pattern.
///
/// `==` compares patterns; `same_value` compares numbers.
#[derive(Clone, Copy, Debug, PartialEq, Eq, Structural)]
pub struct Scalar {
    pub bits: u32,
}

impl Scalar {
    pub open spec fn negative(self) -> bool {
        self.bits >= SIGN_BIT
    }

    /// The pattern without its sign bit.
    pub open spec fn magnitude(self) -> int {
        if self.negative() {
            self.bits - SIGN_BIT
        } else {
            self.bits as int
        }
    }

    pub open spec fn nan(self) -> bool {
        self.magnitude() > INFINITY_BITS
    }

    pub open spec fn finite(self) -> bool {
        self.magnitude() < INFINITY_BITS
    }

    /// The place of a number among all numbers: sign and magnitude.
    pub open spec fn rank(self) -> int {
        if self.negative() {
            -self.magnitude()
        } else {
            self.magnitude()
        }
    }

    pub open spec fn lt(self, other: Scalar) -> bool {
        !self.nan() && !other.nan() && self.rank() < other.rank()
    }

    pub open spec fn le(self, other: Scalar) -> bool {
        !self.nan() && !other.nan() && self.rank() <= other.rank()
    }

    pub open spec fn same_value_as(self, other: Scalar) -> bool {
        !self.nan() && !other.nan() && self.rank() == other.rank()
    }

    /// The number times two to the power of 149, for a finite number: the
    /// smallest positive number has the value one.
    pub open spec fn scaled_value(self) -> int {
        let exponent = self.magnitude() / 0x80_0000;
        let fraction = self.magnitude() % 0x80_0000;
        let size = if exponent == 0 {
            fraction
        } else {
            (fraction + 0x80_0000) * vstd::arithmetic::power2::pow2((exponent - 1) as nat)
        };
        if self.negative() {
            -size
        } else {
            size
        }
    }

    /// The number moved into `low..=high`; a number that is not a number stays.
    pub open spec fn clamped(self, low: Scalar, high: Scalar) -> Scalar {
        if self.lt(low) {
            low
        } else if high.lt(self) {
            high
        } else {
            self
        }
    }

    /// The number without its sign.
    pub open spec fn without_sign(self) -> Scalar {
        Scalar { bits: self.magnitude() as u32 }
    }

    /// The number with the other sign.
    pub open spec fn negated(self) -> Scalar {
        if self.negative() {
            Scalar { bits: (self.bits - SIGN_BIT) as u32 }
        } else {
            Scalar { bits: (self.bits + SIGN_BIT) as u32 }
        }
    }

    pub fn from_bits(bits: u32) -> (scalar: Scalar)
        ensures
            scalar.bits == bits,
    {
        Scalar { bits }
    }

    pub fn zero() -> (scalar: Scalar)
        ensures
            scalar.bits == 0,
    {
        Scalar { bits: 0 }
    }

    pub fn one() -> (scalar: Scalar)
        ensures
            scalar.bits == ONE_BITS,
    {
        Scalar { bits: ONE_BITS }
    }

    fn magnitude_bits(self) -> (bits: u32)
        ensures
            bits == self.magnitude(),
    {
        if self.bits >= SIGN_BIT {
            self.bits - SIGN_BIT
        } else {
            self.bits
        }
    }

    fn place(self) -> (place: i64)
        ensures
            place == self.rank(),
    {
        let magnitude: i64 = self.magnitude_bits() as i64;
        if self.bits >= SIGN_BIT {
            -magnitude
        } else {
            magnitude
        }
    }

    pub fn is_nan(self) -> (result: bool)
        ensures
            result == self.nan(),
    {
        self.magnitude_bits() > INFINITY_BITS
    }

    pub fn is_finite(self) -> (result: bool)
        ensures
            result == self.finite(),
    {
        self.magnitude_bits() < INFINITY_BITS
    }

    pub fn less(self, other: Scalar) -> (result: bool)
        ensures
            result == self.lt(other),
    {
        !self.is_nan() && !other.is_nan() && self.place() < other.place()
    }

    pub fn at_most(self, other: Scalar) -> (result: bool)
        ensures
            result == self.le(other),
    {
        !self.is_nan() && !other.is_nan() && self.place() <= other.place()
    }

    pub fn same_value(self, other: Scalar) -> (result: bool)
        ensures
            result == self.same_value_as(other),
    {
        !self.is_nan() && !other.is_nan() && self.place() == other.place()
    }

    pub fn clamp(self, low: Scalar, high: Scalar) -> (result: Scalar)
        requires
            low.le(high),
        ensures
            result == self.clamped(low, high),
            !self.nan() ==> low.le(result) && result.le(high),
    {
        if self.less(low) {
            low
        } else if high.less(self) {
            high
        } else {
            self
        }
    }

    pub fn abs(self) -> (result: Scalar)
        ensures
            result == self.without_sign(),
    {
        Scalar { bits: self.magnitude_bits() }
    }
}

proof fn lemma_pow2_steps(low: nat, high: nat)
    requires
        low <= high,
    ensures
        0 < vstd::arithmetic::power2::pow2(low) <= vstd::arithmetic::power2::pow2(high),
        low < high ==> 2 * vstd::arithmetic::power2::pow2(low)
            <= vstd::arithmetic::power2::pow2(high),
{
    vstd::arithmetic::power2::lemma_pow2_pos(low);
    if low < high {
        vstd::arithmetic::power2::lemma_pow2_unfold((low + 1) as nat);
        if low + 1 < high {
            vstd::arithmetic::power2::lemma_pow2_strictly_increases((low + 1) as nat, high);
        }
    }
}

proof fn lemma_magnitude_orders_size(low: Scalar, high: Scalar)
    requires
        low.magnitude() < high.magnitude(),
        !low.negative(),
        !high.negative(),
    ensures
        low.scaled_value() < high.scaled_value(),
        0 <= low.scaled_value(),
{
    let p = low.magnitude();
    let q = high.magnitude();
    let pe = p / 0x80_0000;
    let qe = q / 0x80_0000;
    let pf = p % 0x80_0000;
    let qf = q % 0x80_0000;
    assert(pe <= qe);
    assert(p == pe * 0x80_0000 + pf);
    assert(q == qe * 0x80_0000 + qf);
    if pe == 0 && qe == 0 {
    } else if pe == 0 {
        let step = vstd::arithmetic::power2::pow2((qe - 1) as nat);
        lemma_pow2_steps(0, (qe - 1) as nat);
        vstd::arithmetic::power2::lemma2_to64();
        assert((qf + 0x80_0000) * step >= (qf + 0x80_0000) * 1) by (nonlinear_arith)
            requires
                step >= 1,
                qf >= 0,
        ;
    } else if pe == qe {
        let step = vstd::arithmetic::power2::pow2((qe - 1) as nat);
        lemma_pow2_steps((qe - 1) as nat, (qe - 1) as nat);
        assert((pf + 0x80_0000) * step < (qf + 0x80_0000) * step) by (nonlinear_arith)
            requires
                step >= 1,
                0 <= pf < qf,
        ;
        assert(0 <= (pf + 0x80_0000) * step) by (nonlinear_arith)
            requires
                step >= 1,
                0 <= pf,
        ;
    } else {
        let small = vstd::arithmetic::power2::pow2((pe - 1) as nat);
        let large = vstd::arithmetic::power2::pow2((qe - 1) as nat);
        lemma_pow2_steps((pe - 1) as nat, (qe - 1) as nat);
        assert((pf + 0x80_0000) * small < (qf + 0x80_0000) * large) by (nonlinear_arith)
            requires
                0 <= pf < 0x80_0000,
                0 <= qf,
                0 < small,
                2 * small <= large,
        ;
        assert(0 <= (pf + 0x80_0000) * small) by (nonlinear_arith)
            requires
                0 < small,
                0 <= pf,
        ;
    }
}

/// Comparing patterns by sign and magnitude compares the numbers that they
/// stand for.
pub proof fn law_rank_orders_numbers(left: Scalar, right: Scalar)
    requires
        left.finite(),
        right.finite(),
    ensures
        left.lt(right) <==> left.scaled_value() < right.scaled_value(),
        left.same_value_as(right) <==> left.scaled_value() == right.scaled_value(),
{
    let zero = Scalar { bits: 0 };
    let p = left.without_sign();
    let q = right.without_sign();
    assert(zero.scaled_value() == 0);
    if 0 < p.magnitude() {
        lemma_magnitude_orders_size(zero, p);
    }
    if 0 < q.magnitude() {
        lemma_magnitude_orders_size(zero, q);
    }
    if p.magnitude() < q.magnitude() {
        lemma_magnitude_orders_size(p, q);
    }
    if q.magnitude() < p.magnitude() {
        lemma_magnitude_orders_size(q, p);
    }
}

/// A number in the range stays, one below or above it becomes the nearer end,
/// and what is not a number stays what it is. No result of a number is outside.
pub proof fn law_clamping_moves_to_the_nearer_end(value: Scalar, low: Scalar, high: Scalar)
    requires
        low.le(high),
    ensures
        low.le(value) && value.le(high) ==> value.clamped(low, high) == value,
        !value.nan() && value.rank() < low.rank() ==> value.clamped(low, high) == low,
        !value.nan() && value.rank() > high.rank() ==> value.clamped(low, high) == high,
        value.nan() ==> value.clamped(low, high) == value,
        !value.nan() ==> low.rank() <= value.clamped(low, high).rank() <= high.rank(),
        value.clamped(low, high).clamped(low, high) == value.clamped(low, high),
{
}

/// Patterns from infinity up are no numbers, with either sign; zero has one
/// value whatever its sign, and a sign changes the place of a number alone.
pub proof fn law_signs_and_magnitudes(value: Scalar)
    ensures
        value.finite() <==> value.bits < 0x7f80_0000 || 0x8000_0000 <= value.bits < 0xff80_0000,
        value.nan() <==> 0x7f80_0000 < value.bits < 0x8000_0000 || value.bits > 0xff80_0000,
        (Scalar { bits: 0 }).same_value_as((Scalar { bits: 0x8000_0000 })),
        value.negated().negated() == value,
        value.negated().rank() == -value.rank(),
        value.without_sign().rank() == (if value.bits >= 0x8000_0000 {
            -value.rank()
        } else {
            value.rank()
        }),
        value.without_sign().rank() >= 0,
{
}

} // verus!
