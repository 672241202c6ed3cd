//! Fixed-point numbers, for machines that have no others.

use vstd::prelude::*;

use crate::scalar::{Algebra, Scalar};

verus! {

/// A multiple of `1 / ONE`. Results that are out of range are brought to the
/// nearest number that is not.
#[derive(Clone, Copy, Debug, PartialEq, Eq, Structural)]
pub struct Fixed {
    /// The numerator.
    pub raw: i64,
}

/// The common denominator, which is the numerator of one.
pub const ONE: i128 = 0x1_0000_0000;

/// The representable numerator that is nearest to `v`.
pub open spec fn saturated(v: int) -> i64 {
    if v < i64::MIN {
        i64::MIN
    } else if v > i64::MAX {
        i64::MAX
    } else {
        v as i64
    }
}

/// The magnitude of `n`.
pub open spec fn magnitude(n: int) -> int {
    if n < 0 {
        -n
    } else {
        n
    }
}

/// The quotient of two integers, cut off towards zero.
pub open spec fn cut_off_quotient(n: int, d: int) -> int {
    let q = magnitude(n) / magnitude(d);
    if (n < 0) != (d < 0) {
        -q
    } else {
        q
    }
}

/// Whether `r` is the integer part of the square root of `v`.
pub open spec fn is_integer_root(r: int, v: int) -> bool {
    r >= 0 && r * r <= v < (r + 1) * (r + 1)
}

/// The integer part of the square root of `v`.
pub open spec fn integer_root_of(v: int) -> int {
    choose|r: int| is_integer_root(r, v)
}

/// `x` squared `n` times.
pub open spec fn squared_repeatedly(x: Fixed, n: nat) -> Fixed
    decreases n,
{
    if n == 0 {
        x
    } else {
        let y = squared_repeatedly(x, (n - 1) as nat);
        y.times(y)
    }
}

impl Algebra for Fixed {
    open spec fn of_count(n: usize) -> Fixed {
        Fixed { raw: saturated(n * ONE) }
    }

    open spec fn plus(self, other: Fixed) -> Fixed {
        Fixed { raw: saturated(self.raw + other.raw) }
    }

    open spec fn minus(self, other: Fixed) -> Fixed {
        Fixed { raw: saturated(self.raw - other.raw) }
    }

    open spec fn times(self, other: Fixed) -> Fixed {
        Fixed { raw: saturated(cut_off_quotient(self.raw * other.raw, ONE as int)) }
    }

    /// The quotient, or zero if the divisor is zero.
    open spec fn over(self, other: Fixed) -> Fixed {
        if other.raw == 0 {
            Fixed { raw: 0 }
        } else {
            Fixed { raw: saturated(cut_off_quotient(self.raw * ONE, other.raw as int)) }
        }
    }

    open spec fn negated(self) -> Fixed {
        Fixed { raw: saturated(-self.raw) }
    }

    /// The power `(1 + x / 256)^256`, which is close to the exponential function
    /// near zero.
    open spec fn exponential(self) -> Fixed {
        squared_repeatedly(Self::of_count(1).plus(self.over(Self::of_count(256))), 8)
    }

    /// The square root, or zero if there is none.
    open spec fn root(self) -> Fixed {
        if self.raw <= 0 {
            Fixed { raw: 0 }
        } else {
            Fixed { raw: integer_root_of(self.raw * ONE) as i64 }
        }
    }

    open spec fn larger(self, other: Fixed) -> Fixed {
        if self.raw < other.raw {
            other
        } else {
            self
        }
    }

    open spec fn limited(self, low: Fixed, high: Fixed) -> Fixed {
        if self.raw < low.raw {
            low
        } else if self.raw > high.raw {
            high
        } else {
            self
        }
    }

    open spec fn same(self, other: Fixed) -> bool {
        self.raw == other.raw
    }

    open spec fn less(self, other: Fixed) -> bool {
        self.raw < other.raw
    }

    open spec fn at_most(self, other: Fixed) -> bool {
        self.raw <= other.raw
    }
}

/// Brings a numerator into range.
fn saturate(v: i128) -> (r: i64)
    ensures
        r == saturated(v as int),
{
    if v < i64::MIN as i128 {
        i64::MIN
    } else if v > i64::MAX as i128 {
        i64::MAX
    } else {
        v as i64
    }
}

/// Divides and cuts off towards zero.
fn cut_off_divide(n: i128, d: i128) -> (r: i128)
    requires
        d != 0,
        i128::MIN < n,
        i128::MIN < d,
    ensures
        r == cut_off_quotient(n as int, d as int),
{
    let top: i128 = if n < 0 {
        -n
    } else {
        n
    };
    let bottom: i128 = if d < 0 {
        -d
    } else {
        d
    };
    proof {
        vstd::arithmetic::div_mod::lemma_div_pos_is_pos(top as int, bottom as int);
        vstd::arithmetic::div_mod::lemma_div_is_ordered_by_denominator(
            top as int,
            1,
            bottom as int,
        );
    }
    let q: i128 = top / bottom;
    if (n < 0) != (d < 0) {
        -q
    } else {
        q
    }
}

/// There is one integer part of a square root at most.
proof fn lemma_integer_root_unique(r: int, s: int, v: int)
    requires
        is_integer_root(r, v),
        is_integer_root(s, v),
    ensures
        r == s,
{
    if r < s {
        assert((r + 1) * (r + 1) <= s * s) by (nonlinear_arith)
            requires
                0 <= r < s,
        ;
    } else if s < r {
        assert((s + 1) * (s + 1) <= r * r) by (nonlinear_arith)
            requires
                0 <= s < r,
        ;
    }
}

/// Computes the integer part of a square root.
fn integer_root(v: u128) -> (r: u128)
    requires
        v < 0x1_0000_0000_0000 * 0x1_0000_0000_0000,
    ensures
        is_integer_root(r as int, v as int),
        r < 0x1_0000_0000_0000,
{
    let mut low: u128 = 0;
    let mut high: u128 = 0x1_0000_0000_0000;
    while high - low > 1
        invariant
            low < high <= 0x1_0000_0000_0000,
            low * low <= v < high * high,
        decreases high - low,
    {
        let mid: u128 = (low + high) / 2;
        assert(mid * mid < 0x1_0000_0000_0000 * 0x1_0000_0000_0000) by (nonlinear_arith)
            requires
                mid < 0x1_0000_0000_0000,
        ;
        if mid * mid <= v {
            low = mid;
        } else {
            high = mid;
        }
    }
    low
}

impl Scalar for Fixed {
    fn from_count(n: usize) -> (r: Fixed) {
        Fixed { raw: saturate(n as i128 * ONE) }
    }

    fn add(self, other: Fixed) -> (r: Fixed) {
        Fixed { raw: saturate(self.raw as i128 + other.raw as i128) }
    }

    fn sub(self, other: Fixed) -> (r: Fixed) {
        Fixed { raw: saturate(self.raw as i128 - other.raw as i128) }
    }

    fn mul(self, other: Fixed) -> (r: Fixed) {
        let a: i128 = self.raw as i128;
        let b: i128 = other.raw as i128;
        assert(-0x4000_0000_0000_0000_0000_0000_0000_0000 <= a * b
            <= 0x4000_0000_0000_0000_0000_0000_0000_0000) by (nonlinear_arith)
            requires
                -0x8000_0000_0000_0000 <= a <= 0x8000_0000_0000_0000,
                -0x8000_0000_0000_0000 <= b <= 0x8000_0000_0000_0000,
        ;
        Fixed { raw: saturate(cut_off_divide(a * b, ONE)) }
    }

    fn div(self, other: Fixed) -> (r: Fixed) {
        if other.raw == 0 {
            Fixed { raw: 0 }
        } else {
            Fixed { raw: saturate(cut_off_divide(self.raw as i128 * ONE, other.raw as i128)) }
        }
    }

    fn neg(self) -> (r: Fixed) {
        Fixed { raw: saturate(-(self.raw as i128)) }
    }

    fn exp(self) -> (r: Fixed) {
        let start: Fixed = Fixed::from_count(1).add(self.div(Fixed::from_count(256)));
        let mut y: Fixed = start;
        for n in 0..8
            invariant
                y == squared_repeatedly(start, n as nat),
        {
            y = y.mul(y);
        }
        y
    }

    fn sqrt(self) -> (r: Fixed) {
        if self.raw <= 0 {
            return Fixed { raw: 0 };
        }
        let v: u128 = self.raw as u128 * 0x1_0000_0000;
        let r: u128 = integer_root(v);
        proof {
            lemma_integer_root_unique(r as int, integer_root_of(v as int), v as int);
        }
        Fixed { raw: r as i64 }
    }

    fn max(self, other: Fixed) -> (r: Fixed) {
        if self.raw < other.raw {
            other
        } else {
            self
        }
    }

    fn clamp(self, low: Fixed, high: Fixed) -> (r: Fixed) {
        if self.raw < low.raw {
            low
        } else if self.raw > high.raw {
            high
        } else {
            self
        }
    }

    fn is_same(self, other: Fixed) -> (r: bool) {
        self.raw == other.raw
    }

    fn is_less(self, other: Fixed) -> (r: bool) {
        self.raw < other.raw
    }

    fn is_at_most(self, other: Fixed) -> (r: bool) {
        self.raw <= other.raw
    }
}

} // verus!
