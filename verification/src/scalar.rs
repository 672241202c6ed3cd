//! The arithmetic that the library is written against.
//!
//! [`Algebra`] names the operations in specifications, [`Scalar`] carries them
//! out. Everything that computes on numbers is generic over [`Scalar`] and its
//! contract says, operation by operation, which expression of [`Algebra`] it
//! returns, so that the contract does not presuppose exact arithmetic. The
//! mathematical reals are an [`Algebra`] as well, and the theorems about the
//! basis functions are stated there.

use vstd::prelude::*;

verus! {

/// The operations of a number type, as specifications.
///
/// Nothing is demanded of them beyond being functions of their arguments:
/// addition need not be associative, and the comparisons need not be total.
pub trait Algebra: Sized {
    /// The number that stands for the count `n`.
    spec fn of_count(n: usize) -> Self;

    /// The sum.
    spec fn plus(self, other: Self) -> Self;

    /// The difference.
    spec fn minus(self, other: Self) -> Self;

    /// The product.
    spec fn times(self, other: Self) -> Self;

    /// The quotient.
    spec fn over(self, other: Self) -> Self;

    /// The number with the opposite sign.
    spec fn negated(self) -> Self;

    /// The exponential function.
    spec fn exponential(self) -> Self;

    /// The square root.
    spec fn root(self) -> Self;

    /// The larger of two numbers.
    spec fn larger(self, other: Self) -> Self;

    /// The number of `low..=high` that is nearest to `self`.
    spec fn limited(self, low: Self, high: Self) -> Self;

    /// Whether the two numbers compare equal.
    spec fn same(self, other: Self) -> bool;

    /// Whether `self` is below `other`.
    spec fn less(self, other: Self) -> bool;

    /// Whether `self` is below `other` or equal to it.
    spec fn at_most(self, other: Self) -> bool;
}

/// An executable number type.
///
/// An implementation supplies each operation together with the specification
/// that it meets. Rounded arithmetic qualifies as far as the result of an
/// operation is determined by its operands. That is so for the basic operations
/// on floating-point numbers, up to the bits of a NaN. A library's exponential
/// function need not give the same result on every machine or in every call.
pub trait Scalar: Algebra + Copy {
    /// Converts a count.
    fn from_count(n: usize) -> (r: Self)
        ensures
            r == Self::of_count(n),
    ;

    /// Adds.
    fn add(self, other: Self) -> (r: Self)
        ensures
            r == self.plus(other),
    ;

    /// Subtracts.
    fn sub(self, other: Self) -> (r: Self)
        ensures
            r == self.minus(other),
    ;

    /// Multiplies.
    fn mul(self, other: Self) -> (r: Self)
        ensures
            r == self.times(other),
    ;

    /// Divides.
    fn div(self, other: Self) -> (r: Self)
        ensures
            r == self.over(other),
    ;

    /// Changes the sign.
    fn neg(self) -> (r: Self)
        ensures
            r == self.negated(),
    ;

    /// Raises Euler's number to the power `self`.
    fn exp(self) -> (r: Self)
        ensures
            r == self.exponential(),
    ;

    /// Takes the square root.
    fn sqrt(self) -> (r: Self)
        ensures
            r == self.root(),
    ;

    /// Picks the larger of two numbers.
    fn max(self, other: Self) -> (r: Self)
        ensures
            r == self.larger(other),
    ;

    /// Restricts a number to an interval.
    fn clamp(self, low: Self, high: Self) -> (r: Self)
        requires
            low.at_most(high),
        ensures
            r == self.limited(low, high),
    ;

    /// Compares for equality.
    fn is_same(self, other: Self) -> (r: bool)
        ensures
            r == self.same(other),
    ;

    /// Tests for `self < other`.
    fn is_less(self, other: Self) -> (r: bool)
        ensures
            r == self.less(other),
    ;

    /// Tests for `self <= other`.
    fn is_at_most(self, other: Self) -> (r: bool)
        ensures
            r == self.at_most(other),
    ;
}

/// Zero.
pub open spec fn zero<T: Algebra>() -> T {
    T::of_count(0)
}

/// One.
pub open spec fn one<T: Algebra>() -> T {
    T::of_count(1)
}

/// The sum of `a[i] * b[i]` over the first `n` indices, added up from the left
/// starting at zero.
pub open spec fn dot<T: Algebra>(a: Seq<T>, b: Seq<T>, n: nat) -> T
    decreases n,
{
    if n == 0 {
        zero()
    } else {
        dot(a, b, (n - 1) as nat).plus(a[n - 1].times(b[n - 1]))
    }
}

/// What sets the exponential function apart from all others: it turns sums into
/// products and stays above its tangent at zero.
pub open spec fn is_exponential(f: spec_fn(real) -> real) -> bool {
    &&& forall|x: real, y: real| #[trigger] f(x + y) == f(x) * f(y)
    &&& forall|x: real| #[trigger] f(x) >= 1real + x
}

/// Whether `r` is the square root of `x`.
pub open spec fn is_square_root(r: real, x: real) -> bool {
    r >= 0real && r * r == x
}

impl Algebra for real {
    open spec fn of_count(n: usize) -> real {
        (n as int) as real
    }

    open spec fn plus(self, other: real) -> real {
        self + other
    }

    open spec fn minus(self, other: real) -> real {
        self - other
    }

    open spec fn times(self, other: real) -> real {
        self * other
    }

    open spec fn over(self, other: real) -> real {
        self / other
    }

    open spec fn negated(self) -> real {
        -self
    }

    /// The value of the one function that is the exponential function.
    open spec fn exponential(self) -> real {
        let f = choose|f: spec_fn(real) -> real| is_exponential(f);
        if is_exponential(f) {
            f(self)
        } else {
            1real
        }
    }

    open spec fn root(self) -> real {
        choose|r: real| is_square_root(r, self)
    }

    open spec fn larger(self, other: real) -> real {
        if self < other {
            other
        } else {
            self
        }
    }

    open spec fn limited(self, low: real, high: real) -> real {
        if self < low {
            low
        } else if self > high {
            high
        } else {
            self
        }
    }

    open spec fn same(self, other: real) -> bool {
        self == other
    }

    open spec fn less(self, other: real) -> bool {
        self < other
    }

    open spec fn at_most(self, other: real) -> bool {
        self <= other
    }
}

} // verus!
