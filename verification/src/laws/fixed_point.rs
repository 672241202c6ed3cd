//! What the operations on fixed-point numbers yield, in terms of the numerators
//! over the common denominator.

use vstd::prelude::*;

use crate::fixed::{is_integer_root, magnitude, squared_repeatedly, Fixed, ONE};
use crate::scalar::Algebra;

verus! {

/// Whether a numerator is in range.
pub open spec fn in_range(v: int) -> bool {
    i64::MIN <= v <= i64::MAX
}

/// Counts, sums, differences and opposites are exact where they are in range, and
/// the nearest number that is in range where they are not.
pub proof fn exact_operations(a: Fixed, b: Fixed, n: usize)
    ensures
        in_range(n * 0x1_0000_0000) ==> Fixed::of_count(n).raw == n * 0x1_0000_0000,
        n * 0x1_0000_0000 > i64::MAX ==> Fixed::of_count(n).raw == i64::MAX,
        in_range(a.raw + b.raw) ==> a.plus(b).raw == a.raw + b.raw,
        a.raw + b.raw > i64::MAX ==> a.plus(b).raw == i64::MAX,
        a.raw + b.raw < i64::MIN ==> a.plus(b).raw == i64::MIN,
        in_range(a.raw - b.raw) ==> a.minus(b).raw == a.raw - b.raw,
        a.raw - b.raw > i64::MAX ==> a.minus(b).raw == i64::MAX,
        a.raw - b.raw < i64::MIN ==> a.minus(b).raw == i64::MIN,
        in_range(-a.raw) ==> a.negated().raw == -a.raw,
        -a.raw > i64::MAX ==> a.negated().raw == i64::MAX,
        ONE == 0x1_0000_0000,
{
}

/// Numbers are ordered as their numerators are.
pub proof fn order(a: Fixed, b: Fixed, c: Fixed)
    ensures
        a.same(b) <==> a == b,
        a.less(b) <==> a.raw < b.raw,
        a.at_most(b) <==> a.raw <= b.raw,
        a.larger(b).raw >= a.raw,
        a.larger(b).raw >= b.raw,
        a.larger(b) == a || a.larger(b) == b,
        b.raw <= c.raw ==> b.raw <= a.limited(b, c).raw <= c.raw,
        b.raw <= a.raw <= c.raw ==> a.limited(b, c) == a,
        b.raw <= c.raw && a.raw < b.raw ==> a.limited(b, c) == b,
        b.raw <= c.raw && a.raw > c.raw ==> a.limited(b, c) == c,
{
}

/// A quotient that is cut off.
proof fn lemma_cut_off(n: int, d: int, q: int)
    requires
        d > 0,
        n >= 0,
        q == n / d,
    ensures
        q * d <= n < q * d + d,
        q >= 0,
{
    assert(q * d <= n < q * d + d && q >= 0) by (nonlinear_arith)
        requires
            d > 0,
            n >= 0,
            q == n / d,
    ;
}

/// A product is cut off towards zero, to the next multiple of the denominator, where
/// it is in range. It has the sign of the exact product.
pub proof fn product_is_cut_off(a: Fixed, b: Fixed)
    requires
        magnitude(a.raw * b.raw) < 0x1_0000_0000 * 0x7fff_ffff_ffff_ffff,
    ensures
        ({
            let exact = a.raw * b.raw;
            let r = a.times(b).raw as int;
            &&& magnitude(r) * 0x1_0000_0000 <= magnitude(exact)
            &&& magnitude(exact) < magnitude(r) * 0x1_0000_0000 + 0x1_0000_0000
            &&& exact >= 0 ==> r >= 0
            &&& exact <= 0 ==> r <= 0
        }),
{
    let exact = a.raw * b.raw;
    lemma_cut_off(magnitude(exact), 0x1_0000_0000, magnitude(exact) / 0x1_0000_0000);
}

/// A quotient is cut off towards zero, to the next multiple of what the divisor is a
/// multiple of, where it is in range. It has the sign of the exact quotient. A
/// quotient by zero is zero.
pub proof fn quotient_is_cut_off(a: Fixed, b: Fixed)
    requires
        magnitude(a.raw * 0x1_0000_0000) < magnitude(b.raw as int) * 0x7fff_ffff_ffff_ffff
            || b.raw == 0,
    ensures
        b.raw == 0 ==> a.over(b).raw == 0,
        b.raw != 0 ==> {
            let exact = a.raw * 0x1_0000_0000;
            let r = a.over(b).raw as int;
            &&& magnitude(r) * magnitude(b.raw as int) <= magnitude(exact)
            &&& magnitude(exact) < magnitude(r) * magnitude(b.raw as int) + magnitude(
                b.raw as int,
            )
            &&& (exact >= 0 && b.raw > 0) || (exact <= 0 && b.raw < 0) ==> r >= 0
            &&& (exact <= 0 && b.raw > 0) || (exact >= 0 && b.raw < 0) ==> r <= 0
        },
{
    if b.raw != 0 {
        let exact = a.raw * 0x1_0000_0000;
        let d = magnitude(b.raw as int);
        let q = magnitude(exact) / d;
        lemma_cut_off(magnitude(exact), d, q);
        assert(q < 0x7fff_ffff_ffff_ffff) by (nonlinear_arith)
            requires
                q * d <= magnitude(exact),
                magnitude(exact) < d * 0x7fff_ffff_ffff_ffff,
                d > 0,
        ;
        if exact == 0 {
            assert(q == 0) by (nonlinear_arith)
                requires
                    q * d <= 0,
                    q >= 0,
                    d > 0,
            ;
        }
    }
}

/// A square root is cut off. Numbers that have none yield zero.
pub proof fn root_is_cut_off(x: Fixed, r: int)
    requires
        x.raw > 0,
        0 <= r <= i64::MAX,
        r * r <= x.raw * 0x1_0000_0000 < (r + 1) * (r + 1),
    ensures
        x.root().raw == r,
{
    let v = x.raw * ONE;
    assert(is_integer_root(r, v));
    let s = choose|s: int| is_integer_root(s, v);
    assert(is_integer_root(s, v));
    assert(r == s) by (nonlinear_arith)
        requires
            r * r <= v < (r + 1) * (r + 1),
            s * s <= v < (s + 1) * (s + 1),
            r >= 0,
            s >= 0,
    ;
}

/// There is no square root of a number that is not positive.
pub proof fn no_root(x: Fixed)
    requires
        x.raw <= 0,
    ensures
        x.root().raw == 0,
{
}

/// The exponential is one plus a 256th of its argument, squared eight times.
pub proof fn exponential_by_squaring(x: Fixed, steps: Seq<Fixed>)
    requires
        steps.len() == 9,
        steps[0] == Fixed::of_count(1).plus(x.over(Fixed::of_count(256))),
        forall|n: int| 0 <= n < 8 ==> #[trigger] steps[n + 1] == steps[n].times(steps[n]),
    ensures
        x.exponential() == steps[8],
{
    lemma_squares(steps, 8);
}

/// Repeated squares.
proof fn lemma_squares(steps: Seq<Fixed>, n: nat)
    requires
        n < 9,
        steps.len() == 9,
        forall|i: int| 0 <= i < 8 ==> #[trigger] steps[i + 1] == steps[i].times(steps[i]),
    ensures
        squared_repeatedly(steps[0], n) == steps[n as int],
    decreases n,
{
    if n > 0 {
        lemma_squares(steps, (n - 1) as nat);
        let i = n - 1;
        assert(steps[i + 1] == steps[i].times(steps[i]));
    }
}

} // verus!
