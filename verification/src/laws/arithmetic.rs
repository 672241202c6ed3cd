//! What the operations are on real numbers, and what sums of products are.

use vstd::prelude::*;

use super::numbers::sum;
use crate::scalar::{dot, is_square_root, one, zero, Algebra};

verus! {

/// On real numbers, the operations are the usual ones.
pub proof fn real_operations(a: real, b: real, c: real, n: usize)
    ensures
        zero::<real>() == 0real,
        one::<real>() == 1real,
        real::of_count(n) == n as int as real,
        a.plus(b) == a + b,
        a.minus(b) == a - b,
        a.times(b) == a * b,
        a.over(b) == a / b,
        a.negated() == 0real - a,
        a.larger(b) >= a && a.larger(b) >= b && (a.larger(b) == a || a.larger(b) == b),
        a.same(b) <==> a == b,
        a.less(b) <==> a < b,
        a.at_most(b) <==> a <= b,
        b <= c ==> b <= a.limited(b, c) <= c,
        b <= a <= c ==> a.limited(b, c) == a,
        b <= c && a < b ==> a.limited(b, c) == b,
        b <= c && a > c ==> a.limited(b, c) == c,
{
}

/// A number that is not negative and whose square is `x` is the square root of
/// `x`.
pub proof fn real_root(r: real, x: real)
    requires
        r >= 0real,
        r * r == x,
    ensures
        x.root() == r,
{
    assert(is_square_root(r, x));
    let s = x.root();
    assert(is_square_root(s, x));
    assert(s == r) by (nonlinear_arith)
        requires
            r >= 0real,
            s >= 0real,
            r * r == s * s,
    ;
}

/// A sum of products is the sum of the products.
pub proof fn dot_is_sum(a: Seq<real>, b: Seq<real>, products: Seq<real>, n: nat)
    requires
        forall|i: int| 0 <= i < n ==> #[trigger] products[i] == a[i] * b[i],
    ensures
        dot(a, b, n) == sum(products, n),
    decreases n,
{
    if n > 0 {
        dot_is_sum(a, b, products, (n - 1) as nat);
        assert(products[n - 1] == a[n - 1] * b[n - 1]);
    }
}

} // verus!
