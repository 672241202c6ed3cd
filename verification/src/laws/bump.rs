//! Theorems about ReLU-KAN basis functions, over the reals.

use vstd::prelude::*;

use super::grid::{spacing, supports_evenly_spaced};
use super::numbers::{
    lemma_bounded_product, lemma_over_sign, lemma_rearrange, lemma_square_nonneg,
    lemma_times_nonneg, lemma_times_zero,
};
use crate::basis::bump::{bump_value, in_support, normalizer};
use crate::nn::grid::{support_end, support_start};
use crate::nn::relu_kan_lut::tabled_bump;
use crate::scalar::Algebra;

verus! {

/// The normalizing factor cancels the fourth power of the width.
pub(crate) proof fn lemma_normalizer(w: real)
    requires
        w > 0real,
    ensures
        normalizer(w) > 0real,
        normalizer(w) * ((w * w) * (w * w)) == 16real,
        w * w > 0real,
{
    let q = w * w * w * w;
    assert(w * w > 0real) by (nonlinear_arith)
        requires
            w > 0real,
    ;
    let sq = w * w;
    assert(sq * sq > 0real) by (nonlinear_arith)
        requires
            sq > 0real,
    ;
    assert(w * w * w * w == (w * w) * (w * w)) by (nonlinear_arith);
    lemma_over_sign(16real, q);
    assert(normalizer(w) == 16real / q);
}

/// Inside of its support, a bump is the factor times a square.
pub(crate) proof fn lemma_bump_inside(x: real, s: real, e: real)
    requires
        s < x < e,
    ensures
        bump_value(x, s, e) == normalizer(e - s) * (((e - x) * (x - s)) * ((e - x) * (x - s))),
{
    let n = normalizer(e - s);
    let m = (e - x) * (x - s);
    assert(bump_value(x, s, e) == n * m * m);
    lemma_rearrange(n, m, m);
}

/// A bump is zero outside of its support. Where `s` is not below `e`, that is
/// everywhere.
pub proof fn zero_outside_support(x: real, s: real, e: real)
    requires
        !in_support(x, s, e),
    ensures
        bump_value(x, s, e) == 0real,
{
    let u = (e - x).larger(0real);
    let v = (x - s).larger(0real);
    let m = u * v;
    if s < e {
        let n = normalizer(e - s);
        if x <= s {
            lemma_times_zero(u, v);
        } else {
            lemma_times_zero(v, u);
        }
        assert(m == 0real);
        assert(bump_value(x, s, e) == n * m * m);
        lemma_times_zero(n * m, m);
    } else {
        assert(bump_value(x, s, e) == 0real * m * m);
        lemma_times_zero(m, 0real);
    }
}

/// A bump is positive inside of its support.
pub proof fn positive_inside_support(x: real, s: real, e: real)
    requires
        in_support(x, s, e),
    ensures
        bump_value(x, s, e) > 0real,
{
    let n = normalizer(e - s);
    let u = e - x;
    let v = x - s;
    let m = u * v;
    lemma_normalizer(e - s);
    lemma_bump_inside(x, s, e);
    assert(m > 0real) by (nonlinear_arith)
        requires
            m == u * v,
            u > 0real,
            v > 0real,
    ;
    let sq = m * m;
    assert(sq > 0real) by (nonlinear_arith)
        requires
            sq == m * m,
            m > 0real,
    ;
    assert(n * sq > 0real) by (nonlinear_arith)
        requires
            n > 0real,
            sq > 0real,
    ;
}

/// No bump is negative.
pub proof fn bump_non_negative(x: real, s: real, e: real)
    ensures
        bump_value(x, s, e) >= 0real,
{
    if in_support(x, s, e) {
        positive_inside_support(x, s, e);
    } else {
        zero_outside_support(x, s, e);
    }
}

/// A bump is one in the middle of its support.
pub proof fn peak_at_midpoint(s: real, e: real)
    requires
        s < e,
    ensures
        bump_value((s + e) / 2real, s, e) == 1real,
{
    let x = (s + e) / 2real;
    let w = e - s;
    let n = normalizer(w);
    let u = e - x;
    let v = x - s;
    let m = u * v;
    lemma_bump_inside(x, s, e);
    lemma_normalizer(w);
    assert(4real * m == w * w) by (nonlinear_arith)
        requires
            m == u * v,
            2real * u == w,
            2real * v == w,
    ;
    let sq = w * w;
    assert(16real * (m * m) == sq * sq) by (nonlinear_arith)
        requires
            4real * m == sq,
    ;
    let mm = m * m;
    assert(n * (16real * mm) == 16real * (n * mm)) by (nonlinear_arith);
}

/// No bump exceeds one.
pub proof fn at_most_one(x: real, s: real, e: real)
    ensures
        bump_value(x, s, e) <= 1real,
{
    if in_support(x, s, e) {
        let w = e - s;
        let n = normalizer(w);
        let u = e - x;
        let v = x - s;
        let m = u * v;
        let sq = w * w;
        lemma_bump_inside(x, s, e);
        lemma_normalizer(w);
        lemma_square_nonneg(u - v);
        lemma_times_nonneg(u, v);
        assert(w * w - (u - v) * (u - v) == 4real * (u * v)) by (nonlinear_arith)
            requires
                w == u + v,
        ;
        lemma_bounded_product(4real * m, sq, 4real * m, sq);
        let mm = m * m;
        assert((4real * m) * (4real * m) == 16real * (m * m)) by (nonlinear_arith);
        lemma_times_nonneg(n, sq * sq - 16real * mm);
        assert(n * (sq * sq - 16real * mm) == n * (sq * sq) - 16real * (n * mm))
            by (nonlinear_arith);
    } else {
        zero_outside_support(x, s, e);
    }
}

/// A table holds the same values as the layer computes.
pub proof fn table_holds_bumps(x: real, s: real, e: real)
    ensures
        tabled_bump(x, s, e) == bump_value(x, s, e),
{
    if in_support(x, s, e) {
        let n = normalizer(e - s);
        let u = e - x;
        let v = x - s;
        let m = u * v;
        lemma_bump_inside(x, s, e);
        lemma_rearrange(n, m * m, 0real);
    } else {
        zero_outside_support(x, s, e);
    }
}

/// Whether the `i`-th basis function of a ReLU-KAN layer is not zero at `x`.
pub open spec fn active(
    x: real,
    grid_size: usize,
    support_width: usize,
    min: real,
    max: real,
    i: int,
) -> bool {
    bump_value(
        x,
        support_start(grid_size, support_width, min, max, i),
        support_end(grid_size, support_width, min, max, i),
    ) != 0real
}

/// The basis functions of a layer that are not zero at `x`.
pub open spec fn active_set(
    x: real,
    grid_size: usize,
    support_width: usize,
    min: real,
    max: real,
) -> Set<int> {
    Set::new(
        |i: int|
            0 <= i < grid_size + support_width && active(
                x,
                grid_size,
                support_width,
                min,
                max,
                i,
            ),
    )
}

/// Two basis functions of a layer that are both not zero at one point are at
/// most `support_width` apart.
pub proof fn active_ones_are_close(
    x: real,
    grid_size: usize,
    support_width: usize,
    min: real,
    max: real,
    i: int,
    j: int,
)
    requires
        grid_size > 0,
        0 <= i <= j < grid_size + support_width <= usize::MAX,
        active(x, grid_size, support_width, min, max, i),
        active(x, grid_size, support_width, min, max, j),
    ensures
        j - i <= support_width,
{
    let h = spacing(grid_size, min, max);
    supports_evenly_spaced(grid_size, support_width, min, max, i);
    supports_evenly_spaced(grid_size, support_width, min, max, j);
    let s = support_start(grid_size, support_width, min, max, j);
    let e = support_end(grid_size, support_width, min, max, i);
    if !in_support(x, support_start(grid_size, support_width, min, max, i), e) {
        zero_outside_support(x, support_start(grid_size, support_width, min, max, i), e);
    }
    if !in_support(x, s, support_end(grid_size, support_width, min, max, j)) {
        zero_outside_support(x, s, support_end(grid_size, support_width, min, max, j));
    }
    assert(s < x < e);
    let a = (j - support_width) as real;
    let b = (i + 1) as real;
    // The support of the first one is not empty.
    let c = (i - support_width) as real;
    assert(h > 0real) by (nonlinear_arith)
        requires
            c * h < b * h,
            c < b,
    ;
    assert(a < b) by (nonlinear_arith)
        requires
            a * h < b * h,
            h > 0real,
    ;
    assert(j - support_width < i + 1);
}

/// At no point are more than `support_width + 1` basis functions of a layer not
/// zero.
pub proof fn few_are_active(
    x: real,
    grid_size: usize,
    support_width: usize,
    min: real,
    max: real,
)
    requires
        grid_size > 0,
        grid_size + support_width <= usize::MAX,
    ensures
        active_set(x, grid_size, support_width, min, max).finite(),
        active_set(x, grid_size, support_width, min, max).len() <= support_width + 1,
{
    lemma_active_within(x, grid_size, support_width, min, max, 0);
}

/// Past the first `from` ones, which are all zero, few basis functions are not
/// zero.
proof fn lemma_active_within(
    x: real,
    grid_size: usize,
    support_width: usize,
    min: real,
    max: real,
    from: int,
)
    requires
        grid_size > 0,
        0 <= from <= grid_size + support_width <= usize::MAX,
        forall|i: int|
            0 <= i < from ==> !#[trigger] active(x, grid_size, support_width, min, max, i),
    ensures
        active_set(x, grid_size, support_width, min, max).finite(),
        active_set(x, grid_size, support_width, min, max).len() <= support_width + 1,
    decreases grid_size + support_width - from,
{
    let set = active_set(x, grid_size, support_width, min, max);
    if from == grid_size + support_width || active(
        x,
        grid_size,
        support_width,
        min,
        max,
        from,
    ) {
        let range = vstd::set_lib::set_int_range(from, from + support_width + 1);
        vstd::set_lib::lemma_int_range(from, from + support_width + 1);
        assert forall|i: int| set.contains(i) implies range.contains(i) by {
            active_ones_are_close(x, grid_size, support_width, min, max, from, i);
        }
        vstd::set_lib::lemma_len_subset(set, range);
    } else {
        lemma_active_within(x, grid_size, support_width, min, max, from + 1);
    }
}

/// Some part of the range up to the `n`-th one holds `x`.
proof fn lemma_part_of(x: real, min: real, h: real, n: nat) -> (i: nat)
    requires
        h > 0real,
        min <= x < min + ((n + 1) as real) * h,
    ensures
        i <= n,
        min + (i as real) * h <= x < min + ((i + 1) as real) * h,
    decreases n,
{
    if n == 0 {
        lemma_times_zero(h, 0real);
        0
    } else if x < min + (n as real) * h {
        lemma_part_of(x, min, h, (n - 1) as nat)
    } else {
        n
    }
}

/// With supports that overlap, some basis function is not zero at each point of
/// the range of the grid.
pub proof fn some_is_active(
    x: real,
    grid_size: usize,
    support_width: usize,
    min: real,
    max: real,
)
    requires
        grid_size > 0,
        support_width > 0,
        min < max,
        grid_size + support_width <= usize::MAX,
        min <= x <= max,
    ensures
        exists|i: int|
            0 <= i < grid_size + support_width && #[trigger] active(
                x,
                grid_size,
                support_width,
                min,
                max,
                i,
            ),
{
    let g = grid_size as int as real;
    let h = spacing(grid_size, min, max);
    lemma_over_sign(max - min, g);
    assert((g + 1real) * h == h * g + h) by (nonlinear_arith);
    let n = grid_size as nat;
    assert((n + 1) as real == g + 1real);
    let i = lemma_part_of(x, min, h, n) as int;
    supports_evenly_spaced(grid_size, support_width, min, max, i);
    let a = (i - support_width) as real;
    let b = i as real;
    assert(a * h < b * h) by (nonlinear_arith)
        requires
            a < b,
            h > 0real,
    ;
    positive_inside_support(
        x,
        support_start(grid_size, support_width, min, max, i),
        support_end(grid_size, support_width, min, max, i),
    );
    assert(active(x, grid_size, support_width, min, max, i));
}

} // verus!
