//! What the tables of both kinds of layer have in common: the points that they
//! are sampled at.

use vstd::prelude::*;

use crate::scalar::{Algebra, Scalar};

verus! {

/// The `k`-th of `num_samples` evenly spaced points from `min` to `max`.
pub open spec fn sample_point<T: Algebra>(min: T, max: T, num_samples: usize, k: int) -> T {
    if num_samples == 1 {
        min
    } else {
        min.plus(
            max.minus(min).times(T::of_count(k as usize)).over(
                T::of_count((num_samples - 1) as usize),
            ),
        )
    }
}

/// Evenly spaced points from `min` to `max`.
pub open spec fn sample_points<T: Algebra>(min: T, max: T, num_samples: usize) -> Seq<T> {
    Seq::new(num_samples as nat, |k: int| sample_point(min, max, num_samples, k))
}

/// Lists evenly spaced points.
pub fn list_sample_points<T: Scalar>(sample_range: (T, T), num_samples: usize) -> (r: Vec<T>)
    ensures
        r@ == sample_points(sample_range.0, sample_range.1, num_samples),
{
    let (min, max) = sample_range;
    let ghost all = sample_points(min, max, num_samples);
    let mut points: Vec<T> = Vec::with_capacity(num_samples);
    for k in 0..num_samples
        invariant
            all == sample_points(min, max, num_samples),
            points@ =~= all.take(k as int),
    {
        points.push(
            if num_samples == 1 {
                min
            } else {
                min.add(
                    max.sub(min).mul(T::from_count(k)).div(T::from_count(num_samples - 1)),
                )
            },
        );
    }
    assert(points@ =~= all);
    points
}

/// The weights of the basis values of the input feature `i` for the output `j`,
/// in a weight matrix with `out_features` rows that is stored column by column
/// and has `width` columns for each input feature.
pub open spec fn edge_weights<T>(
    weights: Seq<T>,
    out_features: int,
    width: int,
    i: int,
    j: int,
) -> Seq<T> {
    Seq::new(width as nat, |b: int| weights[(i * width + b) * out_features + j])
}

/// The index of a weight lies within the matrix.
pub(crate) proof fn lemma_weight_index(
    in_features: int,
    out_features: int,
    width: int,
    i: int,
    b: int,
    j: int,
)
    requires
        0 <= i < in_features,
        0 <= b < width,
        0 <= j < out_features,
    ensures
        0 <= i * width,
        i * width + b < in_features * width,
        0 <= (i * width + b) * out_features,
        (i * width + b) * out_features + j < out_features * in_features * width,
{
    assert(0 <= i * width && i * width + b < in_features * width) by (nonlinear_arith)
        requires
            0 <= i < in_features,
            0 <= b < width,
    ;
    let c = i * width + b;
    assert(0 <= c * out_features && c * out_features + j < in_features * width * out_features)
        by (nonlinear_arith)
        requires
            0 <= c < in_features * width,
            0 <= j < out_features,
    ;
    assert(in_features * width * out_features == out_features * in_features * width)
        by (nonlinear_arith);
}

} // verus!
