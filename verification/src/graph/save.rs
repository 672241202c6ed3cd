//! How trained weights are exported.

use vstd::prelude::*;

use crate::nn::grid::{support_ends_from_starts, support_starts, uniform_knots};
use crate::nn::kan_lut::{self, kan_lut, sample_kan_lut};
use crate::nn::lut::sample_points;
use crate::nn::relu_kan_lut::{self, relu_kan_lut, sample_relu_kan_lut};
use crate::scalar::{Algebra, Scalar};

verus! {

/// The values of one named set of weights.
pub struct StoredWeights<T> {
    /// The name.
    pub name: String,
    /// The values.
    pub values: Vec<T>,
}

/// Trained weights by name.
pub struct WeightStore<T> {
    /// All sets of weights.
    pub entries: Vec<StoredWeights<T>>,
}

impl<T> WeightStore<T> {
    /// The values of the first weights at `from` or behind that have this name.
    pub open spec fn lookup_from(self, from: int, name: Seq<char>) -> Option<Seq<T>>
        decreases self.entries.len() - from,
    {
        if from < 0 || from >= self.entries.len() {
            None
        } else if self.entries[from].name@ == name {
            Some(self.entries[from].values@)
        } else {
            self.lookup_from(from + 1, name)
        }
    }

    /// The values of the weights of this name.
    pub open spec fn lookup(self, name: Seq<char>) -> Option<Seq<T>> {
        self.lookup_from(0, name)
    }

    /// Looks weights up that must be there.
    pub fn get(&self, name: &String) -> (r: &Vec<T>)
        requires
            self.lookup(name@) is Some,
        ensures
            Some(r@) == self.lookup(name@),
    {
        let mut i: usize = 0;
        while self.entries[i].name != *name
            invariant
                i < self.entries.len(),
                self.lookup(name@) is Some,
                self.lookup(name@) == self.lookup_from(i as int, name@),
            decreases self.entries.len() - i,
        {
            assert(self.lookup_from(i + 1, name@) is Some);
            i = i + 1;
        }
        &self.entries[i].values
    }
}

/// What numbers are written as.
#[derive(Clone, Copy, Debug, PartialEq, Eq, Structural)]
pub enum QuantTarget {
    /// As they are.
    Float,
    /// As eight-bit integers, after multiplication by this factor.
    I8(i16),
    /// As 16-bit integers, after multiplication by this factor.
    I16(i16),
}

/// Where the numbers of an export come from.
pub enum Source<T> {
    /// The table of a B-spline KAN layer.
    KanLut {
        /// What the names of the weights begin with.
        id: String,
        /// The dimension of the input.
        in_features: usize,
        /// The dimension of the output.
        out_features: usize,
        /// The number of intervals of the grid.
        grid_size: usize,
        /// The degree of the splines.
        spline_order: usize,
        /// The range of the grid.
        grid_range: (T, T),
        /// The range that is sampled.
        sample_range: (T, T),
        /// The number of samples of an edge.
        num_samples: usize,
    },
    /// The table of a ReLU-KAN layer.
    ReluKanLut {
        /// What the name of the weights begins with.
        id: String,
        /// The dimension of the input.
        in_features: usize,
        /// The dimension of the output.
        out_features: usize,
        /// The number of intervals of the grid.
        grid_size: usize,
        /// The width of a support, in intervals.
        support_width: usize,
        /// The range of the grid.
        grid_range: (T, T),
        /// The range that is sampled.
        sample_range: (T, T),
        /// The number of samples of an edge.
        num_samples: usize,
        /// The largest magnitude that an entry can have.
        limit: T,
    },
}

/// One part of an export.
pub struct SavedFormat<T> {
    /// Where the numbers come from.
    pub source: Source<T>,
    /// Whether they are rounded to the nearest integer rather than cut off.
    pub round: bool,
    /// What they are written as.
    pub quant: QuantTarget,
}

impl<T: Algebra> Source<T> {
    /// Whether the numbers can be worked out from `store`: the weights are there
    /// and fit the layer.
    pub open spec fn available(self, store: WeightStore<T>) -> bool {
        match self {
            Source::KanLut {
                id,
                in_features,
                out_features,
                grid_size,
                spline_order,
                grid_range,
                sample_range,
                num_samples,
            } => {
                &&& store.lookup(id@ + "_sw"@) is Some
                &&& store.lookup(id@ + "_bw"@) is Some
                &&& kan_lut::lut_fits(
                    store.lookup(id@ + "_sw"@)->0,
                    store.lookup(id@ + "_bw"@)->0,
                    in_features,
                    out_features,
                    grid_size,
                    spline_order,
                    grid_range,
                    sample_range,
                    num_samples,
                )
            },
            Source::ReluKanLut {
                id,
                in_features,
                out_features,
                grid_size,
                support_width,
                grid_range,
                sample_range,
                num_samples,
                limit,
            } => {
                &&& store.lookup(id@ + "_sw"@) is Some
                &&& relu_kan_lut::lut_fits(
                    store.lookup(id@ + "_sw"@)->0,
                    in_features,
                    out_features,
                    grid_size,
                    support_width,
                    num_samples,
                )
                &&& limit.negated().at_most(limit) || in_features * num_samples * out_features == 0
            },
        }
    }

    /// The numbers.
    pub open spec fn numbers(self, store: WeightStore<T>) -> Seq<T> {
        match self {
            Source::KanLut {
                id,
                in_features,
                out_features,
                grid_size,
                spline_order,
                grid_range,
                sample_range,
                num_samples,
            } => kan_lut(
                store.lookup(id@ + "_sw"@)->0,
                store.lookup(id@ + "_bw"@)->0,
                in_features as int,
                out_features as int,
                grid_size,
                spline_order,
                uniform_knots(grid_size, spline_order, grid_range.0, grid_range.1),
                sample_points(sample_range.0, sample_range.1, num_samples),
            ),
            Source::ReluKanLut {
                id,
                in_features,
                out_features,
                grid_size,
                support_width,
                grid_range,
                sample_range,
                num_samples,
                limit,
            } => {
                let table = relu_kan_lut(
                    store.lookup(id@ + "_sw"@)->0,
                    in_features as int,
                    out_features as int,
                    support_starts(grid_size, support_width, grid_range.0, grid_range.1),
                    support_ends_from_starts(grid_size, support_width, grid_range.0, grid_range.1),
                    sample_points(sample_range.0, sample_range.1, num_samples),
                );
                Seq::new(table.len(), |n: int| table[n].limited(limit.negated(), limit))
            },
        }
    }
}

impl<T: Scalar> SavedFormat<T> {
    /// Works out the numbers from trained weights, before they are rounded and
    /// scaled.
    pub fn values(&self, store: &WeightStore<T>) -> (r: Vec<T>)
        requires
            self.source.available(*store),
        ensures
            r@ == self.source.numbers(*store),
    {
        match &self.source {
            Source::KanLut {
                id,
                in_features,
                out_features,
                grid_size,
                spline_order,
                grid_range,
                sample_range,
                num_samples,
            } => {
                let sw = store.get(&id.clone().concat("_sw"));
                let bw = store.get(&id.clone().concat("_bw"));
                sample_kan_lut(
                    sw,
                    bw,
                    *in_features,
                    *out_features,
                    *grid_size,
                    *spline_order,
                    *grid_range,
                    *sample_range,
                    *num_samples,
                )
            },
            Source::ReluKanLut {
                id,
                in_features,
                out_features,
                grid_size,
                support_width,
                grid_range,
                sample_range,
                num_samples,
                limit,
            } => {
                let sw = store.get(&id.clone().concat("_sw"));
                let lut: Vec<T> = sample_relu_kan_lut(
                    sw,
                    *in_features,
                    *out_features,
                    *grid_size,
                    *support_width,
                    *grid_range,
                    *sample_range,
                    *num_samples,
                );
                let ghost numbers = self.source.numbers(*store);
                let low: T = limit.neg();
                let mut limited: Vec<T> = Vec::with_capacity(lut.len());
                for n in 0..lut.len()
                    invariant
                        numbers.len() == lut@.len(),
                        low == limit.negated(),
                        low.at_most(*limit) || lut@.len() == 0,
                        forall|m: int|
                            0 <= m < lut@.len() ==> #[trigger] numbers[m] == lut@[m].limited(
                                low,
                                *limit,
                            ),
                        limited@ =~= numbers.take(n as int),
                {
                    limited.push(lut[n].clamp(low, *limit));
                }
                assert(limited@ =~= numbers);
                limited
            },
        }
    }
}

} // verus!
