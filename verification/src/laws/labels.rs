//! What operations and instructions are called.

use vstd::prelude::*;

use crate::cuda::kan::FusedKanLayer;
use crate::device::function::{
    BSplineBasisBwd, BSplineBasisFwd, ReluKanBasisBwd, ReluKanBasisFwd,
};
use crate::graph::ir::operation::bspline::BSplineBasis;
use crate::graph::ir::operation::relu_kan::ReluKanBasis;
use crate::text::decimal_of;

verus! {

/// The name of an operation with its sizes in brackets: the number of intervals of
/// the grid, and the degree of the splines or the width of a support.
pub proof fn operations_are_named(spline: BSplineBasis, bump: ReluKanBasis, layer: FusedKanLayer)
    ensures
        spline.label() == "BSplineBasis(grid="@ + decimal_of(spline.grid_size as nat)
            + ", order="@ + decimal_of(spline.spline_order as nat) + ")"@,
        bump.label() == "ReluKanBasis(grid="@ + decimal_of(bump.grid_size as nat) + ", k="@
            + decimal_of(bump.support_width as nat) + ")"@,
        layer.label() == "FusedKanLayer(grid="@ + decimal_of(layer.grid_size as nat)
            + ", order="@ + decimal_of(layer.spline_order as nat) + ")"@,
{
}

/// The name of an instruction with its sizes in brackets: the number of input
/// features, the number of intervals of the grid, and the degree of the splines or the
/// width of a support.
pub proof fn instructions_are_named(
    spline: BSplineBasisFwd,
    spline_back: BSplineBasisBwd,
    bump: ReluKanBasisFwd,
    bump_back: ReluKanBasisBwd,
)
    ensures
        spline.label() == "BSplineBasisFwd(in="@ + decimal_of(spline.in_features as nat)
            + ", grid="@ + decimal_of(spline.grid_size as nat) + ", order="@ + decimal_of(
            spline.spline_order as nat,
        ) + ")"@,
        spline_back.label() == "BSplineBasisBwd(in="@ + decimal_of(spline_back.in_features as nat)
            + ", grid="@ + decimal_of(spline_back.grid_size as nat) + ", order="@ + decimal_of(
            spline_back.spline_order as nat,
        ) + ")"@,
        bump.label() == "ReluKanBasisFwd(in="@ + decimal_of(bump.in_features as nat) + ", grid="@
            + decimal_of(bump.grid_size as nat) + ", k="@ + decimal_of(bump.support_width as nat)
            + ")"@,
        bump_back.label() == "ReluKanBasisBwd(in="@ + decimal_of(bump_back.in_features as nat)
            + ", grid="@ + decimal_of(bump_back.grid_size as nat) + ", k="@ + decimal_of(
            bump_back.support_width as nat,
        ) + ")"@,
{
}

} // verus!
