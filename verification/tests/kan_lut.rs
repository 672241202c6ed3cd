use bullet_kan::nn::grid::make_grid;
use bullet_kan::nn::kan_lut::{eval_bspline_basis, sample_kan_lut, silu};
use bullet_kan::nn::lut::list_sample_points;
use bullet_kan::scalar::{Algebra, Scalar};

#[derive(Clone, Copy, Debug, PartialEq, PartialOrd)]
struct F32(f32);

impl Algebra for F32 {
    fn of_count(n: usize) -> F32 {
        F32(n as f32)
    }

    fn plus(self, other: F32) -> F32 {
        F32(self.0 + other.0)
    }

    fn minus(self, other: F32) -> F32 {
        F32(self.0 - other.0)
    }

    fn times(self, other: F32) -> F32 {
        F32(self.0 * other.0)
    }

    fn over(self, other: F32) -> F32 {
        F32(self.0 / other.0)
    }

    fn negated(self) -> F32 {
        F32(-self.0)
    }

    fn exponential(self) -> F32 {
        F32(self.0.exp())
    }

    fn root(self) -> F32 {
        F32(self.0.sqrt())
    }

    fn larger(self, other: F32) -> F32 {
        F32(self.0.max(other.0))
    }

    fn limited(self, low: F32, high: F32) -> F32 {
        F32(self.0.clamp(low.0, high.0))
    }

    fn same(self, other: F32) -> bool {
        self.0 == other.0
    }

    fn less(self, other: F32) -> bool {
        self.0 < other.0
    }

    fn at_most(self, other: F32) -> bool {
        self.0 <= other.0
    }
}

impl Scalar for F32 {
    fn from_count(n: usize) -> F32 {
        F32(n as f32)
    }

    fn add(self, other: F32) -> F32 {
        F32(self.0 + other.0)
    }

    fn sub(self, other: F32) -> F32 {
        F32(self.0 - other.0)
    }

    fn mul(self, other: F32) -> F32 {
        F32(self.0 * other.0)
    }

    fn div(self, other: F32) -> F32 {
        F32(self.0 / other.0)
    }

    fn neg(self) -> F32 {
        F32(-self.0)
    }

    fn exp(self) -> F32 {
        F32(self.0.exp())
    }

    fn sqrt(self) -> F32 {
        F32(self.0.sqrt())
    }

    fn max(self, other: F32) -> F32 {
        F32(self.0.max(other.0))
    }

    fn clamp(self, low: F32, high: F32) -> F32 {
        F32(self.0.clamp(low.0, high.0))
    }

    fn is_same(self, other: F32) -> bool {
        self.0 == other.0
    }

    fn is_less(self, other: F32) -> bool {
        self.0 < other.0
    }

    fn is_at_most(self, other: F32) -> bool {
        self.0 <= other.0
    }
}

fn numbers(vals: &[f32]) -> Vec<F32> {
    vals.iter().map(|&v| F32(v)).collect()
}

const UNIT: (F32, F32) = (F32(0.0), F32(1.0));
const SYMMETRIC: (F32, F32) = (F32(-1.0), F32(1.0));

#[test]
fn bspline_partition_of_unity() {
    let grid_size = 5;
    let spline_order = 3;
    let grid = make_grid(grid_size, spline_order, SYMMETRIC);

    for &x in &[-0.9, -0.5, 0.0, 0.3, 0.7, 0.99] {
        let basis = eval_bspline_basis(F32(x), &grid, grid_size, spline_order);
        let sum: f32 = basis.iter().map(|v| v.0).sum();
        assert!(
            (sum - 1.0).abs() < 1e-6,
            "Partition of unity violated: sum={sum} for x={x}"
        );
    }
}

#[test]
fn bspline_non_negative() {
    let grid_size = 5;
    let spline_order = 3;
    let grid = make_grid(grid_size, spline_order, SYMMETRIC);

    for &x in &[-1.0, -0.5, 0.0, 0.5, 1.0] {
        let basis = eval_bspline_basis(F32(x), &grid, grid_size, spline_order);
        for (i, v) in basis.iter().enumerate() {
            let v = v.0;
            assert!(v >= 0.0, "Negative basis value: B[{i}]({x}) = {v}");
        }
    }
}

#[test]
fn silu_known_values() {
    // silu(0) = 0
    assert!((silu(F32(0.0))).0.abs() < 1e-7);
    // silu(x) is close to x for large x
    assert!((silu(F32(10.0)).0 - 10.0).abs() < 0.001);
    // silu(x) is close to 0 for large negative x
    assert!(silu(F32(-10.0)).0.abs() < 0.001);
}

#[test]
fn make_grid_correct_length() {
    let grid = make_grid(5, 3, SYMMETRIC);
    assert_eq!(grid.len(), 5 + 2 * 3 + 1); // 12
}

#[test]
fn make_grid_matches_kan_layer() {
    let grid = make_grid(5, 3, SYMMETRIC);
    let h = 2.0 / 5.0;

    // First extended knot
    assert!((grid[0].0 - (-1.0 - 3.0 * h)).abs() < 1e-6);
    // First interior knot
    assert!((grid[3].0 - (-1.0)).abs() < 1e-6);
    // Last interior knot
    assert!((grid[8].0 - 1.0).abs() < 1e-6);
    // Last extended knot
    assert!((grid[11].0 - (1.0 + 3.0 * h)).abs() < 1e-6);
}

#[test]
fn kan_lut_lut_matches_direct_evaluation() {
    // With spline weights 0 and base weights 1, the table is silu(x) at each
    // sample point.
    let in_features = 2;
    let out_features = 1;
    let grid_size = 5;
    let spline_order = 3;
    let num_basis = grid_size + spline_order; // 8
    let num_samples = 16;

    // Column by column: sw[j, col] = sw_vals[col * out_features + j]
    let sw_vals = numbers(&vec![0.0f32; out_features * in_features * num_basis]);
    // bw[0, 0] = bw[0, 1] = 1
    let bw_vals = numbers(&vec![1.0f32; out_features * in_features]);

    let lut = sample_kan_lut(
        &sw_vals,
        &bw_vals,
        in_features,
        out_features,
        grid_size,
        spline_order,
        SYMMETRIC,
        UNIT,
        num_samples,
    );

    assert_eq!(lut.len(), out_features * in_features * num_samples);

    for i in 0..in_features {
        for k in 0..num_samples {
            let x = k as f32 / (num_samples - 1) as f32;
            let expected = silu(F32(x)).0;
            let actual = lut[0 * in_features * num_samples + i * num_samples + k].0;
            assert!(
                (actual - expected).abs() < 1e-6,
                "LUT mismatch at i={i}, k={k}: expected={expected}, actual={actual}"
            );
        }
    }
}

#[test]
fn lut_spline_path_only() {
    // With base weights 0 and a single spline weight 1, the table holds the
    // values of that basis function.
    let in_features = 1;
    let out_features = 1;
    let grid_size = 5;
    let spline_order = 3;
    let num_basis = grid_size + spline_order; // 8
    let num_samples = 32;

    let mut sw_vals = numbers(&vec![0.0f32; out_features * in_features * num_basis]);
    sw_vals[0] = F32(1.0); // sw[0, 0] = 1.0

    let bw_vals = numbers(&vec![0.0f32; out_features * in_features]);

    let grid = make_grid(grid_size, spline_order, SYMMETRIC);
    let lut = sample_kan_lut(
        &sw_vals,
        &bw_vals,
        in_features,
        out_features,
        grid_size,
        spline_order,
        SYMMETRIC,
        SYMMETRIC,
        num_samples,
    );

    for k in 0..num_samples {
        let x = -1.0 + 2.0 * k as f32 / (num_samples - 1) as f32;
        let basis = eval_bspline_basis(F32(x), &grid, grid_size, spline_order);
        let expected = basis[0].0;
        let actual = lut[k].0;
        assert!(
            (actual - expected).abs() < 1e-6,
            "Spline-only LUT mismatch at k={k}, x={x}: expected={expected}, actual={actual}"
        );
    }
}

#[test]
fn kan_lut_lut_output_size() {
    let in_f = 4;
    let out_f = 2;
    let grid_size = 5;
    let spline_order = 3;
    let num_basis = grid_size + spline_order;
    let num_samples = 64;

    let sw_vals = numbers(&vec![0.0f32; out_f * in_f * num_basis]);
    let bw_vals = numbers(&vec![0.0f32; out_f * in_f]);

    let lut = sample_kan_lut(
        &sw_vals, &bw_vals, in_f, out_f, grid_size, spline_order, SYMMETRIC, SYMMETRIC, num_samples,
    );

    assert_eq!(lut.len(), out_f * in_f * num_samples);
}

#[test]
fn sample_range_coverage() {
    // The sample points span the full range.
    let num_samples = 256;
    let (s_min, s_max) = (0.0f32, 1.0f32);
    let points: Vec<f32> =
        list_sample_points((F32(s_min), F32(s_max)), num_samples).iter().map(|p| p.0).collect();

    assert!((points[0] - s_min).abs() < 1e-7);
    assert!((points[num_samples - 1] - s_max).abs() < 1e-7);
    // Uniform spacing
    let step = points[1] - points[0];
    for i in 1..num_samples {
        assert!((points[i] - points[i - 1] - step).abs() < 1e-5);
    }
}

#[test]
fn a_single_sample_is_the_lower_end() {
    assert_eq!(list_sample_points((F32(2.5), F32(9.0)), 1), numbers(&[2.5]));
    assert_eq!(list_sample_points((F32(2.5), F32(9.0)), 0), numbers(&[]));
    assert_eq!(list_sample_points((F32(1.0), F32(3.0)), 3), numbers(&[1.0, 2.0, 3.0]));
}

#[test]
fn table_layout_is_output_input_sample() {
    // Splines of order 0 on one interval are 1 everywhere, so that the entry of
    // an edge is its spline weight plus silu(x) times its base weight.
    let sw = numbers(&[1.0, 2.0, 3.0, 4.0]);
    let bw = numbers(&[0.0, 0.0, 0.0, 0.0]);
    let lut = sample_kan_lut(&sw, &bw, 2, 2, 1, 0, UNIT, UNIT, 3);
    assert_eq!(
        lut,
        numbers(&[1.0, 1.0, 1.0, 3.0, 3.0, 3.0, 2.0, 2.0, 2.0, 4.0, 4.0, 4.0])
    );
}

#[test]
fn base_weights_scale_silu() {
    let lut = sample_kan_lut(
        &numbers(&[0.0, 0.0]),
        &numbers(&[2.0, -1.0]),
        1,
        2,
        1,
        0,
        UNIT,
        (F32(3.0), F32(3.0)),
        1,
    );
    let s = 3.0f32 / (1.0 + (-3.0f32).exp());
    assert_eq!(lut, numbers(&[2.0 * s, -s]));
}

#[test]
fn sum_of_entries_is_the_layer() {
    // Two features at the sample points 1 and 3 of 4.
    let (grid_size, spline_order, samples) = (4, 2, 4);
    let width = grid_size + spline_order;
    let sw: Vec<f32> = (0..2 * width).map(|c| (c as f32 - 5.0) / 3.0).collect();
    let bw = [0.5f32, -0.25];
    let lut = sample_kan_lut(
        &numbers(&sw),
        &numbers(&bw),
        2,
        1,
        grid_size,
        spline_order,
        SYMMETRIC,
        SYMMETRIC,
        samples,
    );
    let points = list_sample_points(SYMMETRIC, samples);
    let grid = make_grid(grid_size, spline_order, SYMMETRIC);
    let choice = [1, 3];
    let mut direct = 0.0f32;
    for i in 0..2 {
        let x = points[choice[i]];
        for (b, v) in eval_bspline_basis(x, &grid, grid_size, spline_order).iter().enumerate() {
            direct += sw[i * width + b] * v.0;
        }
        direct += bw[i] * silu(x).0;
    }
    let looked_up = lut[choice[0]].0 + lut[samples + choice[1]].0;
    assert!((direct - looked_up).abs() < 1e-5, "{direct} and {looked_up}");
}

#[test]
fn knots_of_a_small_grid() {
    assert_eq!(
        make_grid(2, 1, (F32(0.0), F32(1.0))),
        numbers(&[-0.5, 0.0, 0.5, 1.0, 1.5])
    );
    assert_eq!(make_grid(1, 0, (F32(-2.0), F32(2.0))), numbers(&[-2.0, 2.0]));
}

#[test]
fn linear_splines_are_hats() {
    let grid = make_grid(2, 1, (F32(0.0), F32(1.0)));
    assert_eq!(eval_bspline_basis(F32(0.25), &grid, 2, 1), numbers(&[0.5, 0.5, 0.0]));
    assert_eq!(eval_bspline_basis(F32(0.5), &grid, 2, 1), numbers(&[0.0, 1.0, 0.0]));
    assert_eq!(eval_bspline_basis(F32(-0.5), &grid, 2, 1), numbers(&[0.0, 0.0, 0.0]));
}

#[test]
fn order_zero_takes_the_last_interval_beyond_the_end() {
    let grid = make_grid(3, 0, (F32(0.0), F32(3.0)));
    assert_eq!(eval_bspline_basis(F32(0.5), &grid, 3, 0), numbers(&[1.0, 0.0, 0.0]));
    assert_eq!(eval_bspline_basis(F32(1.0), &grid, 3, 0), numbers(&[0.0, 1.0, 0.0]));
    assert_eq!(eval_bspline_basis(F32(3.0), &grid, 3, 0), numbers(&[0.0, 0.0, 1.0]));
    assert_eq!(eval_bspline_basis(F32(9.0), &grid, 3, 0), numbers(&[0.0, 0.0, 1.0]));
    assert_eq!(eval_bspline_basis(F32(-1.0), &grid, 3, 0), numbers(&[0.0, 0.0, 0.0]));
}
