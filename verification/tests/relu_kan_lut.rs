use bullet_kan::nn::grid::{make_relu_kan_grid, make_support_grid};
use bullet_kan::nn::relu_kan_lut::{eval_relu_kan_basis, sample_relu_kan_lut};
use bullet_kan::scalar::{Algebra, Scalar};

#[derive(Clone, Copy, Debug, PartialEq, PartialOrd)]
struct F32(f32);

impl Algebra for F32 {
    fn of_count(n: usize) -> F32 {
        F32(n as f32)
    }

    fn plus(self, other: F32) -> F32 {
        F32(self.0 + other.0)
    }

    fn minus(self, other: F32) -> F32 {
        F32(self.0 - other.0)
    }

    fn times(self, other: F32) -> F32 {
        F32(self.0 * other.0)
    }

    fn over(self, other: F32) -> F32 {
        F32(self.0 / other.0)
    }

    fn negated(self) -> F32 {
        F32(-self.0)
    }

    fn exponential(self) -> F32 {
        F32(self.0.exp())
    }

    fn root(self) -> F32 {
        F32(self.0.sqrt())
    }

    fn larger(self, other: F32) -> F32 {
        F32(self.0.max(other.0))
    }

    fn limited(self, low: F32, high: F32) -> F32 {
        F32(self.0.clamp(low.0, high.0))
    }

    fn same(self, other: F32) -> bool {
        self.0 == other.0
    }

    fn less(self, other: F32) -> bool {
        self.0 < other.0
    }

    fn at_most(self, other: F32) -> bool {
        self.0 <= other.0
    }
}

impl Scalar for F32 {
    fn from_count(n: usize) -> F32 {
        F32(n as f32)
    }

    fn add(self, other: F32) -> F32 {
        F32(self.0 + other.0)
    }

    fn sub(self, other: F32) -> F32 {
        F32(self.0 - other.0)
    }

    fn mul(self, other: F32) -> F32 {
        F32(self.0 * other.0)
    }

    fn div(self, other: F32) -> F32 {
        F32(self.0 / other.0)
    }

    fn neg(self) -> F32 {
        F32(-self.0)
    }

    fn exp(self) -> F32 {
        F32(self.0.exp())
    }

    fn sqrt(self) -> F32 {
        F32(self.0.sqrt())
    }

    fn max(self, other: F32) -> F32 {
        F32(self.0.max(other.0))
    }

    fn clamp(self, low: F32, high: F32) -> F32 {
        F32(self.0.clamp(low.0, high.0))
    }

    fn is_same(self, other: F32) -> bool {
        self.0 == other.0
    }

    fn is_less(self, other: F32) -> bool {
        self.0 < other.0
    }

    fn is_at_most(self, other: F32) -> bool {
        self.0 <= other.0
    }
}

fn numbers(vals: &[f32]) -> Vec<F32> {
    vals.iter().map(|&v| F32(v)).collect()
}

const UNIT: (F32, F32) = (F32(0.0), F32(1.0));

#[test]
fn basis_zero_outside_support() {
    let (s_grid, e_grid) = make_relu_kan_grid(5, 3, UNIT);
    for (i, (s, e)) in s_grid.iter().zip(&e_grid).enumerate() {
        let (s, e) = (s.0, e.0);
        let just_below = eval_relu_kan_basis(F32(s - 1e-3), &s_grid, &e_grid);
        let just_above = eval_relu_kan_basis(F32(e + 1e-3), &s_grid, &e_grid);
        assert_eq!(just_below[i].0, 0.0, "basis {i} non-zero just below s={s}");
        assert_eq!(just_above[i].0, 0.0, "basis {i} non-zero just above e={e}");
    }
}

#[test]
fn basis_peak_one_at_midpoint() {
    let (s_grid, e_grid) = make_relu_kan_grid(5, 3, UNIT);
    for (i, (s, e)) in s_grid.iter().zip(&e_grid).enumerate() {
        let mid = 0.5 * (s.0 + e.0);
        let basis = eval_relu_kan_basis(F32(mid), &s_grid, &e_grid);
        assert!(
            (basis[i].0 - 1.0).abs() < 1e-5,
            "basis {i} peak at midpoint {mid}: got {}, want 1.0",
            basis[i].0
        );
    }
}

#[test]
fn basis_non_negative() {
    let (s_grid, e_grid) = make_relu_kan_grid(5, 3, UNIT);
    for &x in &[0.0, 0.1, 0.25, 0.4, 0.6, 0.9, 1.0] {
        let basis = eval_relu_kan_basis(F32(x), &s_grid, &e_grid);
        for (i, v) in basis.iter().enumerate() {
            let v = v.0;
            assert!(v >= 0.0, "negative basis value: R[{i}]({x}) = {v}");
        }
    }
}

#[test]
fn make_grid_correct_layout() {
    // s_i = (i - 3) / 5
    // e_i = s_i + 4 / 5
    let (s_grid, e_grid) = make_relu_kan_grid(5, 3, UNIT);
    assert_eq!(s_grid.len(), 8);
    assert_eq!(e_grid.len(), 8);
    for i in 0..8 {
        let s_expected = (i as f32 - 3.0) / 5.0;
        let e_expected = s_expected + 4.0 / 5.0;
        assert!((s_grid[i].0 - s_expected).abs() < 1e-6, "s[{i}] = {}", s_grid[i].0);
        assert!((e_grid[i].0 - e_expected).abs() < 1e-6, "e[{i}] = {}", e_grid[i].0);
    }
}

#[test]
fn relu_kan_lut_lut_matches_direct_evaluation() {
    // Only the first weight is on, so that the table holds R_0 at each sample
    // point.
    let in_features = 1;
    let out_features = 1;
    let grid_size = 5;
    let support_width = 3;
    let num_basis = grid_size + support_width;
    let num_samples = 32;

    let mut sw_vals = numbers(&vec![0.0f32; out_features * in_features * num_basis]);
    sw_vals[0] = F32(1.0);

    let lut = sample_relu_kan_lut(
        &sw_vals, in_features, out_features, grid_size, support_width, UNIT, UNIT, num_samples,
    );

    let (s_grid, e_grid) = make_relu_kan_grid(grid_size, support_width, UNIT);
    for k in 0..num_samples {
        let x = k as f32 / (num_samples - 1) as f32;
        let expected = eval_relu_kan_basis(F32(x), &s_grid, &e_grid)[0].0;
        let actual = lut[k].0;
        assert!(
            (actual - expected).abs() < 1e-6,
            "LUT mismatch at k={k}, x={x}: expected={expected}, actual={actual}"
        );
    }
}

#[test]
fn lut_reconstructs_weighted_sum() {
    // With every weight of one edge 1, the table holds the sum of all basis
    // values.
    let in_features = 2;
    let out_features = 1;
    let grid_size = 5;
    let support_width = 3;
    let num_basis = grid_size + support_width;
    let num_samples = 16;

    let mut sw_vals = numbers(&vec![0.0f32; out_features * in_features * num_basis]);
    // The weights of the second input stay zero.
    for b in 0..num_basis {
        let sw_idx = (0 * num_basis + b) * out_features + 0;
        sw_vals[sw_idx] = F32(1.0);
    }

    let lut = sample_relu_kan_lut(
        &sw_vals, in_features, out_features, grid_size, support_width, UNIT, UNIT, num_samples,
    );

    let (s_grid, e_grid) = make_relu_kan_grid(grid_size, support_width, UNIT);
    for k in 0..num_samples {
        let x = k as f32 / (num_samples - 1) as f32;
        let expected: f32 =
            eval_relu_kan_basis(F32(x), &s_grid, &e_grid).iter().map(|v| v.0).sum();
        let actual = lut[k * out_features].0;
        assert!(
            (actual - expected).abs() < 1e-5,
            "weighted-sum LUT mismatch at k={k}, x={x}: expected={expected}, actual={actual}"
        );

        let zero_actual = lut[1 * num_samples * out_features + k * out_features].0;
        assert_eq!(zero_actual, 0.0, "input-1 LUT non-zero at k={k}");
    }
}

#[test]
fn relu_kan_lut_lut_output_size() {
    let in_f = 4;
    let out_f = 2;
    let grid_size = 5;
    let support_width = 3;
    let num_basis = grid_size + support_width;
    let num_samples = 64;

    let sw_vals = numbers(&vec![0.0f32; out_f * in_f * num_basis]);
    let lut = sample_relu_kan_lut(
        &sw_vals, in_f, out_f, grid_size, support_width, UNIT, UNIT, num_samples,
    );
    assert_eq!(lut.len(), in_f * num_samples * out_f);
}

#[test]
fn negative_domain_grid() {
    // The supports span the domain symmetrically, and some basis function is not
    // zero in the middle.
    let (s_grid, e_grid) = make_relu_kan_grid(5, 3, (F32(-1.0), F32(1.0)));
    let basis = eval_relu_kan_basis(F32(0.0), &s_grid, &e_grid);
    let total: f32 = basis.iter().map(|v| v.0).sum();
    assert!(total > 0.0, "no basis active at x=0 for grid (-1, 1)");
}

#[test]
fn table_layout_is_input_sample_output() {
    // One support (0, 1) that is sampled in its middle.
    let sw = numbers(&[1.0, 2.0, 3.0, 4.0]);
    let middle = (F32(0.5), F32(0.5));
    let lut = sample_relu_kan_lut(&sw, 2, 2, 1, 0, UNIT, middle, 2);
    assert_eq!(lut, numbers(&[1.0, 2.0, 1.0, 2.0, 3.0, 4.0, 3.0, 4.0]));
}

#[test]
fn single_buffer_grid_has_starts_before_ends() {
    let (s_grid, e_grid) = make_relu_kan_grid(4, 2, (F32(-2.0), F32(2.0)));
    let grid = make_support_grid(4, 2, (F32(-2.0), F32(2.0)));
    assert_eq!(grid.len(), 12);
    for i in 0..6 {
        assert_eq!(grid[i], s_grid[i]);
        assert_eq!(grid[6 + i], e_grid[i]);
    }
    assert_eq!(s_grid, numbers(&[-4.0, -3.0, -2.0, -1.0, 0.0, 1.0]));
    assert_eq!(e_grid, numbers(&[-1.0, 0.0, 1.0, 2.0, 3.0, 4.0]));
}

#[test]
fn quarter_of_a_tabled_bump() {
    let values = eval_relu_kan_basis(F32(0.25), &numbers(&[0.0, 0.25]), &numbers(&[1.0, 0.25]));
    assert_eq!(values, numbers(&[0.5625, 0.0]));
}

#[test]
fn sum_of_entries_is_the_relu_kan_layer() {
    let range = (F32(-1.0), F32(1.0));
    let (grid_size, support_width, samples) = (3, 2, 5);
    let width = grid_size + support_width;
    let sw: Vec<f32> = (0..2 * width * 2).map(|c| (c as f32 - 9.0) / 4.0).collect();
    let lut =
        sample_relu_kan_lut(&numbers(&sw), 2, 2, grid_size, support_width, range, range, samples);
    let (s_grid, e_grid) = make_relu_kan_grid(grid_size, support_width, range);
    let choice = [1, 4];
    for j in 0..2 {
        let mut direct = 0.0f32;
        let mut looked_up = 0.0f32;
        for i in 0..2 {
            let x = F32(-1.0 + 2.0 * choice[i] as f32 / (samples - 1) as f32);
            for (b, v) in eval_relu_kan_basis(x, &s_grid, &e_grid).iter().enumerate() {
                direct += sw[(i * width + b) * 2 + j] * v.0;
            }
            looked_up += lut[(i * samples + choice[i]) * 2 + j].0;
        }
        assert!((direct - looked_up).abs() < 1e-5, "{direct} and {looked_up}");
    }
}

#[test]
fn bumps_stay_between_zero_and_one() {
    let (s_grid, e_grid) = make_relu_kan_grid(5, 3, UNIT);
    for step in 0..=100 {
        let x = step as f32 / 100.0;
        let values = eval_relu_kan_basis(F32(x), &s_grid, &e_grid);
        assert!(values.iter().all(|v| 0.0 <= v.0 && v.0 <= 1.0 + 1e-5));
        assert!(values.iter().any(|v| v.0 > 0.0));
        assert!(values.iter().filter(|v| v.0 > 0.0).count() <= 4);
    }
}
