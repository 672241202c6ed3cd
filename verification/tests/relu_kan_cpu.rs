use bullet_kan::device::cpu::CpuThread;
use bullet_kan::device::operation::relu_kan::ReluKanOps;
use bullet_kan::nn::grid::make_relu_kan_grid;
use bullet_kan::nn::relu_kan_lut::eval_relu_kan_basis;
use bullet_kan::scalar::{Algebra, Scalar};

#[derive(Clone, Copy, Debug, PartialEq, PartialOrd)]
struct F32(f32);

impl Algebra for F32 {
    fn of_count(n: usize) -> F32 {
        F32(n as f32)
    }

    fn plus(self, other: F32) -> F32 {
        F32(self.0 + other.0)
    }

    fn minus(self, other: F32) -> F32 {
        F32(self.0 - other.0)
    }

    fn times(self, other: F32) -> F32 {
        F32(self.0 * other.0)
    }

    fn over(self, other: F32) -> F32 {
        F32(self.0 / other.0)
    }

    fn negated(self) -> F32 {
        F32(-self.0)
    }

    fn exponential(self) -> F32 {
        F32(self.0.exp())
    }

    fn root(self) -> F32 {
        F32(self.0.sqrt())
    }

    fn larger(self, other: F32) -> F32 {
        F32(self.0.max(other.0))
    }

    fn limited(self, low: F32, high: F32) -> F32 {
        F32(self.0.clamp(low.0, high.0))
    }

    fn same(self, other: F32) -> bool {
        self.0 == other.0
    }

    fn less(self, other: F32) -> bool {
        self.0 < other.0
    }

    fn at_most(self, other: F32) -> bool {
        self.0 <= other.0
    }
}

impl Scalar for F32 {
    fn from_count(n: usize) -> F32 {
        F32(n as f32)
    }

    fn add(self, other: F32) -> F32 {
        F32(self.0 + other.0)
    }

    fn sub(self, other: F32) -> F32 {
        F32(self.0 - other.0)
    }

    fn mul(self, other: F32) -> F32 {
        F32(self.0 * other.0)
    }

    fn div(self, other: F32) -> F32 {
        F32(self.0 / other.0)
    }

    fn neg(self) -> F32 {
        F32(-self.0)
    }

    fn exp(self) -> F32 {
        F32(self.0.exp())
    }

    fn sqrt(self) -> F32 {
        F32(self.0.sqrt())
    }

    fn max(self, other: F32) -> F32 {
        F32(self.0.max(other.0))
    }

    fn clamp(self, low: F32, high: F32) -> F32 {
        F32(self.0.clamp(low.0, high.0))
    }

    fn is_same(self, other: F32) -> bool {
        self.0 == other.0
    }

    fn is_less(self, other: F32) -> bool {
        self.0 < other.0
    }

    fn is_at_most(self, other: F32) -> bool {
        self.0 <= other.0
    }
}

fn numbers(vals: &[f32]) -> Vec<F32> {
    vals.iter().map(|&v| F32(v)).collect()
}

/// The starts and ends of all supports for the domain [0, 1]:
/// `s_i = (i - k) / G`, `e_i = s_i + (k + 1) / G` for `i` in `0..G + k`.
fn make_grid_01(grid_size: usize, support_width: usize) -> Vec<f32> {
    let g = grid_size as f32;
    let k = support_width as f32;
    let num_basis = grid_size + support_width;
    let mut grid = Vec::with_capacity(2 * num_basis);
    for i in 0..num_basis {
        grid.push((i as f32 - k) / g);
    }
    for i in 0..num_basis {
        grid.push((i as f32 - k) / g + (k + 1.0) / g);
    }
    grid
}

#[test]
fn peak_at_support_midpoint() {
    // R_i is a symmetric bump around (s_i + e_i) / 2 that peaks at 1.
    let grid_size = 5;
    let support_width = 3;
    let num_basis = grid_size + support_width;

    let grid_vals = make_grid_01(grid_size, support_width);
    let grid = numbers(&grid_vals);

    for i in 0..num_basis {
        let s = grid_vals[i];
        let e = grid_vals[num_basis + i];
        let mid = 0.5 * (s + e);

        let input = numbers(&[mid]);
        let mut output = numbers(&vec![0.0; num_basis]);

        CpuThread::relu_kan_basis_fwd(1, 1, grid_size, support_width, &input, &grid, &mut output)
            .unwrap();

        assert!(
            (output[i].0 - 1.0).abs() < 1e-5,
            "R_{i} at midpoint {mid}: expected 1.0, got {}",
            output[i].0
        );
    }
}

#[test]
fn non_negative_and_zero_outside_support() {
    let grid_size = 5;
    let support_width = 3;
    let num_basis = grid_size + support_width;

    let grid_vals = make_grid_01(grid_size, support_width);
    let grid = numbers(&grid_vals);

    for &x in &[0.0, 0.1, 0.3, 0.5, 0.7, 0.9, 1.0] {
        let input = numbers(&[x]);
        let mut output = numbers(&vec![0.0; num_basis]);

        CpuThread::relu_kan_basis_fwd(1, 1, grid_size, support_width, &input, &grid, &mut output)
            .unwrap();

        for i in 0..num_basis {
            let s = grid_vals[i];
            let e = grid_vals[num_basis + i];
            let v = output[i].0;
            assert!(v >= 0.0, "Negative basis value at i={i}, x={x}: {v}");
            if x <= s || x >= e {
                assert!(
                    v.abs() < 1e-6,
                    "Nonzero basis outside support at i={i}, x={x}, (s,e)=({s},{e}): {v}"
                );
            }
        }
    }
}

#[test]
fn local_support() {
    // Supports are (k + 1) / G wide and 1 / G apart, so that at most k + 1 of
    // them overlap.
    let grid_size = 5;
    let support_width = 3;
    let num_basis = grid_size + support_width;

    let grid_vals = make_grid_01(grid_size, support_width);
    let grid = numbers(&grid_vals);

    for &x in &[0.05, 0.2, 0.45, 0.6, 0.8, 0.95] {
        let input = numbers(&[x]);
        let mut output = numbers(&vec![0.0; num_basis]);

        CpuThread::relu_kan_basis_fwd(1, 1, grid_size, support_width, &input, &grid, &mut output)
            .unwrap();

        let nonzero_count = output[..num_basis].iter().filter(|v| v.0 > 1e-10).count();
        assert!(
            nonzero_count <= support_width + 1,
            "Too many nonzero basis: {nonzero_count} > {} at x={x}",
            support_width + 1
        );
    }
}

#[test]
fn batched_multi_feature() {
    let grid_size = 5;
    let support_width = 3;
    let num_basis = grid_size + support_width;
    let in_features = 3;
    let batch_size = 2;

    let grid_vals = make_grid_01(grid_size, support_width);
    let grid = numbers(&grid_vals);

    let input_vals = [0.0, 0.5, 0.2, 0.3, 0.8, 0.9];
    let input = numbers(&input_vals);
    let mut output = numbers(&vec![0.0; batch_size * in_features * num_basis]);

    CpuThread::relu_kan_basis_fwd(
        batch_size,
        in_features,
        grid_size,
        support_width,
        &input,
        &grid,
        &mut output,
    )
    .unwrap();

    // A single feature at input_vals[5] = 0.9 gives the last slice of the batch.
    let probe_input = numbers(&[0.9]);
    let mut probe_out = numbers(&vec![0.0; num_basis]);
    CpuThread::relu_kan_basis_fwd(
        1,
        1,
        grid_size,
        support_width,
        &probe_input,
        &grid,
        &mut probe_out,
    )
    .unwrap();

    let last_offset = (batch_size - 1) * in_features * num_basis + (in_features - 1) * num_basis;
    for i in 0..num_basis {
        assert!(
            (output[last_offset + i].0 - probe_out[i].0).abs() < 1e-6,
            "Batched output mismatch at i={i}: {} vs {}",
            output[last_offset + i].0,
            probe_out[i].0
        );
    }
}

#[test]
fn gradient_finite_difference() {
    let grid_size = 5;
    let support_width = 3;
    let num_basis = grid_size + support_width;
    let eps = 1e-4;

    let grid_vals = make_grid_01(grid_size, support_width);
    let grid = numbers(&grid_vals);

    // Points inside of several supports, away from their ends.
    for &x in &[0.1, 0.25, 0.4, 0.55, 0.7, 0.85] {
        let input_plus = numbers(&[x + eps]);
        let input_minus = numbers(&[x - eps]);
        let mut out_plus = numbers(&vec![0.0; num_basis]);
        let mut out_minus = numbers(&vec![0.0; num_basis]);

        CpuThread::relu_kan_basis_fwd(
            1, 1, grid_size, support_width, &input_plus, &grid, &mut out_plus,
        )
        .unwrap();
        CpuThread::relu_kan_basis_fwd(
            1, 1, grid_size, support_width, &input_minus, &grid, &mut out_minus,
        )
        .unwrap();

        let mut numerical_grad = 0.0f32;
        let mut output_grad_vals = vec![0.0; num_basis];
        for i in 0..num_basis {
            output_grad_vals[i] = (i as f32 + 1.0) / num_basis as f32;
            numerical_grad +=
                output_grad_vals[i] * (out_plus[i].0 - out_minus[i].0) / (2.0 * eps);
        }

        let input = numbers(&[x]);
        let output_grad = numbers(&output_grad_vals);
        let mut input_grad = numbers(&[0.0]);

        CpuThread::relu_kan_basis_bwd(
            1,
            1,
            grid_size,
            support_width,
            &input,
            &grid,
            &output_grad,
            &mut input_grad,
        )
        .unwrap();

        let analytic_grad = input_grad[0].0;
        let rel_err = if numerical_grad.abs() > 1e-6 {
            (analytic_grad - numerical_grad).abs() / numerical_grad.abs()
        } else {
            (analytic_grad - numerical_grad).abs()
        };

        assert!(
            rel_err < 5e-3,
            "Gradient mismatch at x={x}: analytic={analytic_grad:.6}, numerical={numerical_grad:.6}, rel_err={rel_err:.6}"
        );
    }
}

#[test]
fn zero_gradient_outside_all_supports() {
    let grid_size = 5;
    let support_width = 3;
    let num_basis = grid_size + support_width;

    let grid_vals = make_grid_01(grid_size, support_width);
    let grid = numbers(&grid_vals);

    // Far outside of the grid, every basis function is flat.
    for &x in &[-5.0, 10.0] {
        let input = numbers(&[x]);
        let output_grad = numbers(&vec![1.0; num_basis]);
        let mut input_grad = numbers(&[0.0]);

        CpuThread::relu_kan_basis_bwd(
            1,
            1,
            grid_size,
            support_width,
            &input,
            &grid,
            &output_grad,
            &mut input_grad,
        )
        .unwrap();

        assert!(
            input_grad[0].0.abs() < 1e-6,
            "Nonzero gradient outside grid at x={x}: {}",
            input_grad[0].0
        );
    }
}

#[test]
fn forward_leaves_the_rest_of_the_buffer() {
    let grid = numbers(&make_grid_01(2, 1));
    let mut output = numbers(&[7.0; 5]);
    CpuThread::relu_kan_basis_fwd(1, 1, 2, 1, &numbers(&[0.5]), &grid, &mut output).unwrap();
    // The supports are (-0.5, 0.5), (0, 1) and (0.5, 1.5).
    assert_eq!(output, numbers(&[0.0, 1.0, 0.0, 7.0, 7.0]));
}

#[test]
fn quarter_of_a_support() {
    // (0.75 * 0.25)^2 * 16 = 0.5625 for a support of width one.
    let mut output = numbers(&[0.0]);
    CpuThread::relu_kan_basis_fwd(1, 1, 1, 0, &numbers(&[0.25]), &numbers(&[0.0, 1.0]), &mut output)
        .unwrap();
    assert_eq!(output[0].0, 0.5625);
}

#[test]
fn empty_support_contributes_nothing() {
    let mut output = numbers(&[9.0]);
    CpuThread::relu_kan_basis_fwd(1, 1, 1, 0, &numbers(&[0.5]), &numbers(&[0.5, 0.5]), &mut output)
        .unwrap();
    assert_eq!(output[0].0, 0.0);
    let mut input_grad = numbers(&[3.0]);
    CpuThread::relu_kan_basis_bwd(
        1,
        1,
        1,
        0,
        &numbers(&[0.5]),
        &numbers(&[0.5, 0.5]),
        &numbers(&[1.0]),
        &mut input_grad,
    )
    .unwrap();
    assert_eq!(input_grad[0].0, 3.0);
}

#[test]
fn backward_adds_to_what_is_there() {
    // The slope at 0.25 is 2 * 16 * 0.75 * 0.25 * 0.5 = 3.
    let mut input_grad = numbers(&[10.0, 1.0]);
    CpuThread::relu_kan_basis_bwd(
        1,
        1,
        1,
        0,
        &numbers(&[0.25]),
        &numbers(&[0.0, 1.0]),
        &numbers(&[2.0]),
        &mut input_grad,
    )
    .unwrap();
    assert_eq!(input_grad, numbers(&[16.0, 1.0]));
}

#[test]
fn bump_at_the_ends_of_its_support() {
    for &x in &[0.0, 1.0, -0.1, 1.1] {
        let mut output = numbers(&[5.0]);
        CpuThread::relu_kan_basis_fwd(
            1, 1, 1, 0, &numbers(&[x]), &numbers(&[0.0, 1.0]), &mut output,
        )
        .unwrap();
        assert_eq!(output[0].0, 0.0);
    }
}

#[test]
fn device_and_table_agree() {
    let (s_grid, e_grid) = make_relu_kan_grid(5, 3, (F32(0.0), F32(1.0)));
    let mut grid = s_grid.clone();
    grid.extend(e_grid.iter());
    for step in -2..=12 {
        let x = F32(step as f32 / 10.0);
        let mut output = numbers(&[0.0; 8]);
        CpuThread::relu_kan_basis_fwd(1, 1, 5, 3, &vec![x], &grid, &mut output).unwrap();
        let tabled = eval_relu_kan_basis(x, &s_grid, &e_grid);
        assert_eq!(tabled.len(), 8);
        for i in 0..8 {
            assert!((output[i].0 - tabled[i].0).abs() < 1e-5);
            if x.0 <= s_grid[i].0 || x.0 >= e_grid[i].0 {
                assert_eq!(tabled[i].0, 0.0);
            }
        }
    }
}
