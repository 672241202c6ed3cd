use bullet_kan::basis::spline::{cox_de_boor, cox_de_boor_slopes};
use bullet_kan::device::cpu::CpuThread;
use bullet_kan::device::operation::bspline::BSplineOps;
use bullet_kan::nn::grid::make_grid;
use bullet_kan::scalar::{Algebra, Scalar};

#[derive(Clone, Copy, Debug, PartialEq, PartialOrd)]
struct F32(f32);

impl Algebra for F32 {
    fn of_count(n: usize) -> F32 {
        F32(n as f32)
    }

    fn plus(self, other: F32) -> F32 {
        F32(self.0 + other.0)
    }

    fn minus(self, other: F32) -> F32 {
        F32(self.0 - other.0)
    }

    fn times(self, other: F32) -> F32 {
        F32(self.0 * other.0)
    }

    fn over(self, other: F32) -> F32 {
        F32(self.0 / other.0)
    }

    fn negated(self) -> F32 {
        F32(-self.0)
    }

    fn exponential(self) -> F32 {
        F32(self.0.exp())
    }

    fn root(self) -> F32 {
        F32(self.0.sqrt())
    }

    fn larger(self, other: F32) -> F32 {
        F32(self.0.max(other.0))
    }

    fn limited(self, low: F32, high: F32) -> F32 {
        F32(self.0.clamp(low.0, high.0))
    }

    fn same(self, other: F32) -> bool {
        self.0 == other.0
    }

    fn less(self, other: F32) -> bool {
        self.0 < other.0
    }

    fn at_most(self, other: F32) -> bool {
        self.0 <= other.0
    }
}

impl Scalar for F32 {
    fn from_count(n: usize) -> F32 {
        F32(n as f32)
    }

    fn add(self, other: F32) -> F32 {
        F32(self.0 + other.0)
    }

    fn sub(self, other: F32) -> F32 {
        F32(self.0 - other.0)
    }

    fn mul(self, other: F32) -> F32 {
        F32(self.0 * other.0)
    }

    fn div(self, other: F32) -> F32 {
        F32(self.0 / other.0)
    }

    fn neg(self) -> F32 {
        F32(-self.0)
    }

    fn exp(self) -> F32 {
        F32(self.0.exp())
    }

    fn sqrt(self) -> F32 {
        F32(self.0.sqrt())
    }

    fn max(self, other: F32) -> F32 {
        F32(self.0.max(other.0))
    }

    fn clamp(self, low: F32, high: F32) -> F32 {
        F32(self.0.clamp(low.0, high.0))
    }

    fn is_same(self, other: F32) -> bool {
        self.0 == other.0
    }

    fn is_less(self, other: F32) -> bool {
        self.0 < other.0
    }

    fn is_at_most(self, other: F32) -> bool {
        self.0 <= other.0
    }
}

fn numbers(vals: &[f32]) -> Vec<F32> {
    vals.iter().map(|&v| F32(v)).collect()
}

const SYMMETRIC: (F32, F32) = (F32(-1.0), F32(1.0));

fn forward(x: f32, grid_size: usize, order: usize, grid: &Vec<F32>) -> Vec<f32> {
    let mut output = numbers(&vec![0.0; grid_size + order]);
    CpuThread::bspline_basis_fwd(1, 1, grid_size, order, &numbers(&[x]), grid, &mut output)
        .unwrap();
    output.iter().map(|v| v.0).collect()
}

#[test]
fn hats_on_the_device() {
    let grid = make_grid(2, 1, (F32(0.0), F32(1.0)));
    assert_eq!(forward(0.25, 2, 1, &grid), vec![0.5, 0.5, 0.0]);
    assert_eq!(forward(0.75, 2, 1, &grid), vec![0.0, 0.5, 0.5]);
}

#[test]
fn sums_to_one_on_the_range() {
    for order in 0..5 {
        let grid = make_grid(6, order, SYMMETRIC);
        for step in 0..=20 {
            let x = -1.0 + step as f32 / 10.0;
            let values = forward(x, 6, order, &grid);
            let sum: f32 = values.iter().sum();
            assert!((sum - 1.0).abs() < 1e-5, "order {order}, x={x}: {sum}");
            assert!(values.iter().all(|v| *v >= -1e-6), "order {order}, x={x}");
        }
    }
}

#[test]
fn zero_outside_of_all_knots() {
    let grid = make_grid(4, 2, SYMMETRIC);
    assert_eq!(forward(-9.0, 4, 2, &grid), vec![0.0; 6]);
    // From the last knot on, the last function of degree zero is one. The ones
    // of higher degree that are made from it can be negative there.
    let beyond = forward(9.0, 4, 2, &grid);
    assert_eq!(beyond[..5], [0.0; 5]);
}

#[test]
fn quadratic_in_the_middle() {
    // Uniform quadratic splines are 1/8, 3/4 and 1/8 in the middle of an interval.
    let grid = make_grid(1, 2, (F32(0.0), F32(1.0)));
    assert_eq!(forward(0.5, 1, 2, &grid), vec![0.125, 0.75, 0.125]);
}

#[test]
fn spline_batch_is_pointwise() {
    let grid = make_grid(3, 2, SYMMETRIC);
    let points = [-0.9, -0.1, 0.0, 0.4, 0.8, 1.0];
    let mut output = numbers(&vec![4.0; 6 * 5 + 2]);
    CpuThread::bspline_basis_fwd(2, 3, 3, 2, &numbers(&points), &grid, &mut output).unwrap();
    for (q, &x) in points.iter().enumerate() {
        let own = forward(x, 3, 2, &grid);
        for b in 0..5 {
            assert_eq!(output[q * 5 + b].0, own[b]);
        }
    }
    assert_eq!(output[30..], numbers(&[4.0, 4.0])[..]);
}

#[test]
fn knots_that_coincide() {
    // Four knots at each end: Bernstein polynomials.
    let grid = numbers(&[0.0, 0.0, 0.0, 0.0, 1.0, 1.0, 1.0, 1.0]);
    assert_eq!(forward(0.5, 1, 3, &grid), vec![0.125, 0.375, 0.375, 0.125]);
}

#[test]
fn spline_gradient_matches_differences() {
    let (grid_size, order) = (5, 3);
    let grid = make_grid(grid_size, order, SYMMETRIC);
    let eps = 1e-3;
    let weights: Vec<f32> = (0..grid_size + order).map(|i| (i as f32 + 1.0) / 8.0).collect();
    for &x in &[-0.85, -0.5, -0.1, 0.25, 0.7] {
        let plus = forward(x + eps, grid_size, order, &grid);
        let minus = forward(x - eps, grid_size, order, &grid);
        let numerical: f32 =
            (0..grid_size + order).map(|i| weights[i] * (plus[i] - minus[i]) / (2.0 * eps)).sum();
        let mut input_grad = numbers(&[0.0]);
        CpuThread::bspline_basis_bwd(
            1,
            1,
            grid_size,
            order,
            &numbers(&[x]),
            &grid,
            &numbers(&weights),
            &mut input_grad,
        )
        .unwrap();
        assert!((input_grad[0].0 - numerical).abs() < 2e-3, "x={x}: {} {numerical}", input_grad[0].0);
    }
}

#[test]
fn hat_slopes_are_exact() {
    let grid = make_grid(2, 1, (F32(0.0), F32(1.0)));
    let mut input_grad = numbers(&[100.0, 5.0]);
    CpuThread::bspline_basis_bwd(
        1,
        1,
        2,
        1,
        &numbers(&[0.25]),
        &grid,
        &numbers(&[3.0, 1.0, 7.0]),
        &mut input_grad,
    )
    .unwrap();
    // The slopes are -2, 2 and 0.
    assert_eq!(input_grad, numbers(&[96.0, 5.0]));
}

#[test]
fn order_zero_has_no_gradient() {
    let grid = make_grid(3, 0, SYMMETRIC);
    let mut input_grad = numbers(&[1.5]);
    CpuThread::bspline_basis_bwd(
        1,
        1,
        3,
        0,
        &numbers(&[0.2]),
        &grid,
        &numbers(&[1.0, 1.0, 1.0]),
        &mut input_grad,
    )
    .unwrap();
    assert_eq!(input_grad, numbers(&[1.5]));
}

#[test]
fn slopes_sum_to_zero() {
    let grid = make_grid(5, 3, SYMMETRIC);
    let slopes = cox_de_boor_slopes(F32(0.3), &grid, 11, 3);
    let sum: f32 = slopes.iter().map(|s| s.0).sum();
    assert_eq!(slopes.len(), 8);
    assert!(sum.abs() < 1e-5);
}

#[test]
fn slopes_are_continuous_from_degree_two_on() {
    let grid = make_grid(5, 3, SYMMETRIC);
    for degree in 2..=3 {
        for j in 1..11 {
            let x = grid[j].0;
            let at = cox_de_boor_slopes(F32(x), &grid, 11, degree);
            let left = cox_de_boor_slopes(F32(x - 1e-4), &grid, 11, degree);
            let right = cox_de_boor_slopes(F32(x + 1e-4), &grid, 11, degree);
            for i in 0..at.len() {
                assert!((at[i].0 - left[i].0).abs() < 1e-2);
                assert!((at[i].0 - right[i].0).abs() < 1e-2);
            }
        }
    }
}

#[test]
fn the_last_function_goes_on_behind_the_end() {
    // Over the knots 0, 1, 2, the hat is x up to 1 and 2 - x from there on.
    let grid = numbers(&[0.0, 1.0, 2.0]);
    assert_eq!(cox_de_boor(F32(2.0), &grid, 2, 1), numbers(&[0.0]));
    assert_eq!(cox_de_boor(F32(3.0), &grid, 2, 1), numbers(&[-1.0]));
    assert_eq!(cox_de_boor_slopes(F32(3.0), &grid, 2, 1), numbers(&[-1.0]));
}

#[test]
fn lower_degrees_over_the_same_knots() {
    let grid = numbers(&[0.0, 1.0, 2.0, 3.0]);
    assert_eq!(cox_de_boor(F32(1.5), &grid, 3, 0), numbers(&[0.0, 1.0, 0.0]));
    assert_eq!(cox_de_boor(F32(1.5), &grid, 3, 1), numbers(&[0.5, 0.5]));
    assert_eq!(cox_de_boor(F32(1.5), &grid, 3, 2), numbers(&[0.75]));
}

#[test]
fn equal_gradients_cancel() {
    let (grid_size, order) = (4, 2);
    let grid = make_grid(grid_size, order, SYMMETRIC);
    let points = [-1.0, -0.6, 0.0, 0.3, 0.99, 1.0];
    for c in [1.0, -2.5] {
        let mut input_grad = numbers(&[0.25; 6]);
        CpuThread::bspline_basis_bwd(
            2,
            3,
            grid_size,
            order,
            &numbers(&points),
            &grid,
            &numbers(&[c; 36]),
            &mut input_grad,
        )
        .unwrap();
        for v in input_grad {
            assert!((v.0 - 0.25).abs() < 1e-4, "{}", v.0);
        }
    }
}
