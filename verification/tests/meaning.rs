use bullet_kan::cuda::kan::FuseKanLayer;
use bullet_kan::device::cpu::CpuThread;
use bullet_kan::device::operation::bspline::BSplineOps;
use bullet_kan::graph::builder::GraphBuilder;
use bullet_kan::graph::ir::operation::{DiffableFromOutput, Operation, UnaryOp};
use bullet_kan::graph::ir::GraphIR;
use bullet_kan::nn::activation::Silu;
use bullet_kan::nn::kan::kan_layer;
use bullet_kan::nn::kan_lut::{sample_kan_lut, silu};
use bullet_kan::scalar::{Algebra, Scalar};
use bullet_kan::tensor::Shape;

#[derive(Clone, Copy, Debug, PartialEq, PartialOrd)]
struct F32(f32);

impl Algebra for F32 {
    fn of_count(n: usize) -> F32 {
        F32(n as f32)
    }

    fn plus(self, other: F32) -> F32 {
        F32(self.0 + other.0)
    }

    fn minus(self, other: F32) -> F32 {
        F32(self.0 - other.0)
    }

    fn times(self, other: F32) -> F32 {
        F32(self.0 * other.0)
    }

    fn over(self, other: F32) -> F32 {
        F32(self.0 / other.0)
    }

    fn negated(self) -> F32 {
        F32(-self.0)
    }

    fn exponential(self) -> F32 {
        F32(self.0.exp())
    }

    fn root(self) -> F32 {
        F32(self.0.sqrt())
    }

    fn larger(self, other: F32) -> F32 {
        F32(self.0.max(other.0))
    }

    fn limited(self, low: F32, high: F32) -> F32 {
        F32(self.0.clamp(low.0, high.0))
    }

    fn same(self, other: F32) -> bool {
        self.0 == other.0
    }

    fn less(self, other: F32) -> bool {
        self.0 < other.0
    }

    fn at_most(self, other: F32) -> bool {
        self.0 <= other.0
    }
}

impl Scalar for F32 {
    fn from_count(n: usize) -> F32 {
        F32(n as f32)
    }

    fn add(self, other: F32) -> F32 {
        F32(self.0 + other.0)
    }

    fn sub(self, other: F32) -> F32 {
        F32(self.0 - other.0)
    }

    fn mul(self, other: F32) -> F32 {
        F32(self.0 * other.0)
    }

    fn div(self, other: F32) -> F32 {
        F32(self.0 / other.0)
    }

    fn neg(self) -> F32 {
        F32(-self.0)
    }

    fn exp(self) -> F32 {
        F32(self.0.exp())
    }

    fn sqrt(self) -> F32 {
        F32(self.0.sqrt())
    }

    fn max(self, other: F32) -> F32 {
        F32(self.0.max(other.0))
    }

    fn clamp(self, low: F32, high: F32) -> F32 {
        F32(self.0.clamp(low.0, high.0))
    }

    fn is_same(self, other: F32) -> bool {
        self.0 == other.0
    }

    fn is_less(self, other: F32) -> bool {
        self.0 < other.0
    }

    fn is_at_most(self, other: F32) -> bool {
        self.0 <= other.0
    }
}

fn numbers(vals: &[f32]) -> Vec<F32> {
    vals.iter().map(|&v| F32(v)).collect()
}

fn basis(x: &Vec<F32>, grid: &Vec<F32>, grid_size: usize, order: usize) -> Vec<F32> {
    let mut out = numbers(&vec![0.0; x.len() * (grid_size + order)]);
    CpuThread::bspline_basis_fwd(1, x.len(), grid_size, order, x, grid, &mut out).unwrap();
    out
}

fn times(rows: usize, m: &Vec<F32>, v: &Vec<F32>) -> Vec<F32> {
    let mut out = numbers(&vec![0.0; rows]);
    for (c, x) in v.iter().enumerate() {
        for r in 0..rows {
            out[r] = F32(out[r].0 + m[c * rows + r].0 * x.0);
        }
    }
    out
}

fn sigmoid(x: F32) -> F32 {
    F32(1.0 / (1.0 + (-x.0).exp()))
}

/// The values of all nodes, for one element of the batch.
fn evaluate(ir: &GraphIR<F32>, leaves: &Vec<Vec<F32>>) -> Vec<Vec<F32>> {
    let mut all: Vec<Vec<F32>> = Vec::new();
    for (i, node) in ir.nodes.iter().enumerate() {
        let value = match &node.op {
            Operation::Input | Operation::Weights => leaves[i].clone(),
            Operation::Constant(vals) => vals.clone(),
            Operation::Matmul(op) => times(op.a.shape.rows, &all[op.a.idx.0], &all[op.b.idx.0]),
            Operation::LinearCombination(op) => {
                let mut sum = numbers(&vec![0.0; op.shape.rows]);
                for (id, weight) in &op.items {
                    for (s, v) in sum.iter_mut().zip(&all[id.0]) {
                        *s = F32(s.0 + weight.0 * v.0);
                    }
                }
                sum
            }
            Operation::PairwiseMul(op) => {
                let v = &all[op.input.idx.0];
                let half = v.len() / 2;
                (0..half).map(|n| F32(v[n].0 * v[half + n].0)).collect()
            }
            Operation::Concat(op) => {
                let mut both = all[op.a.idx.0].clone();
                both.extend(all[op.b.idx.0].iter());
                both
            }
            Operation::Unary(op) => match op.op {
                UnaryOp::DiffableFromOutput(DiffableFromOutput::Sigmoid) => {
                    all[op.input.idx.0].iter().map(|&x| sigmoid(x)).collect()
                }
                _ => panic!("another function"),
            },
            Operation::BSplineBasis(op) => {
                basis(&all[op.input.idx.0], &all[op.grid.idx.0], op.grid_size, op.spline_order)
            }
            Operation::FusedKanLayer(op) => {
                let x = &all[op.input.idx.0];
                let values = basis(x, &all[op.grid.idx.0], op.grid_size, op.spline_order);
                let gated: Vec<F32> = x.iter().map(|&x| F32(x.0 * sigmoid(x).0)).collect();
                let rows = op.spline_weight.shape.rows;
                let spline = times(rows, &all[op.spline_weight.idx.0], &values);
                let base = times(rows, &all[op.base_weight.idx.0], &gated);
                (0..rows).map(|n| F32(spline[n].0 + base[n].0)).collect()
            }
            Operation::ReluKanBasis(_) => panic!("another layer"),
        };
        all.push(value);
    }
    all
}

#[test]
fn fusing_keeps_the_values() {
    let range = (F32(-1.0), F32(1.0));
    let mut builder = GraphBuilder::new();
    let layer = kan_layer(&mut builder, "kan1", 2, 3, 4, 2, range, true);
    let input = builder.new_dense_input(Shape::new(2, 1));
    let out = layer.forward(&mut builder, input, Silu);

    let mut leaves = vec![Vec::new(); builder.ir.nodes.len()];
    leaves[input.idx.0] = numbers(&[-0.3, 0.6]);
    let sw: Vec<f32> = (0..36).map(|n| (n % 7) as f32 - 3.0).collect();
    let bw: Vec<f32> = (0..6).map(|n| n as f32 / 2.0 - 1.0).collect();
    leaves[layer.spline_weight.idx.0] = numbers(&sw);
    leaves[layer.base_weight.unwrap().idx.0] = numbers(&bw);

    let before = evaluate(&builder.ir, &leaves);
    assert_eq!(FuseKanLayer.try_pass_on_node(&mut builder.ir, out.idx), Ok(true));
    let after = evaluate(&builder.ir, &leaves);
    assert_eq!(before.len(), after.len());
    for (b, a) in before.iter().zip(&after) {
        assert_eq!(b.len(), a.len());
        for (b, a) in b.iter().zip(a) {
            assert!((b.0 - a.0).abs() < 1e-5, "{} and {}", b.0, a.0);
        }
    }
    assert!(after[out.idx.0].iter().any(|v| v.0.abs() > 0.1));

    // A table that is sampled at the two inputs holds the parts of the output.
    for (j, expected) in after[out.idx.0].iter().enumerate() {
        let mut sum = 0.0;
        for (i, x) in leaves[input.idx.0].iter().enumerate() {
            let lut =
                sample_kan_lut(&numbers(&sw), &numbers(&bw), 2, 3, 4, 2, range, (*x, *x), 1);
            sum += lut[j * 2 + i].0;
        }
        assert!((sum - expected.0).abs() < 1e-5);
    }
}

#[test]
fn silu_is_x_times_sigmoid() {
    for x in [-5.0, -1.0, 0.0, 0.5, 3.0] {
        let x = F32(x);
        assert!((silu(x).0 - x.0 * sigmoid(x).0).abs() < 1e-6);
    }
}
