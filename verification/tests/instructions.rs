use bullet_kan::device::cpu::CpuThread;
use bullet_kan::device::function::{
    BSplineBasisBwd, BSplineBasisFwd, ReluKanBasisBwd, ReluKanBasisFwd,
};
use bullet_kan::device::operation::{BSplineOps, ReluKanOps};
use bullet_kan::device::{Device, OperationError};
use bullet_kan::graph::{Graph, GraphNodeIdTy, GraphTensor, NodeId};
use bullet_kan::scalar::{Algebra, Scalar};
use bullet_kan::tensor::{Tensor, TensorRef};

#[derive(Clone, Copy, Debug, PartialEq, PartialOrd)]
struct F32(f32);

impl Algebra for F32 {
    fn of_count(n: usize) -> F32 {
        F32(n as f32)
    }

    fn plus(self, other: F32) -> F32 {
        F32(self.0 + other.0)
    }

    fn minus(self, other: F32) -> F32 {
        F32(self.0 - other.0)
    }

    fn times(self, other: F32) -> F32 {
        F32(self.0 * other.0)
    }

    fn over(self, other: F32) -> F32 {
        F32(self.0 / other.0)
    }

    fn negated(self) -> F32 {
        F32(-self.0)
    }

    fn exponential(self) -> F32 {
        F32(self.0.exp())
    }

    fn root(self) -> F32 {
        F32(self.0.sqrt())
    }

    fn larger(self, other: F32) -> F32 {
        F32(self.0.max(other.0))
    }

    fn limited(self, low: F32, high: F32) -> F32 {
        F32(self.0.clamp(low.0, high.0))
    }

    fn same(self, other: F32) -> bool {
        self.0 == other.0
    }

    fn less(self, other: F32) -> bool {
        self.0 < other.0
    }

    fn at_most(self, other: F32) -> bool {
        self.0 <= other.0
    }
}

impl Scalar for F32 {
    fn from_count(n: usize) -> F32 {
        F32(n as f32)
    }

    fn add(self, other: F32) -> F32 {
        F32(self.0 + other.0)
    }

    fn sub(self, other: F32) -> F32 {
        F32(self.0 - other.0)
    }

    fn mul(self, other: F32) -> F32 {
        F32(self.0 * other.0)
    }

    fn div(self, other: F32) -> F32 {
        F32(self.0 / other.0)
    }

    fn neg(self) -> F32 {
        F32(-self.0)
    }

    fn exp(self) -> F32 {
        F32(self.0.exp())
    }

    fn sqrt(self) -> F32 {
        F32(self.0.sqrt())
    }

    fn max(self, other: F32) -> F32 {
        F32(self.0.max(other.0))
    }

    fn clamp(self, low: F32, high: F32) -> F32 {
        F32(self.0.clamp(low.0, high.0))
    }

    fn is_same(self, other: F32) -> bool {
        self.0 == other.0
    }

    fn is_less(self, other: F32) -> bool {
        self.0 < other.0
    }

    fn is_at_most(self, other: F32) -> bool {
        self.0 <= other.0
    }
}

fn numbers(vals: &[f32]) -> Vec<F32> {
    vals.iter().map(|&v| F32(v)).collect()
}

fn memory(tensors: Vec<(Option<usize>, Vec<f32>)>) -> Graph<F32> {
    let mut entries = Vec::new();
    for (i, (batch_size, vals)) in tensors.into_iter().enumerate() {
        entries.push(GraphTensor {
            id: NodeId(i),
            ty: GraphNodeIdTy::Values,
            tensor: Tensor { batch_size, buf: numbers(&vals) },
        });
    }
    Graph { entries }
}

fn at(slot: usize) -> TensorRef {
    TensorRef { slot }
}

fn spline_fwd() -> BSplineBasisFwd {
    BSplineBasisFwd {
        input: at(0),
        grid: at(1),
        output: at(2),
        in_features: 1,
        grid_size: 2,
        spline_order: 1,
    }
}

fn spline_bwd() -> BSplineBasisBwd {
    BSplineBasisBwd {
        input: at(0),
        grid: at(1),
        output_grad: at(2),
        input_grad: at(3),
        in_features: 1,
        grid_size: 2,
        spline_order: 1,
    }
}

fn bump_fwd() -> ReluKanBasisFwd {
    ReluKanBasisFwd {
        input: at(0),
        grid: at(1),
        output: at(2),
        in_features: 1,
        grid_size: 1,
        support_width: 0,
    }
}

fn bump_bwd() -> ReluKanBasisBwd {
    ReluKanBasisBwd {
        input: at(0),
        grid: at(1),
        output_grad: at(2),
        input_grad: at(3),
        in_features: 1,
        grid_size: 1,
        support_width: 0,
    }
}

const KNOTS: [f32; 5] = [-0.5, 0.0, 0.5, 1.0, 1.5];

#[test]
fn instruction_names() {
    assert_eq!(spline_fwd().opname(), "BSplineBasisFwd(in=1, grid=2, order=1)");
    assert_eq!(spline_bwd().opname(), "BSplineBasisBwd(in=1, grid=2, order=1)");
    assert_eq!(bump_fwd().opname(), "ReluKanBasisFwd(in=1, grid=1, k=0)");
    assert_eq!(bump_bwd().opname(), "ReluKanBasisBwd(in=1, grid=1, k=0)");
    let wide = ReluKanBasisFwd { in_features: 2048, grid_size: 105, support_width: 30, ..bump_fwd() };
    assert_eq!(wide.opname(), "ReluKanBasisFwd(in=2048, grid=105, k=30)");
}

#[test]
fn spline_instruction_evaluates_a_batch() {
    let mut graph = memory(vec![
        (Some(2), vec![0.25, 0.5]),
        (None, KNOTS.to_vec()),
        (Some(2), vec![9.0; 6]),
    ]);
    let r = spline_fwd().execute::<F32, CpuThread>(&mut graph);
    assert!(r.is_ok());
    assert_eq!(graph.entries[2].tensor.buf, numbers(&[0.5, 0.5, 0.0, 0.0, 1.0, 0.0]));
    assert_eq!(graph.entries[2].tensor.batch_size, Some(2));
    assert_eq!(graph.entries[0].tensor.buf, numbers(&[0.25, 0.5]));
    assert_eq!(graph.entries[1].tensor.buf, numbers(&KNOTS));
}

#[test]
fn without_a_batch_there_is_one_matrix() {
    let mut graph = memory(vec![
        (None, vec![0.25]),
        (None, KNOTS.to_vec()),
        (None, vec![0.0; 3]),
    ]);
    assert!(spline_fwd().execute::<F32, CpuThread>(&mut graph).is_ok());
    assert_eq!(graph.entries[2].tensor.buf, numbers(&[0.5, 0.5, 0.0]));
}

#[test]
fn spline_instruction_carries_gradients_back() {
    let mut graph = memory(vec![
        (Some(1), vec![0.25]),
        (None, KNOTS.to_vec()),
        (Some(1), vec![3.0, 1.0, 7.0]),
        (Some(1), vec![1.0]),
    ]);
    assert!(spline_bwd().execute::<F32, CpuThread>(&mut graph).is_ok());
    assert_eq!(graph.entries[3].tensor.buf, numbers(&[-3.0]));
}

#[test]
fn bump_instruction_evaluates_and_carries_back() {
    let mut graph = memory(vec![
        (Some(2), vec![0.25, 0.5]),
        (None, vec![0.0, 1.0]),
        (Some(2), vec![0.0, 0.0]),
    ]);
    assert!(bump_fwd().execute::<F32, CpuThread>(&mut graph).is_ok());
    assert_eq!(graph.entries[2].tensor.buf, numbers(&[0.5625, 1.0]));

    let mut graph = memory(vec![
        (Some(2), vec![0.25, 0.5]),
        (None, vec![0.0, 1.0]),
        (Some(2), vec![2.0, 2.0]),
        (Some(2), vec![0.0, 0.5]),
    ]);
    assert!(bump_bwd().execute::<F32, CpuThread>(&mut graph).is_ok());
    assert_eq!(graph.entries[3].tensor.buf, numbers(&[6.0, 0.5]));
}

#[test]
fn batch_sizes_must_agree() {
    let mut graph = memory(vec![
        (Some(2), vec![0.25, 0.5]),
        (None, KNOTS.to_vec()),
        (Some(1), vec![9.0; 6]),
    ]);
    let r = spline_fwd().execute::<F32, CpuThread>(&mut graph);
    assert!(matches!(r, Err(OperationError::MismatchedBatchSizes)));
    assert_eq!(graph.entries[2].tensor.buf, numbers(&[9.0; 6]));
    let r = bump_fwd().execute::<F32, CpuThread>(&mut graph);
    assert!(matches!(r, Err(OperationError::MismatchedBatchSizes)));

    for (output, input) in [(Some(1), Some(2)), (Some(2), Some(1)), (None, Some(2))] {
        let mut graph = memory(vec![
            (Some(2), vec![0.25, 0.5]),
            (None, KNOTS.to_vec()),
            (output, vec![1.0; 6]),
            (input, vec![4.0; 2]),
        ]);
        let r = spline_bwd().execute::<F32, CpuThread>(&mut graph);
        assert!(matches!(r, Err(OperationError::MismatchedBatchSizes)));
        let r = bump_bwd().execute::<F32, CpuThread>(&mut graph);
        assert!(matches!(r, Err(OperationError::MismatchedBatchSizes)));
        assert_eq!(graph.entries[3].tensor.buf, numbers(&[4.0; 2]));
    }
}

/// A device that reports an error whatever it is asked to do.
struct Broken;

impl Device for Broken {
    type DeviceError = u8;

    fn never_fails() -> bool {
        false
    }
}

impl BSplineOps<F32> for Broken {
    fn bspline_basis_fwd(
        _: usize,
        _: usize,
        _: usize,
        _: usize,
        _: &Vec<F32>,
        _: &Vec<F32>,
        _: &mut Vec<F32>,
    ) -> Result<(), OperationError<u8>> {
        Err(OperationError::DeviceError(1))
    }

    fn bspline_basis_bwd(
        _: usize,
        _: usize,
        _: usize,
        _: usize,
        _: &Vec<F32>,
        _: &Vec<F32>,
        _: &Vec<F32>,
        _: &mut Vec<F32>,
    ) -> Result<(), OperationError<u8>> {
        Err(OperationError::DeviceError(2))
    }
}

impl ReluKanOps<F32> for Broken {
    fn relu_kan_basis_fwd(
        _: usize,
        _: usize,
        _: usize,
        _: usize,
        _: &Vec<F32>,
        _: &Vec<F32>,
        _: &mut Vec<F32>,
    ) -> Result<(), OperationError<u8>> {
        Err(OperationError::DeviceError(3))
    }

    fn relu_kan_basis_bwd(
        _: usize,
        _: usize,
        _: usize,
        _: usize,
        _: &Vec<F32>,
        _: &Vec<F32>,
        _: &Vec<F32>,
        _: &mut Vec<F32>,
    ) -> Result<(), OperationError<u8>> {
        Err(OperationError::DeviceError(4))
    }
}

#[test]
fn device_errors_leave_the_buffers_in_place() {
    let mut graph = memory(vec![
        (None, vec![0.25]),
        (None, KNOTS.to_vec()),
        (None, vec![1.0, 2.0, 3.0]),
        (None, vec![4.0]),
    ]);
    let r = spline_fwd().execute::<F32, Broken>(&mut graph);
    assert!(matches!(r, Err(OperationError::DeviceError(1))));
    let r = spline_bwd().execute::<F32, Broken>(&mut graph);
    assert!(matches!(r, Err(OperationError::DeviceError(2))));
    let r = bump_fwd().execute::<F32, Broken>(&mut graph);
    assert!(matches!(r, Err(OperationError::DeviceError(3))));
    let r = bump_bwd().execute::<F32, Broken>(&mut graph);
    assert!(matches!(r, Err(OperationError::DeviceError(4))));
    assert_eq!(graph.entries[2].tensor.buf, numbers(&[1.0, 2.0, 3.0]));
    assert_eq!(graph.entries[3].tensor.buf, numbers(&[4.0]));
}
