use bullet_kan::cuda::kan::FusedKanLayer;
use bullet_kan::cuda::kernel::{Expr, Kernel, KernelInput};
use bullet_kan::device::function::{DeviceOp, MatmulType};
use bullet_kan::graph::ir::AnnotatedNode;
use bullet_kan::graph::{Graph, GraphNodeIdTy, GraphTensor, NodeId};
use bullet_kan::scalar::{Algebra, Scalar};
use bullet_kan::tensor::{Shape, Tensor};

#[derive(Clone, Copy, Debug, PartialEq, PartialOrd)]
struct F32(f32);

impl Algebra for F32 {
    fn of_count(n: usize) -> F32 {
        F32(n as f32)
    }

    fn plus(self, other: F32) -> F32 {
        F32(self.0 + other.0)
    }

    fn minus(self, other: F32) -> F32 {
        F32(self.0 - other.0)
    }

    fn times(self, other: F32) -> F32 {
        F32(self.0 * other.0)
    }

    fn over(self, other: F32) -> F32 {
        F32(self.0 / other.0)
    }

    fn negated(self) -> F32 {
        F32(-self.0)
    }

    fn exponential(self) -> F32 {
        F32(self.0.exp())
    }

    fn root(self) -> F32 {
        F32(self.0.sqrt())
    }

    fn larger(self, other: F32) -> F32 {
        F32(self.0.max(other.0))
    }

    fn limited(self, low: F32, high: F32) -> F32 {
        F32(self.0.clamp(low.0, high.0))
    }

    fn same(self, other: F32) -> bool {
        self.0 == other.0
    }

    fn less(self, other: F32) -> bool {
        self.0 < other.0
    }

    fn at_most(self, other: F32) -> bool {
        self.0 <= other.0
    }
}

impl Scalar for F32 {
    fn from_count(n: usize) -> F32 {
        F32(n as f32)
    }

    fn add(self, other: F32) -> F32 {
        F32(self.0 + other.0)
    }

    fn sub(self, other: F32) -> F32 {
        F32(self.0 - other.0)
    }

    fn mul(self, other: F32) -> F32 {
        F32(self.0 * other.0)
    }

    fn div(self, other: F32) -> F32 {
        F32(self.0 / other.0)
    }

    fn neg(self) -> F32 {
        F32(-self.0)
    }

    fn exp(self) -> F32 {
        F32(self.0.exp())
    }

    fn sqrt(self) -> F32 {
        F32(self.0.sqrt())
    }

    fn max(self, other: F32) -> F32 {
        F32(self.0.max(other.0))
    }

    fn clamp(self, low: F32, high: F32) -> F32 {
        F32(self.0.clamp(low.0, high.0))
    }

    fn is_same(self, other: F32) -> bool {
        self.0 == other.0
    }

    fn is_less(self, other: F32) -> bool {
        self.0 < other.0
    }

    fn is_at_most(self, other: F32) -> bool {
        self.0 <= other.0
    }
}

fn numbers(vals: &[f32]) -> Vec<F32> {
    vals.iter().map(|&v| F32(v)).collect()
}

fn node(idx: usize, rows: usize, cols: usize) -> AnnotatedNode {
    AnnotatedNode { idx: NodeId(idx), shape: Shape::new(rows, cols) }
}

fn layer(in_features: usize, out_features: usize) -> FusedKanLayer {
    FusedKanLayer {
        input: node(0, in_features, 1),
        grid: node(1, 12, 1),
        spline_weight: node(2, out_features, in_features * 8),
        base_weight: node(3, out_features, in_features),
        grid_size: 5,
        spline_order: 3,
    }
}

fn memory(tensors: &[(usize, GraphNodeIdTy)]) -> Graph<F32> {
    let mut entries = Vec::new();
    for &(id, ty) in tensors {
        entries.push(GraphTensor {
            id: NodeId(id),
            ty,
            tensor: Tensor { batch_size: None, buf: numbers(&[]) },
        });
    }
    Graph { entries }
}

fn full_memory() -> Graph<F32> {
    memory(&[
        (0, GraphNodeIdTy::Values),
        (1, GraphNodeIdTy::Values),
        (2, GraphNodeIdTy::Values),
        (3, GraphNodeIdTy::Values),
        (4, GraphNodeIdTy::Values),
        (4, GraphNodeIdTy::Ancillary(0)),
        (4, GraphNodeIdTy::Ancillary(1)),
        (4, GraphNodeIdTy::Gradients),
        (0, GraphNodeIdTy::Gradients),
        (2, GraphNodeIdTy::Gradients),
        (3, GraphNodeIdTy::Gradients),
    ])
}

fn value(expr: &Expr, batch: i64) -> i64 {
    match expr {
        Expr::Var => batch,
        Expr::Const(c) => *c as i64,
        Expr::Add(a, b) => value(a, batch) + value(b, batch),
        Expr::Sub(a, b) => value(a, batch) - value(b, batch),
        Expr::Div(a, b) => value(a, batch) / value(b, batch),
        Expr::Min(a, b) => value(a, batch).min(value(b, batch)),
    }
}

fn kernel(op: &DeviceOp<F32>) -> &Kernel {
    match op {
        DeviceOp::Kernel(kernel) => kernel,
        _ => panic!("no kernel"),
    }
}

fn slice(input: &KernelInput) -> (usize, bool, bool, Shape) {
    match input {
        KernelInput::Slice { slice, layout, mutable, batched, shape } => {
            assert_eq!(*layout, None);
            (slice.slot, *mutable, *batched, *shape)
        }
        KernelInput::Size(_) => panic!("no slice"),
    }
}

fn update(op: &DeviceOp<F32>) -> (usize, usize) {
    match op {
        DeviceOp::MaybeUpdateBatchSize(op) => (op.input.slot, op.output.slot),
        _ => panic!("no batch size"),
    }
}

const TEMPLATE: &str = "1\n2\n3\n4\n5\n6\n7\n8\n9\nint y = DECL_MAXY;\r\n\
DECL_D_IN DECL_D_OUT DECL_NUM_BASIS\nDECL_GRID_SIZE DECL_SPLINE_ORDER DECL_NUM_KNOTS DECL_D_IN";

#[test]
fn forward_kernel() {
    let graph = full_memory();
    let ops = layer(4, 6).forward_pass(&graph, NodeId(4), TEMPLATE).ops;
    assert_eq!(ops.len(), 4);
    assert_eq!(update(&ops[0]), (0, 5));
    assert_eq!(update(&ops[1]), (0, 6));
    assert_eq!(update(&ops[2]), (0, 4));
    let kernel = kernel(&ops[3]);
    assert_eq!(kernel.name, "FusedKanLayerFwd");
    assert_eq!(kernel.code, "int y = 32768;\n4 6 8\n5 3 12 4\n");
    assert_eq!(kernel.args.inputs.len(), 8);
    assert!(matches!(kernel.args.inputs[0], KernelInput::Size(Expr::Var)));
    assert_eq!(slice(&kernel.args.inputs[1]), (0, false, true, Shape::new(4, 1)));
    assert_eq!(slice(&kernel.args.inputs[2]), (1, false, false, Shape::new(12, 1)));
    assert_eq!(slice(&kernel.args.inputs[3]), (2, false, false, Shape::new(6, 32)));
    assert_eq!(slice(&kernel.args.inputs[4]), (3, false, false, Shape::new(6, 4)));
    assert_eq!(slice(&kernel.args.inputs[5]), (4, true, true, Shape::new(6, 1)));
    assert_eq!(slice(&kernel.args.inputs[6]), (5, true, true, Shape::new(32, 1)));
    assert_eq!(slice(&kernel.args.inputs[7]), (6, true, true, Shape::new(4, 1)));
    assert_eq!(value(&kernel.args.shared_mem_bytes, 0), (12 + 32 + 4) * 4);
    assert_eq!(value(&kernel.args.block_dim[0], 0), 6);
    assert_eq!(value(&kernel.args.block_dim[1], 0), 1);
    assert_eq!(value(&kernel.args.block_dim[2], 0), 1);
}

#[test]
fn backward_pass_of_everything() {
    let graph = full_memory();
    let ops = layer(4, 6).backward_pass(&graph, NodeId(4), TEMPLATE).ops;
    assert_eq!(ops.len(), 6);
    assert_eq!(update(&ops[0]), (2, 9));
    assert_eq!(update(&ops[2]), (3, 10));
    assert_eq!(update(&ops[4]), (0, 8));
    for (at, values, output, rows) in [(1, 5, 9, 32), (3, 6, 10, 4)] {
        match &ops[at] {
            DeviceOp::Matmul(op) => {
                assert_eq!(op.cfg.alpha, F32(1.0));
                assert_eq!(op.cfg.beta, F32(1.0));
                assert_eq!(op.cfg.shape_a, Shape::new(6, 1));
                assert_eq!(op.cfg.shape_b, Shape::new(rows, 1));
                assert_eq!((op.cfg.trans_a, op.cfg.trans_b), (false, true));
                assert_eq!(op.input_a.slot, 7);
                assert_eq!(op.input_b.slot, values);
                assert_eq!(op.output.slot, output);
                assert_eq!(op.ty, MatmulType::BatBatRed);
            }
            _ => panic!("no product"),
        }
    }
    let kernel = kernel(&ops[5]);
    assert_eq!(kernel.name, "FusedKanLayerBwdInput");
    assert_eq!(kernel.args.inputs.len(), 7);
    assert_eq!(slice(&kernel.args.inputs[5]), (7, false, true, Shape::new(6, 1)));
    assert_eq!(slice(&kernel.args.inputs[6]), (8, true, true, Shape::new(4, 1)));
    assert_eq!(value(&kernel.args.block_dim[0], 0), 4);
    assert_eq!(value(&kernel.args.shared_mem_bytes, 0), (12 + 6) * 4);
}

#[test]
fn what_has_no_gradient_is_passed_over() {
    let graph = memory(&[
        (0, GraphNodeIdTy::Values),
        (1, GraphNodeIdTy::Values),
        (2, GraphNodeIdTy::Values),
        (3, GraphNodeIdTy::Values),
        (4, GraphNodeIdTy::Ancillary(0)),
        (4, GraphNodeIdTy::Ancillary(1)),
        (4, GraphNodeIdTy::Gradients),
        (3, GraphNodeIdTy::Gradients),
    ]);
    let ops = layer(4, 6).backward_pass(&graph, NodeId(4), TEMPLATE).ops;
    assert_eq!(ops.len(), 2);
    assert_eq!(update(&ops[0]), (3, 7));
}

#[test]
fn blocks_for_every_element() {
    let graph = full_memory();
    let ops = layer(4, 6).forward_pass(&graph, NodeId(4), TEMPLATE).ops;
    let dim = &kernel(&ops[3]).args.grid_dim;
    for batch in [1, 2, 32767, 32768, 32769, 65536, 65537, 1_000_000] {
        let (x, y, z) = (value(&dim[0], batch), value(&dim[1], batch), value(&dim[2], batch));
        assert!(x * y >= batch);
        assert!((x - 1) * y < batch);
        assert!(y <= 32768);
        assert_eq!(z, 1);
    }
    assert_eq!(value(&dim[0], 32769), 2);
    assert_eq!(value(&dim[1], 5), 5);
}

#[test]
fn blocks_have_at_most_1024_threads() {
    let graph = full_memory();
    let ops = layer(3000, 6).forward_pass(&graph, NodeId(4), TEMPLATE).ops;
    assert_eq!(value(&kernel(&ops[3]).args.block_dim[0], 0), 1024);
    let ops = layer(1024, 1025).backward_pass(&graph, NodeId(4), TEMPLATE).ops;
    assert_eq!(value(&kernel(&ops[5]).args.block_dim[0], 0), 1024);
    let ops = layer(5, 1025).backward_pass(&graph, NodeId(4), TEMPLATE).ops;
    assert_eq!(value(&kernel(&ops[5]).args.block_dim[0], 0), 5);
}

#[test]
fn no_placeholder_is_left() {
    let graph = full_memory();
    let nested = "\n".repeat(9)
        + "DECL_DECL_MAXYMAXY DECL_D_DECL_D_ININ DECL_NUM_DECL_NUM_BASISKNOTS DECL_GRID_SIZEDECL_MAXY";
    let ops = layer(4, 6).forward_pass(&graph, NodeId(4), &nested).ops;
    let code = &kernel(&ops[3]).code;
    assert_eq!(code, "DECL_32768MAXY DECL_D_4IN DECL_NUM_8KNOTS 532768\n");
    for name in [
        "DECL_MAXY",
        "DECL_D_IN",
        "DECL_D_OUT",
        "DECL_NUM_BASIS",
        "DECL_GRID_SIZE",
        "DECL_SPLINE_ORDER",
        "DECL_NUM_KNOTS",
    ] {
        assert!(!code.contains(name));
    }
}

#[test]
fn short_templates_leave_nothing() {
    let graph = full_memory();
    let ops = layer(4, 6).forward_pass(&graph, NodeId(4), "one\ntwo").ops;
    assert_eq!(kernel(&ops[3]).code, "");
}
