use bullet_kan::cuda::kan::{try_fuse, FuseKanLayer};
use bullet_kan::graph::builder::{GraphBuilder, InitSettings};
use bullet_kan::graph::ir::operation::{
    DiffableFromOutput, LinearCombination, Matmul, Operation, Unary, UnaryOp,
};
use bullet_kan::graph::ir::{AnnotatedNode, GraphIRError, GraphIROperationError, NodeInfo};
use bullet_kan::graph::NodeId;
use bullet_kan::nn::activation::{Linear, Screlu, Silu};
use bullet_kan::nn::grid::{make_grid, make_relu_kan_grid};
use bullet_kan::nn::kan::{kan_layer, KanLayer};
use bullet_kan::nn::relu_kan::relu_kan_layer;
use bullet_kan::scalar::{Algebra, Scalar};
use bullet_kan::tensor::Shape;

#[derive(Clone, Copy, Debug, PartialEq, PartialOrd)]
struct F32(f32);

impl Algebra for F32 {
    fn of_count(n: usize) -> F32 {
        F32(n as f32)
    }

    fn plus(self, other: F32) -> F32 {
        F32(self.0 + other.0)
    }

    fn minus(self, other: F32) -> F32 {
        F32(self.0 - other.0)
    }

    fn times(self, other: F32) -> F32 {
        F32(self.0 * other.0)
    }

    fn over(self, other: F32) -> F32 {
        F32(self.0 / other.0)
    }

    fn negated(self) -> F32 {
        F32(-self.0)
    }

    fn exponential(self) -> F32 {
        F32(self.0.exp())
    }

    fn root(self) -> F32 {
        F32(self.0.sqrt())
    }

    fn larger(self, other: F32) -> F32 {
        F32(self.0.max(other.0))
    }

    fn limited(self, low: F32, high: F32) -> F32 {
        F32(self.0.clamp(low.0, high.0))
    }

    fn same(self, other: F32) -> bool {
        self.0 == other.0
    }

    fn less(self, other: F32) -> bool {
        self.0 < other.0
    }

    fn at_most(self, other: F32) -> bool {
        self.0 <= other.0
    }
}

impl Scalar for F32 {
    fn from_count(n: usize) -> F32 {
        F32(n as f32)
    }

    fn add(self, other: F32) -> F32 {
        F32(self.0 + other.0)
    }

    fn sub(self, other: F32) -> F32 {
        F32(self.0 - other.0)
    }

    fn mul(self, other: F32) -> F32 {
        F32(self.0 * other.0)
    }

    fn div(self, other: F32) -> F32 {
        F32(self.0 / other.0)
    }

    fn neg(self) -> F32 {
        F32(-self.0)
    }

    fn exp(self) -> F32 {
        F32(self.0.exp())
    }

    fn sqrt(self) -> F32 {
        F32(self.0.sqrt())
    }

    fn max(self, other: F32) -> F32 {
        F32(self.0.max(other.0))
    }

    fn clamp(self, low: F32, high: F32) -> F32 {
        F32(self.0.clamp(low.0, high.0))
    }

    fn is_same(self, other: F32) -> bool {
        self.0 == other.0
    }

    fn is_less(self, other: F32) -> bool {
        self.0 < other.0
    }

    fn is_at_most(self, other: F32) -> bool {
        self.0 <= other.0
    }
}

fn numbers(vals: &[f32]) -> Vec<F32> {
    vals.iter().map(|&v| F32(v)).collect()
}

const SYMMETRIC: (F32, F32) = (F32(-1.0), F32(1.0));

fn with_layer(with_base: bool) -> (GraphBuilder<F32>, KanLayer, AnnotatedNode) {
    let mut builder = GraphBuilder::new();
    let layer = kan_layer(&mut builder, "kan1", 4, 2, 5, 3, SYMMETRIC, with_base);
    let input = builder.new_dense_input(Shape::new(4, 1));
    (builder, layer, input)
}

fn stdev(init: &InitSettings<F32>) -> f32 {
    match init {
        InitSettings::Normal { mean, stdev } => {
            assert_eq!(mean.0, 0.0);
            stdev.0
        }
        InitSettings::Zeroed => panic!("zeroed"),
    }
}

#[test]
fn kan_layer_creates_weights_and_grid() {
    let (builder, layer, _) = with_layer(true);
    assert_eq!(layer.grid_size, 5);
    assert_eq!(layer.spline_order, 3);
    assert_eq!(layer.spline_weight.shape, Shape::new(2, 32));
    assert_eq!(layer.base_weight.unwrap().shape, Shape::new(2, 4));
    assert_eq!(layer.grid.shape, Shape::new(12, 1));
    assert_eq!(builder.weights.len(), 2);
    assert_eq!(builder.weights[0].name, "kan1_sw");
    assert_eq!(builder.weights[1].name, "kan1_bw");
    assert_eq!(stdev(&builder.weights[0].init), 0.1 / 32.0f32.sqrt());
    assert_eq!(stdev(&builder.weights[1].init), (2.0 / 4.0f32).sqrt());
    let trained = NodeInfo { requires_grad: true, sparse: None, batched: false };
    assert_eq!(builder.ir.get(layer.spline_weight.idx).unwrap().data.info, trained);
    let grid = builder.ir.get(layer.grid.idx).unwrap();
    assert_eq!(
        grid.data.info,
        NodeInfo { requires_grad: false, sparse: None, batched: false }
    );
    match &grid.op {
        Operation::Constant(knots) => {
            assert_eq!(knots.len(), 12);
            assert_eq!(knots[3], F32(-1.0));
            assert_eq!(knots[8], F32(1.0));
        }
        _ => panic!("no constant"),
    }
}

#[test]
fn kan_layer_without_base() {
    let (mut builder, layer, input) = with_layer(false);
    assert!(layer.base_weight.is_none());
    assert_eq!(builder.weights.len(), 1);
    let n = builder.ir.nodes.len();
    let out = layer.forward_pure(&mut builder, input);
    assert_eq!(out.shape, Shape::new(2, 1));
    assert_eq!(builder.ir.nodes.len(), n + 2);
    assert!(matches!(builder.ir.nodes[n].op, Operation::BSplineBasis(op)
        if op.input == input && op.grid == layer.grid && op.grid_size == 5 && op.spline_order == 3));
    assert!(matches!(builder.ir.nodes[n + 1].op, Operation::Matmul(op)
        if op.a == layer.spline_weight && op.b.idx == NodeId(n) && !op.transa && !op.transb));
    assert_eq!(
        builder.ir.nodes[n + 1].data.info,
        NodeInfo { requires_grad: true, sparse: None, batched: true }
    );
}

#[test]
fn base_path_adds_its_activation() {
    for (added, kind) in [(3, 0), (1, 1), (0, 2)] {
        let (mut builder, layer, input) = with_layer(true);
        let n = builder.ir.nodes.len();
        let out = match kind {
            0 => layer.forward(&mut builder, input, Silu),
            1 => layer.forward(&mut builder, input, Screlu),
            _ => layer.forward(&mut builder, input, Linear),
        };
        assert_eq!(builder.ir.nodes.len(), n + 4 + added);
        assert_eq!(out.idx, NodeId(n + 3 + added));
        assert_eq!(out.shape, Shape::new(2, 1));
        assert!(matches!(&builder.ir.get(out.idx).unwrap().op, Operation::LinearCombination(sum)
            if sum.items == vec![(NodeId(n + 1), F32(1.0)), (NodeId(n + 2 + added), F32(1.0))]));
    }
}

#[test]
fn relu_kan_layer_creates_and_applies() {
    let mut builder = GraphBuilder::new();
    let layer = relu_kan_layer(&mut builder, "out", 3, 1, 5, 3, (F32(0.0), F32(1.0)));
    assert_eq!(layer.spline_weight.shape, Shape::new(1, 24));
    assert_eq!(layer.grid.shape, Shape::new(16, 1));
    assert_eq!(builder.weights.len(), 1);
    assert_eq!(builder.weights[0].name, "out_sw");
    assert_eq!(stdev(&builder.weights[0].init), 0.1 / 24.0f32.sqrt());
    match &builder.ir.get(layer.grid.idx).unwrap().op {
        Operation::Constant(bounds) => {
            assert_eq!(bounds.len(), 16);
            for i in 0..8 {
                assert!((bounds[i].0 - (i as f32 - 3.0) / 5.0).abs() < 1e-6);
                assert!((bounds[8 + i].0 - (i as f32 + 1.0) / 5.0).abs() < 1e-6);
            }
        }
        _ => panic!("no constant"),
    }
    let input = builder.new_dense_input(Shape::new(3, 1));
    let n = builder.ir.nodes.len();
    let out = layer.forward(&mut builder, input);
    assert_eq!(out.idx, NodeId(n + 1));
    assert_eq!(out.shape, Shape::new(1, 1));
    assert!(matches!(builder.ir.nodes[n].op, Operation::ReluKanBasis(op)
        if op.input == input && op.grid_size == 5 && op.support_width == 3));
    assert!(matches!(builder.ir.nodes[n + 1].op, Operation::Matmul(op)
        if op.a == layer.spline_weight && op.b.idx == NodeId(n)));
}

#[test]
fn layers_can_be_chained() {
    let mut builder = GraphBuilder::new();
    let first = kan_layer(&mut builder, "kan1", 4, 3, 5, 3, SYMMETRIC, true);
    let second = kan_layer(&mut builder, "kan2", 3, 1, 5, 3, SYMMETRIC, true);
    let input = builder.new_dense_input(Shape::new(4, 1));
    let hidden = first.forward(&mut builder, input, Silu);
    let out = second.forward(&mut builder, hidden, Silu);
    assert_eq!(hidden.shape, Shape::new(3, 1));
    assert_eq!(out.shape, Shape::new(1, 1));
    let names: Vec<&str> = builder.weights.iter().map(|w| w.name.as_str()).collect();
    assert_eq!(names, vec!["kan1_sw", "kan1_bw", "kan2_sw", "kan2_bw"]);
    assert_eq!(FuseKanLayer.try_pass_on_node(&mut builder.ir, out.idx), Ok(true));
    assert_eq!(FuseKanLayer.try_pass_on_node(&mut builder.ir, hidden.idx), Ok(true));
}

#[test]
fn silu_layer_is_fused_once() {
    let (mut builder, layer, input) = with_layer(true);
    let out = layer.forward(&mut builder, input, Silu);
    let data = builder.ir.get(out.idx).unwrap().data;
    assert_eq!(FuseKanLayer.try_pass_on_node(&mut builder.ir, out.idx), Ok(true));
    let node = builder.ir.get(out.idx).unwrap();
    assert!(matches!(node.op, Operation::FusedKanLayer(op)
        if op.input == input && op.grid == layer.grid && op.spline_weight == layer.spline_weight
            && op.base_weight == layer.base_weight.unwrap() && op.grid_size == 5
            && op.spline_order == 3));
    assert_eq!(node.data, data);
    assert_eq!(FuseKanLayer.try_pass_on_node(&mut builder.ir, out.idx), Ok(false));
}

#[test]
fn paths_can_come_in_either_order() {
    let (mut builder, layer, input) = with_layer(true);
    let out = layer.forward(&mut builder, input, Silu);
    if let Operation::LinearCombination(sum) = &mut builder.ir.nodes[out.idx.0].op {
        sum.items.swap(0, 1);
    }
    assert_eq!(FuseKanLayer.try_pass_on_node(&mut builder.ir, out.idx), Ok(true));
    assert!(matches!(builder.ir.nodes[out.idx.0].op, Operation::FusedKanLayer(op)
        if op.spline_weight == layer.spline_weight));
}

#[test]
fn other_activations_are_not_fused() {
    let (mut builder, layer, input) = with_layer(true);
    let out = layer.forward(&mut builder, input, Screlu);
    assert_eq!(FuseKanLayer.try_pass_on_node(&mut builder.ir, out.idx), Ok(false));
    let (mut builder, layer, input) = with_layer(true);
    let out = layer.forward(&mut builder, input, Linear);
    assert_eq!(FuseKanLayer.try_pass_on_node(&mut builder.ir, out.idx), Ok(false));
    let (mut builder, layer, input) = with_layer(false);
    let out = layer.forward_pure(&mut builder, input);
    assert_eq!(FuseKanLayer.try_pass_on_node(&mut builder.ir, out.idx), Ok(false));
}

#[test]
fn nodes_that_are_used_elsewhere_are_not_fused() {
    // Offsets of the inner nodes: basis, spline product, gate, pair, SiLU, base
    // product.
    for offset in 0..6 {
        let (mut builder, layer, input) = with_layer(true);
        let n = builder.ir.nodes.len();
        let out = layer.forward(&mut builder, input, Silu);
        let inner = AnnotatedNode {
            idx: NodeId(n + offset),
            shape: builder.ir.nodes[n + offset].data.shape,
        };
        builder.unary(inner, DiffableFromOutput::ReLU);
        assert_eq!(FuseKanLayer.try_pass_on_node(&mut builder.ir, out.idx), Ok(false));
    }
}

#[test]
fn weighted_sums_are_not_fused() {
    let (mut builder, layer, input) = with_layer(true);
    let out = layer.forward(&mut builder, input, Silu);
    if let Operation::LinearCombination(sum) = &mut builder.ir.nodes[out.idx.0].op {
        sum.items[1].1 = F32(2.0);
    }
    assert_eq!(FuseKanLayer.try_pass_on_node(&mut builder.ir, out.idx), Ok(false));
    if let Operation::LinearCombination(sum) = &mut builder.ir.nodes[out.idx.0].op {
        sum.items[1].1 = F32(1.0);
        let again = sum.items[1];
        sum.items.push(again);
    }
    assert_eq!(FuseKanLayer.try_pass_on_node(&mut builder.ir, out.idx), Ok(false));
}

#[test]
fn other_gates_are_not_fused() {
    let (mut builder, layer, input) = with_layer(true);
    let n = builder.ir.nodes.len();
    let out = layer.forward(&mut builder, input, Silu);
    builder.ir.nodes[n + 2].op = Operation::Unary(Unary {
        input,
        op: UnaryOp::DiffableFromOutput(DiffableFromOutput::ReLU),
    });
    assert_eq!(FuseKanLayer.try_pass_on_node(&mut builder.ir, out.idx), Ok(false));
}

#[test]
fn paths_with_different_inputs_are_not_fused() {
    let (mut builder, layer, input) = with_layer(true);
    let other = builder.new_dense_input(Shape::new(4, 1));
    let n = builder.ir.nodes.len();
    let spline = KanLayer { base_weight: None, ..layer }.forward_pure(&mut builder, input);
    let gate = builder.unary(other, DiffableFromOutput::Sigmoid);
    let silu = builder.product(other, gate);
    let base = builder.matmul(layer.base_weight.unwrap(), silu);
    let out = builder.sum(spline, base);
    assert_eq!(out.idx, NodeId(n + 6));
    assert_eq!(FuseKanLayer.try_pass_on_node(&mut builder.ir, out.idx), Ok(false));
}

#[test]
fn missing_nodes_are_reported() {
    let (mut builder, _, _) = with_layer(true);
    assert_eq!(
        FuseKanLayer.try_pass_on_node(&mut builder.ir, NodeId(1000)),
        Err(GraphIRError::NodeDoesNotExist)
    );
    assert_eq!(
        try_fuse(&mut builder.ir, NodeId(0), NodeId(0), NodeId(1000)),
        Err(GraphIRError::NodeDoesNotExist)
    );
    assert_eq!(FuseKanLayer.try_pass_on_node(&mut builder.ir, NodeId(0)), Ok(false));
}

#[test]
fn untrained_weights_stop_the_pass() {
    let mut builder: GraphBuilder<F32> = GraphBuilder::new();
    let layer = kan_layer(&mut builder, "kan1", 1, 1, 1, 1, SYMMETRIC, true);
    let fixed = builder.new_constant(Shape::new(1, 1), numbers(&[1.0]));
    let input = builder.new_dense_input(Shape::new(1, 1));
    let layer = KanLayer { base_weight: Some(fixed), ..layer };
    let out = layer.forward(&mut builder, input, Silu);
    assert_eq!(
        FuseKanLayer.try_pass_on_node(&mut builder.ir, out.idx),
        Err(GraphIRError::Op(GraphIROperationError::GradientNotAvailable))
    );
    assert!(matches!(builder.ir.nodes[out.idx.0].op, Operation::LinearCombination(_)));
}

#[test]
fn transposed_products_are_not_fused() {
    // A layer with one input and one basis function per output, so that the
    // weights are square and can be transposed.
    let mut builder: GraphBuilder<F32> = GraphBuilder::new();
    let layer = kan_layer(&mut builder, "kan1", 1, 1, 1, 0, SYMMETRIC, true);
    let input = builder.new_dense_input(Shape::new(1, 1));
    let n = builder.ir.nodes.len();
    let out = layer.forward(&mut builder, input, Silu);
    if let Operation::Matmul(product) = &mut builder.ir.nodes[n + 1].op {
        product.transa = true;
    }
    assert_eq!(FuseKanLayer.try_pass_on_node(&mut builder.ir, out.idx), Ok(false));
    if let Operation::Matmul(product) = &mut builder.ir.nodes[n + 1].op {
        *product = Matmul { transa: false, ..*product };
    }
    assert_eq!(FuseKanLayer.try_pass_on_node(&mut builder.ir, out.idx), Ok(true));
}

#[test]
fn sums_keep_their_items() {
    let sum = LinearCombination { items: vec![(NodeId(3), F32(0.5))], shape: Shape::new(1, 1) };
    let nodes = Operation::LinearCombination(sum).nodes();
    assert_eq!(nodes, vec![AnnotatedNode { idx: NodeId(3), shape: Shape::new(1, 1) }]);
}

#[test]
fn layer_grids_are_the_made_grids() {
    let range = (F32(-0.5), F32(2.0));
    let mut builder = GraphBuilder::new();
    let spline = kan_layer(&mut builder, "a", 2, 2, 6, 2, range, false);
    let bumps = relu_kan_layer(&mut builder, "b", 2, 2, 6, 2, range);
    assert!(matches!(&builder.ir.get(spline.grid.idx).unwrap().op, Operation::Constant(vals)
        if *vals == make_grid(6, 2, range)));
    let (s_grid, e_grid) = make_relu_kan_grid(6, 2, range);
    match &builder.ir.get(bumps.grid.idx).unwrap().op {
        Operation::Constant(vals) => {
            assert_eq!(vals.len(), 16);
            for i in 0..8 {
                assert!((vals[i].0 - s_grid[i].0).abs() < 1e-5);
                assert!((vals[8 + i].0 - e_grid[i].0).abs() < 1e-5);
            }
        }
        _ => panic!("no constant"),
    }
}
