use bullet_kan::cuda::kan::FusedKanLayer;
use bullet_kan::device::function::DeviceOp;
use bullet_kan::graph::ir::operation::bspline::BSplineBasis;
use bullet_kan::graph::ir::operation::relu_kan::ReluKanBasis;
use bullet_kan::graph::ir::operation::util::{check_dense_eq, check_has_grad, check_not_batched};
use bullet_kan::graph::ir::operation::{Concat, LinearCombination, Matmul, Operation, PairwiseMul};
use bullet_kan::graph::ir::{
    AnnotatedNode, GraphIR, GraphIRError, GraphIROperationError, NodeData, NodeInfo,
};
use bullet_kan::graph::{Graph, GraphNodeIdTy, GraphTensor, NodeId};
use bullet_kan::tensor::{Shape, Tensor, TensorRef};

fn leaf(
    ir: &mut GraphIR<i32>,
    rows: usize,
    cols: usize,
    requires_grad: bool,
    sparse: Option<usize>,
    batched: bool,
) -> AnnotatedNode {
    let shape = Shape::new(rows, cols);
    let info = NodeInfo { requires_grad, sparse, batched };
    ir.add_leaf(Operation::Input, NodeData { shape, info })
}

fn spline(input: AnnotatedNode, grid: AnnotatedNode) -> BSplineBasis {
    BSplineBasis { input, grid, grid_size: 5, spline_order: 3 }
}

fn bumps(input: AnnotatedNode, grid: AnnotatedNode) -> ReluKanBasis {
    ReluKanBasis { input, grid, grid_size: 5, support_width: 3 }
}

fn mismatch(found: (usize, usize), expected: (usize, usize)) -> GraphIRError {
    GraphIRError::Op(GraphIROperationError::MismatchedInputShapes {
        found: Shape::new(found.0, found.1),
        expected: Shape::new(expected.0, expected.1),
    })
}

#[test]
fn spline_shapes() {
    let mut ir = GraphIR::new();
    let input = leaf(&mut ir, 4, 1, false, None, true);
    let grid = leaf(&mut ir, 12, 1, false, None, false);
    let op = spline(input, grid);
    assert_eq!(op.output_shape(&ir), Ok(Shape::new(32, 1)));
    assert_eq!(op.nodes(), vec![input, grid]);
    assert_eq!(op.shorthand(), "BSplineBasis(grid=5, order=3)");
}

#[test]
fn spline_errors() {
    let mut ir = GraphIR::new();
    let input = leaf(&mut ir, 4, 1, false, None, true);
    let grid = leaf(&mut ir, 12, 1, false, None, false);
    let sparse = leaf(&mut ir, 4, 1, false, Some(2), true);
    let square = leaf(&mut ir, 4, 4, false, None, true);
    let short = leaf(&mut ir, 11, 1, false, None, false);
    let batched_grid = leaf(&mut ir, 12, 1, false, None, true);
    let nowhere = AnnotatedNode { idx: NodeId(99), shape: Shape::new(4, 1) };
    let layout = Err(GraphIRError::Op(GraphIROperationError::IncorrectDataLayout));

    assert_eq!(spline(sparse, grid).output_shape(&ir), layout);
    assert_eq!(spline(input, sparse).output_shape(&ir), layout);
    assert_eq!(
        spline(input, batched_grid).output_shape(&ir),
        Err(GraphIRError::Op(GraphIROperationError::BatchedInputNotSupported))
    );
    assert_eq!(
        spline(square, grid).output_shape(&ir),
        Err(GraphIRError::Op(GraphIROperationError::InvalidInputShape(Shape::new(4, 4))))
    );
    assert_eq!(spline(input, short).output_shape(&ir), Err(mismatch((11, 1), (12, 1))));
    assert_eq!(spline(nowhere, grid).output_shape(&ir), Err(GraphIRError::NodeDoesNotExist));
}

#[test]
fn bump_shapes_and_errors() {
    let mut ir = GraphIR::new();
    let input = leaf(&mut ir, 4, 1, false, None, true);
    let grid = leaf(&mut ir, 16, 1, false, None, false);
    let wide = leaf(&mut ir, 16, 2, false, None, false);
    let batched = leaf(&mut ir, 16, 1, false, None, true);
    let sparse = leaf(&mut ir, 4, 1, false, Some(2), true);
    let square = leaf(&mut ir, 4, 4, false, None, true);
    let op = bumps(input, grid);
    assert_eq!(op.output_shape(&ir), Ok(Shape::new(32, 1)));
    assert_eq!(op.nodes(), vec![input, grid]);
    assert_eq!(op.shorthand(), "ReluKanBasis(grid=5, k=3)");
    assert_eq!(bumps(input, wide).output_shape(&ir), Err(mismatch((16, 2), (16, 1))));
    assert_eq!(
        bumps(input, batched).output_shape(&ir),
        Err(GraphIRError::Op(GraphIROperationError::BatchedInputNotSupported))
    );
    assert_eq!(
        bumps(sparse, grid).output_shape(&ir),
        Err(GraphIRError::Op(GraphIROperationError::IncorrectDataLayout))
    );
    assert_eq!(
        bumps(square, grid).output_shape(&ir),
        Err(GraphIRError::Op(GraphIROperationError::InvalidInputShape(Shape::new(4, 4))))
    );
}

#[test]
fn checks_of_inputs() {
    let mut ir = GraphIR::new();
    let dense = leaf(&mut ir, 1, 1, true, None, false);
    let sparse = leaf(&mut ir, 1, 1, false, Some(3), true);
    assert_eq!(check_dense_eq(&ir, &dense, true), Ok(()));
    assert_eq!(check_dense_eq(&ir, &sparse, false), Ok(()));
    assert!(check_dense_eq(&ir, &dense, false).is_err());
    assert_eq!(check_not_batched(&ir, &dense), Ok(()));
    assert!(check_not_batched(&ir, &sparse).is_err());
    assert_eq!(check_has_grad(&ir, &dense), Ok(()));
    assert_eq!(
        check_has_grad(&ir, &sparse),
        Err(GraphIRError::Op(GraphIROperationError::GradientNotAvailable))
    );
}

#[test]
fn fused_layer_shapes_and_errors() {
    let mut ir = GraphIR::new();
    let input = leaf(&mut ir, 4, 1, false, None, true);
    let grid = leaf(&mut ir, 12, 1, false, None, false);
    let sw = leaf(&mut ir, 6, 32, true, None, false);
    let bw = leaf(&mut ir, 6, 4, true, None, false);
    let layer = FusedKanLayer {
        input,
        grid,
        spline_weight: sw,
        base_weight: bw,
        grid_size: 5,
        spline_order: 3,
    };
    assert_eq!(layer.output_shape(&ir), Ok(Shape::new(6, 1)));
    assert_eq!(layer.nodes(), vec![input, grid, sw, bw]);
    assert_eq!(layer.shorthand(), "FusedKanLayer(grid=5, order=3)");
    assert_eq!(
        layer.ancillary_buffers(&ir),
        Ok(vec![(Shape::new(32, 1), None, true), (Shape::new(4, 1), None, true)])
    );

    let narrow = leaf(&mut ir, 6, 31, true, None, false);
    let tall = leaf(&mut ir, 7, 4, true, None, false);
    let fixed = leaf(&mut ir, 6, 32, false, None, false);
    let short = leaf(&mut ir, 11, 1, false, None, false);
    let square = leaf(&mut ir, 4, 4, false, None, true);
    let batched = leaf(&mut ir, 6, 4, true, None, true);
    let sparse = leaf(&mut ir, 6, 4, true, Some(1), false);
    assert_eq!(
        FusedKanLayer { spline_weight: narrow, ..layer }.output_shape(&ir),
        Err(mismatch((6, 31), (6, 32)))
    );
    assert_eq!(
        FusedKanLayer { base_weight: tall, ..layer }.output_shape(&ir),
        Err(mismatch((7, 4), (6, 4)))
    );
    assert_eq!(
        FusedKanLayer { grid: short, ..layer }.output_shape(&ir),
        Err(mismatch((11, 1), (12, 1)))
    );
    assert_eq!(
        FusedKanLayer { spline_weight: fixed, ..layer }.output_shape(&ir),
        Err(GraphIRError::Op(GraphIROperationError::GradientNotAvailable))
    );
    assert_eq!(
        FusedKanLayer { input: square, ..layer }.output_shape(&ir),
        Err(GraphIRError::Op(GraphIROperationError::InvalidInputShape(Shape::new(4, 4))))
    );
    assert_eq!(
        FusedKanLayer { base_weight: batched, ..layer }.output_shape(&ir),
        Err(GraphIRError::Op(GraphIROperationError::BatchedInputNotSupported))
    );
    assert_eq!(
        FusedKanLayer { base_weight: sparse, ..layer }.output_shape(&ir),
        Err(GraphIRError::Op(GraphIROperationError::IncorrectDataLayout))
    );
}

#[test]
fn graphs_reject_what_does_not_fit() {
    let mut ir: GraphIR<i32> = GraphIR::new();
    let a = leaf(&mut ir, 2, 3, true, None, false);
    let b = leaf(&mut ir, 3, 1, false, None, true);
    let product = Matmul { a, transa: false, b, transb: false };
    let c = ir.add(Operation::Matmul(product)).unwrap();
    assert_eq!(c.shape, Shape::new(2, 1));
    let data = ir.get(c.idx).unwrap().data;
    assert_eq!(data.info, NodeInfo { requires_grad: true, sparse: None, batched: true });
    assert_eq!(ir.used_once(a.idx), true);

    let crossed = Matmul { a, transa: true, b, transb: false };
    assert_eq!(ir.add(Operation::Matmul(crossed)), Err(mismatch((3, 1), (2, 1))));
    let wrong = AnnotatedNode { shape: Shape::new(3, 3), ..a };
    let misread = Matmul { a: wrong, transa: false, b, transb: false };
    assert_eq!(
        ir.add(Operation::Matmul(misread)),
        Err(GraphIRError::NodeDataDoesNotMatchExpected)
    );
    let nowhere = AnnotatedNode { idx: NodeId(50), ..a };
    let lost = Matmul { a: nowhere, transa: false, b, transb: false };
    assert_eq!(ir.add(Operation::Matmul(lost)), Err(GraphIRError::NodeDoesNotExist));
    assert_eq!(
        ir.add(Operation::PairwiseMul(PairwiseMul { input: b })),
        Err(GraphIRError::Op(GraphIROperationError::InvalidInputShape(Shape::new(3, 1))))
    );
    assert_eq!(
        ir.add(Operation::Concat(Concat { a, b })),
        Err(mismatch((3, 1), (3, 3)))
    );
    assert_eq!(ir.nodes.len(), 3);
}

#[test]
fn graphs_replace_like_by_like() {
    let mut ir: GraphIR<i32> = GraphIR::new();
    let a = leaf(&mut ir, 2, 2, false, None, true);
    let b = leaf(&mut ir, 2, 2, false, None, true);
    let ab = Operation::Matmul(Matmul { a, transa: false, b, transb: false });
    let c = ir.add(ab).unwrap();
    let items = vec![(a.idx, 1), (b.idx, 2)];
    let sum = Operation::LinearCombination(LinearCombination { items, shape: a.shape });
    assert_eq!(ir.replace(c.idx, sum), Ok(()));
    assert!(matches!(ir.get(c.idx).unwrap().op, Operation::LinearCombination(_)));

    let circle = Operation::Matmul(Matmul { a: c, transa: false, b, transb: false });
    assert_eq!(ir.replace(c.idx, circle), Err(GraphIRError::Cyclic));
    let half = Operation::PairwiseMul(PairwiseMul { input: a });
    assert_eq!(ir.replace(c.idx, half), Err(GraphIRError::NodeDataDoesNotMatchExpected));
    let again = Operation::PairwiseMul(PairwiseMul { input: a });
    assert_eq!(ir.replace(NodeId(9), again), Err(GraphIRError::NodeDoesNotExist));
}

fn memory(tensors: &[(usize, GraphNodeIdTy)]) -> Graph<i32> {
    let mut entries = Vec::new();
    for &(id, ty) in tensors {
        entries.push(GraphTensor {
            id: NodeId(id),
            ty,
            tensor: Tensor { batch_size: None, buf: Vec::new() },
        });
    }
    Graph { entries }
}

#[test]
fn spline_passes() {
    let input = AnnotatedNode { idx: NodeId(0), shape: Shape::new(4, 1) };
    let grid = AnnotatedNode { idx: NodeId(1), shape: Shape::new(12, 1) };
    let graph = memory(&[
        (1, GraphNodeIdTy::Values),
        (0, GraphNodeIdTy::Values),
        (2, GraphNodeIdTy::Values),
        (2, GraphNodeIdTy::Gradients),
    ]);
    let ops = spline(input, grid).forward_pass(&graph, NodeId(2)).ops;
    assert_eq!(ops.len(), 2);
    match &ops[0] {
        DeviceOp::MaybeUpdateBatchSize(op) => {
            assert_eq!(op.input, TensorRef { slot: 1 });
            assert_eq!(op.output, TensorRef { slot: 2 });
        }
        _ => panic!("no batch size"),
    }
    match &ops[1] {
        DeviceOp::BSplineBasisFwd(op) => {
            assert_eq!((op.input.slot, op.grid.slot, op.output.slot), (1, 0, 2));
            assert_eq!((op.in_features, op.grid_size, op.spline_order), (4, 5, 3));
        }
        _ => panic!("no evaluation"),
    }
    // The input has no gradients.
    assert_eq!(spline(input, grid).backward_pass(&graph, NodeId(2)).ops.len(), 0);

    let graph = memory(&[
        (0, GraphNodeIdTy::Values),
        (0, GraphNodeIdTy::Gradients),
        (1, GraphNodeIdTy::Values),
        (2, GraphNodeIdTy::Gradients),
    ]);
    let ops = spline(input, grid).backward_pass(&graph, NodeId(2)).ops;
    assert_eq!(ops.len(), 2);
    assert!(matches!(&ops[0], DeviceOp::MaybeUpdateBatchSize(op)
        if op.input.slot == 0 && op.output.slot == 1));
    assert!(matches!(&ops[1], DeviceOp::BSplineBasisBwd(op)
        if op.input.slot == 0 && op.grid.slot == 2 && op.output_grad.slot == 3
            && op.input_grad.slot == 1 && op.in_features == 4));
}

#[test]
fn bump_passes() {
    let input = AnnotatedNode { idx: NodeId(7), shape: Shape::new(2, 1) };
    let grid = AnnotatedNode { idx: NodeId(8), shape: Shape::new(16, 1) };
    let graph = memory(&[
        (7, GraphNodeIdTy::Values),
        (8, GraphNodeIdTy::Values),
        (9, GraphNodeIdTy::Values),
        (9, GraphNodeIdTy::Gradients),
        (7, GraphNodeIdTy::Gradients),
    ]);
    let ops = bumps(input, grid).forward_pass(&graph, NodeId(9)).ops;
    assert!(matches!(&ops[0], DeviceOp::MaybeUpdateBatchSize(op)
        if op.input.slot == 0 && op.output.slot == 2));
    assert!(matches!(&ops[1], DeviceOp::ReluKanBasisFwd(op)
        if op.input.slot == 0 && op.grid.slot == 1 && op.output.slot == 2
            && op.in_features == 2 && op.grid_size == 5 && op.support_width == 3));
    let ops = bumps(input, grid).backward_pass(&graph, NodeId(9)).ops;
    assert!(matches!(&ops[0], DeviceOp::MaybeUpdateBatchSize(op)
        if op.input.slot == 0 && op.output.slot == 4));
    assert!(matches!(&ops[1], DeviceOp::ReluKanBasisBwd(op)
        if op.output_grad.slot == 3 && op.input_grad.slot == 4 && op.grid.slot == 1));
    let graph = memory(&[(7, GraphNodeIdTy::Values)]);
    assert_eq!(bumps(input, grid).backward_pass(&graph, NodeId(9)).ops.len(), 0);
    assert_eq!(graph.maybe_get_ref(NodeId(7), GraphNodeIdTy::Ancillary(0)), None);
}
