//! The instructions that a fused KAN layer compiles to.

use vstd::prelude::*;

use super::kan::FusedKanLayer;
use super::kernel::{Expr, Kernel, KernelArgs, KernelInput};
use crate::device::function::{
    DeviceFunction, DeviceOp, GemmConfig, Matmul, MatmulType, MaybeUpdateBatchSize,
};
use crate::graph::{Graph, GraphNodeIdTy, NodeId};
use crate::scalar::{one, Algebra, Scalar};
use crate::tensor::{Shape, TensorRef};
use crate::text::{decimal, decimal_of, drop_lines, lines_from, replace_all, replaced};

verus! {

/// The largest number of blocks in the second dimension of a launch.
pub const MAXIMUM_BLOCKS_Y: i32 = 32768;

/// How many lines at the top of a kernel template declare the placeholders for
/// editors and are dropped.
pub const TEMPLATE_HEADER: usize = 9;

/// The largest number of threads in a block.
pub const MAXIMUM_THREADS: usize = 1024;

/// The numbers of blocks of a launch with one block for each element of the
/// batch.
pub open spec fn blocks() -> Seq<Expr> {
    let most = Expr::Const(MAXIMUM_BLOCKS_Y);
    seq![
        Expr::Div(
            Box::new(
                Expr::Sub(
                    Box::new(Expr::Add(Box::new(Expr::Var), Box::new(most))),
                    Box::new(Expr::Const(1)),
                ),
            ),
            Box::new(most),
        ),
        Expr::Min(Box::new(Expr::Var), Box::new(most)),
        Expr::Const(1),
    ]
}

/// The numbers of threads of a launch with `n` threads in a block, or as many as
/// there can be.
pub open spec fn threads(n: usize) -> Seq<Expr> {
    let capped = if n <= MAXIMUM_THREADS {
        n
    } else {
        MAXIMUM_THREADS
    };
    seq![Expr::Const(capped as i32), Expr::Const(1), Expr::Const(1)]
}

/// A tensor that a kernel reads.
pub open spec fn read_only(slice: TensorRef, batched: bool, shape: Shape) -> KernelInput {
    KernelInput::Slice { slice, layout: None, mutable: false, batched, shape }
}

/// A batched tensor that a kernel writes to.
pub open spec fn written(slice: TensorRef, rows: int) -> KernelInput {
    KernelInput::Slice {
        slice,
        layout: None,
        mutable: true,
        batched: true,
        shape: Shape { rows: rows as usize, cols: 1 },
    }
}

/// Whether an instruction launches this kernel, with one block for each element
/// of the batch.
pub open spec fn launches<T>(
    op: DeviceOp<T>,
    name: Seq<char>,
    code: Seq<char>,
    inputs: Seq<KernelInput>,
    block: usize,
    shared_bytes: int,
) -> bool {
    op matches DeviceOp::Kernel(kernel) && {
        &&& kernel.name@ == name
        &&& kernel.code@ == code
        &&& kernel.args.inputs@ == inputs
        &&& kernel.args.grid_dim@ == blocks()
        &&& kernel.args.block_dim@ == threads(block)
        &&& kernel.args.shared_mem_bytes == Expr::Const((shared_bytes as usize) as i32)
    }
}

/// The larger of two counts.
pub open spec fn wider(a: usize, b: usize) -> usize {
    if a < b {
        b
    } else {
        a
    }
}

impl FusedKanLayer {
    /// A kernel template with the sizes of the layer in place of the
    /// placeholders.
    pub open spec fn specialised(self, template: Seq<char>) -> Seq<char> {
        let body = lines_from(template, TEMPLATE_HEADER as nat);
        let body = replaced(body, "DECL_MAXY"@, decimal_of(MAXIMUM_BLOCKS_Y as nat));
        let body = replaced(body, "DECL_D_IN"@, decimal_of(self.input.shape.rows as nat));
        let body = replaced(body, "DECL_D_OUT"@, decimal_of(self.spline_weight.shape.rows as nat));
        let body = replaced(
            body,
            "DECL_NUM_BASIS"@,
            decimal_of((self.grid_size + self.spline_order) as nat),
        );
        let body = replaced(body, "DECL_GRID_SIZE"@, decimal_of(self.grid_size as nat));
        let body = replaced(body, "DECL_SPLINE_ORDER"@, decimal_of(self.spline_order as nat));
        replaced(body, "DECL_NUM_KNOTS"@, decimal_of(self.knots() as nat))
    }

    /// Fills the sizes of the layer into a kernel template.
    fn specialise(&self, template: &str) -> (r: String)
        requires
            self.fits(),
        ensures
            r@ == self.specialised(template@),
    {
        let knots: usize = self.grid_size + 2 * self.spline_order + 1;
        proof {
            reveal_strlit("DECL_MAXY");
            reveal_strlit("DECL_D_IN");
            reveal_strlit("DECL_D_OUT");
            reveal_strlit("DECL_NUM_BASIS");
            reveal_strlit("DECL_GRID_SIZE");
            reveal_strlit("DECL_SPLINE_ORDER");
            reveal_strlit("DECL_NUM_KNOTS");
        }
        let body: String = drop_lines(template, TEMPLATE_HEADER);
        let body: String = replace_all(
            body.as_str(),
            "DECL_MAXY",
            decimal(MAXIMUM_BLOCKS_Y as usize).as_str(),
        );
        let body: String = replace_all(
            body.as_str(),
            "DECL_D_IN",
            decimal(self.input.shape.rows()).as_str(),
        );
        let body: String = replace_all(
            body.as_str(),
            "DECL_D_OUT",
            decimal(self.spline_weight.shape.rows()).as_str(),
        );
        let body: String = replace_all(
            body.as_str(),
            "DECL_NUM_BASIS",
            decimal(self.grid_size + self.spline_order).as_str(),
        );
        let body: String = replace_all(
            body.as_str(),
            "DECL_GRID_SIZE",
            decimal(self.grid_size).as_str(),
        );
        let body: String = replace_all(
            body.as_str(),
            "DECL_SPLINE_ORDER",
            decimal(self.spline_order).as_str(),
        );
        replace_all(body.as_str(), "DECL_NUM_KNOTS", decimal(knots).as_str())
    }

    /// The memory that a block of the forward kernel shares: the knots, the basis
    /// values and the SiLU values, each number four bytes long.
    pub open spec fn forward_shared_bytes(self) -> int {
        (self.knots() + self.basis_rows() + self.input.shape.rows) * 4
    }

    /// The memory that a block of the backward kernel shares: the knots and the
    /// output gradient, each number four bytes long.
    pub open spec fn backward_shared_bytes(self) -> int {
        (self.knots() + self.spline_weight.shape.rows) * 4
    }

    /// The place of the tensor for `ty` of the node `id`, which must be there.
    pub open spec fn place<T>(graph: Graph<T>, id: NodeId, ty: GraphNodeIdTy) -> TensorRef {
        graph.locate(id, ty)->0
    }

    /// Whether `graph` holds the values that the layer reads.
    pub open spec fn inputs_located<T>(self, graph: Graph<T>) -> bool {
        &&& graph.locate(self.input.idx, GraphNodeIdTy::Values) is Some
        &&& graph.locate(self.grid.idx, GraphNodeIdTy::Values) is Some
        &&& graph.locate(self.spline_weight.idx, GraphNodeIdTy::Values) is Some
        &&& graph.locate(self.base_weight.idx, GraphNodeIdTy::Values) is Some
    }

    /// The first arguments of both kernels: the batch size and what is read.
    pub open spec fn common_inputs<T>(self, graph: Graph<T>) -> Seq<KernelInput> {
        seq![
            KernelInput::Size(Expr::Var),
            read_only(
                Self::place(graph, self.input.idx, GraphNodeIdTy::Values),
                true,
                self.input.shape,
            ),
            read_only(
                Self::place(graph, self.grid.idx, GraphNodeIdTy::Values),
                false,
                self.grid.shape,
            ),
            read_only(
                Self::place(graph, self.spline_weight.idx, GraphNodeIdTy::Values),
                false,
                self.spline_weight.shape,
            ),
            read_only(
                Self::place(graph, self.base_weight.idx, GraphNodeIdTy::Values),
                false,
                self.base_weight.shape,
            ),
        ]
    }

    /// The arguments of the forward kernel: the output and the two scratch
    /// tensors follow what is read.
    pub open spec fn forward_inputs<T>(self, graph: Graph<T>, node: NodeId) -> Seq<KernelInput> {
        self.common_inputs(graph) + seq![
            written(
                Self::place(graph, node, GraphNodeIdTy::Values),
                self.spline_weight.shape.rows as int,
            ),
            written(
                Self::place(graph, node, GraphNodeIdTy::Ancillary(0)),
                self.basis_rows(),
            ),
            written(
                Self::place(graph, node, GraphNodeIdTy::Ancillary(1)),
                self.input.shape.rows as int,
            ),
        ]
    }

    /// The arguments of the backward kernel: the output gradient and the input
    /// gradient follow what is read.
    pub open spec fn backward_inputs<T>(
        self,
        graph: Graph<T>,
        node: NodeId,
        input_grad: TensorRef,
    ) -> Seq<KernelInput> {
        self.common_inputs(graph) + seq![
            read_only(
                Self::place(graph, node, GraphNodeIdTy::Gradients),
                true,
                Shape { rows: self.spline_weight.shape.rows, cols: 1 },
            ),
            KernelInput::Slice {
                slice: input_grad,
                layout: None,
                mutable: true,
                batched: true,
                shape: self.input.shape,
            },
        ]
    }

    /// Lists the first arguments of both kernels.
    fn list_common_inputs<T>(&self, graph: &Graph<T>) -> (r: Vec<KernelInput>)
        requires
            self.inputs_located(*graph),
        ensures
            r@ == self.common_inputs(*graph),
    {
        let input = graph.get_ref(self.input.idx, GraphNodeIdTy::Values);
        let grid = graph.get_ref(self.grid.idx, GraphNodeIdTy::Values);
        let spline_weight = graph.get_ref(self.spline_weight.idx, GraphNodeIdTy::Values);
        let base_weight = graph.get_ref(self.base_weight.idx, GraphNodeIdTy::Values);
        let layout: Option<usize> = None;
        let mutable = false;
        vec![
            KernelInput::Size(Expr::Var),
            KernelInput::Slice {
                slice: input,
                layout,
                mutable,
                batched: true,
                shape: self.input.shape,
            },
            KernelInput::Slice {
                slice: grid,
                layout,
                mutable,
                batched: false,
                shape: self.grid.shape,
            },
            KernelInput::Slice {
                slice: spline_weight,
                layout,
                mutable,
                batched: false,
                shape: self.spline_weight.shape,
            },
            KernelInput::Slice {
                slice: base_weight,
                layout,
                mutable,
                batched: false,
                shape: self.base_weight.shape,
            },
        ]
    }

    /// Whether the instructions are the forward pass for the node `output_node`.
    pub open spec fn forward_compiled<T>(
        self,
        graph: Graph<T>,
        output_node: NodeId,
        template: Seq<char>,
        ops: Seq<DeviceOp<T>>,
    ) -> bool {
        let input = Self::place(graph, self.input.idx, GraphNodeIdTy::Values);
        let basis = Self::place(graph, output_node, GraphNodeIdTy::Ancillary(0));
        let silu = Self::place(graph, output_node, GraphNodeIdTy::Ancillary(1));
        let output = Self::place(graph, output_node, GraphNodeIdTy::Values);
        &&& ops.len() == 4
        &&& ops[0] == DeviceOp::<T>::MaybeUpdateBatchSize(
            MaybeUpdateBatchSize { input, output: basis },
        )
        &&& ops[1] == DeviceOp::<T>::MaybeUpdateBatchSize(
            MaybeUpdateBatchSize { input, output: silu },
        )
        &&& ops[2] == DeviceOp::<T>::MaybeUpdateBatchSize(MaybeUpdateBatchSize { input, output })
        &&& launches(
            ops[3],
            "FusedKanLayerFwd"@,
            self.specialised(template),
            self.forward_inputs(graph, output_node),
            wider(self.input.shape.rows, self.spline_weight.shape.rows),
            self.forward_shared_bytes(),
        )
    }

    /// Whether the instructions are the backward pass for the node `output_node`.
    pub open spec fn backward_compiled<T: Algebra>(
        self,
        graph: Graph<T>,
        output_node: NodeId,
        template: Seq<char>,
        ops: Seq<DeviceOp<T>>,
    ) -> bool {
        let weights = self.weight_ops(graph, output_node);
        let n = weights.len() as int;
        match graph.locate(self.input.idx, GraphNodeIdTy::Gradients) {
            None => ops == weights,
            Some(input_grad) => {
                &&& ops.len() == n + 2
                &&& ops.take(n) == weights
                &&& ops[n] == DeviceOp::<T>::MaybeUpdateBatchSize(
                    MaybeUpdateBatchSize {
                        input: Self::place(graph, self.input.idx, GraphNodeIdTy::Values),
                        output: input_grad,
                    },
                )
                &&& launches(
                    ops[n + 1],
                    "FusedKanLayerBwdInput"@,
                    self.specialised(template),
                    self.backward_inputs(graph, output_node, input_grad),
                    self.input.shape.rows,
                    self.backward_shared_bytes(),
                )
            },
        }
    }

    /// Compiles the forward pass for the node `output_node`: the batch sizes of
    /// everything that is written are brought up to date, then the kernel runs.
    pub fn forward_pass<T>(
        &self,
        graph: &Graph<T>,
        output_node: NodeId,
        template: &str,
    ) -> (r: DeviceFunction<T>)
        requires
            self.fits(),
            self.forward_shared_bytes() <= usize::MAX,
            self.inputs_located(*graph),
            graph.locate(output_node, GraphNodeIdTy::Ancillary(0)) is Some,
            graph.locate(output_node, GraphNodeIdTy::Ancillary(1)) is Some,
            graph.locate(output_node, GraphNodeIdTy::Values) is Some,
        ensures
            ({
                let input = Self::place(*graph, self.input.idx, GraphNodeIdTy::Values);
                &&& r.ops@.len() == 4
                &&& r.ops@[0] == DeviceOp::<T>::MaybeUpdateBatchSize(
                    MaybeUpdateBatchSize {
                        input,
                        output: Self::place(*graph, output_node, GraphNodeIdTy::Ancillary(0)),
                    },
                )
                &&& r.ops@[1] == DeviceOp::<T>::MaybeUpdateBatchSize(
                    MaybeUpdateBatchSize {
                        input,
                        output: Self::place(*graph, output_node, GraphNodeIdTy::Ancillary(1)),
                    },
                )
                &&& r.ops@[2] == DeviceOp::<T>::MaybeUpdateBatchSize(
                    MaybeUpdateBatchSize {
                        input,
                        output: Self::place(*graph, output_node, GraphNodeIdTy::Values),
                    },
                )
                &&& launches(
                    r.ops@[3],
                    "FusedKanLayerFwd"@,
                    self.specialised(template@),
                    self.forward_inputs(*graph, output_node),
                    wider(self.input.shape.rows, self.spline_weight.shape.rows),
                    self.forward_shared_bytes(),
                )
            }),
            self.forward_compiled(*graph, output_node, template@, r.ops@),
    {
        let mut func: DeviceFunction<T> = DeviceFunction::new();

        let input = graph.get_ref(self.input.idx, GraphNodeIdTy::Values);
        let anc_basis = graph.get_ref(output_node, GraphNodeIdTy::Ancillary(0));
        let anc_silu = graph.get_ref(output_node, GraphNodeIdTy::Ancillary(1));
        let output = graph.get_ref(output_node, GraphNodeIdTy::Values);

        func.push(
            DeviceOp::MaybeUpdateBatchSize(MaybeUpdateBatchSize { input, output: anc_basis }),
        );
        func.push(DeviceOp::MaybeUpdateBatchSize(MaybeUpdateBatchSize { input, output: anc_silu }));
        func.push(DeviceOp::MaybeUpdateBatchSize(MaybeUpdateBatchSize { input, output }));

        let in_features: usize = self.input.shape.rows();
        let out_features: usize = self.spline_weight.shape.rows();
        let width: usize = self.grid_size + self.spline_order;
        let knots: usize = self.grid_size + 2 * self.spline_order + 1;

        let layout: Option<usize> = None;
        let mut inputs: Vec<KernelInput> = self.list_common_inputs(graph);
        inputs.push(
            KernelInput::Slice {
                slice: output,
                layout,
                mutable: true,
                batched: true,
                shape: Shape::new(out_features, 1),
            },
        );
        inputs.push(
            KernelInput::Slice {
                slice: anc_basis,
                layout,
                mutable: true,
                batched: true,
                shape: Shape::new(in_features * width, 1),
            },
        );
        inputs.push(
            KernelInput::Slice {
                slice: anc_silu,
                layout,
                mutable: true,
                batched: true,
                shape: Shape::new(in_features, 1),
            },
        );
        assert(inputs@ =~= self.forward_inputs(*graph, output_node));

        let widest: usize = if in_features < out_features {
            out_features
        } else {
            in_features
        };
        let shared_bytes: usize = (knots + in_features * width + in_features) * 4;
        let args = launch_args(inputs, widest, shared_bytes);
        let code: String = self.specialise(template);
        func.push(
            DeviceOp::Kernel(Kernel { name: String::from_str("FusedKanLayerFwd"), code, args }),
        );
        func
    }

    /// The instructions that add the outer product of the output gradient with
    /// `values`, summed over the batch, to the gradient of a weight, if it has
    /// one.
    pub open spec fn weight_grad_ops<T: Algebra>(
        self,
        weight: TensorRef,
        weight_grad: Option<TensorRef>,
        output_grad: TensorRef,
        values: TensorRef,
        rows: int,
    ) -> Seq<DeviceOp<T>> {
        match weight_grad {
            Some(output) => seq![
                DeviceOp::MaybeUpdateBatchSize(MaybeUpdateBatchSize { input: weight, output }),
                DeviceOp::Matmul(
                    Matmul {
                        cfg: GemmConfig {
                            alpha: one(),
                            beta: one(),
                            shape_a: Shape { rows: self.spline_weight.shape.rows, cols: 1 },
                            trans_a: false,
                            shape_b: Shape { rows: rows as usize, cols: 1 },
                            trans_b: true,
                        },
                        input_a: output_grad,
                        input_b: values,
                        output,
                        ty: MatmulType::BatBatRed,
                    },
                ),
            ],
            None => seq![],
        }
    }

    /// The instructions for the gradients of both weights.
    pub open spec fn weight_ops<T: Algebra>(self, graph: Graph<T>, node: NodeId) -> Seq<
        DeviceOp<T>,
    > {
        let output_grad = Self::place(graph, node, GraphNodeIdTy::Gradients);
        self.weight_grad_ops(
            Self::place(graph, self.spline_weight.idx, GraphNodeIdTy::Values),
            graph.locate(self.spline_weight.idx, GraphNodeIdTy::Gradients),
            output_grad,
            Self::place(graph, node, GraphNodeIdTy::Ancillary(0)),
            self.basis_rows(),
        ) + self.weight_grad_ops(
            Self::place(graph, self.base_weight.idx, GraphNodeIdTy::Values),
            graph.locate(self.base_weight.idx, GraphNodeIdTy::Gradients),
            output_grad,
            Self::place(graph, node, GraphNodeIdTy::Ancillary(1)),
            self.input.shape.rows as int,
        )
    }

    /// Appends the instructions for the gradient of one weight.
    fn push_weight_grad<T: Scalar>(
        &self,
        func: &mut DeviceFunction<T>,
        weight: TensorRef,
        weight_grad: Option<TensorRef>,
        output_grad: TensorRef,
        values: TensorRef,
        rows: usize,
    )
        ensures
            final(func).ops@ == old(func).ops@ + self.weight_grad_ops::<T>(
                weight,
                weight_grad,
                output_grad,
                values,
                rows as int,
            ),
    {
        if let Some(output) = weight_grad {
            func.push(
                DeviceOp::MaybeUpdateBatchSize(MaybeUpdateBatchSize { input: weight, output }),
            );
            func.push(
                DeviceOp::Matmul(
                    Matmul {
                        cfg: GemmConfig {
                            alpha: T::from_count(1),
                            beta: T::from_count(1),
                            shape_a: Shape::new(self.spline_weight.shape.rows(), 1),
                            trans_a: false,
                            shape_b: Shape::new(rows, 1),
                            trans_b: true,
                        },
                        input_a: output_grad,
                        input_b: values,
                        output,
                        ty: MatmulType::BatBatRed,
                    },
                ),
            );
        }
    }

    /// Compiles the backward pass for the node `output_node`: the gradients of
    /// the weights by matrix products, and the gradient of the input by a kernel.
    /// What has no gradient is passed over.
    pub fn backward_pass<T: Scalar>(
        &self,
        graph: &Graph<T>,
        output_node: NodeId,
        template: &str,
    ) -> (r: DeviceFunction<T>)
        requires
            self.fits(),
            graph.locate(self.input.idx, GraphNodeIdTy::Gradients) is Some
                ==> self.backward_shared_bytes() <= usize::MAX,
            self.inputs_located(*graph),
            graph.locate(output_node, GraphNodeIdTy::Ancillary(0)) is Some,
            graph.locate(output_node, GraphNodeIdTy::Ancillary(1)) is Some,
            graph.locate(output_node, GraphNodeIdTy::Gradients) is Some,
        ensures
            ({
                let weights = self.weight_ops(*graph, output_node);
                let n = weights.len() as int;
                match graph.locate(self.input.idx, GraphNodeIdTy::Gradients) {
                    None => r.ops@ == weights,
                    Some(input_grad) => {
                        &&& r.ops@.len() == n + 2
                        &&& r.ops@.take(n) == weights
                        &&& r.ops@[n] == DeviceOp::<T>::MaybeUpdateBatchSize(
                            MaybeUpdateBatchSize {
                                input: Self::place(*graph, self.input.idx, GraphNodeIdTy::Values),
                                output: input_grad,
                            },
                        )
                        &&& launches(
                            r.ops@[n + 1],
                            "FusedKanLayerBwdInput"@,
                            self.specialised(template@),
                            self.backward_inputs(*graph, output_node, input_grad),
                            self.input.shape.rows,
                            self.backward_shared_bytes(),
                        )
                    },
                }
            }),
            self.backward_compiled(*graph, output_node, template@, r.ops@),
    {
        let mut func: DeviceFunction<T> = DeviceFunction::new();

        let input = graph.get_ref(self.input.idx, GraphNodeIdTy::Values);
        let spline_weight = graph.get_ref(self.spline_weight.idx, GraphNodeIdTy::Values);
        let base_weight = graph.get_ref(self.base_weight.idx, GraphNodeIdTy::Values);
        let anc_basis = graph.get_ref(output_node, GraphNodeIdTy::Ancillary(0));
        let anc_silu = graph.get_ref(output_node, GraphNodeIdTy::Ancillary(1));
        let output_grad = graph.get_ref(output_node, GraphNodeIdTy::Gradients);

        let in_features: usize = self.input.shape.rows();
        let out_features: usize = self.spline_weight.shape.rows();
        let width: usize = self.grid_size + self.spline_order;
        let knots: usize = self.grid_size + 2 * self.spline_order + 1;

        self.push_weight_grad(
            &mut func,
            spline_weight,
            graph.maybe_get_ref(self.spline_weight.idx, GraphNodeIdTy::Gradients),
            output_grad,
            anc_basis,
            in_features * width,
        );
        self.push_weight_grad(
            &mut func,
            base_weight,
            graph.maybe_get_ref(self.base_weight.idx, GraphNodeIdTy::Gradients),
            output_grad,
            anc_silu,
            in_features,
        );
        let ghost weights = func.ops@;
        assert(weights =~= self.weight_ops(*graph, output_node));

        if let Some(input_grad) = graph.maybe_get_ref(self.input.idx, GraphNodeIdTy::Gradients) {
            func.push(
                DeviceOp::MaybeUpdateBatchSize(MaybeUpdateBatchSize { input, output: input_grad }),
            );
            let layout: Option<usize> = None;
            let mut inputs: Vec<KernelInput> = self.list_common_inputs(graph);
            inputs.push(
                KernelInput::Slice {
                    slice: output_grad,
                    layout,
                    mutable: false,
                    batched: true,
                    shape: Shape::new(out_features, 1),
                },
            );
            inputs.push(
                KernelInput::Slice {
                    slice: input_grad,
                    layout,
                    mutable: true,
                    batched: true,
                    shape: self.input.shape,
                },
            );
            assert(inputs@ =~= self.backward_inputs(*graph, output_node, input_grad));
            let shared_bytes: usize = (knots + out_features) * 4;
            let args = launch_args(inputs, in_features, shared_bytes);
            let code: String = self.specialise(template);
            func.push(
                DeviceOp::Kernel(
                    Kernel { name: String::from_str("FusedKanLayerBwdInput"), code, args },
                ),
            );
            assert(func.ops@.take(weights.len() as int) =~= weights);
        }
        func
    }
}

/// The arguments of a launch with one block for each element of the batch.
fn launch_args(inputs: Vec<KernelInput>, block: usize, shared_bytes: usize) -> (r: KernelArgs)
    ensures
        r.inputs@ == inputs@,
        r.grid_dim@ == blocks(),
        r.block_dim@ == threads(block),
        r.shared_mem_bytes == Expr::Const(shared_bytes as i32),
{
    let capped: usize = if block <= MAXIMUM_THREADS {
        block
    } else {
        MAXIMUM_THREADS
    };
    let ky: Expr = Expr::Min(Box::new(Expr::Var), Box::new(Expr::Const(MAXIMUM_BLOCKS_Y)));
    let kx: Expr = Expr::Div(
        Box::new(
            Expr::Sub(
                Box::new(
                    Expr::Add(Box::new(Expr::Var), Box::new(Expr::Const(MAXIMUM_BLOCKS_Y))),
                ),
                Box::new(Expr::Const(1)),
            ),
        ),
        Box::new(Expr::Const(MAXIMUM_BLOCKS_Y)),
    );
    let grid_dim = [kx, ky, Expr::Const(1)];
    let block_dim = [Expr::Const(capped as i32), Expr::Const(1), Expr::Const(1)];
    assert(grid_dim@ =~= blocks());
    assert(block_dim@ =~= threads(block));
    KernelArgs {
        inputs,
        grid_dim,
        block_dim,
        shared_mem_bytes: Expr::Const(#[verifier::truncate] (shared_bytes as i32)),
    }
}

} // verus!
