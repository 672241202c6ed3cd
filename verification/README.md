# bullet_kan

Kolmogorov-Arnold network layers, verified with Verus.

A KAN layer has a trainable activation function on every edge from an input
feature to an output. Each is a weighted sum of basis functions that all edges
share. There are two kinds of layer:

- B-spline layers, `sw * basis(x) + bw * activation(x)`, with an optional base
  path;
- ReLU-KAN layers, `sw * basis(x)`, whose basis functions are the bumps
  `[ReLU(e - x) * ReLU(x - s)]^2 * 16 / (e - s)^4`.

## Layout

- `src/` is the library. All of it is verified, and nothing in it is trusted.
  - `basis/`, `device/`: basis functions, the batched operations on them, and
    the instructions that run these
  - `graph/`, `nn/`: graphs, layers, and tables for inference
  - `cuda/`: the pass that makes one operation of a KAN layer, and the kernels
    that it compiles to
  - `laws/`: theorems
- `app/` has single-precision numbers and what is built on them.
- `tests/` runs the library, mostly on single-precision numbers.

## Numbers

The code is generic over the trait `Scalar`. Contracts say operation by operation
which expression a function returns, so that they do not presuppose exact
arithmetic. The real numbers are an instance of the specification side of that trait,
`Algebra`, and theorems such as the partition of unity, or that the backward
operations compute derivatives, are stated there.
