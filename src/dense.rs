use vstd::prelude::*;

use crate::matrix::{add_rows, mat_mul, mat_mul_fits, transpose_spec, Matrix};
use crate::scalar::fits;
use crate::vector::Vector;

verus! {

/// A map from a batch of input rows to a batch of output rows.
pub trait Layer: Sized {
    /// The layer's own invariant.
    spec fn valid(&self) -> bool;

    /// Width of an input row.
    spec fn inputs(&self) -> nat;

    /// Width of an output row.
    spec fn outputs(&self) -> nat;

    /// The output batch for an input batch.
    spec fn forward_spec(&self, m: Seq<Seq<int>>) -> Seq<Seq<int>>;

    /// Every element of `forward_spec(m)`, and every step towards it, fits
    /// in the element type.
    spec fn forward_fits(&self, m: Seq<Seq<int>>) -> bool;

    /// Maps every sample row of `inputs` to an output row.
    fn forward(&self, inputs: &Matrix) -> (r: Matrix)
        requires
            self.valid(),
            inputs.wf(),
            inputs.cols == self.inputs(),
            self.forward_fits(inputs@),
        ensures
            r.wf(),
            r.cols == self.outputs(),
            r@ == self.forward_spec(inputs@),
    ;
}

/// A fully connected layer: `inputs * transpose(weights) + biases` for every row.
/// The weights are kept transposed, one row per input and one column per output.
#[derive(Clone, Debug, PartialEq, Eq)]
pub struct Dense {
    pub biases: Vector,
    pub weights: Matrix,
}

/// The affine map of a batch `m` through transposed weights `w` with `n`
/// outputs and biases `b`.
pub open spec fn affine(m: Seq<Seq<int>>, w: Seq<Seq<int>>, n: nat, b: Seq<int>) -> Seq<Seq<int>> {
    add_rows(mat_mul(m, w, n), b)
}

impl Dense {
    /// Makes a layer from weights with one row per output and the biases.
    pub fn new(weights: &Matrix, biases: Vector) -> (r: Dense)
        requires
            weights.wf(),
            biases.len() == weights.nrows(),
        ensures
            r.valid(),
            r.weights@ == transpose_spec(weights@, weights.cols as nat),
            r.weights.cols == weights.nrows(),
            r.biases == biases,
    {
        Dense { biases, weights: weights.transpose() }
    }
}

impl Layer for Dense {
    open spec fn valid(&self) -> bool {
        self.weights.wf() && self.biases.len() == self.weights.cols
    }

    open spec fn inputs(&self) -> nat {
        self.weights.nrows()
    }

    open spec fn outputs(&self) -> nat {
        self.weights.cols as nat
    }

    open spec fn forward_spec(&self, m: Seq<Seq<int>>) -> Seq<Seq<int>> {
        affine(m, self.weights@, self.weights.cols as nat, self.biases@)
    }

    open spec fn forward_fits(&self, m: Seq<Seq<int>>) -> bool {
        &&& mat_mul_fits(m, self.weights@, self.weights.cols as nat)
        &&& forall|i: int, j: int|
            0 <= i < m.len() && 0 <= j < self.weights.cols ==> #[trigger] fits(
                mat_mul(m, self.weights@, self.weights.cols as nat)[i][j] + self.biases@[j],
            )
    }

    fn forward(&self, inputs: &Matrix) -> (r: Matrix) {
        let product = inputs.mul(&self.weights);
        product.add_vector(&self.biases)
    }
}

} // verus!
