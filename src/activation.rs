use vstd::prelude::*;

use crate::matrix::Matrix;
use crate::scalar::{max, max_spec, ZERO};
use crate::vector::Vector;

verus! {

/// A transform of a batch matrix into another of the same shape.
pub trait ActivationFn: Sized {
    /// What the transform does to a batch, as rows of elements.
    spec fn transform(&self, m: Seq<Seq<int>>) -> Seq<Seq<int>>;

    /// Applies the transform to every sample row of `outputs`.
    fn apply(&self, outputs: &Matrix) -> (r: Matrix)
        requires
            outputs.wf(),
        ensures
            r.wf(),
            r.cols == outputs.cols,
            r@ == self.transform(outputs@),
    ;
}

/// Elementwise `max(0, x)`; a tie at zero gives zero.
pub open spec fn relu_spec(m: Seq<Seq<int>>) -> Seq<Seq<int>> {
    Seq::new(m.len(), |i: int| Seq::new(m[i].len(), |j: int| max_spec(0, m[i][j])))
}

/// The rectified linear unit.
#[derive(Clone, Copy, Debug, PartialEq, Eq)]
pub struct ReLU;

impl ActivationFn for ReLU {
    open spec fn transform(&self, m: Seq<Seq<int>>) -> Seq<Seq<int>> {
        relu_spec(m)
    }

    fn apply(&self, outputs: &Matrix) -> (r: Matrix) {
        let nr = outputs.rows.len();
        let nc = outputs.cols;
        let mut rows: Vec<Vector> = Vec::new();
        let mut s: usize = 0;
        while s < nr
            invariant
                s <= nr,
                nr == outputs.nrows(),
                nc == outputs.cols,
                outputs.wf(),
                rows@.len() == s,
                forall|k: int| 0 <= k < s ==> (#[trigger] rows@[k])@ == relu_spec(outputs@)[k],
            decreases nr - s,
        {
            let mut row: Vec<i64> = Vec::new();
            let mut o: usize = 0;
            while o < nc
                invariant
                    o <= nc,
                    s < nr,
                    nr == outputs.nrows(),
                    nc == outputs.cols,
                    outputs.wf(),
                    row@.len() == o,
                    forall|k: int|
                        0 <= k < o ==> row@[k] as int == max_spec(0, #[trigger] outputs@[s as int][k]),
                decreases nc - o,
            {
                assert(outputs@[s as int].len() == nc);
                row.push(max(ZERO, outputs.rows[s].0[o]));
                o = o + 1;
            }
            let v = Vector(row);
            assert(outputs@[s as int].len() == nc);
            assert(v@ =~= relu_spec(outputs@)[s as int]);
            rows.push(v);
            s = s + 1;
        }
        let m = Matrix { rows, cols: nc };
        assert(m@ =~= relu_spec(outputs@));
        m
    }
}

/// Every element of a rectified batch is at least zero, and an element that
/// was already at least zero is kept as it was.
pub proof fn lemma_relu_nonneg(m: Seq<Seq<int>>)
    ensures
        relu_spec(m).len() == m.len(),
        forall|i: int| 0 <= i < m.len() ==> (#[trigger] relu_spec(m)[i]).len() == m[i].len(),
        forall|i: int, j: int|
            0 <= i < m.len() && 0 <= j < m[i].len() ==> #[trigger] relu_spec(m)[i][j] >= 0,
        forall|i: int, j: int|
            0 <= i < m.len() && 0 <= j < m[i].len() && m[i][j] >= 0 ==> #[trigger] relu_spec(m)[i][j]
                == m[i][j],
{
}

} // verus!
