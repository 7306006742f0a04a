use vstd::prelude::*;

use crate::matrix::Matrix;
use crate::vector::Vector;

verus! {

/// Each index lies below the extent of its dimension.
pub open spec fn in_bounds(idx: Seq<usize>, dims: Seq<usize>) -> bool {
    idx.len() == dims.len() && forall|k: int| 0 <= k < idx.len() ==> #[trigger] idx[k] < dims[k]
}

/// Uniform element access for containers of rank `RANK`: a scalar has rank
/// zero, a vector rank one and a matrix rank two.
pub trait Tensor<const RANK: usize>: Sized {
    /// The container's own shape invariant.
    spec fn valid(&self) -> bool;

    /// Extent of each dimension.
    spec fn dims(&self) -> Seq<usize>;

    /// The element at an index tuple.
    spec fn at(&self, idx: Seq<usize>) -> int;

    /// Extent of each dimension.
    fn shape(&self) -> (r: [usize; RANK])
        requires
            self.valid(),
        ensures
            r@ == self.dims(),
    ;

    /// Reads the element at `indices`.
    fn get(&self, indices: [usize; RANK]) -> (r: i64)
        requires
            self.valid(),
            in_bounds(indices@, self.dims()),
        ensures
            r == self.at(indices@),
    ;

    /// Writes `value` at `indices` and leaves every other element as it was.
    fn set(&mut self, indices: [usize; RANK], value: i64)
        requires
            old(self).valid(),
            in_bounds(indices@, old(self).dims()),
        ensures
            final(self).valid(),
            final(self).dims() == old(self).dims(),
            final(self).at(indices@) == value,
            forall|idx: Seq<usize>|
                in_bounds(idx, old(self).dims()) && idx != indices@ ==> #[trigger] final(self).at(idx)
                    == old(self).at(idx),
    ;
}

impl Tensor<0> for i64 {
    open spec fn valid(&self) -> bool {
        true
    }

    open spec fn dims(&self) -> Seq<usize> {
        Seq::empty()
    }

    open spec fn at(&self, idx: Seq<usize>) -> int {
        *self as int
    }

    fn shape(&self) -> (r: [usize; 0]) {
        let r: [usize; 0] = [];
        assert(r@ =~= Seq::empty());
        r
    }

    fn get(&self, indices: [usize; 0]) -> (r: i64) {
        *self
    }

    fn set(&mut self, indices: [usize; 0], value: i64) {
        *self = value;
        proof {
            assert forall|idx: Seq<usize>| in_bounds(idx, Seq::empty()) implies idx == indices@ by {
                assert(idx =~= indices@);
            }
        }
    }
}

impl Tensor<1> for Vector {
    open spec fn valid(&self) -> bool {
        true
    }

    open spec fn dims(&self) -> Seq<usize> {
        seq![self.0@.len() as usize]
    }

    open spec fn at(&self, idx: Seq<usize>) -> int {
        self@[idx[0] as int]
    }

    fn shape(&self) -> (r: [usize; 1]) {
        let r = [self.0.len()];
        assert(r@ =~= self.dims());
        r
    }

    fn get(&self, indices: [usize; 1]) -> (r: i64) {
        assert(indices@[0] < self.dims()[0]);
        self.0[indices[0]]
    }

    fn set(&mut self, indices: [usize; 1], value: i64) {
        assert(indices@[0] < old(self).dims()[0]);
        let i = indices[0];
        self.0.set(i, value);
        proof {
            assert forall|idx: Seq<usize>|
                in_bounds(idx, old(self).dims()) && idx != indices@ implies #[trigger] self.at(idx)
                == old(self).at(idx) by {
                assert(idx[0] < old(self).dims()[0]);
                if idx[0] == i {
                    assert(idx =~= indices@);
                }
            }
        }
    }
}

impl Tensor<2> for Matrix {
    open spec fn valid(&self) -> bool {
        self.wf()
    }

    open spec fn dims(&self) -> Seq<usize> {
        seq![self.rows@.len() as usize, self.cols]
    }

    open spec fn at(&self, idx: Seq<usize>) -> int {
        self@[idx[0] as int][idx[1] as int]
    }

    fn shape(&self) -> (r: [usize; 2]) {
        let r = [self.rows.len(), self.cols];
        assert(r@ =~= self.dims());
        r
    }

    fn get(&self, indices: [usize; 2]) -> (r: i64) {
        assert(indices@[0] < self.dims()[0]);
        assert(indices@[1] < self.dims()[1]);
        assert(self@[indices[0] as int].len() == self.cols);
        self.rows[indices[0]].0[indices[1]]
    }

    fn set(&mut self, indices: [usize; 2], value: i64) {
        assert(indices@[0] < old(self).dims()[0]);
        assert(indices@[1] < old(self).dims()[1]);
        let r = indices[0];
        let c = indices[1];
        assert(old(self)@[r as int].len() == old(self).cols);
        let mut row = Vector(self.rows[r].0.clone());
        row.0.set(c, value);
        self.rows.set(r, row);
        proof {
            assert forall|i: int| 0 <= i < self.nrows() implies (#[trigger] self@[i]).len()
                == self.cols by {
                assert(old(self)@[i].len() == old(self).cols);
            }
            assert forall|idx: Seq<usize>|
                in_bounds(idx, old(self).dims()) && idx != indices@ implies #[trigger] self.at(idx)
                == old(self).at(idx) by {
                assert(idx[0] < old(self).dims()[0]);
                assert(idx[1] < old(self).dims()[1]);
                if idx[0] == r && idx[1] == c {
                    assert(idx =~= indices@);
                }
            }
        }
    }
}

/// A three-dimensional grid: planes of `rows` rows of `cols` elements.
#[derive(Clone, Debug, PartialEq, Eq)]
pub struct Tensor3 {
    pub cells: Vec<Vec<Vec<i64>>>,
    pub rows: usize,
    pub cols: usize,
}

impl View for Tensor3 {
    type V = Seq<Seq<Seq<int>>>;

    open spec fn view(&self) -> Seq<Seq<Seq<int>>> {
        self.cells@.map_values(
            |p: Vec<Vec<i64>>| p@.map_values(|r: Vec<i64>| r@.map_values(|x: i64| x as int)),
        )
    }
}

impl Tensor3 {
    /// Every plane has `rows` rows and every row `cols` elements.
    pub open spec fn wf(&self) -> bool {
        forall|i: int|
            0 <= i < self.cells@.len() ==> {
                &&& (#[trigger] self.cells@[i])@.len() == self.rows
                &&& forall|j: int| 0 <= j < self.rows ==> (#[trigger] self.cells@[i]@[j])@.len() == self.cols
            }
    }

    /// The grid of zeros with `a` planes of `b` rows of `c` elements.
    pub fn zero(a: usize, b: usize, c: usize) -> (t: Tensor3)
        ensures
            t.wf(),
            t.dims() == seq![a, b, c],
            forall|i: int, j: int, k: int|
                0 <= i < a && 0 <= j < b && 0 <= k < c ==> #[trigger] t@[i][j][k] == 0,
    {
        let mut row: Vec<i64> = Vec::new();
        let mut k: usize = 0;
        while k < c
            invariant
                k <= c,
                row@.len() == k,
                forall|x: int| 0 <= x < k ==> row@[x] == 0,
            decreases c - k,
        {
            row.push(0);
            k = k + 1;
        }
        let mut plane: Vec<Vec<i64>> = Vec::new();
        let mut j: usize = 0;
        while j < b
            invariant
                j <= b,
                row@.len() == c,
                forall|x: int| 0 <= x < c ==> row@[x] == 0,
                plane@.len() == j,
                forall|y: int| 0 <= y < j ==> (#[trigger] plane@[y])@ == row@,
            decreases b - j,
        {
            let r = row.clone();
            plane.push(r);
            j = j + 1;
        }
        let mut cells: Vec<Vec<Vec<i64>>> = Vec::new();
        let mut i: usize = 0;
        while i < a
            invariant
                i <= a,
                row@.len() == c,
                forall|x: int| 0 <= x < c ==> row@[x] == 0,
                plane@.len() == b,
                forall|y: int| 0 <= y < b ==> (#[trigger] plane@[y])@ == row@,
                cells@.len() == i,
                forall|z: int| 0 <= z < i ==> (#[trigger] cells@[z])@.len() == b,
                forall|z: int, y: int|
                    0 <= z < i && 0 <= y < b ==> (#[trigger] cells@[z]@[y])@ == row@,
            decreases a - i,
        {
            let p = plane.clone();
            proof {
                assert forall|y: int| 0 <= y < b implies (#[trigger] p@[y])@ == row@ by {
                    assert(cloned(plane@[y], p@[y]));
                }
            }
            cells.push(p);
            i = i + 1;
        }
        Tensor3 { cells, rows: b, cols: c }
    }
}

impl Tensor<3> for Tensor3 {
    open spec fn valid(&self) -> bool {
        self.wf()
    }

    open spec fn dims(&self) -> Seq<usize> {
        seq![self.cells@.len() as usize, self.rows, self.cols]
    }

    open spec fn at(&self, idx: Seq<usize>) -> int {
        self@[idx[0] as int][idx[1] as int][idx[2] as int]
    }

    fn shape(&self) -> (r: [usize; 3]) {
        let r = [self.cells.len(), self.rows, self.cols];
        assert(r@ =~= self.dims());
        r
    }

    fn get(&self, indices: [usize; 3]) -> (r: i64) {
        assert(indices@[0] < self.dims()[0]);
        assert(indices@[1] < self.dims()[1]);
        assert(indices@[2] < self.dims()[2]);
        let i = indices[0];
        let j = indices[1];
        assert(self.cells@[i as int]@.len() == self.rows);
        assert(self.cells@[i as int]@[j as int]@.len() == self.cols);
        self.cells[i][j][indices[2]]
    }

    fn set(&mut self, indices: [usize; 3], value: i64) {
        assert(indices@[0] < old(self).dims()[0]);
        assert(indices@[1] < old(self).dims()[1]);
        assert(indices@[2] < old(self).dims()[2]);
        let i = indices[0];
        let j = indices[1];
        let k = indices[2];
        let ghost before = *old(self);
        assert(before.cells@[i as int]@.len() == before.rows);
        assert(before.cells@[i as int]@[j as int]@.len() == before.cols);
        let mut plane = self.cells.remove(i);
        let mut row = plane.remove(j);
        row.set(k, value);
        plane.insert(j, row);
        self.cells.insert(i, plane);
        proof {
            assert forall|x: int| 0 <= x < self.cells@.len() implies {
                &&& (#[trigger] self.cells@[x])@.len() == self.rows
                &&& forall|y: int| 0 <= y < self.rows ==> (#[trigger] self.cells@[x]@[y])@.len() == self.cols
            } by {
                assert(before.cells@[x]@.len() == before.rows);
                assert forall|y: int| 0 <= y < self.rows implies (#[trigger] self.cells@[x]@[y])@.len() == self.cols by {
                    assert(before.cells@[x]@[y]@.len() == before.cols);
                }
            }
            assert(self.at(indices@) == value);
            assert forall|idx: Seq<usize>|
                in_bounds(idx, before.dims()) && idx != indices@ implies #[trigger] self.at(idx)
                == before.at(idx) by {
                assert(idx[0] < before.dims()[0]);
                assert(idx[1] < before.dims()[1]);
                assert(idx[2] < before.dims()[2]);
                if idx[0] == i && idx[1] == j && idx[2] == k {
                    assert(idx =~= indices@);
                }
            }
        }
    }
}

} // verus!
