use vstd::prelude::*;

use crate::scalar::{fits, ZERO};
use crate::vector::{add_seq, lemma_sum_take_step, sum_spec, sums_fit, zeros, Vector};

verus! {

/// `m` has `r` rows of `c` elements each.
pub open spec fn shaped(m: Seq<Seq<int>>, r: nat, c: nat) -> bool {
    m.len() == r && forall|i: int| 0 <= i < r ==> (#[trigger] m[i]).len() == c
}

/// Column `j` of a grid given as rows.
pub open spec fn col(m: Seq<Seq<int>>, j: int) -> Seq<int> {
    Seq::new(m.len(), |k: int| m[k][j])
}

/// The elementwise products of two sequences, in order.
pub open spec fn products(u: Seq<int>, v: Seq<int>) -> Seq<int> {
    Seq::new(u.len(), |k: int| u[k] * v[k])
}

/// Dot product, accumulated from the first index to the last.
pub open spec fn dot(u: Seq<int>, v: Seq<int>) -> int {
    sum_spec(products(u, v))
}

/// Every product and every running total of `dot(u, v)` fits in the element type.
pub open spec fn dot_fits(u: Seq<int>, v: Seq<int>) -> bool {
    &&& forall|k: int| 0 <= k < u.len() ==> #[trigger] fits(u[k] * v[k])
    &&& sums_fit(products(u, v))
}

/// The `r` by `c` grid of zeros.
pub open spec fn zero_grid(r: nat, c: nat) -> Seq<Seq<int>> {
    Seq::new(r, |i: int| zeros(c))
}

/// The transpose of a grid with `n` columns: element `(j, i)` is `m[i][j]`.
pub open spec fn transpose_spec(m: Seq<Seq<int>>, n: nat) -> Seq<Seq<int>> {
    Seq::new(n, |j: int| col(m, j))
}

/// Product of `a` with `b`, where `b` has `n` columns.
pub open spec fn mat_mul(a: Seq<Seq<int>>, b: Seq<Seq<int>>, n: nat) -> Seq<Seq<int>> {
    Seq::new(a.len(), |i: int| Seq::new(n, |j: int| dot(a[i], col(b, j))))
}

/// Every entry of `mat_mul(a, b, n)` can be computed in the element type.
pub open spec fn mat_mul_fits(a: Seq<Seq<int>>, b: Seq<Seq<int>>, n: nat) -> bool {
    forall|i: int, j: int| 0 <= i < a.len() && 0 <= j < n ==> #[trigger] dot_fits(a[i], col(b, j))
}

/// Product of a grid with a column vector.
pub open spec fn mat_vec(a: Seq<Seq<int>>, v: Seq<int>) -> Seq<int> {
    Seq::new(a.len(), |i: int| dot(a[i], v))
}

/// Every element of a grid multiplied by `s`.
pub open spec fn scale(a: Seq<Seq<int>>, s: int) -> Seq<Seq<int>> {
    Seq::new(a.len(), |i: int| Seq::new(a[i].len(), |j: int| a[i][j] * s))
}

/// `v` added to every row of `a`.
pub open spec fn add_rows(a: Seq<Seq<int>>, v: Seq<int>) -> Seq<Seq<int>> {
    Seq::new(a.len(), |i: int| add_seq(a[i], v))
}

/// A grid of elements stored as rows of equal length.
#[derive(Clone, Debug, PartialEq, Eq)]
pub struct Matrix {
    pub rows: Vec<Vector>,
    pub cols: usize,
}

impl View for Matrix {
    type V = Seq<Seq<int>>;

    open spec fn view(&self) -> Seq<Seq<int>> {
        self.rows@.map_values(|r: Vector| r@)
    }
}

/// Dot product of `u` with column `c` of `m`.
fn dot_col(u: &Vector, m: &Matrix, c: usize) -> (r: i64)
    requires
        m.wf(),
        c < m.cols,
        u.len() == m.nrows(),
        dot_fits(u@, col(m@, c as int)),
    ensures
        r == dot(u@, col(m@, c as int)),
{
    let n = m.rows.len();
    let ghost p = products(u@, col(m@, c as int));
    let mut total: i64 = ZERO;
    let mut k: usize = 0;
    while k < n
        invariant
            k <= n,
            n == m.nrows(),
            u.len() == n,
            m.wf(),
            c < m.cols,
            p == products(u@, col(m@, c as int)),
            dot_fits(u@, col(m@, c as int)),
            total == sum_spec(p.take(k as int)),
        decreases n - k,
    {
        proof {
            lemma_sum_take_step(p, k as int);
            assert(fits(sum_spec(p.take(k + 1))));
            assert(m@[k as int].len() == m.cols);
            assert(fits(u@[k as int] * col(m@, c as int)[k as int]));
        }
        let x = u.0[k] * m.rows[k].0[c];
        total = total + x;
        k = k + 1;
    }
    assert(p.take(n as int) =~= p);
    total
}

/// Dot product of two vectors of the same length.
fn dot_vec(u: &Vector, v: &Vector) -> (r: i64)
    requires
        u.len() == v.len(),
        dot_fits(u@, v@),
    ensures
        r == dot(u@, v@),
{
    let n = u.0.len();
    let ghost p = products(u@, v@);
    let mut total: i64 = ZERO;
    let mut k: usize = 0;
    while k < n
        invariant
            k <= n,
            n == u.len(),
            u.len() == v.len(),
            p == products(u@, v@),
            dot_fits(u@, v@),
            total == sum_spec(p.take(k as int)),
        decreases n - k,
    {
        proof {
            lemma_sum_take_step(p, k as int);
            assert(fits(sum_spec(p.take(k + 1))));
            assert(fits(u@[k as int] * v@[k as int]));
        }
        let x = u.0[k] * v.0[k];
        total = total + x;
        k = k + 1;
    }
    assert(p.take(n as int) =~= p);
    total
}

impl Matrix {
    /// Number of rows.
    pub open spec fn nrows(&self) -> nat {
        self.rows@.len()
    }

    /// Every row has `cols` elements.
    pub open spec fn wf(&self) -> bool {
        shaped(self@, self.nrows(), self.cols as nat)
    }

    /// Makes a matrix from rows of equal length.
    pub fn new(v: Vec<Vec<i64>>) -> (r: Matrix)
        requires
            forall|i: int| 0 <= i < v@.len() ==> (#[trigger] v@[i]).len() == v@[0].len(),
        ensures
            r.wf(),
            r.cols == (if v@.len() == 0 {
                0
            } else {
                v@[0].len()
            }),
            r@ == v@.map_values(|row: Vec<i64>| row@.map_values(|x: i64| x as int)),
    {
        let n = v.len();
        let cols: usize = if n == 0 {
            0
        } else {
            v[0].len()
        };
        let mut rows: Vec<Vector> = Vec::new();
        let mut i: usize = 0;
        while i < n
            invariant
                i <= n,
                n == v@.len(),
                rows@.len() == i,
                n > 0 ==> cols == v@[0].len(),
                forall|k: int| 0 <= k < v@.len() ==> (#[trigger] v@[k]).len() == v@[0].len(),
                forall|k: int| 0 <= k < i ==> (#[trigger] rows@[k]).0@ == v@[k]@,
            decreases n - i,
        {
            let row = v[i].clone();
            rows.push(Vector(row));
            i = i + 1;
        }
        let r = Matrix { rows, cols };
        assert(r@ =~= v@.map_values(|row: Vec<i64>| row@.map_values(|x: i64| x as int)));
        r
    }

    /// The `r` by `c` matrix of zeros.
    pub fn zero(r: usize, c: usize) -> (m: Matrix)
        ensures
            m.wf(),
            m.cols == c,
            m@ == zero_grid(r as nat, c as nat),
    {
        let mut rows: Vec<Vector> = Vec::new();
        let mut i: usize = 0;
        while i < r
            invariant
                i <= r,
                rows@.len() == i,
                forall|k: int| 0 <= k < i ==> (#[trigger] rows@[k])@ == zeros(c as nat),
            decreases r - i,
        {
            rows.push(Vector::zero(c));
            i = i + 1;
        }
        let m = Matrix { rows, cols: c };
        assert(m@ =~= zero_grid(r as nat, c as nat));
        m
    }

    /// The matrix with rows and columns exchanged.
    pub fn transpose(&self) -> (t: Matrix)
        requires
            self.wf(),
        ensures
            t.wf(),
            t.cols == self.nrows(),
            t@ == transpose_spec(self@, self.cols as nat),
    {
        let nr = self.rows.len();
        let nc = self.cols;
        let mut rows: Vec<Vector> = Vec::new();
        let mut j: usize = 0;
        while j < nc
            invariant
                j <= nc,
                nc == self.cols,
                nr == self.nrows(),
                self.wf(),
                rows@.len() == j,
                forall|k: int| 0 <= k < j ==> (#[trigger] rows@[k])@ == col(self@, k),
            decreases nc - j,
        {
            let mut row: Vec<i64> = Vec::new();
            let mut i: usize = 0;
            while i < nr
                invariant
                    i <= nr,
                    j < nc,
                    nc == self.cols,
                    nr == self.nrows(),
                    self.wf(),
                    row@.len() == i,
                    forall|k: int| 0 <= k < i ==> row@[k] as int == #[trigger] self@[k][j as int],
                decreases nr - i,
            {
                assert(self@[i as int].len() == nc);
                row.push(self.rows[i].0[j]);
                i = i + 1;
            }
            let v = Vector(row);
            assert(v@ =~= col(self@, j as int));
            rows.push(v);
            j = j + 1;
        }
        let t = Matrix { rows, cols: nr };
        assert(t@ =~= transpose_spec(self@, self.cols as nat));
        t
    }

    /// Matrix product: entry `(i, j)` is the dot product of row `i` of `self`
    /// with column `j` of `rhs`.
    pub fn mul(&self, rhs: &Matrix) -> (m: Matrix)
        requires
            self.wf(),
            rhs.wf(),
            self.cols == rhs.nrows(),
            mat_mul_fits(self@, rhs@, rhs.cols as nat),
        ensures
            m.wf(),
            m.cols == rhs.cols,
            m@ == mat_mul(self@, rhs@, rhs.cols as nat),
    {
        let nr = self.rows.len();
        let nc = rhs.cols;
        let mut rows: Vec<Vector> = Vec::new();
        let mut i: usize = 0;
        while i < nr
            invariant
                i <= nr,
                nr == self.nrows(),
                nc == rhs.cols,
                self.wf(),
                rhs.wf(),
                self.cols == rhs.nrows(),
                mat_mul_fits(self@, rhs@, nc as nat),
                rows@.len() == i,
                forall|k: int| 0 <= k < i ==> (#[trigger] rows@[k])@ == mat_mul(self@, rhs@, nc as nat)[k],
            decreases nr - i,
        {
            let mut row: Vec<i64> = Vec::new();
            let mut j: usize = 0;
            while j < nc
                invariant
                    j <= nc,
                    i < nr,
                    nr == self.nrows(),
                    nc == rhs.cols,
                    self.wf(),
                    rhs.wf(),
                    self.cols == rhs.nrows(),
                    mat_mul_fits(self@, rhs@, nc as nat),
                    row@.len() == j,
                    forall|k: int| 0 <= k < j ==> row@[k] as int == #[trigger] dot(self@[i as int], col(rhs@, k)),
                decreases nc - j,
            {
                assert(dot_fits(self@[i as int], col(rhs@, j as int)));
                let x = dot_col(&self.rows[i], rhs, j);
                row.push(x);
                j = j + 1;
            }
            let v = Vector(row);
            assert(v@ =~= mat_mul(self@, rhs@, nc as nat)[i as int]);
            rows.push(v);
            i = i + 1;
        }
        let m = Matrix { rows, cols: nc };
        assert(m@ =~= mat_mul(self@, rhs@, nc as nat));
        m
    }

    /// Matrix times vector: element `i` is the dot product of row `i` with `rhs`.
    pub fn mul_vector(&self, rhs: &Vector) -> (v: Vector)
        requires
            self.wf(),
            rhs.len() == self.cols,
            forall|i: int| 0 <= i < self.nrows() ==> #[trigger] dot_fits(self@[i], rhs@),
        ensures
            v@ == mat_vec(self@, rhs@),
    {
        let nr = self.rows.len();
        let mut out: Vec<i64> = Vec::new();
        let mut i: usize = 0;
        while i < nr
            invariant
                i <= nr,
                nr == self.nrows(),
                self.wf(),
                rhs.len() == self.cols,
                forall|k: int| 0 <= k < self.nrows() ==> #[trigger] dot_fits(self@[k], rhs@),
                out@.len() == i,
                forall|k: int| 0 <= k < i ==> out@[k] as int == #[trigger] dot(self@[k], rhs@),
            decreases nr - i,
        {
            assert(dot_fits(self@[i as int], rhs@));
            let x = dot_vec(&self.rows[i], rhs);
            out.push(x);
            i = i + 1;
        }
        let v = Vector(out);
        assert(v@ =~= mat_vec(self@, rhs@));
        v
    }

    /// Every element multiplied by `s`.
    pub fn mul_scalar(&self, s: i64) -> (m: Matrix)
        requires
            self.wf(),
            forall|i: int, j: int|
                0 <= i < self.nrows() && 0 <= j < self.cols ==> #[trigger] fits(self@[i][j] * s),
        ensures
            m.wf(),
            m.cols == self.cols,
            m@ == scale(self@, s as int),
    {
        let nr = self.rows.len();
        let nc = self.cols;
        let mut rows: Vec<Vector> = Vec::new();
        let mut i: usize = 0;
        while i < nr
            invariant
                i <= nr,
                nr == self.nrows(),
                nc == self.cols,
                self.wf(),
                forall|a: int, b: int|
                    0 <= a < self.nrows() && 0 <= b < self.cols ==> #[trigger] fits(self@[a][b] * s),
                rows@.len() == i,
                forall|k: int| 0 <= k < i ==> (#[trigger] rows@[k])@ == scale(self@, s as int)[k],
            decreases nr - i,
        {
            let mut row: Vec<i64> = Vec::new();
            let mut j: usize = 0;
            while j < nc
                invariant
                    j <= nc,
                    i < nr,
                    nr == self.nrows(),
                    nc == self.cols,
                    self.wf(),
                    forall|a: int, b: int|
                        0 <= a < self.nrows() && 0 <= b < self.cols ==> #[trigger] fits(self@[a][b] * s),
                    row@.len() == j,
                    forall|k: int| 0 <= k < j ==> row@[k] as int == #[trigger] self@[i as int][k] * s,
                decreases nc - j,
            {
                assert(self@[i as int].len() == nc);
                assert(fits(self@[i as int][j as int] * s));
                let x = self.rows[i].0[j] * s;
                row.push(x);
                j = j + 1;
            }
            let v = Vector(row);
            assert(v@ =~= scale(self@, s as int)[i as int]);
            rows.push(v);
            i = i + 1;
        }
        let m = Matrix { rows, cols: nc };
        assert(m@ =~= scale(self@, s as int));
        m
    }

    /// `rhs` added to every row.
    pub fn add_vector(&self, rhs: &Vector) -> (m: Matrix)
        requires
            self.wf(),
            rhs.len() == self.cols,
            forall|i: int, j: int|
                0 <= i < self.nrows() && 0 <= j < self.cols ==> #[trigger] fits(self@[i][j] + rhs@[j]),
        ensures
            m.wf(),
            m.cols == self.cols,
            m@ == add_rows(self@, rhs@),
    {
        let nr = self.rows.len();
        let mut rows: Vec<Vector> = Vec::new();
        let mut i: usize = 0;
        while i < nr
            invariant
                i <= nr,
                nr == self.nrows(),
                self.wf(),
                rhs.len() == self.cols,
                forall|a: int, b: int|
                    0 <= a < self.nrows() && 0 <= b < self.cols ==> #[trigger] fits(self@[a][b] + rhs@[b]),
                rows@.len() == i,
                forall|k: int| 0 <= k < i ==> (#[trigger] rows@[k])@ == add_rows(self@, rhs@)[k],
            decreases nr - i,
        {
            let row = Vector(self.rows[i].0.clone());
            assert(row@ =~= self@[i as int]);
            assert forall|b: int| 0 <= b < row.len() implies #[trigger] fits(row@[b] + rhs@[b]) by {
                assert(fits(self@[i as int][b] + rhs@[b]));
            }
            let v = row.add(rhs);
            rows.push(v);
            i = i + 1;
        }
        let m = Matrix { rows, cols: self.cols };
        assert(m@ =~= add_rows(self@, rhs@));
        m
    }
}

/// Sum of `f(k)` for `k` from `0` below `n`.
pub open spec fn sigma(n: nat, f: spec_fn(int) -> int) -> int
    decreases n,
{
    if n == 0 {
        0
    } else {
        sigma((n - 1) as nat, f) + f(n - 1)
    }
}

proof fn lemma_sigma_ext(n: nat, f: spec_fn(int) -> int, g: spec_fn(int) -> int)
    requires
        forall|k: int| 0 <= k < n ==> #[trigger] f(k) == g(k),
    ensures
        sigma(n, f) == sigma(n, g),
    decreases n,
{
    if n > 0 {
        lemma_sigma_ext((n - 1) as nat, f, g);
    }
}

proof fn lemma_sum_as_sigma(s: Seq<int>)
    ensures
        sum_spec(s) == sigma(s.len(), |k: int| s[k]),
    decreases s.len(),
{
    if s.len() > 0 {
        let t = s.drop_last();
        lemma_sum_as_sigma(t);
        lemma_sigma_ext(t.len(), |k: int| t[k], |k: int| s[k]);
    }
}

proof fn lemma_dot_sigma(u: Seq<int>, v: Seq<int>)
    ensures
        dot(u, v) == sigma(u.len(), |k: int| u[k] * v[k]),
{
    let p = products(u, v);
    lemma_sum_as_sigma(p);
    lemma_sigma_ext(u.len(), |k: int| p[k], |k: int| u[k] * v[k]);
}

proof fn lemma_sigma_add(n: nat, f: spec_fn(int) -> int, g: spec_fn(int) -> int)
    ensures
        sigma(n, f) + sigma(n, g) == sigma(n, |k: int| f(k) + g(k)),
    decreases n,
{
    if n > 0 {
        lemma_sigma_add((n - 1) as nat, f, g);
    }
}

proof fn lemma_sigma_scale_right(n: nat, f: spec_fn(int) -> int, x: int)
    ensures
        sigma(n, f) * x == sigma(n, |k: int| f(k) * x),
    decreases n,
{
    if n > 0 {
        let m = (n - 1) as nat;
        lemma_sigma_scale_right(m, f, x);
        let a = sigma(m, f);
        let b = f(n - 1);
        assert((a + b) * x == a * x + b * x) by (nonlinear_arith);
    }
}

proof fn lemma_sigma_scale_left(n: nat, f: spec_fn(int) -> int, x: int)
    ensures
        x * sigma(n, f) == sigma(n, |k: int| x * f(k)),
    decreases n,
{
    if n > 0 {
        let m = (n - 1) as nat;
        lemma_sigma_scale_left(m, f, x);
        let a = sigma(m, f);
        let b = f(n - 1);
        assert(x * (a + b) == x * a + x * b) by (nonlinear_arith);
    }
}

proof fn lemma_sigma_zero(n: nat, f: spec_fn(int) -> int)
    requires
        forall|k: int| 0 <= k < n ==> #[trigger] f(k) == 0,
    ensures
        sigma(n, f) == 0,
    decreases n,
{
    if n > 0 {
        lemma_sigma_zero((n - 1) as nat, f);
    }
}

proof fn lemma_sigma_swap(n: nat, m: nat, f: spec_fn(int, int) -> int)
    ensures
        sigma(n, |k: int| sigma(m, |j: int| f(j, k))) == sigma(m, |j: int| sigma(n, |k: int| f(j, k))),
    decreases n,
{
    if n > 0 {
        let n1 = (n - 1) as nat;
        let outer = |k: int| sigma(m, |j: int| f(j, k));
        let inner_n1 = |j: int| sigma(n1, |k: int| f(j, k));
        let last = |j: int| f(j, n1 as int);
        let both = |j: int| sigma(n1, |k: int| f(j, k)) + f(j, n1 as int);
        let inner_n = |j: int| sigma(n, |k: int| f(j, k));
        lemma_sigma_swap(n1, m, f);
        assert(sigma(n, outer) == sigma(n1, outer) + outer(n1 as int));
        assert(outer(n1 as int) == sigma(m, last)) by {
            lemma_sigma_ext(m, |j: int| f(j, n1 as int), last);
        }
        lemma_sigma_add(m, inner_n1, last);
        assert forall|j: int| 0 <= j < m implies #[trigger] both(j) == inner_n(j) by {
            let g = |k: int| f(j, k);
            assert(sigma(n, g) == sigma(n1, g) + g(n1 as int));
        }
        lemma_sigma_ext(m, both, inner_n);
        lemma_sigma_ext(m, |j: int| inner_n1(j) + last(j), both);
    } else {
        lemma_sigma_zero(m, |j: int| sigma(n, |k: int| f(j, k)));
    }
}

/// The matrix product is associative: for `a` of shape p by q, `b` of shape
/// q by r and `c` of shape r by s, `(a * b) * c == a * (b * c)`.
pub proof fn lemma_mul_assoc(a: Matrix, b: Matrix, c: Matrix)
    requires
        a.wf(),
        b.wf(),
        c.wf(),
        a.cols == b.nrows(),
        b.cols == c.nrows(),
    ensures
        mat_mul(mat_mul(a@, b@, b.cols as nat), c@, c.cols as nat) == mat_mul(
            a@,
            mat_mul(b@, c@, c.cols as nat),
            c.cols as nat,
        ),
{
    let q = b.nrows();
    let r = b.cols as nat;
    let s = c.cols as nat;
    let ab = mat_mul(a@, b@, r);
    let bc = mat_mul(b@, c@, s);
    let lhs = mat_mul(ab, c@, s);
    let rhs = mat_mul(a@, bc, s);
    assert forall|i: int, l: int| 0 <= i < a.nrows() && 0 <= l < s implies #[trigger] lhs[i][l]
        == rhs[i][l] by {
        let ai = a@[i];
        assert(ai.len() == q);
        let f = |j: int, k: int| ai[j] * b@[j][k] * c@[k][l];
        // Left side: sum over k of (sum over j of a b) c.
        let lk = |k: int| ab[i][k] * col(c@, l)[k];
        let fk = |k: int| sigma(q, |j: int| f(j, k));
        lemma_dot_sigma(ab[i], col(c@, l));
        lemma_sigma_ext(r, |k: int| ab[i][k] * col(c@, l)[k], lk);
        assert forall|k: int| 0 <= k < r implies #[trigger] lk(k) == fk(k) by {
            let g = |j: int| ai[j] * col(b@, k)[j];
            let x = c@[k][l];
            lemma_dot_sigma(ai, col(b@, k));
            lemma_sigma_ext(q, |j: int| ai[j] * col(b@, k)[j], g);
            lemma_sigma_scale_right(q, g, x);
            lemma_sigma_ext(q, |j: int| g(j) * x, |j: int| f(j, k));
        }
        lemma_sigma_ext(r, lk, fk);
        lemma_sigma_swap(r, q, f);
        // Right side: sum over j of a (sum over k of b c).
        let rj = |j: int| ai[j] * col(bc, l)[j];
        let fj = |j: int| sigma(r, |k: int| f(j, k));
        lemma_dot_sigma(ai, col(bc, l));
        lemma_sigma_ext(q, |j: int| ai[j] * col(bc, l)[j], rj);
        assert forall|j: int| 0 <= j < q implies #[trigger] rj(j) == fj(j) by {
            assert(b@[j].len() == r);
            let g = |k: int| b@[j][k] * col(c@, l)[k];
            let x = ai[j];
            lemma_dot_sigma(b@[j], col(c@, l));
            lemma_sigma_ext(r, |k: int| b@[j][k] * col(c@, l)[k], g);
            lemma_sigma_scale_left(r, g, x);
            assert forall|k: int| 0 <= k < r implies x * g(k) == #[trigger] f(j, k) by {
                let y = b@[j][k];
                let z = c@[k][l];
                assert(x * (y * z) == x * y * z) by (nonlinear_arith);
            }
            lemma_sigma_ext(r, |k: int| x * g(k), |k: int| f(j, k));
        }
        lemma_sigma_ext(q, rj, fj);
    }
    assert forall|i: int| 0 <= i < a.nrows() implies #[trigger] lhs[i] =~= rhs[i] by {}
    assert(lhs =~= rhs);
}

/// Transposing twice gives back the original matrix.
pub proof fn lemma_transpose_transpose(m: Matrix)
    requires
        m.wf(),
    ensures
        transpose_spec(transpose_spec(m@, m.cols as nat), m.nrows()) == m@,
{
    let t = transpose_spec(m@, m.cols as nat);
    let tt = transpose_spec(t, m.nrows());
    assert forall|i: int| 0 <= i < m.nrows() implies #[trigger] tt[i] =~= m@[i] by {
        assert(m@[i].len() == m.cols);
    }
    assert(tt =~= m@);
}

} // verus!
