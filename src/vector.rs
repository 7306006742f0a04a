use vstd::prelude::*;

use crate::scalar::{abs, abs_spec, div, div_spec, fits, from_usize, ZERO};

verus! {

/// Left-to-right sum of a sequence, starting from zero.
pub open spec fn sum_spec(s: Seq<int>) -> int
    decreases s.len(),
{
    if s.len() == 0 {
        0
    } else {
        sum_spec(s.drop_last()) + s.last()
    }
}

/// Every running total of the left-to-right sum fits in the element type.
pub open spec fn sums_fit(s: Seq<int>) -> bool {
    forall|k: int| 0 <= k <= s.len() ==> #[trigger] fits(sum_spec(s.take(k)))
}

/// Elementwise absolute values.
pub open spec fn abs_seq(s: Seq<int>) -> Seq<int> {
    Seq::new(s.len(), |i: int| abs_spec(s[i]))
}

/// Every element has an absolute value in the element type.
pub open spec fn no_min(s: Seq<int>) -> bool {
    forall|i: int| 0 <= i < s.len() ==> s[i] > i64::MIN
}

/// Elementwise sum of two sequences of the same length.
pub open spec fn add_seq(a: Seq<int>, b: Seq<int>) -> Seq<int> {
    Seq::new(a.len(), |i: int| a[i] + b[i])
}

/// The sequence of `n` zeros.
pub open spec fn zeros(n: nat) -> Seq<int> {
    Seq::new(n, |i: int| 0)
}

/// L1 normalisation: each element divided by the sum of absolute values,
/// or the sequence unchanged when that sum is zero.
pub open spec fn norm_seq(s: Seq<int>) -> Seq<int> {
    let total = sum_spec(abs_seq(s));
    if total == 0 {
        s
    } else {
        Seq::new(s.len(), |i: int| div_spec(s[i], total))
    }
}

/// Elementwise clamp of a sequence into `[lo, hi]`.
pub open spec fn clip_seq(s: Seq<int>, lo: int, hi: int) -> Seq<int> {
    Seq::new(s.len(), |i: int| if s[i] < lo { lo } else if s[i] > hi { hi } else { s[i] })
}

/// The mean of a sequence, zero when it is empty.
pub open spec fn mean_spec(s: Seq<int>) -> int {
    if s.len() == 0 {
        0
    } else {
        div_spec(sum_spec(s), s.len() as int)
    }
}

/// A fixed-length sequence of elements.
#[derive(Clone, Debug, PartialEq, Eq)]
pub struct Vector(pub Vec<i64>);

impl View for Vector {
    type V = Seq<int>;

    open spec fn view(&self) -> Seq<int> {
        self.0@.map_values(|x: i64| x as int)
    }
}

pub(crate) proof fn lemma_sum_take_step(s: Seq<int>, k: int)
    requires
        0 <= k < s.len(),
    ensures
        sum_spec(s.take(k + 1)) == sum_spec(s.take(k)) + s[k],
{
    assert(s.take(k + 1).drop_last() =~= s.take(k));
}

impl Vector {
    /// Number of elements.
    pub open spec fn len(&self) -> nat {
        self.0@.len()
    }

    /// Makes a vector of the given elements.
    pub fn new(v: Vec<i64>) -> (r: Vector)
        ensures
            r@ == v@.map_values(|x: i64| x as int),
    {
        Vector(v)
    }

    /// The vector of `n` zeros.
    pub fn zero(n: usize) -> (r: Vector)
        ensures
            r@ == zeros(n as nat),
    {
        let mut v: Vec<i64> = Vec::new();
        let mut i: usize = 0;
        while i < n
            invariant
                i <= n,
                v@.len() == i,
                forall|j: int| 0 <= j < i ==> v@[j] == 0,
            decreases n - i,
        {
            v.push(ZERO);
            i = i + 1;
        }
        let r = Vector(v);
        assert(r@ =~= zeros(n as nat));
        r
    }

    /// Elementwise absolute value.
    pub fn abs(self) -> (r: Vector)
        requires
            no_min(self@),
        ensures
            r@ == abs_seq(self@),
    {
        let mut v = self.0;
        let n = v.len();
        let mut i: usize = 0;
        while i < n
            invariant
                i <= n,
                n == self.0@.len(),
                v@.len() == n,
                no_min(self@),
                forall|j: int| 0 <= j < i ==> v@[j] == abs_spec(self@[j]),
                forall|j: int| i <= j < n ==> v@[j] == self.0@[j],
            decreases n - i,
        {
            assert(self@[i as int] > i64::MIN);
            let x = abs(v[i]);
            v.set(i, x);
            i = i + 1;
        }
        let r = Vector(v);
        assert(r@ =~= abs_seq(self@));
        r
    }

    /// Sum of the elements from left to right, zero for an empty vector.
    pub fn sum(&self) -> (r: i64)
        requires
            sums_fit(self@),
        ensures
            r == sum_spec(self@),
    {
        let n = self.0.len();
        let mut total: i64 = ZERO;
        let mut i: usize = 0;
        while i < n
            invariant
                i <= n,
                n == self@.len(),
                sums_fit(self@),
                total == sum_spec(self@.take(i as int)),
            decreases n - i,
        {
            proof {
                lemma_sum_take_step(self@, i as int);
                assert(fits(sum_spec(self@.take(i + 1))));
            }
            total = total + self.0[i];
            i = i + 1;
        }
        assert(self@.take(n as int) =~= self@);
        total
    }

    /// Divides every element by the sum of the absolute values; when that
    /// sum is zero the vector comes back unchanged.
    pub fn norm(self) -> (r: Vector)
        requires
            no_min(self@),
            sums_fit(abs_seq(self@)),
        ensures
            r@ == norm_seq(self@),
    {
        let copy = Vector(self.0.clone());
        assert(copy@ =~= self@);
        let total = copy.abs().sum();
        if total == ZERO {
            return self;
        }
        proof {
            lemma_sum_nonneg(abs_seq(self@));
        }
        let mut v = self.0;
        let n = v.len();
        let mut i: usize = 0;
        while i < n
            invariant
                i <= n,
                n == self.0@.len(),
                v@.len() == n,
                total > 0,
                total == sum_spec(abs_seq(self@)),
                forall|j: int| 0 <= j < i ==> v@[j] == div_spec(self@[j], total as int),
                forall|j: int| i <= j < n ==> v@[j] == self.0@[j],
            decreases n - i,
        {
            let x = div(v[i], total);
            v.set(i, x);
            i = i + 1;
        }
        let r = Vector(v);
        assert(r@ =~= norm_seq(self@));
        r
    }

    /// The sum divided by the length, zero for an empty vector.
    pub fn mean(&self) -> (r: i64)
        requires
            sums_fit(self@),
            self.len() <= i64::MAX,
        ensures
            r == mean_spec(self@),
    {
        let n = self.0.len();
        if n == 0 {
            ZERO
        } else {
            let total = self.sum();
            div(total, from_usize(n))
        }
    }

    /// Clamps every element into `[min, max]`.
    pub fn clip(self, min: i64, max: i64) -> (r: Vector)
        requires
            min <= max,
        ensures
            r@ == clip_seq(self@, min as int, max as int),
    {
        let mut v = self.0;
        let n = v.len();
        let mut i: usize = 0;
        while i < n
            invariant
                i <= n,
                n == self.0@.len(),
                v@.len() == n,
                forall|j: int| 0 <= j < i ==> v@[j] as int == clip_seq(self@, min as int, max as int)[j],
                forall|j: int| i <= j < n ==> v@[j] == self.0@[j],
            decreases n - i,
        {
            let x = v[i];
            let y = if x < min {
                min
            } else if x > max {
                max
            } else {
                x
            };
            v.set(i, y);
            i = i + 1;
        }
        let r = Vector(v);
        assert(r@ =~= clip_seq(self@, min as int, max as int));
        r
    }

    /// Elementwise sum with a vector of the same length.
    pub fn add(self, rhs: &Vector) -> (r: Vector)
        requires
            rhs.len() == self.len(),
            forall|i: int| 0 <= i < self.len() ==> #[trigger] fits(self@[i] + rhs@[i]),
        ensures
            r@ == add_seq(self@, rhs@),
    {
        let mut v = self.0;
        let n = v.len();
        let mut i: usize = 0;
        while i < n
            invariant
                i <= n,
                n == self.0@.len(),
                n == rhs.0@.len(),
                v@.len() == n,
                forall|j: int| 0 <= j < n ==> #[trigger] fits(self@[j] + rhs@[j]),
                forall|j: int| 0 <= j < i ==> v@[j] == self@[j] + rhs@[j],
                forall|j: int| i <= j < n ==> v@[j] == self.0@[j],
            decreases n - i,
        {
            assert(fits(self@[i as int] + rhs@[i as int]));
            let x = v[i] + rhs.0[i];
            v.set(i, x);
            i = i + 1;
        }
        let r = Vector(v);
        assert(r@ =~= add_seq(self@, rhs@));
        r
    }
}

/// A sum of non-negative values is non-negative.
pub proof fn lemma_sum_nonneg(s: Seq<int>)
    requires
        forall|i: int| 0 <= i < s.len() ==> s[i] >= 0,
    ensures
        sum_spec(s) >= 0,
    decreases s.len(),
{
    if s.len() > 0 {
        lemma_sum_nonneg(s.drop_last());
    }
}

/// Adding the zero vector of the same length leaves a vector unchanged.
pub proof fn lemma_add_zero(v: Vector)
    ensures
        add_seq(v@, zeros(v.len())) == v@,
{
    assert(add_seq(v@, zeros(v.len())) =~= v@);
}

/// When the absolute values sum to zero, normalisation returns the vector
/// exactly as given.
pub proof fn lemma_norm_zero_sum(v: Vector)
    requires
        sum_spec(abs_seq(v@)) == 0,
    ensures
        norm_seq(v@) == v@,
{
}

} // verus!
