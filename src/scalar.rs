use vstd::prelude::*;

verus! {

/// The additive identity of the element type.
pub const ZERO: i64 = 0;

/// The larger of two elements; on a tie the left operand is returned.
pub open spec fn max_spec(a: int, b: int) -> int {
    if a >= b {
        a
    } else {
        b
    }
}

/// Absolute value.
pub open spec fn abs_spec(x: int) -> int {
    if x < 0 {
        -x
    } else {
        x
    }
}

/// Division rounded toward zero, as the element type's `/` does.
pub open spec fn div_spec(a: int, b: int) -> int {
    if (a < 0) == (b < 0) {
        abs_spec(a) / abs_spec(b)
    } else {
        -(abs_spec(a) / abs_spec(b))
    }
}

/// Whether a mathematical integer fits in the element type.
pub open spec fn fits(x: int) -> bool {
    i64::MIN <= x <= i64::MAX
}

/// Returns `a` when `a >= b`, otherwise `b`.
pub fn max(a: i64, b: i64) -> (r: i64)
    ensures
        r == max_spec(a as int, b as int),
{
    if a >= b {
        a
    } else {
        b
    }
}

/// Absolute value of an element; the most negative value has none.
pub fn abs(x: i64) -> (r: i64)
    requires
        x > i64::MIN,
    ensures
        r == abs_spec(x as int),
{
    if x < 0 {
        -x
    } else {
        x
    }
}

/// Quotient rounded toward zero.
pub fn div(a: i64, b: i64) -> (r: i64)
    requires
        b > 0,
    ensures
        r == div_spec(a as int, b as int),
{
    if a < 0 {
        let q: i128 = (-(a as i128)) / (b as i128);
        (-q) as i64
    } else {
        a / b
    }
}

/// Converts an element count to the element type.
pub fn from_usize(n: usize) -> (r: i64)
    requires
        n <= i64::MAX,
    ensures
        r == n,
{
    n as i64
}

} // verus!
