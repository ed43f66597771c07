//! Fixed-length numeric sequences and the dimension-checked dot product.

use vstd::prelude::*;

use crate::error::MatrixError;

verus! {

/// A fixed-length ordered sequence of numbers, immutable after
/// construction; the operand of `dot_product` and the per-task row and
/// column payload of the matrix engine.
pub struct Vector {
    data: Vec<i64>,
}

impl View for Vector {
    type V = Seq<i64>;

    closed spec fn view(&self) -> Seq<i64> {
        self.data@
    }
}

impl Vector {
    pub fn new(data: Vec<i64>) -> (v: Vector)
        ensures
            v@ == data@,
    {
        Vector { data }
    }

    pub fn len(&self) -> (n: usize)
        ensures
            n == self@.len(),
    {
        self.data.len()
    }

    pub fn get(&self, i: usize) -> (x: i64)
        requires
            i < self@.len(),
        ensures
            x == self@[i as int],
    {
        self.data[i]
    }
}

/// The accumulator of the dot-product fold after its first `n` steps:
/// the sum of the first `n` elementwise products, taken left to right.
pub open spec fn dot_partial(a: Seq<i64>, b: Seq<i64>, n: int) -> int
    decreases n,
{
    if n <= 0 {
        0
    } else {
        dot_partial(a, b, n - 1) + a[n - 1] * b[n - 1]
    }
}

/// The mathematical dot product of two equal-length sequences.
pub open spec fn spec_dot(a: Seq<i64>, b: Seq<i64>) -> int {
    dot_partial(a, b, a.len() as int)
}

/// Every elementwise product and every left-to-right partial sum stays
/// within `i64`, so the dot-product fold never overflows.
pub open spec fn dot_in_i64(a: Seq<i64>, b: Seq<i64>) -> bool {
    forall|n: int| #![trigger a[n]]
        0 <= n < a.len() ==> i64::MIN <= a[n] * b[n] <= i64::MAX && i64::MIN <= dot_partial(
            a,
            b,
            n + 1,
        ) <= i64::MAX
}

/// A fold that never overflows ends within `i64`.
pub proof fn lemma_dot_in_range(a: Seq<i64>, b: Seq<i64>)
    requires
        dot_in_i64(a, b),
    ensures
        i64::MIN <= spec_dot(a, b) <= i64::MAX,
{
    if a.len() == 0 {
    } else {
        let n = a.len() as int - 1;
        assert(a[n] == a[n]);
        assert(i64::MIN <= dot_partial(a, b, n + 1) <= i64::MAX);
    }
}

/// The sum of elementwise products of two equal-length sequences, with
/// the additive identity as the fold seed and left-to-right accumulation.
/// Operands of differing length are rejected with `DimensionMismatch`.
pub fn dot_product(a: Vector, b: Vector) -> (r: Result<i64, MatrixError>)
    requires
        a@.len() == b@.len() ==> dot_in_i64(a@, b@),
    ensures
        match r {
            Ok(v) => a@.len() == b@.len() && v == spec_dot(a@, b@),
            Err(e) => a@.len() != b@.len() && e == MatrixError::DimensionMismatch,
        },
{
    if a.len() != b.len() {
        return Err(MatrixError::DimensionMismatch);
    }
    let n = a.len();
    let mut result: i64 = 0;
    for i in 0..n
        invariant
            n == a@.len(),
            n == b@.len(),
            dot_in_i64(a@, b@),
            result == dot_partial(a@, b@, i as int),
    {
        assert(i64::MIN <= a@[i as int] * b@[i as int] <= i64::MAX);
        let p = a.get(i) * b.get(i);
        assert(result + p == dot_partial(a@, b@, i + 1));
        result = result + p;
    }
    Ok(result)
}

proof fn lemma_i64_product_fits_i128(x: int, y: int)
    requires
        i64::MIN <= x <= i64::MAX,
        i64::MIN <= y <= i64::MAX,
    ensures
        i128::MIN <= x * y <= i128::MAX,
{
    assert(i128::MIN <= x * y <= i128::MAX) by (nonlinear_arith)
        requires
            i64::MIN <= x <= i64::MAX,
            i64::MIN <= y <= i64::MAX,
    ;
}

/// Decides, without itself overflowing, whether the dot-product fold of
/// these operands stays within `i64`; callers establish the overflow
/// precondition of `dot_product` at run time with this test.
pub fn dot_in_range(a: &Vector, b: &Vector) -> (ok: bool)
    requires
        a@.len() == b@.len(),
    ensures
        ok == dot_in_i64(a@, b@),
{
    let n = a.len();
    let mut sum: i128 = 0;
    for i in 0..n
        invariant
            n == a@.len(),
            n == b@.len(),
            i64::MIN <= sum <= i64::MAX,
            sum == dot_partial(a@, b@, i as int),
            forall|m: int| #![trigger a@[m]]
                0 <= m < i ==> i64::MIN <= a@[m] * b@[m] <= i64::MAX && i64::MIN <= dot_partial(
                    a@,
                    b@,
                    m + 1,
                ) <= i64::MAX,
    {
        let x = a.get(i) as i128;
        let y = b.get(i) as i128;
        proof {
            lemma_i64_product_fits_i128(x as int, y as int);
        }
        let p = x * y;
        if p < i64::MIN as i128 || p > i64::MAX as i128 {
            proof {
                assert(p == a@[i as int] * b@[i as int]);
            }
            return false;
        }
        let s2 = sum + p;
        assert(s2 == dot_partial(a@, b@, i + 1));
        if s2 < i64::MIN as i128 || s2 > i64::MAX as i128 {
            return false;
        }
        sum = s2;
    }
    true
}

} // verus!
