//! Fixed-length numeric vectors and their dot product.

use crate::error::MatrixError;
use crate::sums::{lemma_sum_ext, sum};
use vstd::prelude::*;

verus! {

/// An immutable fixed-length sequence of numbers; the operand of a dot
/// product. Equal length is the sole compatibility contract between two
/// operands.
pub struct Vector {
    data: Vec<i64>,
}

impl View for Vector {
    type V = Seq<i64>;

    closed spec fn view(&self) -> Seq<i64> {
        self.data@
    }
}

impl Vector {
    /// Wraps a flat buffer as a vector.
    pub fn new(data: Vec<i64>) -> (r: Vector)
        ensures
            r@ == data@,
    {
        Vector { data }
    }

    /// The number of elements.
    pub fn len(&self) -> (r: usize)
        ensures
            r == self@.len(),
    {
        self.data.len()
    }
}

/// The pairwise products that a dot product of `a` and `b` accumulates.
pub open spec fn entry_product(a: Seq<i64>, b: Seq<i64>) -> spec_fn(int) -> int {
    |l: int| a[l] * b[l]
}

/// The dot product of two equal-length vectors: the sum of pairwise
/// products, accumulated in encounter order from the additive identity.
pub open spec fn dot(a: Seq<i64>, b: Seq<i64>) -> int {
    sum(a.len() as int, entry_product(a, b))
}

/// Every step of the left-to-right accumulation of `dot(a, b)` stays within
/// `i64`, the pairwise products included. Keeping this is the caller's
/// responsibility: the element type does not saturate.
pub open spec fn dot_fits(a: Seq<i64>, b: Seq<i64>) -> bool {
    &&& forall|l: int|
        0 <= l < a.len() ==> i64::MIN <= #[trigger] (a[l] * b[l]) <= i64::MAX
    &&& forall|n: int|
        0 <= n <= a.len() ==> i64::MIN <= #[trigger] sum(n, entry_product(a, b)) <= i64::MAX
}

/// The dot product of `a` and `b`: the sum over `l` of `a[l] * b[l]`.
///
/// Fails with `DimensionMismatch`, naming the two lengths, exactly when the
/// operands' lengths differ; no arithmetic is attempted in that case.
pub fn dot_product(a: Vector, b: Vector) -> (r: Result<i64, MatrixError>)
    requires
        a@.len() == b@.len() ==> dot_fits(a@, b@),
    ensures
        a@.len() == b@.len() ==> (r matches Ok(v) && v as int == dot(a@, b@)),
        a@.len() != b@.len() ==> r == Err::<i64, MatrixError>(
            (MatrixError::DimensionMismatch { a_len: a@.len() as usize, b_len: b@.len() as usize }),
        ),
{
    if a.data.len() != b.data.len() {
        return Err(MatrixError::DimensionMismatch { a_len: a.data.len(), b_len: b.data.len() });
    }
    let n: usize = a.data.len();
    let mut total: i64 = 0;
    let mut i: usize = 0;
    while i < n
        invariant
            a@.len() == n,
            b@.len() == n,
            dot_fits(a@, b@),
            i <= n,
            total as int == sum(i as int, entry_product(a@, b@)),
        decreases n - i,
    {
        proof {
            assert(sum(i + 1, entry_product(a@, b@))
                == sum(i as int, entry_product(a@, b@)) + a@[i as int] * b@[i as int]);
        }
        let p: i64 = a.data[i] * b.data[i];
        total = total + p;
        i = i + 1;
    }
    Ok(total)
}

/// Law: the dot product is commutative; transposing both operands at once
/// changes nothing.
pub proof fn lemma_dot_product_commutes(a: Seq<i64>, b: Seq<i64>)
    requires
        a.len() == b.len(),
    ensures
        dot(a, b) == dot(b, a),
{
    assert forall|l: int| 0 <= l < a.len() implies #[trigger] entry_product(a, b)(l)
        == entry_product(b, a)(l) by {
        assert(a[l] * b[l] == b[l] * a[l]);
    }
    lemma_sum_ext(a.len() as int, entry_product(a, b), entry_product(b, a));
}

} // verus!
