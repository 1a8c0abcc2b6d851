//! Finite sums of integer-valued functions, with the lemmas the matrix
//! proofs need: pointwise rewriting, splitting a pointwise sum, pulling a
//! constant factor out, and exchanging the order of a double sum.

use vstd::prelude::*;

verus! {

/// The sum `f(0) + f(1) + ... + f(n - 1)`; zero when `n <= 0`.
pub open spec fn sum(n: int, f: spec_fn(int) -> int) -> int
    decreases n,
{
    if n <= 0 {
        0
    } else {
        sum(n - 1, f) + f(n - 1)
    }
}

/// Functions equal on `[0, n)` have equal sums.
pub proof fn lemma_sum_ext(n: int, f: spec_fn(int) -> int, g: spec_fn(int) -> int)
    requires
        forall|i: int| 0 <= i < n ==> #[trigger] f(i) == g(i),
    ensures
        sum(n, f) == sum(n, g),
    decreases n,
{
    if n > 0 {
        lemma_sum_ext(n - 1, f, g);
    }
}

/// A function that vanishes on `[0, n)` sums to zero.
pub proof fn lemma_sum_zero(n: int, f: spec_fn(int) -> int)
    requires
        forall|i: int| 0 <= i < n ==> #[trigger] f(i) == 0,
    ensures
        sum(n, f) == 0,
    decreases n,
{
    if n > 0 {
        lemma_sum_zero(n - 1, f);
    }
}

/// The sum of a pointwise sum splits into the two sums.
pub proof fn lemma_sum_add(
    n: int,
    f: spec_fn(int) -> int,
    g: spec_fn(int) -> int,
    h: spec_fn(int) -> int,
)
    requires
        forall|i: int| 0 <= i < n ==> #[trigger] h(i) == f(i) + g(i),
    ensures
        sum(n, h) == sum(n, f) + sum(n, g),
    decreases n,
{
    if n > 0 {
        lemma_sum_add(n - 1, f, g, h);
    }
}

/// A constant factor moves out of a sum.
pub proof fn lemma_sum_scale(
    n: int,
    c: int,
    f: spec_fn(int) -> int,
    g: spec_fn(int) -> int,
)
    requires
        forall|i: int| 0 <= i < n ==> #[trigger] g(i) == c * f(i),
    ensures
        sum(n, g) == c * sum(n, f),
    decreases n,
{
    if n > 0 {
        lemma_sum_scale(n - 1, c, f, g);
        assert(c * sum(n - 1, f) + c * f(n - 1) == c * (sum(n - 1, f) + f(n - 1)))
            by (nonlinear_arith);
    }
}

/// A double sum may be taken in either order.
pub proof fn lemma_sum_swap(m: int, n: int, f: spec_fn(int, int) -> int)
    ensures
        sum(m, |i: int| sum(n, |j: int| f(i, j))) == sum(n, |j: int| sum(m, |i: int| f(i, j))),
    decreases m,
{
    let outer = |j: int| sum(m, |i: int| f(i, j));
    if m <= 0 {
        assert forall|j: int| 0 <= j < n implies #[trigger] outer(j) == 0 by {
            assert(sum(m, |i: int| f(i, j)) == 0);
        }
        lemma_sum_zero(n, outer);
    } else {
        lemma_sum_swap(m - 1, n, f);
        let prev = |j: int| sum(m - 1, |i: int| f(i, j));
        let last = |j: int| f(m - 1, j);
        assert forall|j: int| 0 <= j < n implies #[trigger] outer(j) == prev(j) + last(j) by {
            assert(sum(m, |i: int| f(i, j)) == sum(m - 1, |i: int| f(i, j)) + f(m - 1, j));
        }
        lemma_sum_add(n, prev, last, outer);
        assert(sum(m, |i: int| sum(n, |j: int| f(i, j)))
            == sum(m - 1, |i: int| sum(n, |j: int| f(i, j))) + sum(n, |j: int| f(m - 1, j)));
    }
}

} // verus!
