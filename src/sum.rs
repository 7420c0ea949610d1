use vstd::prelude::*;

verus! {

/// `f(0) + f(1) + ... + f(k - 1)`, accumulated in ascending order.
pub open spec fn sum_to(f: spec_fn(int) -> int, k: int) -> int
    decreases k,
{
    if k <= 0 {
        0
    } else {
        sum_to(f, k - 1) + f(k - 1)
    }
}

/// Sums of functions that agree on `0 .. k` are equal.
pub proof fn lemma_sum_ext(f: spec_fn(int) -> int, g: spec_fn(int) -> int, k: int)
    requires
        forall|t: int| 0 <= t < k ==> #[trigger] f(t) == g(t),
    ensures
        sum_to(f, k) == sum_to(g, k),
    decreases k,
{
    if k > 0 {
        lemma_sum_ext(f, g, k - 1);
    }
}

/// The sum of a pointwise sum is the sum of the sums.
pub proof fn lemma_sum_add(f: spec_fn(int) -> int, g: spec_fn(int) -> int, k: int)
    ensures
        sum_to(|t: int| f(t) + g(t), k) == sum_to(f, k) + sum_to(g, k),
    decreases k,
{
    if k > 0 {
        lemma_sum_add(f, g, k - 1);
    }
}

/// A constant factor on the left moves out of a sum.
pub proof fn lemma_sum_scale_left(c: int, f: spec_fn(int) -> int, k: int)
    ensures
        sum_to(|t: int| c * f(t), k) == c * sum_to(f, k),
    decreases k,
{
    if k > 0 {
        lemma_sum_scale_left(c, f, k - 1);
        let s = sum_to(f, k - 1);
        let x = f(k - 1);
        assert(c * s + c * x == c * (s + x)) by (nonlinear_arith);
    } else {
        assert(c * 0 == 0) by (nonlinear_arith);
    }
}

/// A constant factor on the right moves out of a sum.
pub proof fn lemma_sum_scale_right(f: spec_fn(int) -> int, c: int, k: int)
    ensures
        sum_to(|t: int| f(t) * c, k) == sum_to(f, k) * c,
    decreases k,
{
    if k > 0 {
        lemma_sum_scale_right(f, c, k - 1);
        let s = sum_to(f, k - 1);
        let x = f(k - 1);
        assert(s * c + x * c == (s + x) * c) by (nonlinear_arith);
    } else {
        assert(0 * c == 0) by (nonlinear_arith);
    }
}

/// The sum of zeros is zero.
pub proof fn lemma_sum_zero(f: spec_fn(int) -> int, k: int)
    requires
        forall|t: int| 0 <= t < k ==> #[trigger] f(t) == 0,
    ensures
        sum_to(f, k) == 0,
    decreases k,
{
    if k > 0 {
        lemma_sum_zero(f, k - 1);
    }
}

/// The order of summation in a double sum over a rectangle does not matter.
pub proof fn lemma_sum_swap(g: spec_fn(int, int) -> int, n: int, m: int)
    ensures
        sum_to(|t: int| sum_to(|s: int| g(s, t), m), n) == sum_to(
            |s: int| sum_to(|t: int| g(s, t), n),
            m,
        ),
    decreases n,
{
    if n <= 0 {
        lemma_sum_zero(|s: int| sum_to(|t: int| g(s, t), n), m);
    } else {
        lemma_sum_swap(g, n - 1, m);
        let prev = |s: int| sum_to(|t: int| g(s, t), n - 1);
        let last = |s: int| g(s, n - 1);
        lemma_sum_add(prev, last, m);
        lemma_sum_ext(
            |s: int| prev(s) + last(s),
            |s: int| sum_to(|t: int| g(s, t), n),
            m,
        );
    }
}

} // verus!
