//! What holds of the kernel and of the controller for every input.
//!
//! The laws of the norm and of the distance rest on the arithmetic of the
//! scalar; each names what it asks of that arithmetic.
use crate::accelerator::is_acceleration;
use crate::error::Error;
use crate::problem::{is_image, Problem};
use crate::scalar::{
    is_below, is_deterministic, is_product, is_root, is_sum, is_zero, roots_are_not_negative,
    squares_forget_order, zero_stays_zero, Scalar,
};
use crate::solver::{is_next_iterate, step_budget, verdict, TerminationReason};
use crate::vector::{is_difference, is_distance, is_dot, is_norm2};
use vstd::prelude::*;

verus! {

/// The sums of squares of `a - b` and of `b - a` agree, over any number of
/// leading components.
proof fn lemma_square_sums_agree<T: Scalar>(
    a: Seq<T>,
    b: Seq<T>,
    u: Seq<T>,
    v: Seq<T>,
    n: nat,
    s: T,
    t: T,
)
    requires
        is_deterministic::<T>(),
        squares_forget_order::<T>(),
        is_difference(a, b, u),
        is_difference(b, a, v),
        n <= u.len(),
        is_dot(u, u, n, s),
        is_dot(v, v, n, t),
    ensures
        s == t,
    decreases n,
{
    if n > 0 {
        let (ps, ts) = choose|prev: T, term: T|
            {
                &&& is_dot(u, u, (n - 1) as nat, prev)
                &&& is_product(u[n - 1], u[n - 1], term)
                &&& #[trigger] is_sum(prev, term, s)
            };
        let (pt, tt) = choose|prev: T, term: T|
            {
                &&& is_dot(v, v, (n - 1) as nat, prev)
                &&& is_product(v[n - 1], v[n - 1], term)
                &&& #[trigger] is_sum(prev, term, t)
            };
        lemma_square_sums_agree(a, b, u, v, (n - 1) as nat, ps, pt);
    }
}

/// The distance is symmetric: where the arithmetic is deterministic and
/// squaring forgets the order of a subtraction, the distance from `a` to
/// `b` is the distance from `b` to `a`.
pub proof fn lemma_distance_symmetric<T: Scalar>(a: Seq<T>, b: Seq<T>, ab: T, ba: T)
    requires
        is_deterministic::<T>(),
        squares_forget_order::<T>(),
        is_distance(a, b, ab),
        is_distance(b, a, ba),
    ensures
        ab == ba,
{
    let u = choose|d: Seq<T>| #[trigger] is_difference(a, b, d) && is_norm2(d, ab);
    let v = choose|d: Seq<T>| #[trigger] is_difference(b, a, d) && is_norm2(d, ba);
    let s = choose|s: T| is_dot(u, u, u.len(), s) && #[trigger] is_root(s, ab);
    let t = choose|t: T| is_dot(v, v, v.len(), t) && #[trigger] is_root(t, ba);
    lemma_square_sums_agree(a, b, u, v, u.len(), s, t);
}

/// The sum of the squares of zeros is zero, over any number of leading
/// components.
proof fn lemma_square_sum_of_zeros<T: Scalar>(v: Seq<T>, n: nat, s: T)
    requires
        zero_stays_zero::<T>(),
        forall|i: int| 0 <= i < v.len() ==> is_zero(#[trigger] v[i]),
        n <= v.len(),
        is_dot(v, v, n, s),
    ensures
        is_zero(s),
    decreases n,
{
    if n > 0 {
        let (prev, term) = choose|prev: T, term: T|
            {
                &&& is_dot(v, v, (n - 1) as nat, prev)
                &&& is_product(v[n - 1], v[n - 1], term)
                &&& #[trigger] is_sum(prev, term, s)
            };
        lemma_square_sum_of_zeros(v, (n - 1) as nat, prev);
    }
}

/// The norm of a zero vector is zero, where zero stays zero under the
/// arithmetic.
pub proof fn lemma_norm2_of_zero_vector<T: Scalar>(v: Seq<T>, r: T)
    requires
        zero_stays_zero::<T>(),
        forall|i: int| 0 <= i < v.len() ==> is_zero(#[trigger] v[i]),
        is_norm2(v, r),
    ensures
        is_zero(r),
{
    let s = choose|s: T| is_dot(v, v, v.len(), s) && #[trigger] is_root(s, r);
    lemma_square_sum_of_zeros(v, v.len(), s);
}

/// A norm is never negative: where no square root is below zero, the
/// comparison of a norm with zero never finds it below.
pub proof fn lemma_norm2_not_negative<T: Scalar>(v: Seq<T>, r: T, z: T, below: bool)
    requires
        roots_are_not_negative::<T>(),
        is_norm2(v, r),
        is_zero(z),
        is_below(r, z, below),
    ensures
        !below,
{
}

/// A degenerate acceleration does not end the round: where the
/// acceleration from `x` is degenerate, the next iterate is `G(x)`.
pub proof fn lemma_degenerate_round_is_plain<T: Scalar, P: Problem<T>>(
    p: P,
    tol: T,
    x: Vec<T>,
    y: Vec<T>,
)
    requires
        is_acceleration(p, x, tol, Err(Error::AccelerationDegenerate)),
        is_image(p, x, y),
    ensures
        is_next_iterate(p, true, tol, x, Ok(y)),
{
}

/// While the verdict is to go on, the step budget is not used up; and a
/// verdict of maxed out comes at the budget or after it.
pub proof fn lemma_verdict_and_budget(small: bool, stalled: bool, i: nat, max_iter: nat)
    requires
        i >= 1,
    ensures
        verdict(small, stalled, i, max_iter) is None ==> i < step_budget(max_iter),
        verdict(small, stalled, i, max_iter) == Some(TerminationReason::MaxedOut) ==> i
            >= step_budget(max_iter),
        i >= step_budget(max_iter) ==> verdict(small, stalled, i, max_iter) is Some,
{
}

/// With a cap of at least 1, a history of `step_budget(max_iter) + 1`
/// iterates has no more than `max_iter + 1`.
pub proof fn lemma_history_within_cap(max_iter: nat)
    requires
        max_iter >= 1,
    ensures
        step_budget(max_iter) + 1 <= max_iter + 1,
        max_iter >= 2 ==> step_budget(max_iter) + 1 <= max_iter,
{
}

} // verus!
