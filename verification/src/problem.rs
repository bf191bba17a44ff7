//! The equations to solve, as their user supplies them.
use crate::scalar::Scalar;
use vstd::prelude::*;

verus! {

/// A square system of equations `F(X) = 0`, recast as the fixed-point
/// problem `X = G(X)`.
///
/// The solver iterates `g` and measures its progress with `f`. Both take a
/// point and return a vector. The solver assumes nothing of what they
/// return: it looks at the dimension and at each component itself.
pub trait Problem<T: Scalar> {
    /// The iteration map `G`: a fixed point of it is a solution.
    fn g(&self, x: &Vec<T>) -> Vec<T>;

    /// The residual `F`: it vanishes at a solution.
    fn f(&self, x: &Vec<T>) -> Vec<T>;
}

/// `y` is a vector that `p.g(&x)` returns.
#[verifier::inline]
pub open spec fn is_image<T: Scalar, P: Problem<T>>(p: P, x: Vec<T>, y: Vec<T>) -> bool {
    call_ensures(P::g, (&p, &x), y)
}

/// `y` is a vector that `p.f(&x)` returns.
#[verifier::inline]
pub open spec fn is_residual<T: Scalar, P: Problem<T>>(p: P, x: Vec<T>, y: Vec<T>) -> bool {
    call_ensures(P::f, (&p, &x), y)
}

/// `G` and `F` are functions of the components of their argument: two
/// points with the same components have images with the same components,
/// and residuals with the same components.
pub open spec fn is_deterministic_problem<T: Scalar, P: Problem<T>>(p: P) -> bool {
    &&& forall|x1: Vec<T>, x2: Vec<T>, y1: Vec<T>, y2: Vec<T>|
        #![trigger is_image(p, x1, y1), is_image(p, x2, y2)]
        x1@ == x2@ && is_image(p, x1, y1) && is_image(p, x2, y2) ==> y1@ == y2@
    &&& forall|x1: Vec<T>, x2: Vec<T>, y1: Vec<T>, y2: Vec<T>|
        #![trigger is_residual(p, x1, y1), is_residual(p, x2, y2)]
        x1@ == x2@ && is_residual(p, x1, y1) && is_residual(p, x2, y2) ==> y1@ == y2@
}

} // verus!
