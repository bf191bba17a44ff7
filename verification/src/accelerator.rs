//! The vector form of Aitken's delta-squared process: one extrapolated
//! point from three applications of the iteration map.
use crate::error::Error;
use crate::matrix::{
    columns, concat_columns, invert2x2, is_inverse2x2, is_matrix_difference, is_matrix_product,
    is_matrix_vector_product, matmul, matrix_subtract, matvec,
};
use crate::problem::{is_image, Problem};
use crate::scalar::Scalar;
use crate::vector::{is_difference, subtract};
use vstd::prelude::*;

verus! {

/// What a fallible vector operation returned, with the vector as the
/// sequence of its components.
pub open spec fn components_of<T>(r: Result<Vec<T>, Error>) -> Result<Seq<T>, Error> {
    match r {
        Ok(v) => Ok(v@),
        Err(e) => Err(e),
    }
}

/// `x` is the point `a - (dx1 * inv) * step`.
pub open spec fn is_corrected<T: Scalar>(
    a: Seq<T>,
    dx1: Seq<Seq<T>>,
    inv: Seq<Seq<T>>,
    step: Seq<T>,
    x: Seq<T>,
) -> bool {
    exists|gain: Seq<Seq<T>>, correction: Seq<T>|
        {
            &&& #[trigger] is_matrix_product(dx1, inv, gain)
            &&& #[trigger] is_matrix_vector_product(gain, step, correction)
            &&& is_difference(a, correction, x)
        }
}

/// `out` is what the delta-squared extrapolation gives from the point `a`
/// and its three successors `b`, `c` and `d` under the iteration map.
///
/// With the first differences `b - a`, `c - b` and `d - c`, the matrix
/// `dx1` has the first two as its columns and `dx2` the last two; `d2x` is
/// `dx2 - dx1`. The result is `a - (dx1 * inverse(d2x)) * (b - a)`. It is
/// `DimensionMismatch` where the four points are not all of dimension 2,
/// and `AccelerationDegenerate` where `d2x` is singular under `tol`.
pub open spec fn is_extrapolation<T: Scalar>(
    a: Seq<T>,
    b: Seq<T>,
    c: Seq<T>,
    d: Seq<T>,
    tol: T,
    out: Result<Seq<T>, Error>,
) -> bool {
    if !(a.len() == b.len() && b.len() == c.len() && c.len() == d.len() && a.len() == 2) {
        out == Err::<Seq<T>, Error>(Error::DimensionMismatch)
    } else {
        exists|ba: Seq<T>, cb: Seq<T>, dc: Seq<T>, d2x: Seq<Seq<T>>, inv: Result<Seq<Seq<T>>, Error>|
            {
                &&& #[trigger] is_difference(b, a, ba)
                &&& #[trigger] is_difference(c, b, cb)
                &&& #[trigger] is_difference(d, c, dc)
                &&& is_matrix_difference(columns(cb, dc), columns(ba, cb), d2x)
                &&& #[trigger] is_inverse2x2(d2x, tol, inv)
                &&& match inv {
                    Ok(m) => out matches Ok(x) && is_corrected(a, columns(ba, cb), m, ba, x),
                    Err(_) => out == Err::<Seq<T>, Error>(Error::AccelerationDegenerate),
                }
            }
    }
}

/// `out` is what one acceleration step from `a` gives: the extrapolation
/// from `a`, `G(a)`, `G(G(a))` and `G(G(G(a)))`.
pub open spec fn is_acceleration<T: Scalar, P: Problem<T>>(
    p: P,
    a: Vec<T>,
    tol: T,
    out: Result<Vec<T>, Error>,
) -> bool {
    exists|b: Vec<T>, c: Vec<T>, d: Vec<T>|
        {
            &&& #[trigger] is_image(p, a, b)
            &&& #[trigger] is_image(p, b, c)
            &&& #[trigger] is_image(p, c, d)
            &&& is_extrapolation(a@, b@, c@, d@, tol, components_of(out))
        }
}

/// The delta-squared extrapolation from the point `a` and its three
/// successors `b`, `c`, `d` under the iteration map.
///
/// Fails with `DimensionMismatch` exactly when the four points are not all
/// of dimension 2, and with `AccelerationDegenerate` when the
/// second-difference matrix is singular under `tol`.
pub fn extrapolate<T: Scalar>(a: &Vec<T>, b: &Vec<T>, c: &Vec<T>, d: &Vec<T>, tol: T) -> (r: Result<
    Vec<T>,
    Error,
>)
    ensures
        is_extrapolation(a@, b@, c@, d@, tol, components_of(r)),
        r == Err::<Vec<T>, Error>(Error::DimensionMismatch) <==> !(a.len() == 2 && b.len() == 2
            && c.len() == 2 && d.len() == 2),
        r matches Err(e) ==> e == Error::DimensionMismatch || e == Error::AccelerationDegenerate,
        r matches Ok(x) ==> x.len() == 2,
{
    if a.len() != 2 || b.len() != 2 || c.len() != 2 || d.len() != 2 {
        return Err(Error::DimensionMismatch);
    }
    let ba: Vec<T> = subtract(b, a)?;
    let cb: Vec<T> = subtract(c, b)?;
    let dc: Vec<T> = subtract(d, c)?;
    let dx1: Vec<Vec<T>> = concat_columns(&ba, &cb)?;
    let dx2: Vec<Vec<T>> = concat_columns(&cb, &dc)?;
    let d2x: Vec<Vec<T>> = matrix_subtract(&dx2, &dx1)?;
    let inv: Vec<Vec<T>> = match invert2x2(&d2x, tol) {
        Ok(m) => m,
        Err(_) => {
            return Err(Error::AccelerationDegenerate);
        },
    };
    let gain: Vec<Vec<T>> = matmul(&dx1, &inv)?;
    let correction: Vec<T> = matvec(&gain, &ba)?;
    subtract(a, &correction)
}

/// One acceleration step from `a`: three applications of `G`, then the
/// delta-squared extrapolation from the four points.
pub fn accelerate<T: Scalar, P: Problem<T>>(problem: &P, a: &Vec<T>, tol: T) -> (r: Result<
    Vec<T>,
    Error,
>)
    ensures
        is_acceleration(*problem, *a, tol, r),
        r matches Err(e) ==> e == Error::DimensionMismatch || e == Error::AccelerationDegenerate,
        r matches Ok(x) ==> x.len() == 2 && a.len() == 2,
{
    let b: Vec<T> = problem.g(a);
    let c: Vec<T> = problem.g(&b);
    let d: Vec<T> = problem.g(&c);
    extrapolate(a, &b, &c, &d, tol)
}

} // verus!
