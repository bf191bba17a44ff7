//! Vectors: ordered sequences of scalars of one dimension.
use crate::error::Error;
use crate::scalar::{is_diff, is_finite_answer, is_product, is_root, is_sum, is_zero, Scalar};
use vstd::prelude::*;

verus! {

/// `r` is `a - b`, taken component by component.
pub open spec fn is_difference<T: Scalar>(a: Seq<T>, b: Seq<T>, r: Seq<T>) -> bool {
    &&& a.len() == b.len()
    &&& r.len() == a.len()
    &&& forall|i: int| 0 <= i < r.len() ==> is_diff(a[i], b[i], #[trigger] r[i])
}

/// `acc` is the sum of the products `x[k] * y[k]` for `k` below `n`,
/// accumulated from zero in the order of the indices.
pub open spec fn is_dot<T: Scalar>(x: Seq<T>, y: Seq<T>, n: nat, acc: T) -> bool
    decreases n,
{
    if n == 0 {
        is_zero(acc)
    } else {
        exists|prev: T, term: T|
            {
                &&& is_dot(x, y, (n - 1) as nat, prev)
                &&& is_product(x[n - 1], y[n - 1], term)
                &&& #[trigger] is_sum(prev, term, acc)
            }
    }
}

/// `r` is the Euclidean norm of `v`: the square root of the sum of the
/// squares of its components.
pub open spec fn is_norm2<T: Scalar>(v: Seq<T>, r: T) -> bool {
    exists|s: T| is_dot(v, v, v.len(), s) && #[trigger] is_root(s, r)
}

/// `r` is the Euclidean distance between `a` and `b`: the norm of `a - b`.
pub open spec fn is_distance<T: Scalar>(a: Seq<T>, b: Seq<T>, r: T) -> bool {
    exists|d: Seq<T>| #[trigger] is_difference(a, b, d) && is_norm2(d, r)
}

/// `finite` answers whether every component of `v` is finite: yes where
/// each component was found finite, no where one of them was found not to
/// be.
pub open spec fn is_finiteness<T: Scalar>(v: Seq<T>, finite: bool) -> bool {
    if finite {
        forall|i: int| 0 <= i < v.len() ==> is_finite_answer(#[trigger] v[i], true)
    } else {
        exists|i: int| 0 <= i < v.len() && is_finite_answer(#[trigger] v[i], false)
    }
}

/// The componentwise difference `a - b`.
///
/// Fails with `DimensionMismatch` exactly when the operands differ in
/// length.
pub fn subtract<T: Scalar>(a: &Vec<T>, b: &Vec<T>) -> (r: Result<Vec<T>, Error>)
    ensures
        r is Ok <==> a.len() == b.len(),
        r matches Ok(d) ==> is_difference(a@, b@, d@),
        r matches Err(e) ==> e == Error::DimensionMismatch,
{
    if a.len() != b.len() {
        return Err(Error::DimensionMismatch);
    }
    let mut out: Vec<T> = Vec::new();
    let mut i: usize = 0;
    while i < a.len()
        invariant
            a.len() == b.len(),
            i <= a.len(),
            out.len() == i,
            forall|k: int| 0 <= k < i ==> is_diff(a[k], b[k], #[trigger] out[k]),
        decreases a.len() - i,
    {
        out.push(a[i].sub(b[i]));
        i += 1;
    }
    Ok(out)
}

/// The sum of the products of corresponding components of `x` and `y`.
pub(crate) fn dot<T: Scalar>(x: &Vec<T>, y: &Vec<T>) -> (r: T)
    requires
        x.len() == y.len(),
    ensures
        is_dot(x@, y@, x.len() as nat, r),
{
    let mut acc: T = T::zero();
    let mut i: usize = 0;
    while i < x.len()
        invariant
            x.len() == y.len(),
            i <= x.len(),
            is_dot(x@, y@, i as nat, acc),
        decreases x.len() - i,
    {
        let term: T = x[i].mul(y[i]);
        let next: T = acc.add(term);
        acc = next;
        i += 1;
    }
    acc
}

/// The Euclidean norm of `v`.
pub fn norm2<T: Scalar>(v: &Vec<T>) -> (r: T)
    ensures
        is_norm2(v@, r),
{
    let s: T = dot(v, v);
    s.sqrt()
}

/// The Euclidean distance between `a` and `b`.
///
/// Fails with `DimensionMismatch` exactly when the operands differ in
/// length.
pub fn distance<T: Scalar>(a: &Vec<T>, b: &Vec<T>) -> (r: Result<T, Error>)
    ensures
        r is Ok <==> a.len() == b.len(),
        r matches Ok(d) ==> is_distance(a@, b@, d),
        r matches Err(e) ==> e == Error::DimensionMismatch,
{
    match subtract(a, b) {
        Ok(d) => Ok(norm2(&d)),
        Err(e) => Err(e),
    }
}

/// Whether every component of `v` is finite.
pub fn all_finite<T: Scalar>(v: &Vec<T>) -> (finite: bool)
    ensures
        is_finiteness(v@, finite),
{
    let mut i: usize = 0;
    while i < v.len()
        invariant
            i <= v.len(),
            forall|k: int| 0 <= k < i ==> is_finite_answer(#[trigger] v[k], true),
        decreases v.len() - i,
    {
        if !v[i].is_finite() {
            return false;
        }
        i += 1;
    }
    true
}

/// A vector with the components of `v`.
pub(crate) fn duplicate<T: Copy>(v: &Vec<T>) -> (r: Vec<T>)
    ensures
        r@ == v@,
{
    let mut out: Vec<T> = Vec::new();
    let mut i: usize = 0;
    while i < v.len()
        invariant
            i <= v.len(),
            out.len() == i,
            forall|k: int| 0 <= k < i ==> out[k] == v[k],
        decreases v.len() - i,
    {
        out.push(v[i]);
        i += 1;
    }
    out
}

} // verus!
