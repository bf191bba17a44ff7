//! Dense matrices, held as a vector of rows.
use crate::error::Error;
use crate::scalar::{
    is_below, is_diff, is_magnitude, is_negation, is_one, is_product, is_quotient, Scalar,
};
use crate::vector::{dot, is_difference, is_dot, subtract};
use vstd::prelude::*;

verus! {

/// The rows of `m`, each as a sequence of its entries.
pub open spec fn rows<T>(m: Vec<Vec<T>>) -> Seq<Seq<T>> {
    Seq::new(m.len() as nat, |i: int| m[i]@)
}

/// What a fallible matrix operation returned, with the matrix as its rows.
pub open spec fn rows_of<T>(r: Result<Vec<Vec<T>>, Error>) -> Result<Seq<Seq<T>>, Error> {
    match r {
        Ok(m) => Ok(rows(m)),
        Err(e) => Err(e),
    }
}

/// `m` has `r` rows of `c` entries each.
pub open spec fn is_matrix<T>(m: Seq<Seq<T>>, r: nat, c: nat) -> bool {
    &&& m.len() == r
    &&& forall|i: int| 0 <= i < m.len() ==> (#[trigger] m[i]).len() == c
}

/// The length of the first row of `m`, and 0 where `m` has no row.
pub open spec fn width<T>(m: Seq<Seq<T>>) -> nat {
    if m.len() == 0 {
        0
    } else {
        m[0].len()
    }
}

/// Column `j` of `m`, from the first row down.
pub open spec fn column<T>(m: Seq<Seq<T>>, j: int) -> Seq<T> {
    Seq::new(m.len(), |k: int| m[k][j])
}

/// The matrix of two columns whose first column is `a` and whose second
/// is `b`.
pub open spec fn columns<T>(a: Seq<T>, b: Seq<T>) -> Seq<Seq<T>> {
    Seq::new(a.len(), |i: int| seq![a[i], b[i]])
}

/// `a` and `b` have the same number of rows, and row by row the same
/// length.
pub open spec fn same_shape<T>(a: Seq<Seq<T>>, b: Seq<Seq<T>>) -> bool {
    &&& a.len() == b.len()
    &&& forall|i: int| 0 <= i < a.len() ==> (#[trigger] a[i]).len() == b[i].len()
}

/// `r` is `a - b`, taken entry by entry.
pub open spec fn is_matrix_difference<T: Scalar>(
    a: Seq<Seq<T>>,
    b: Seq<Seq<T>>,
    r: Seq<Seq<T>>,
) -> bool {
    &&& a.len() == b.len()
    &&& r.len() == a.len()
    &&& forall|i: int| 0 <= i < r.len() ==> is_difference(a[i], b[i], #[trigger] r[i])
}

/// The product `a * b` is defined: every row of `b` has the length of its
/// first, and every row of `a` has as many entries as `b` has rows.
pub open spec fn can_multiply<T>(a: Seq<Seq<T>>, b: Seq<Seq<T>>) -> bool {
    &&& is_matrix(b, b.len(), width(b))
    &&& forall|i: int| 0 <= i < a.len() ==> (#[trigger] a[i]).len() == b.len()
}

/// `r` is the product `a * b`: entry `(i, j)` is the dot product of row `i`
/// of `a` with column `j` of `b`.
pub open spec fn is_matrix_product<T: Scalar>(
    a: Seq<Seq<T>>,
    b: Seq<Seq<T>>,
    r: Seq<Seq<T>>,
) -> bool {
    &&& can_multiply(a, b)
    &&& is_matrix(r, a.len(), width(b))
    &&& forall|i: int, j: int|
        0 <= i < r.len() && 0 <= j < width(b) ==> is_dot(
            a[i],
            column(b, j),
            b.len(),
            #[trigger] r[i][j],
        )
}

/// `r` is the product of the matrix `a` with the vector `v`: component `i`
/// is the dot product of row `i` of `a` with `v`.
pub open spec fn is_matrix_vector_product<T: Scalar>(a: Seq<Seq<T>>, v: Seq<T>, r: Seq<T>) -> bool {
    &&& is_matrix(a, a.len(), v.len())
    &&& r.len() == a.len()
    &&& forall|i: int| 0 <= i < r.len() ==> is_dot(a[i], v, v.len(), #[trigger] r[i])
}

/// `det` is the determinant of the 2 by 2 matrix `m`:
/// `m[0][0] * m[1][1] - m[0][1] * m[1][0]`.
pub open spec fn is_determinant2x2<T: Scalar>(m: Seq<Seq<T>>, det: T) -> bool {
    exists|main: T, anti: T|
        {
            &&& is_product(m[0][0], m[1][1], main)
            &&& is_product(m[0][1], m[1][0], anti)
            &&& #[trigger] is_diff(main, anti, det)
        }
}

/// `singular` answers whether the magnitude of `det` is below `tol`.
pub open spec fn is_singularity_test<T: Scalar>(det: T, tol: T, singular: bool) -> bool {
    exists|mag: T| is_magnitude(det, mag) && #[trigger] is_below(mag, tol, singular)
}

/// `inv` is the adjugate of the 2 by 2 matrix `m`, scaled by the reciprocal
/// of `det`: with `s = 1 / det`, it is `[[s * m11, -s * m01], [-s * m10, s * m00]]`.
pub open spec fn is_scaled_adjugate2x2<T: Scalar>(m: Seq<Seq<T>>, det: T, inv: Seq<Seq<T>>) -> bool {
    exists|unit: T, s: T, minus_s: T|
        {
            &&& is_one(unit)
            &&& #[trigger] is_quotient(unit, det, s)
            &&& #[trigger] is_negation(s, minus_s)
            &&& is_matrix(inv, 2, 2)
            &&& is_product(s, m[1][1], inv[0][0])
            &&& is_product(minus_s, m[0][1], inv[0][1])
            &&& is_product(minus_s, m[1][0], inv[1][0])
            &&& is_product(s, m[0][0], inv[1][1])
        }
}

/// `out` is what inverting `m` with the tolerance `tol` gives: a
/// `DimensionMismatch` where `m` is not 2 by 2, `SingularMatrix` where the
/// singularity test on its determinant answers yes, and else the scaled
/// adjugate.
pub open spec fn is_inverse2x2<T: Scalar>(
    m: Seq<Seq<T>>,
    tol: T,
    out: Result<Seq<Seq<T>>, Error>,
) -> bool {
    if !is_matrix(m, 2, 2) {
        out == Err::<Seq<Seq<T>>, Error>(Error::DimensionMismatch)
    } else {
        exists|det: T, singular: bool|
            {
                &&& is_determinant2x2(m, det)
                &&& #[trigger] is_singularity_test(det, tol, singular)
                &&& if singular {
                    out == Err::<Seq<Seq<T>>, Error>(Error::SingularMatrix)
                } else {
                    out matches Ok(inv) && is_scaled_adjugate2x2(m, det, inv)
                }
            }
    }
}

/// The matrix of two columns whose first column is `a` and whose second
/// is `b`.
///
/// Fails with `DimensionMismatch` exactly when the two differ in length.
pub fn concat_columns<T: Copy>(a: &Vec<T>, b: &Vec<T>) -> (r: Result<Vec<Vec<T>>, Error>)
    ensures
        r is Ok <==> a.len() == b.len(),
        r matches Ok(m) ==> rows(m) == columns(a@, b@),
        r matches Err(e) ==> e == Error::DimensionMismatch,
{
    if a.len() != b.len() {
        return Err(Error::DimensionMismatch);
    }
    let mut out: Vec<Vec<T>> = Vec::new();
    let mut i: usize = 0;
    while i < a.len()
        invariant
            a.len() == b.len(),
            i <= a.len(),
            out.len() == i,
            forall|k: int| 0 <= k < i ==> (#[trigger] out[k])@ == seq![a[k], b[k]],
        decreases a.len() - i,
    {
        let mut row: Vec<T> = Vec::new();
        row.push(a[i]);
        row.push(b[i]);
        out.push(row);
        i += 1;
    }
    Ok(out)
}

/// Whether `a` and `b` have the same number of rows and, row by row, the
/// same length.
fn shapes_agree<T>(a: &Vec<Vec<T>>, b: &Vec<Vec<T>>) -> (r: bool)
    ensures
        r == same_shape(rows(*a), rows(*b)),
{
    if a.len() != b.len() {
        return false;
    }
    let mut i: usize = 0;
    while i < a.len()
        invariant
            a.len() == b.len(),
            i <= a.len(),
            forall|k: int| 0 <= k < i ==> (#[trigger] rows(*a)[k]).len() == rows(*b)[k].len(),
        decreases a.len() - i,
    {
        if a[i].len() != b[i].len() {
            assert(rows(*a)[i as int].len() != rows(*b)[i as int].len());
            return false;
        }
        i += 1;
    }
    true
}

/// The entrywise difference `a - b`.
///
/// Fails with `DimensionMismatch` exactly when the two differ in shape.
pub fn matrix_subtract<T: Scalar>(a: &Vec<Vec<T>>, b: &Vec<Vec<T>>) -> (r: Result<
    Vec<Vec<T>>,
    Error,
>)
    ensures
        r is Ok <==> same_shape(rows(*a), rows(*b)),
        r matches Ok(d) ==> is_matrix_difference(rows(*a), rows(*b), rows(d)),
        r matches Err(e) ==> e == Error::DimensionMismatch,
{
    if !shapes_agree(a, b) {
        return Err(Error::DimensionMismatch);
    }
    let mut out: Vec<Vec<T>> = Vec::new();
    let mut i: usize = 0;
    while i < a.len()
        invariant
            same_shape(rows(*a), rows(*b)),
            i <= a.len(),
            out.len() == i,
            forall|k: int| 0 <= k < i ==> is_difference(a[k]@, b[k]@, (#[trigger] out[k])@),
        decreases a.len() - i,
    {
        assert(rows(*a)[i as int].len() == rows(*b)[i as int].len());
        match subtract(&a[i], &b[i]) {
            Ok(row) => {
                out.push(row);
            },
            Err(e) => {
                return Err(e);
            },
        }
        i += 1;
    }
    Ok(out)
}

/// The inverse of the 2 by 2 matrix `m`, in closed form from its
/// determinant.
///
/// Fails with `DimensionMismatch` exactly when `m` is not 2 by 2, and with
/// `SingularMatrix` when the magnitude of the determinant is below `tol`.
pub fn invert2x2<T: Scalar>(m: &Vec<Vec<T>>, tol: T) -> (r: Result<Vec<Vec<T>>, Error>)
    ensures
        is_inverse2x2(rows(*m), tol, rows_of(r)),
        r == Err::<Vec<Vec<T>>, Error>(Error::DimensionMismatch) <==> !is_matrix(rows(*m), 2, 2),
        r matches Err(e) ==> e == Error::DimensionMismatch || e == Error::SingularMatrix,
{
    if m.len() != 2 || m[0].len() != 2 || m[1].len() != 2 {
        assert(!is_matrix(rows(*m), 2, 2)) by {
            if m.len() == 2 {
                assert(rows(*m)[0].len() != 2 || rows(*m)[1].len() != 2);
            }
        }
        return Err(Error::DimensionMismatch);
    }
    let main: T = m[0][0].mul(m[1][1]);
    let anti: T = m[0][1].mul(m[1][0]);
    let det: T = main.sub(anti);
    let mag: T = det.abs();
    let singular: bool = mag.lt(tol);
    assert(is_singularity_test(det, tol, singular));
    if singular {
        return Err(Error::SingularMatrix);
    }
    let unit: T = T::one();
    let s: T = unit.div(det);
    let minus_s: T = s.neg();
    let mut top: Vec<T> = Vec::new();
    top.push(s.mul(m[1][1]));
    top.push(minus_s.mul(m[0][1]));
    let mut bottom: Vec<T> = Vec::new();
    bottom.push(minus_s.mul(m[1][0]));
    bottom.push(s.mul(m[0][0]));
    let mut out: Vec<Vec<T>> = Vec::new();
    out.push(top);
    out.push(bottom);
    Ok(out)
}

/// The dot product of `row` with column `j` of `b`.
fn dot_column<T: Scalar>(row: &Vec<T>, b: &Vec<Vec<T>>, j: usize) -> (r: T)
    requires
        row.len() == b.len(),
        is_matrix(rows(*b), b.len() as nat, width(rows(*b))),
        j < width(rows(*b)),
    ensures
        is_dot(row@, column(rows(*b), j as int), b.len() as nat, r),
{
    let mut acc: T = T::zero();
    let mut k: usize = 0;
    while k < b.len()
        invariant
            row.len() == b.len(),
            is_matrix(rows(*b), b.len() as nat, width(rows(*b))),
            j < width(rows(*b)),
            k <= b.len(),
            is_dot(row@, column(rows(*b), j as int), k as nat, acc),
        decreases b.len() - k,
    {
        assert(rows(*b)[k as int].len() == width(rows(*b)));
        let term: T = row[k].mul(b[k][j]);
        let next: T = acc.add(term);
        acc = next;
        k += 1;
    }
    acc
}

/// Whether the product `a * b` is defined.
fn shapes_compose<T>(a: &Vec<Vec<T>>, b: &Vec<Vec<T>>) -> (r: bool)
    ensures
        r == can_multiply(rows(*a), rows(*b)),
{
    let p: usize = if b.len() == 0 {
        0
    } else {
        b[0].len()
    };
    let mut k: usize = 0;
    while k < b.len()
        invariant
            p == width(rows(*b)),
            k <= b.len(),
            forall|i: int| 0 <= i < k ==> (#[trigger] rows(*b)[i]).len() == p,
        decreases b.len() - k,
    {
        if b[k].len() != p {
            assert(rows(*b)[k as int].len() != p);
            return false;
        }
        k += 1;
    }
    let mut i: usize = 0;
    while i < a.len()
        invariant
            is_matrix(rows(*b), b.len() as nat, width(rows(*b))),
            i <= a.len(),
            forall|h: int| 0 <= h < i ==> (#[trigger] rows(*a)[h]).len() == b.len(),
        decreases a.len() - i,
    {
        if a[i].len() != b.len() {
            assert(rows(*a)[i as int].len() != b.len());
            return false;
        }
        i += 1;
    }
    true
}

/// The matrix product `a * b`.
///
/// Fails with `DimensionMismatch` exactly when the product is not defined:
/// when the rows of `b` differ in length, or a row of `a` does not have as
/// many entries as `b` has rows.
pub fn matmul<T: Scalar>(a: &Vec<Vec<T>>, b: &Vec<Vec<T>>) -> (r: Result<Vec<Vec<T>>, Error>)
    ensures
        r is Ok <==> can_multiply(rows(*a), rows(*b)),
        r matches Ok(p) ==> is_matrix_product(rows(*a), rows(*b), rows(p)),
        r matches Err(e) ==> e == Error::DimensionMismatch,
{
    if !shapes_compose(a, b) {
        return Err(Error::DimensionMismatch);
    }
    let p: usize = if b.len() == 0 {
        0
    } else {
        b[0].len()
    };
    let mut out: Vec<Vec<T>> = Vec::new();
    let mut i: usize = 0;
    while i < a.len()
        invariant
            can_multiply(rows(*a), rows(*b)),
            p == width(rows(*b)),
            i <= a.len(),
            out.len() == i,
            forall|h: int| 0 <= h < i ==> (#[trigger] out[h]).len() == p,
            forall|h: int, j: int|
                0 <= h < i && 0 <= j < p ==> is_dot(
                    a[h]@,
                    column(rows(*b), j),
                    b.len() as nat,
                    #[trigger] out[h]@[j],
                ),
        decreases a.len() - i,
    {
        assert(rows(*a)[i as int].len() == b.len());
        let mut row: Vec<T> = Vec::new();
        let mut j: usize = 0;
        while j < p
            invariant
                can_multiply(rows(*a), rows(*b)),
                p == width(rows(*b)),
                i < a.len(),
                a[i as int].len() == b.len(),
                j <= p,
                row.len() == j,
                forall|c: int|
                    0 <= c < j ==> is_dot(
                        a[i as int]@,
                        column(rows(*b), c),
                        b.len() as nat,
                        #[trigger] row[c],
                    ),
            decreases p - j,
        {
            row.push(dot_column(&a[i], b, j));
            j += 1;
        }
        out.push(row);
        i += 1;
    }
    Ok(out)
}

/// The product of the matrix `a` with the vector `v`.
///
/// Fails with `DimensionMismatch` exactly when some row of `a` does not
/// have the length of `v`.
pub fn matvec<T: Scalar>(a: &Vec<Vec<T>>, v: &Vec<T>) -> (r: Result<Vec<T>, Error>)
    ensures
        r is Ok <==> is_matrix(rows(*a), a.len() as nat, v.len() as nat),
        r matches Ok(p) ==> is_matrix_vector_product(rows(*a), v@, p@),
        r matches Err(e) ==> e == Error::DimensionMismatch,
{
    let mut out: Vec<T> = Vec::new();
    let mut i: usize = 0;
    while i < a.len()
        invariant
            i <= a.len(),
            out.len() == i,
            forall|h: int| 0 <= h < i ==> (#[trigger] rows(*a)[h]).len() == v.len(),
            forall|h: int| 0 <= h < i ==> is_dot(a[h]@, v@, v.len() as nat, #[trigger] out[h]),
        decreases a.len() - i,
    {
        if a[i].len() != v.len() {
            assert(rows(*a)[i as int].len() != v.len());
            return Err(Error::DimensionMismatch);
        }
        out.push(dot(&a[i], v));
        i += 1;
    }
    Ok(out)
}

} // verus!
