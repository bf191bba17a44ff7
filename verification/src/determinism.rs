//! With arithmetic that is deterministic, every relation of the library is
//! a function: the operands decide the result.
//!
//! The contracts of the library say which operations produced a result.
//! Where each operation gives one answer for the same operands, they
//! leave one result, and these lemmas say so, relation by relation, up to
//! the whole solve.
use crate::accelerator::{components_of, is_acceleration, is_corrected, is_extrapolation};
use crate::error::Error;
use crate::matrix::{
    columns, is_determinant2x2, is_inverse2x2, is_matrix, is_matrix_difference, is_matrix_product,
    is_matrix_vector_product, is_scaled_adjugate2x2, is_singularity_test,
};
use crate::problem::{is_deterministic_problem, is_image, is_residual, Problem};
use crate::scalar::{is_below, is_deterministic, is_product, is_root, is_sum, Scalar};
use crate::solver::{
    is_assessment, is_convergence_order, is_failed_step, is_failure_trace, is_judgement,
    is_measured_residual, is_next_iterate, is_order_estimate, is_run, is_solution_trace, is_step,
    is_stop_test, verdict, Assessment, Config, SolveResult,
};
use crate::vector::{is_difference, is_distance, is_dot, is_finiteness, is_norm2};
use vstd::prelude::*;

verus! {

/// Two differences of the same operands are the same vector.
pub proof fn lemma_difference_unique<T: Scalar>(a: Seq<T>, b: Seq<T>, r: Seq<T>, s: Seq<T>)
    requires
        is_deterministic::<T>(),
        is_difference(a, b, r),
        is_difference(a, b, s),
    ensures
        r == s,
{
}

/// Two dot products of the same operands, over the same number of
/// leading components, are the same scalar.
pub proof fn lemma_dot_unique<T: Scalar>(x: Seq<T>, y: Seq<T>, n: nat, r: T, s: T)
    requires
        is_deterministic::<T>(),
        is_dot(x, y, n, r),
        is_dot(x, y, n, s),
    ensures
        r == s,
    decreases n,
{
    if n > 0 {
        let (pr, tr) = choose|prev: T, term: T|
            {
                &&& is_dot(x, y, (n - 1) as nat, prev)
                &&& is_product(x[n - 1], y[n - 1], term)
                &&& #[trigger] is_sum(prev, term, r)
            };
        let (ps, ts) = choose|prev: T, term: T|
            {
                &&& is_dot(x, y, (n - 1) as nat, prev)
                &&& is_product(x[n - 1], y[n - 1], term)
                &&& #[trigger] is_sum(prev, term, s)
            };
        lemma_dot_unique(x, y, (n - 1) as nat, pr, ps);
    }
}

/// Two norms of the same vector are the same scalar.
pub proof fn lemma_norm2_unique<T: Scalar>(v: Seq<T>, r: T, s: T)
    requires
        is_deterministic::<T>(),
        is_norm2(v, r),
        is_norm2(v, s),
    ensures
        r == s,
{
    let qr = choose|q: T| is_dot(v, v, v.len(), q) && #[trigger] is_root(q, r);
    let qs = choose|q: T| is_dot(v, v, v.len(), q) && #[trigger] is_root(q, s);
    lemma_dot_unique(v, v, v.len(), qr, qs);
}

/// Two distances between the same vectors are the same scalar.
pub proof fn lemma_distance_unique<T: Scalar>(a: Seq<T>, b: Seq<T>, r: T, s: T)
    requires
        is_deterministic::<T>(),
        is_distance(a, b, r),
        is_distance(a, b, s),
    ensures
        r == s,
{
    let dr = choose|d: Seq<T>| #[trigger] is_difference(a, b, d) && is_norm2(d, r);
    let ds = choose|d: Seq<T>| #[trigger] is_difference(a, b, d) && is_norm2(d, s);
    lemma_difference_unique(a, b, dr, ds);
    lemma_norm2_unique(dr, r, s);
}

/// A vector is not found both finite and not.
pub proof fn lemma_finiteness_unique<T: Scalar>(v: Seq<T>, b: bool, c: bool)
    requires
        is_deterministic::<T>(),
        is_finiteness(v, b),
        is_finiteness(v, c),
    ensures
        b == c,
{
}

/// Two differences of the same matrices are the same matrix.
pub proof fn lemma_matrix_difference_unique<T: Scalar>(
    a: Seq<Seq<T>>,
    b: Seq<Seq<T>>,
    r: Seq<Seq<T>>,
    s: Seq<Seq<T>>,
)
    requires
        is_deterministic::<T>(),
        is_matrix_difference(a, b, r),
        is_matrix_difference(a, b, s),
    ensures
        r == s,
{
    assert forall|i: int| 0 <= i < r.len() implies r[i] == s[i] by {}
}

/// Two products of the same matrices are the same matrix.
pub proof fn lemma_matrix_product_unique<T: Scalar>(
    a: Seq<Seq<T>>,
    b: Seq<Seq<T>>,
    r: Seq<Seq<T>>,
    s: Seq<Seq<T>>,
)
    requires
        is_deterministic::<T>(),
        is_matrix_product(a, b, r),
        is_matrix_product(a, b, s),
    ensures
        r == s,
{
    assert forall|i: int| 0 <= i < r.len() implies r[i] == s[i] by {
        assert forall|j: int| 0 <= j < r[i].len() implies r[i][j] == s[i][j] by {
            lemma_dot_unique(a[i], crate::matrix::column(b, j), b.len(), r[i][j], s[i][j]);
        }
    }
}

/// Two products of the same matrix with the same vector are the same
/// vector.
pub proof fn lemma_matrix_vector_product_unique<T: Scalar>(
    a: Seq<Seq<T>>,
    v: Seq<T>,
    r: Seq<T>,
    s: Seq<T>,
)
    requires
        is_deterministic::<T>(),
        is_matrix_vector_product(a, v, r),
        is_matrix_vector_product(a, v, s),
    ensures
        r == s,
{
    assert forall|i: int| 0 <= i < r.len() implies r[i] == s[i] by {
        lemma_dot_unique(a[i], v, v.len(), r[i], s[i]);
    }
}

/// Two determinants of the same 2 by 2 matrix are the same scalar.
pub proof fn lemma_determinant2x2_unique<T: Scalar>(m: Seq<Seq<T>>, r: T, s: T)
    requires
        is_deterministic::<T>(),
        is_determinant2x2(m, r),
        is_determinant2x2(m, s),
    ensures
        r == s,
{
}

/// The singularity test has one answer for a determinant and a tolerance.
pub proof fn lemma_singularity_test_unique<T: Scalar>(det: T, tol: T, b: bool, c: bool)
    requires
        is_deterministic::<T>(),
        is_singularity_test(det, tol, b),
        is_singularity_test(det, tol, c),
    ensures
        b == c,
{
}

/// Two scaled adjugates of the same matrix by the same determinant are
/// the same matrix.
pub proof fn lemma_scaled_adjugate2x2_unique<T: Scalar>(
    m: Seq<Seq<T>>,
    det: T,
    r: Seq<Seq<T>>,
    s: Seq<Seq<T>>,
)
    requires
        is_deterministic::<T>(),
        is_scaled_adjugate2x2(m, det, r),
        is_scaled_adjugate2x2(m, det, s),
    ensures
        r == s,
{
    assert(r[0] =~= s[0]);
    assert(r[1] =~= s[1]);
}

/// Inverting the same matrix with the same tolerance has one outcome.
pub proof fn lemma_inverse2x2_unique<T: Scalar>(
    m: Seq<Seq<T>>,
    tol: T,
    r: Result<Seq<Seq<T>>, Error>,
    s: Result<Seq<Seq<T>>, Error>,
)
    requires
        is_deterministic::<T>(),
        is_inverse2x2(m, tol, r),
        is_inverse2x2(m, tol, s),
    ensures
        r == s,
{
    if is_matrix(m, 2, 2) {
        let (dr, br) = choose|det: T, singular: bool|
            {
                &&& is_determinant2x2(m, det)
                &&& #[trigger] is_singularity_test(det, tol, singular)
                &&& if singular {
                    r == Err::<Seq<Seq<T>>, Error>(Error::SingularMatrix)
                } else {
                    r matches Ok(inv) && is_scaled_adjugate2x2(m, det, inv)
                }
            };
        if !br {
            lemma_scaled_adjugate2x2_unique(m, dr, r->Ok_0, s->Ok_0);
        }
    }
}

/// Two corrections of the same point by the same matrices and step are
/// the same point.
pub proof fn lemma_corrected_unique<T: Scalar>(
    a: Seq<T>,
    dx1: Seq<Seq<T>>,
    inv: Seq<Seq<T>>,
    step: Seq<T>,
    x: Seq<T>,
    y: Seq<T>,
)
    requires
        is_deterministic::<T>(),
        is_corrected(a, dx1, inv, step, x),
        is_corrected(a, dx1, inv, step, y),
    ensures
        x == y,
{
    let (gx, cx) = choose|gain: Seq<Seq<T>>, correction: Seq<T>|
        {
            &&& #[trigger] is_matrix_product(dx1, inv, gain)
            &&& #[trigger] is_matrix_vector_product(gain, step, correction)
            &&& is_difference(a, correction, x)
        };
    let (gy, cy) = choose|gain: Seq<Seq<T>>, correction: Seq<T>|
        {
            &&& #[trigger] is_matrix_product(dx1, inv, gain)
            &&& #[trigger] is_matrix_vector_product(gain, step, correction)
            &&& is_difference(a, correction, y)
        };
    lemma_matrix_product_unique(dx1, inv, gx, gy);
    lemma_matrix_vector_product_unique(gx, step, cx, cy);
}

/// The extrapolation from the same four points with the same tolerance
/// has one outcome.
pub proof fn lemma_extrapolation_unique<T: Scalar>(
    a: Seq<T>,
    b: Seq<T>,
    c: Seq<T>,
    d: Seq<T>,
    tol: T,
    r: Result<Seq<T>, Error>,
    s: Result<Seq<T>, Error>,
)
    requires
        is_deterministic::<T>(),
        is_extrapolation(a, b, c, d, tol, r),
        is_extrapolation(a, b, c, d, tol, s),
    ensures
        r == s,
{
    if a.len() == b.len() && b.len() == c.len() && c.len() == d.len() && a.len() == 2 {
        let (ba1, cb1, dc1, m1, i1) = choose|
            ba: Seq<T>,
            cb: Seq<T>,
            dc: Seq<T>,
            d2x: Seq<Seq<T>>,
            inv: Result<Seq<Seq<T>>, Error>,
        |
            {
                &&& #[trigger] is_difference(b, a, ba)
                &&& #[trigger] is_difference(c, b, cb)
                &&& #[trigger] is_difference(d, c, dc)
                &&& is_matrix_difference(columns(cb, dc), columns(ba, cb), d2x)
                &&& #[trigger] is_inverse2x2(d2x, tol, inv)
                &&& match inv {
                    Ok(m) => r matches Ok(x) && is_corrected(a, columns(ba, cb), m, ba, x),
                    Err(_) => r == Err::<Seq<T>, Error>(Error::AccelerationDegenerate),
                }
            };
        let (ba2, cb2, dc2, m2, i2) = choose|
            ba: Seq<T>,
            cb: Seq<T>,
            dc: Seq<T>,
            d2x: Seq<Seq<T>>,
            inv: Result<Seq<Seq<T>>, Error>,
        |
            {
                &&& #[trigger] is_difference(b, a, ba)
                &&& #[trigger] is_difference(c, b, cb)
                &&& #[trigger] is_difference(d, c, dc)
                &&& is_matrix_difference(columns(cb, dc), columns(ba, cb), d2x)
                &&& #[trigger] is_inverse2x2(d2x, tol, inv)
                &&& match inv {
                    Ok(m) => s matches Ok(x) && is_corrected(a, columns(ba, cb), m, ba, x),
                    Err(_) => s == Err::<Seq<T>, Error>(Error::AccelerationDegenerate),
                }
            };
        lemma_difference_unique(b, a, ba1, ba2);
        lemma_difference_unique(c, b, cb1, cb2);
        lemma_inverse2x2_unique(m1, tol, i1, i2);
        if i1 is Ok {
            lemma_corrected_unique(a, columns(ba1, cb1), i1->Ok_0, ba1, r->Ok_0, s->Ok_0);
        }
    }
}

/// The acceleration steps from two points with the same components have
/// the same outcome.
pub proof fn lemma_acceleration_unique<T: Scalar, P: Problem<T>>(
    p: P,
    a1: Vec<T>,
    a2: Vec<T>,
    tol: T,
    r: Result<Vec<T>, Error>,
    s: Result<Vec<T>, Error>,
)
    requires
        is_deterministic::<T>(),
        is_deterministic_problem(p),
        a1@ == a2@,
        is_acceleration(p, a1, tol, r),
        is_acceleration(p, a2, tol, s),
    ensures
        components_of(r) == components_of(s),
{
    let (b1, c1, d1) = choose|b: Vec<T>, c: Vec<T>, d: Vec<T>|
        {
            &&& #[trigger] is_image(p, a1, b)
            &&& #[trigger] is_image(p, b, c)
            &&& #[trigger] is_image(p, c, d)
            &&& is_extrapolation(a1@, b@, c@, d@, tol, components_of(r))
        };
    lemma_extrapolation_unique(a1@, b1@, c1@, d1@, tol, components_of(r), components_of(s));
}

/// The next iterates after two points with the same components have the
/// same components, or fail alike.
pub proof fn lemma_next_iterate_unique<T: Scalar, P: Problem<T>>(
    p: P,
    accel: bool,
    tol: T,
    x1: Vec<T>,
    x2: Vec<T>,
    r: Result<Vec<T>, Error>,
    s: Result<Vec<T>, Error>,
)
    requires
        is_deterministic::<T>(),
        is_deterministic_problem(p),
        x1@ == x2@,
        is_next_iterate(p, accel, tol, x1, r),
        is_next_iterate(p, accel, tol, x2, s),
    ensures
        components_of(r) == components_of(s),
{
    if accel {
        let acc1 = choose|acc: Result<Vec<T>, Error>| #[trigger]
            is_acceleration(p, x1, tol, acc) && match acc {
                Ok(y) => r == acc,
                Err(Error::AccelerationDegenerate) => r matches Ok(y) && is_image(p, x1, y),
                Err(e) => r == acc,
            };
        let acc2 = choose|acc: Result<Vec<T>, Error>| #[trigger]
            is_acceleration(p, x2, tol, acc) && match acc {
                Ok(y) => s == acc,
                Err(Error::AccelerationDegenerate) => s matches Ok(y) && is_image(p, x2, y),
                Err(e) => s == acc,
            };
        lemma_acceleration_unique(p, x1, x2, tol, acc1, acc2);
    }
}

/// The measured residual norms at two points with the same components
/// are the same, or fail alike.
pub proof fn lemma_measured_residual_unique<T: Scalar, P: Problem<T>>(
    p: P,
    x1: Vec<T>,
    x2: Vec<T>,
    r: Result<T, Error>,
    s: Result<T, Error>,
)
    requires
        is_deterministic::<T>(),
        is_deterministic_problem(p),
        x1@ == x2@,
        is_measured_residual(p, x1, r),
        is_measured_residual(p, x2, s),
    ensures
        r == s,
{
    let (f1, b1) = choose|fx: Vec<T>, finite: bool|
        {
            &&& is_residual(p, x1, fx)
            &&& #[trigger] is_finiteness(fx@, finite)
            &&& if finite {
                r matches Ok(n) && is_norm2(fx@, n)
            } else {
                r == Err::<T, Error>(Error::NonFiniteIterate)
            }
        };
    if b1 {
        lemma_norm2_unique(f1@, r->Ok_0, s->Ok_0);
    }
}

/// The stop tests have one pair of answers.
pub proof fn lemma_stop_test_unique<T: Scalar>(
    x: Seq<T>,
    y: Seq<T>,
    r: T,
    eps: T,
    small1: bool,
    stalled1: bool,
    small2: bool,
    stalled2: bool,
)
    requires
        is_deterministic::<T>(),
        is_stop_test(x, y, r, eps, small1, stalled1),
        is_stop_test(x, y, r, eps, small2, stalled2),
    ensures
        small1 == small2,
        stalled1 == stalled2,
{
    let d1 = choose|dist: T|
        {
            &&& is_below(r, eps, small1)
            &&& #[trigger] is_distance(y, x, dist)
            &&& is_below(dist, eps, stalled1)
        };
    let d2 = choose|dist: T|
        {
            &&& is_below(r, eps, small2)
            &&& #[trigger] is_distance(y, x, dist)
            &&& is_below(dist, eps, stalled2)
        };
    lemma_distance_unique(y, x, d1, d2);
}

/// The judgements of two iterates with the same components, after
/// predecessors with the same components, are the same.
pub proof fn lemma_judgement_unique<T: Scalar, P: Problem<T>>(
    p: P,
    cfg: Config<T>,
    x1: Vec<T>,
    x2: Vec<T>,
    y1: Vec<T>,
    y2: Vec<T>,
    i: nat,
    r: Result<Assessment<T>, Error>,
    s: Result<Assessment<T>, Error>,
)
    requires
        is_deterministic::<T>(),
        is_deterministic_problem(p),
        x1@ == x2@,
        y1@ == y2@,
        is_judgement(p, cfg, x1, y1, i, r),
        is_judgement(p, cfg, x2, y2, i, s),
    ensures
        r == s,
{
    let m1 = choose|res: Result<T, Error>| #[trigger]
        is_measured_residual(p, y1, res) && match res {
            Ok(n) => exists|small: bool, stalled: bool| #[trigger]
                is_stop_test(x1@, y1@, n, cfg.eps, small, stalled) && r == Ok::<
                    Assessment<T>,
                    Error,
                >(
                    Assessment {
                        residual_norm: n,
                        verdict: verdict(small, stalled, i, cfg.max_iter as nat),
                    },
                ),
            Err(e) => r == Err::<Assessment<T>, Error>(e),
        };
    let m2 = choose|res: Result<T, Error>| #[trigger]
        is_measured_residual(p, y2, res) && match res {
            Ok(n) => exists|small: bool, stalled: bool| #[trigger]
                is_stop_test(x2@, y2@, n, cfg.eps, small, stalled) && s == Ok::<
                    Assessment<T>,
                    Error,
                >(
                    Assessment {
                        residual_norm: n,
                        verdict: verdict(small, stalled, i, cfg.max_iter as nat),
                    },
                ),
            Err(e) => s == Err::<Assessment<T>, Error>(e),
        };
    lemma_measured_residual_unique(p, y1, y2, m1, m2);
    if m1 is Ok {
        let n = m1->Ok_0;
        let (a1, b1) = choose|small: bool, stalled: bool| #[trigger]
            is_stop_test(x1@, y1@, n, cfg.eps, small, stalled) && r == Ok::<Assessment<T>, Error>(
                Assessment {
                    residual_norm: n,
                    verdict: verdict(small, stalled, i, cfg.max_iter as nat),
                },
            );
        let (a2, b2) = choose|small: bool, stalled: bool| #[trigger]
            is_stop_test(x2@, y2@, n, cfg.eps, small, stalled) && s == Ok::<Assessment<T>, Error>(
                Assessment {
                    residual_norm: n,
                    verdict: verdict(small, stalled, i, cfg.max_iter as nat),
                },
            );
        lemma_stop_test_unique(x1@, y1@, n, cfg.eps, a1, b1, a2, b2);
    }
}

/// The assessments of two iterates with the same components, after
/// predecessors with the same components, are the same.
pub proof fn lemma_assessment_unique<T: Scalar, P: Problem<T>>(
    p: P,
    cfg: Config<T>,
    x1: Vec<T>,
    x2: Vec<T>,
    y1: Vec<T>,
    y2: Vec<T>,
    i: nat,
    r: Result<Assessment<T>, Error>,
    s: Result<Assessment<T>, Error>,
)
    requires
        is_deterministic::<T>(),
        is_deterministic_problem(p),
        x1@ == x2@,
        y1@ == y2@,
        is_assessment(p, cfg, x1, y1, i, r),
        is_assessment(p, cfg, x2, y2, i, s),
    ensures
        r == s,
{
    if y1.len() == x1.len() {
        let b1 = choose|finite: bool| #[trigger]
            is_finiteness(y1@, finite) && if finite {
                is_judgement(p, cfg, x1, y1, i, r)
            } else {
                r == Err::<Assessment<T>, Error>(Error::NonFiniteIterate)
            };
        if b1 {
            lemma_judgement_unique(p, cfg, x1, x2, y1, y2, i, r, s);
        }
    }
}

/// The steps from two iterates with the same components lead to iterates
/// with the same components and to the same assessment.
pub proof fn lemma_step_unique<T: Scalar, P: Problem<T>>(
    p: P,
    cfg: Config<T>,
    accel: bool,
    x1: Vec<T>,
    x2: Vec<T>,
    i: nat,
    y1: Vec<T>,
    y2: Vec<T>,
    a1: Assessment<T>,
    a2: Assessment<T>,
)
    requires
        is_deterministic::<T>(),
        is_deterministic_problem(p),
        x1@ == x2@,
        is_step(p, cfg, accel, x1, i, y1, a1),
        is_step(p, cfg, accel, x2, i, y2, a2),
    ensures
        y1@ == y2@,
        a1 == a2,
{
    lemma_next_iterate_unique(p, accel, cfg.singular_tol, x1, x2, Ok(y1), Ok(y2));
    lemma_assessment_unique(p, cfg, x1, x2, y1, y2, i + 1, Ok(a1), Ok(a2));
}

/// The order estimate from the same three residual norms is the same.
pub proof fn lemma_order_estimate_unique<T: Scalar>(
    r2: T,
    r1: T,
    r0: T,
    o1: Option<T>,
    o2: Option<T>,
)
    requires
        is_deterministic::<T>(),
        is_order_estimate(r2, r1, r0, o1),
        is_order_estimate(r2, r1, r0, o2),
    ensures
        o1 == o2,
{
}

/// The orders of convergence at the ends of two triples of iterates with
/// the same components are the same.
pub proof fn lemma_convergence_order_unique<T: Scalar, P: Problem<T>>(
    p: P,
    x2: Vec<T>,
    x1: Vec<T>,
    x0: Vec<T>,
    y2: Vec<T>,
    y1: Vec<T>,
    y0: Vec<T>,
    o1: Option<T>,
    o2: Option<T>,
)
    requires
        is_deterministic::<T>(),
        is_deterministic_problem(p),
        x2@ == y2@,
        x1@ == y1@,
        x0@ == y0@,
        is_convergence_order(p, x2, x1, x0, o1),
        is_convergence_order(p, y2, y1, y0, o2),
    ensures
        o1 == o2,
{
    let (a2, a1, a0) = choose|m2: Result<T, Error>, m1: Result<T, Error>, m0: Result<T, Error>|
        {
            &&& #[trigger] is_measured_residual(p, x2, m2)
            &&& #[trigger] is_measured_residual(p, x1, m1)
            &&& #[trigger] is_measured_residual(p, x0, m0)
            &&& if m2 is Ok && m1 is Ok && m0 is Ok {
                is_order_estimate(m2->Ok_0, m1->Ok_0, m0->Ok_0, o1)
            } else {
                o1 is None
            }
        };
    let (b2, b1, b0) = choose|m2: Result<T, Error>, m1: Result<T, Error>, m0: Result<T, Error>|
        {
            &&& #[trigger] is_measured_residual(p, y2, m2)
            &&& #[trigger] is_measured_residual(p, y1, m1)
            &&& #[trigger] is_measured_residual(p, y0, m0)
            &&& if m2 is Ok && m1 is Ok && m0 is Ok {
                is_order_estimate(m2->Ok_0, m1->Ok_0, m0->Ok_0, o2)
            } else {
                o2 is None
            }
        };
    lemma_measured_residual_unique(p, x2, y2, a2, b2);
    lemma_measured_residual_unique(p, x1, y1, a1, b1);
    lemma_measured_residual_unique(p, x0, y0, a0, b0);
}

/// Where a step from an iterate succeeds, no step from an iterate with the
/// same components fails.
pub proof fn lemma_step_excludes_failure<T: Scalar, P: Problem<T>>(
    p: P,
    cfg: Config<T>,
    accel: bool,
    x1: Vec<T>,
    x2: Vec<T>,
    i: nat,
    y: Vec<T>,
    a: Assessment<T>,
    e: Error,
)
    requires
        is_deterministic::<T>(),
        is_deterministic_problem(p),
        x1@ == x2@,
        is_step(p, cfg, accel, x1, i, y, a),
    ensures
        !is_failed_step(p, cfg, accel, x2, i, e),
{
    if is_failed_step(p, cfg, accel, x2, i, e) && !is_next_iterate(
        p,
        accel,
        cfg.singular_tol,
        x2,
        Err(e),
    ) {
        let z = choose|z: Vec<T>| #[trigger]
            is_next_iterate(p, accel, cfg.singular_tol, x2, Ok(z)) && is_assessment(
                p,
                cfg,
                x2,
                z,
                i + 1,
                Err(e),
            );
        lemma_next_iterate_unique(p, accel, cfg.singular_tol, x1, x2, Ok(y), Ok(z));
    }
}

/// From two iterates with the same components, a step fails in one way.
pub proof fn lemma_failed_step_unique<T: Scalar, P: Problem<T>>(
    p: P,
    cfg: Config<T>,
    accel: bool,
    x1: Vec<T>,
    x2: Vec<T>,
    i: nat,
    e1: Error,
    e2: Error,
)
    requires
        is_deterministic::<T>(),
        is_deterministic_problem(p),
        x1@ == x2@,
        is_failed_step(p, cfg, accel, x1, i, e1),
        is_failed_step(p, cfg, accel, x2, i, e2),
    ensures
        e1 == e2,
{
}

/// Two runs from starting points with the same components agree, iterate
/// by iterate, as far as both go.
pub proof fn lemma_runs_agree<T: Scalar, P: Problem<T>>(
    p: P,
    cfg: Config<T>,
    accel: bool,
    t1: Seq<Vec<T>>,
    t2: Seq<Vec<T>>,
    k: nat,
)
    requires
        is_deterministic::<T>(),
        is_deterministic_problem(p),
        is_run(p, cfg, accel, t1),
        is_run(p, cfg, accel, t2),
        t1[0]@ == t2[0]@,
        k < t1.len(),
        k < t2.len(),
    ensures
        t1[k as int]@ == t2[k as int]@,
    decreases k,
{
    if k > 0 {
        let j = (k - 1) as int;
        lemma_runs_agree(p, cfg, accel, t1, t2, (k - 1) as nat);
        let r1 = choose|r: T| #[trigger]
            is_step(
                p,
                cfg,
                accel,
                t1[j],
                j as nat,
                t1[j + 1],
                Assessment { residual_norm: r, verdict: None },
            );
        let r2 = choose|r: T| #[trigger]
            is_step(
                p,
                cfg,
                accel,
                t2[j],
                j as nat,
                t2[j + 1],
                Assessment { residual_norm: r, verdict: None },
            );
        lemma_step_unique(
            p,
            cfg,
            accel,
            t1[j],
            t2[j],
            j as nat,
            t1[j + 1],
            t2[j + 1],
            Assessment { residual_norm: r1, verdict: None },
            Assessment { residual_norm: r2, verdict: None },
        );
    }
}

/// In a run, no step that has a successor stops the solve: from an
/// iterate with the components of the iterate of index `j`, there is no
/// step of index `j` with a verdict.
proof fn lemma_run_goes_on<T: Scalar, P: Problem<T>>(
    p: P,
    cfg: Config<T>,
    accel: bool,
    t: Seq<Vec<T>>,
    j: int,
    x: Vec<T>,
    y: Vec<T>,
    a: Assessment<T>,
)
    requires
        is_deterministic::<T>(),
        is_deterministic_problem(p),
        is_run(p, cfg, accel, t),
        0 <= j < t.len() - 1,
        x@ == t[j]@,
        is_step(p, cfg, accel, x, j as nat, y, a),
    ensures
        a.verdict is None,
        y@ == t[j + 1]@,
{
    let r = choose|r: T| #[trigger]
        is_step(
            p,
            cfg,
            accel,
            t[j],
            j as nat,
            t[j + 1],
            Assessment { residual_norm: r, verdict: None },
        );
    lemma_step_unique(
        p,
        cfg,
        accel,
        x,
        t[j],
        j as nat,
        y,
        t[j + 1],
        a,
        Assessment { residual_norm: r, verdict: None },
    );
}

/// In a run, no step that has a successor fails.
proof fn lemma_run_does_not_fail<T: Scalar, P: Problem<T>>(
    p: P,
    cfg: Config<T>,
    accel: bool,
    t: Seq<Vec<T>>,
    j: int,
    x: Vec<T>,
    e: Error,
)
    requires
        is_deterministic::<T>(),
        is_deterministic_problem(p),
        is_run(p, cfg, accel, t),
        0 <= j < t.len() - 1,
        x@ == t[j]@,
    ensures
        !is_failed_step(p, cfg, accel, x, j as nat, e),
{
    let r = choose|r: T| #[trigger]
        is_step(
            p,
            cfg,
            accel,
            t[j],
            j as nat,
            t[j + 1],
            Assessment { residual_norm: r, verdict: None },
        );
    lemma_step_excludes_failure(
        p,
        cfg,
        accel,
        t[j],
        x,
        j as nat,
        t[j + 1],
        Assessment { residual_norm: r, verdict: None },
        e,
    );
}

/// The result of a solve is decided by its inputs: two solves of the same
/// problem from the same starting point, in the same mode and with the
/// same configuration, take the same number of steps, stop for the same
/// reason, and report final iterates with the same components, the same
/// residual norm and the same order.
pub proof fn lemma_solution_unique<T: Scalar, P: Problem<T>>(
    p: P,
    cfg: Config<T>,
    accel: bool,
    x0: Vec<T>,
    t1: Seq<Vec<T>>,
    res1: SolveResult<T>,
    t2: Seq<Vec<T>>,
    res2: SolveResult<T>,
)
    requires
        is_deterministic::<T>(),
        is_deterministic_problem(p),
        is_solution_trace(p, cfg, accel, x0, t1, res1),
        is_solution_trace(p, cfg, accel, x0, t2, res2),
    ensures
        res1.iteration_count == res2.iteration_count,
        res1.termination_reason == res2.termination_reason,
        res1.final_iterate@ == res2.final_iterate@,
        res1.final_residual_norm == res2.final_residual_norm,
        res1.convergence_order == res2.convergence_order,
        forall|k: int| 0 <= k < t1.len() ==> (#[trigger] t1[k])@ == t2[k]@,
{
    let n1 = res1.iteration_count as int;
    let n2 = res2.iteration_count as int;
    let run1 = t1.drop_last();
    let run2 = t2.drop_last();
    let a1 = Assessment {
        residual_norm: res1.final_residual_norm,
        verdict: Some(res1.termination_reason),
    };
    let a2 = Assessment {
        residual_norm: res2.final_residual_norm,
        verdict: Some(res2.termination_reason),
    };
    if n1 < n2 {
        lemma_runs_agree(p, cfg, accel, run1, run2, (n1 - 1) as nat);
        lemma_run_goes_on(p, cfg, accel, run2, n1 - 1, t1[n1 - 1], t1[n1], a1);
    }
    if n2 < n1 {
        lemma_runs_agree(p, cfg, accel, run1, run2, (n2 - 1) as nat);
        lemma_run_goes_on(p, cfg, accel, run1, n2 - 1, t2[n2 - 1], t2[n2], a2);
    }
    assert forall|k: int| 0 <= k < t1.len() implies (#[trigger] t1[k])@ == t2[k]@ by {
        if k < n1 {
            lemma_runs_agree(p, cfg, accel, run1, run2, k as nat);
        } else {
            lemma_runs_agree(p, cfg, accel, run1, run2, (n1 - 1) as nat);
            lemma_step_unique(
                p,
                cfg,
                accel,
                t1[n1 - 1],
                t2[n1 - 1],
                (n1 - 1) as nat,
                t1[n1],
                t2[n1],
                a1,
                a2,
            );
        }
    }
    lemma_step_unique(
        p,
        cfg,
        accel,
        t1[n1 - 1],
        t2[n1 - 1],
        (n1 - 1) as nat,
        t1[n1],
        t2[n1],
        a1,
        a2,
    );
    if n1 >= 2 {
        lemma_convergence_order_unique(
            p,
            t1[n1],
            t1[n1 - 1],
            t1[n1 - 2],
            t2[n1],
            t2[n1 - 1],
            t2[n1 - 2],
            res1.convergence_order,
            res2.convergence_order,
        );
    }
}

/// A solve that stops with a result does not fail.
pub proof fn lemma_solution_excludes_failure<T: Scalar, P: Problem<T>>(
    p: P,
    cfg: Config<T>,
    accel: bool,
    x0: Vec<T>,
    t1: Seq<Vec<T>>,
    res: SolveResult<T>,
    t2: Seq<Vec<T>>,
    e: Error,
)
    requires
        is_deterministic::<T>(),
        is_deterministic_problem(p),
        is_solution_trace(p, cfg, accel, x0, t1, res),
    ensures
        !is_failure_trace(p, cfg, accel, x0, t2, e),
{
    let n = res.iteration_count as int;
    let run = t1.drop_last();
    let last = t2.len() - 1;
    let a = Assessment {
        residual_norm: res.final_residual_norm,
        verdict: Some(res.termination_reason),
    };
    if is_failure_trace(p, cfg, accel, x0, t2, e) {
        if last < n - 1 {
            lemma_runs_agree(p, cfg, accel, run, t2, last as nat);
            lemma_run_does_not_fail(p, cfg, accel, run, last, t2[last], e);
        } else if last == n - 1 {
            lemma_runs_agree(p, cfg, accel, run, t2, last as nat);
            lemma_step_excludes_failure(
                p,
                cfg,
                accel,
                t1[n - 1],
                t2[last],
                last as nat,
                t1[n],
                a,
                e,
            );
        } else {
            lemma_runs_agree(p, cfg, accel, run, t2, (n - 1) as nat);
            lemma_run_goes_on(p, cfg, accel, t2, n - 1, t1[n - 1], t1[n], a);
        }
    }
}

/// A solve fails in one way.
pub proof fn lemma_failure_unique<T: Scalar, P: Problem<T>>(
    p: P,
    cfg: Config<T>,
    accel: bool,
    x0: Vec<T>,
    t1: Seq<Vec<T>>,
    e1: Error,
    t2: Seq<Vec<T>>,
    e2: Error,
)
    requires
        is_deterministic::<T>(),
        is_deterministic_problem(p),
        is_failure_trace(p, cfg, accel, x0, t1, e1),
        is_failure_trace(p, cfg, accel, x0, t2, e2),
    ensures
        e1 == e2,
        t1.len() == t2.len(),
{
    let l1 = t1.len() - 1;
    let l2 = t2.len() - 1;
    if l1 < l2 {
        lemma_runs_agree(p, cfg, accel, t1, t2, l1 as nat);
        lemma_run_does_not_fail(p, cfg, accel, t2, l1, t1[l1], e1);
    } else if l2 < l1 {
        lemma_runs_agree(p, cfg, accel, t1, t2, l2 as nat);
        lemma_run_does_not_fail(p, cfg, accel, t1, l2, t2[l2], e2);
    } else {
        lemma_runs_agree(p, cfg, accel, t1, t2, l1 as nat);
    }
}

} // verus!
