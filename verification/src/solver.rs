//! The iteration controller: it drives plain or accelerated steps from a
//! starting point until a stopping test answers yes, and reports where it
//! stopped and why.
use crate::accelerator::{accelerate, is_acceleration};
use crate::error::Error;
use crate::history::History;
use crate::problem::{is_image, is_residual, Problem};
use crate::scalar::{is_below, is_finite_answer, is_log, is_quotient, Scalar};
use crate::vector::{all_finite, distance, duplicate, is_distance, is_finiteness, is_norm2, norm2};
use vstd::prelude::*;

verus! {

/// The iteration cap that a configuration takes where its user names none.
pub const DEFAULT_MAX_ITER: usize = 100;

/// What a solve is tuned by.
#[derive(Debug)]
pub struct Config<T> {
    /// The terminal tolerance: a residual norm or a step length below it
    /// ends the solve.
    pub eps: T,
    /// The tolerance of the singularity test: a second-difference matrix
    /// whose determinant has a magnitude below it is not inverted.
    pub singular_tol: T,
    /// The iteration cap: the solve stops at the latest when the index of
    /// the newest iterate reaches `max_iter - 1`.
    pub max_iter: usize,
}

/// Why a solve stopped.
#[derive(Clone, Copy, Debug, PartialEq, Eq, Structural)]
pub enum TerminationReason {
    /// The residual norm or the length of the last step fell below the
    /// terminal tolerance.
    Converged,
    /// The iteration cap was reached, and neither of the other two tests
    /// answered yes.
    MaxedOut,
}

/// What the controller found of a new iterate.
#[derive(Debug)]
pub struct Assessment<T> {
    /// The norm of the residual at the iterate.
    pub residual_norm: T,
    /// Why the solve stops at this iterate, if it does.
    pub verdict: Option<TerminationReason>,
}

/// What a solve reports.
#[derive(Debug)]
pub struct SolveResult<T> {
    /// The iterate at which the solve stopped.
    pub final_iterate: Vec<T>,
    /// The norm of the residual at that iterate.
    pub final_residual_norm: T,
    /// The number of steps taken: the index of the final iterate.
    pub iteration_count: usize,
    /// The empirical order of convergence, from the residual norms of the
    /// last three iterates; `None` where fewer than three iterates exist or
    /// the estimate is not finite.
    pub convergence_order: Option<T>,
    /// Why the solve stopped.
    pub termination_reason: TerminationReason,
}

/// The largest number of steps that a solve with the cap `max_iter` takes:
/// one step is always taken, and the cap is reached when the index of the
/// newest iterate is `max_iter - 1`.
pub open spec fn step_budget(max_iter: nat) -> nat {
    if max_iter <= 2 {
        1
    } else {
        (max_iter - 1) as nat
    }
}

/// The decision after the step that produced the iterate of index `i`:
/// converged where the residual is small or the iterate has stalled, else
/// maxed out where `i >= max_iter - 1`, else none, and the solve goes on.
pub open spec fn verdict(small: bool, stalled: bool, i: nat, max_iter: nat) -> Option<
    TerminationReason,
> {
    if small || stalled {
        Some(TerminationReason::Converged)
    } else if i + 1 >= max_iter {
        Some(TerminationReason::MaxedOut)
    } else {
        None
    }
}

/// `out` is the next iterate after `x`: with acceleration, the accelerated
/// point, or `G(x)` where the acceleration is degenerate; without, `G(x)`.
/// Any other failure of the acceleration is the failure of the step.
pub open spec fn is_next_iterate<T: Scalar, P: Problem<T>>(
    p: P,
    accel: bool,
    tol: T,
    x: Vec<T>,
    out: Result<Vec<T>, Error>,
) -> bool {
    if accel {
        exists|acc: Result<Vec<T>, Error>| #[trigger]
            is_acceleration(p, x, tol, acc) && match acc {
                Ok(y) => out == acc,
                Err(Error::AccelerationDegenerate) => out matches Ok(y) && is_image(p, x, y),
                Err(e) => out == acc,
            }
    } else {
        out matches Ok(y) && is_image(p, x, y)
    }
}

/// `out` is the measured residual norm at `x`: the norm of `F(x)`, or
/// `NonFiniteIterate` where a component of `F(x)` is not finite.
pub open spec fn is_measured_residual<T: Scalar, P: Problem<T>>(
    p: P,
    x: Vec<T>,
    out: Result<T, Error>,
) -> bool {
    exists|fx: Vec<T>, finite: bool|
        {
            &&& is_residual(p, x, fx)
            &&& #[trigger] is_finiteness(fx@, finite)
            &&& if finite {
                out matches Ok(r) && is_norm2(fx@, r)
            } else {
                out == Err::<T, Error>(Error::NonFiniteIterate)
            }
        }
}

/// `small` answers whether the residual norm `r` is below `eps`, and
/// `stalled` whether the distance between `y` and `x` is.
pub open spec fn is_stop_test<T: Scalar>(
    x: Seq<T>,
    y: Seq<T>,
    r: T,
    eps: T,
    small: bool,
    stalled: bool,
) -> bool {
    exists|dist: T|
        {
            &&& is_below(r, eps, small)
            &&& #[trigger] is_distance(y, x, dist)
            &&& is_below(dist, eps, stalled)
        }
}

/// `out` is the judgement of the finite iterate `y` of index `i`, which
/// follows `x`: its measured residual norm with the verdict of the stop
/// tests, or the failure to measure the residual.
pub open spec fn is_judgement<T: Scalar, P: Problem<T>>(
    p: P,
    cfg: Config<T>,
    x: Vec<T>,
    y: Vec<T>,
    i: nat,
    out: Result<Assessment<T>, Error>,
) -> bool {
    exists|res: Result<T, Error>| #[trigger]
        is_measured_residual(p, y, res) && match res {
            Ok(r) => exists|small: bool, stalled: bool| #[trigger]
                is_stop_test(x@, y@, r, cfg.eps, small, stalled) && out == Ok::<
                    Assessment<T>,
                    Error,
                >(
                    Assessment {
                        residual_norm: r,
                        verdict: verdict(small, stalled, i, cfg.max_iter as nat),
                    },
                ),
            Err(e) => out == Err::<Assessment<T>, Error>(e),
        }
}

/// `out` is the assessment of the new iterate `y` of index `i`, which
/// follows `x`: `DimensionMismatch` where the two differ in dimension,
/// `NonFiniteIterate` where a component of `y` is not finite, and else the
/// judgement of `y`.
pub open spec fn is_assessment<T: Scalar, P: Problem<T>>(
    p: P,
    cfg: Config<T>,
    x: Vec<T>,
    y: Vec<T>,
    i: nat,
    out: Result<Assessment<T>, Error>,
) -> bool {
    if y.len() != x.len() {
        out == Err::<Assessment<T>, Error>(Error::DimensionMismatch)
    } else {
        exists|finite: bool| #[trigger]
            is_finiteness(y@, finite) && if finite {
                is_judgement(p, cfg, x, y, i, out)
            } else {
                out == Err::<Assessment<T>, Error>(Error::NonFiniteIterate)
            }
    }
}

/// `out` is the order estimate from the residual norms `r2`, `r1` and `r0`
/// of the last three iterates, newest first:
/// `ln(r2 / r1) / ln(r1 / r0)`, or none where that is not finite.
pub open spec fn is_order_estimate<T: Scalar>(r2: T, r1: T, r0: T, out: Option<T>) -> bool {
    exists|q1: T, q0: T, num: T, den: T, order: T, finite: bool|
        {
            &&& #[trigger] is_quotient(r2, r1, q1)
            &&& #[trigger] is_quotient(r1, r0, q0)
            &&& #[trigger] is_log(q1, num)
            &&& #[trigger] is_log(q0, den)
            &&& #[trigger] is_quotient(num, den, order)
            &&& #[trigger] is_finite_answer(order, finite)
            &&& out == if finite {
                Some(order)
            } else {
                None
            }
        }
}

/// `out` is the empirical order of convergence at the iterate `x2`, which
/// follows `x1`, which follows `x0`: the order estimate from their
/// measured residual norms, or none where one of them cannot be measured.
pub open spec fn is_convergence_order<T: Scalar, P: Problem<T>>(
    p: P,
    x2: Vec<T>,
    x1: Vec<T>,
    x0: Vec<T>,
    out: Option<T>,
) -> bool {
    exists|m2: Result<T, Error>, m1: Result<T, Error>, m0: Result<T, Error>|
        {
            &&& #[trigger] is_measured_residual(p, x2, m2)
            &&& #[trigger] is_measured_residual(p, x1, m1)
            &&& #[trigger] is_measured_residual(p, x0, m0)
            &&& if m2 is Ok && m1 is Ok && m0 is Ok {
                is_order_estimate(m2->Ok_0, m1->Ok_0, m0->Ok_0, out)
            } else {
                out is None
            }
        }
}

/// The step from the iterate `x` of index `i` produced `y`, and `y` was
/// assessed as `a`.
pub open spec fn is_step<T: Scalar, P: Problem<T>>(
    p: P,
    cfg: Config<T>,
    accel: bool,
    x: Vec<T>,
    i: nat,
    y: Vec<T>,
    a: Assessment<T>,
) -> bool {
    &&& is_next_iterate(p, accel, cfg.singular_tol, x, Ok(y))
    &&& is_assessment(p, cfg, x, y, i + 1, Ok(a))
}

/// The step from the iterate `x` of index `i` produced `y`, and no stop
/// test answered yes of `y`.
pub open spec fn is_continuing_step<T: Scalar, P: Problem<T>>(
    p: P,
    cfg: Config<T>,
    accel: bool,
    x: Vec<T>,
    i: nat,
    y: Vec<T>,
) -> bool {
    exists|r: T| #[trigger]
        is_step(p, cfg, accel, x, i, y, Assessment { residual_norm: r, verdict: None })
}

/// The step from the iterate `x` of index `i` failed with `e`: no next
/// iterate came, or the one that came could not be assessed.
pub open spec fn is_failed_step<T: Scalar, P: Problem<T>>(
    p: P,
    cfg: Config<T>,
    accel: bool,
    x: Vec<T>,
    i: nat,
    e: Error,
) -> bool {
    ||| is_next_iterate(p, accel, cfg.singular_tol, x, Err(e))
    ||| exists|y: Vec<T>| #[trigger]
        is_next_iterate(p, accel, cfg.singular_tol, x, Ok(y)) && is_assessment(
            p,
            cfg,
            x,
            y,
            i + 1,
            Err(e),
        )
}

/// `t` is a history in which every iterate but the first came from its
/// predecessor by a step after which the solve went on.
pub open spec fn is_run<T: Scalar, P: Problem<T>>(
    p: P,
    cfg: Config<T>,
    accel: bool,
    t: Seq<Vec<T>>,
) -> bool {
    &&& t.len() >= 1
    &&& forall|k: int|
        0 <= k < t.len() - 1 ==> is_continuing_step(p, cfg, accel, #[trigger] t[k], k as nat, t[k + 1])
}

/// `t` is the history of a solve from `x0` that stopped with `res`: a run
/// up to the last iterate but one, then a step whose verdict is the reason
/// reported, to the final iterate. The order is reported from the last
/// three iterates where there are three.
pub open spec fn is_solution_trace<T: Scalar, P: Problem<T>>(
    p: P,
    cfg: Config<T>,
    accel: bool,
    x0: Vec<T>,
    t: Seq<Vec<T>>,
    res: SolveResult<T>,
) -> bool {
    let n = res.iteration_count as int;
    &&& n >= 1
    &&& t.len() == n + 1
    &&& t[0] == x0
    &&& is_run(p, cfg, accel, t.drop_last())
    &&& is_step(
        p,
        cfg,
        accel,
        t[n - 1],
        (n - 1) as nat,
        t[n],
        Assessment {
            residual_norm: res.final_residual_norm,
            verdict: Some(res.termination_reason),
        },
    )
    &&& res.final_iterate@ == t[n]@
    &&& if n >= 2 {
        is_convergence_order(p, t[n], t[n - 1], t[n - 2], res.convergence_order)
    } else {
        res.convergence_order is None
    }
}

/// `t` is the history of a solve from `x0` that failed with `e`: a run,
/// then a failed step from its last iterate.
pub open spec fn is_failure_trace<T: Scalar, P: Problem<T>>(
    p: P,
    cfg: Config<T>,
    accel: bool,
    x0: Vec<T>,
    t: Seq<Vec<T>>,
    e: Error,
) -> bool {
    &&& is_run(p, cfg, accel, t)
    &&& t[0] == x0
    &&& t.len() <= step_budget(cfg.max_iter as nat)
    &&& is_failed_step(p, cfg, accel, t.last(), (t.len() - 1) as nat, e)
}

/// The decision after the step that produced the iterate of index `i`.
pub fn decide(small: bool, stalled: bool, i: usize, max_iter: usize) -> (v: Option<
    TerminationReason,
>)
    ensures
        v == verdict(small, stalled, i as nat, max_iter as nat),
{
    if small || stalled {
        Some(TerminationReason::Converged)
    } else if max_iter == 0 || i >= max_iter - 1 {
        Some(TerminationReason::MaxedOut)
    } else {
        None
    }
}

/// The next iterate after `x`: the accelerated point where acceleration is
/// in use and not degenerate, and else `G(x)`.
///
/// Fails only with acceleration in use, with `DimensionMismatch`, where
/// the acceleration does.
pub fn next_iterate<T: Scalar, P: Problem<T>>(
    problem: &P,
    x: &Vec<T>,
    use_acceleration: bool,
    singular_tol: T,
) -> (r: Result<Vec<T>, Error>)
    ensures
        is_next_iterate(*problem, use_acceleration, singular_tol, *x, r),
        r matches Err(e) ==> use_acceleration && e == Error::DimensionMismatch,
{
    if use_acceleration {
        let acc: Result<Vec<T>, Error> = accelerate(problem, x, singular_tol);
        match acc {
            Ok(y) => Ok(y),
            Err(Error::AccelerationDegenerate) => Ok(problem.g(x)),
            Err(e) => Err(e),
        }
    } else {
        Ok(problem.g(x))
    }
}

/// The measured residual norm at `x`: the norm of `F(x)`.
///
/// Fails with `NonFiniteIterate` when a component of `F(x)` is not finite.
pub fn residual_norm<T: Scalar, P: Problem<T>>(problem: &P, x: &Vec<T>) -> (r: Result<T, Error>)
    ensures
        is_measured_residual(*problem, *x, r),
        r matches Err(e) ==> e == Error::NonFiniteIterate,
{
    let fx: Vec<T> = problem.f(x);
    let finite: bool = all_finite(&fx);
    if !finite {
        return Err(Error::NonFiniteIterate);
    }
    Ok(norm2(&fx))
}

/// The assessment of the new iterate `next` of index `i`, which follows
/// `previous`: its residual norm, and the verdict of the three stop tests.
///
/// Fails with `DimensionMismatch` exactly when the two iterates differ in
/// dimension, and else with `NonFiniteIterate` when a component of `next`
/// or of its residual is not finite.
pub fn assess<T: Scalar, P: Problem<T>>(
    problem: &P,
    config: &Config<T>,
    previous: &Vec<T>,
    next: &Vec<T>,
    i: usize,
) -> (r: Result<Assessment<T>, Error>)
    ensures
        is_assessment(*problem, *config, *previous, *next, i as nat, r),
        r == Err::<Assessment<T>, Error>(Error::DimensionMismatch) <==> next.len()
            != previous.len(),
        r matches Err(e) ==> e == Error::DimensionMismatch || e == Error::NonFiniteIterate,
{
    if next.len() != previous.len() {
        return Err(Error::DimensionMismatch);
    }
    let finite: bool = all_finite(next);
    if !finite {
        return Err(Error::NonFiniteIterate);
    }
    let r: T = residual_norm(problem, next)?;
    let small: bool = r.lt(config.eps);
    let dist: T = distance(next, previous)?;
    let stalled: bool = dist.lt(config.eps);
    assert(is_stop_test(previous@, next@, r, config.eps, small, stalled));
    let a = Assessment { residual_norm: r, verdict: decide(small, stalled, i, config.max_iter) };
    Ok(a)
}

/// The order estimate `ln(r2 / r1) / ln(r1 / r0)` from the residual norms
/// of the last three iterates, newest first; none where it is not finite.
pub fn order_estimate<T: Scalar>(r2: T, r1: T, r0: T) -> (r: Option<T>)
    ensures
        is_order_estimate(r2, r1, r0, r),
{
    let q1: T = r2.div(r1);
    let q0: T = r1.div(r0);
    let num: T = q1.ln();
    let den: T = q0.ln();
    let order: T = num.div(den);
    let finite: bool = order.is_finite();
    if finite {
        Some(order)
    } else {
        None
    }
}

/// The empirical order of convergence at the iterate `x2`, which follows
/// `x1`, which follows `x0`; none where a residual cannot be measured or
/// the estimate is not finite.
pub fn convergence_order<T: Scalar, P: Problem<T>>(
    problem: &P,
    x2: &Vec<T>,
    x1: &Vec<T>,
    x0: &Vec<T>,
) -> (r: Option<T>)
    ensures
        is_convergence_order(*problem, *x2, *x1, *x0, r),
{
    let m2: Result<T, Error> = residual_norm(problem, x2);
    let m1: Result<T, Error> = residual_norm(problem, x1);
    let m0: Result<T, Error> = residual_norm(problem, x0);
    match (m2, m1, m0) {
        (Ok(r2), Ok(r1), Ok(r0)) => order_estimate(r2, r1, r0),
        _ => None,
    }
}

/// The empirical order of convergence at the newest iterate of `history`,
/// from its last three iterates; none where it holds fewer than three.
fn latest_order<T: Scalar, P: Problem<T>>(problem: &P, history: &History<T>) -> (r: Option<T>)
    requires
        history.wf(),
    ensures
        ({
            let n = history@.len() - 1;
            if n >= 2 {
                is_convergence_order(*problem, history@[n], history@[n - 1], history@[n - 2], r)
            } else {
                r is None
            }
        }),
{
    let n: usize = history.len() - 1;
    if n < 2 {
        return None;
    }
    match (history.get(n), history.get(n - 1), history.get(n - 2)) {
        (Some(x2), Some(x1), Some(x0)) => convergence_order(problem, x2, x1, x0),
        _ => None,
    }
}

/// The number of steps after which the iteration cap is reached.
fn budget(max_iter: usize) -> (b: usize)
    ensures
        b == step_budget(max_iter as nat),
{
    if max_iter <= 2 {
        1
    } else {
        max_iter - 1
    }
}

/// Solves `F(X) = 0` from the starting point `x0`, by iterating `G`, or
/// the acceleration of `G` where `use_acceleration` is set, and hands out
/// the history of the iterates with the result.
///
/// Each step appends one iterate to the history. After each step the new
/// iterate is assessed, and the solve stops with `Converged` where its
/// residual norm or its distance from the iterate before is below
/// `config.eps`, and else with `MaxedOut` where its index has reached
/// `config.max_iter - 1`. A degenerate acceleration is replaced by a plain
/// step for that round. At least one step is taken, whatever the cap.
///
/// Fails with `DimensionMismatch` when an iterate differs in dimension
/// from the one before, or acceleration is asked for in a dimension other
/// than 2, and with `NonFiniteIterate` when a component of an iterate or
/// of its residual is not finite.
pub fn solve_with_history<T: Scalar, P: Problem<T>>(
    problem: &P,
    x0: Vec<T>,
    use_acceleration: bool,
    config: &Config<T>,
) -> (r: Result<(SolveResult<T>, History<T>), Error>)
    ensures
        match r {
            Ok((res, history)) => {
                &&& history.wf()
                &&& history.limit() == step_budget(config.max_iter as nat)
                &&& is_solution_trace(*problem, *config, use_acceleration, x0, history@, res)
                &&& res.iteration_count <= step_budget(config.max_iter as nat)
                &&& res.termination_reason == TerminationReason::MaxedOut
                    ==> res.iteration_count == step_budget(config.max_iter as nat)
                &&& forall|k: int|
                    0 <= k < history@.len() ==> (#[trigger] history@[k]).len() == x0.len()
            },
            Err(e) => {
                &&& e == Error::DimensionMismatch || e == Error::NonFiniteIterate
                &&& exists|t: Seq<Vec<T>>| #[trigger]
                    is_failure_trace(*problem, *config, use_acceleration, x0, t, e)
            },
        },
{
    let limit: usize = budget(config.max_iter);
    let mut history: History<T> = History::new(x0, limit);
    let mut i: usize = 0;
    loop
        invariant
            limit == step_budget(config.max_iter as nat),
            history.wf(),
            history.limit() == limit,
            history@.len() == i + 1,
            history@[0] == x0,
            i < limit,
            forall|k: int| 0 <= k <= i ==> (#[trigger] history@[k]).len() == x0.len(),
            is_run(*problem, *config, use_acceleration, history@),
        decreases limit - i,
    {
        let ghost before: Seq<Vec<T>> = history@;
        let x: &Vec<T> = history.latest();
        let y: Vec<T> = match next_iterate(problem, x, use_acceleration, config.singular_tol) {
            Ok(y) => y,
            Err(e) => {
                assert(is_failure_trace(*problem, *config, use_acceleration, x0, before, e));
                return Err(e);
            },
        };
        let a: Assessment<T> = match assess(problem, config, x, &y, i + 1) {
            Ok(a) => a,
            Err(e) => {
                assert(is_failure_trace(*problem, *config, use_acceleration, x0, before, e));
                return Err(e);
            },
        };
        assert(is_step(*problem, *config, use_acceleration, before[i as int], i as nat, y, a));
        history.push(y);
        i += 1;
        match a.verdict {
            Some(termination_reason) => {
                let convergence_order: Option<T> = latest_order(problem, &history);
                let res = SolveResult {
                    final_iterate: duplicate(history.latest()),
                    final_residual_norm: a.residual_norm,
                    iteration_count: i,
                    convergence_order,
                    termination_reason,
                };
                return Ok((res, history));
            },
            None => {
                assert forall|k: int| 0 <= k < history@.len() - 1 implies is_continuing_step(
                    *problem,
                    *config,
                    use_acceleration,
                    #[trigger] history@[k],
                    k as nat,
                    history@[k + 1],
                ) by {}
            },
        }
    }
}

/// Solves `F(X) = 0` from the starting point `x0`, by iterating `G`, or
/// the acceleration of `G` where `use_acceleration` is set.
///
/// The solve is that of [`solve_with_history`]; the history is dropped.
pub fn solve<T: Scalar, P: Problem<T>>(
    problem: &P,
    x0: Vec<T>,
    use_acceleration: bool,
    config: &Config<T>,
) -> (r: Result<SolveResult<T>, Error>)
    ensures
        match r {
            Ok(res) => {
                &&& 1 <= res.iteration_count <= step_budget(config.max_iter as nat)
                &&& res.final_iterate.len() == x0.len()
                &&& res.termination_reason == TerminationReason::MaxedOut
                    ==> res.iteration_count == step_budget(config.max_iter as nat)
                &&& res.convergence_order is Some ==> res.iteration_count >= 2
                &&& exists|t: Seq<Vec<T>>| #[trigger]
                    is_solution_trace(*problem, *config, use_acceleration, x0, t, res)
            },
            Err(e) => {
                &&& e == Error::DimensionMismatch || e == Error::NonFiniteIterate
                &&& exists|t: Seq<Vec<T>>| #[trigger]
                    is_failure_trace(*problem, *config, use_acceleration, x0, t, e)
            },
        },
{
    match solve_with_history(problem, x0, use_acceleration, config) {
        Ok((res, _)) => Ok(res),
        Err(e) => Err(e),
    }
}

} // verus!
