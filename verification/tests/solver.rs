use aitken_steffensen::{
    accelerate, assess, convergence_order, decide, extrapolate, next_iterate, order_estimate,
    residual_norm, solve, solve_with_history, Config, Error, Problem, Scalar, TerminationReason,
    DEFAULT_MAX_ITER,
};
use std::cell::Cell;

#[derive(Clone, Copy, Debug, PartialEq)]
struct Real(f64);

impl Scalar for Real {
    fn zero() -> Self {
        Real(0.0)
    }
    fn one() -> Self {
        Real(1.0)
    }
    fn add(self, rhs: Self) -> Self {
        Real(self.0 + rhs.0)
    }
    fn sub(self, rhs: Self) -> Self {
        Real(self.0 - rhs.0)
    }
    fn mul(self, rhs: Self) -> Self {
        Real(self.0 * rhs.0)
    }
    fn div(self, rhs: Self) -> Self {
        Real(self.0 / rhs.0)
    }
    fn neg(self) -> Self {
        Real(-self.0)
    }
    fn abs(self) -> Self {
        Real(self.0.abs())
    }
    fn sqrt(self) -> Self {
        Real(self.0.sqrt())
    }
    fn ln(self) -> Self {
        Real(self.0.ln())
    }
    fn lt(self, rhs: Self) -> bool {
        self.0 < rhs.0
    }
    fn is_finite(self) -> bool {
        self.0.is_finite()
    }
}

fn vector(xs: &[f64]) -> Vec<Real> {
    xs.iter().map(|x| Real(*x)).collect()
}

fn config(eps: f64, max_iter: usize) -> Config<Real> {
    Config { eps: Real(eps), singular_tol: Real(1e-12), max_iter }
}

/// x = sqrt(y + 1), y = sqrt(x + 1); both coordinates of the fixed point
/// are the golden ratio.
struct Golden;

impl Problem<Real> for Golden {
    fn g(&self, x: &Vec<Real>) -> Vec<Real> {
        vector(&[(x[1].0 + 1.0).sqrt(), (x[0].0 + 1.0).sqrt()])
    }
    fn f(&self, x: &Vec<Real>) -> Vec<Real> {
        vector(&[x[0].0 - x[1].0 * x[1].0 + 1.0, x[0].0 * x[0].0 - x[1].0 - 1.0])
    }
}

/// x -> x / 2 + 1, y -> y / 4 + 3, with the fixed point (2, 4).
struct Affine;

impl Problem<Real> for Affine {
    fn g(&self, x: &Vec<Real>) -> Vec<Real> {
        vector(&[x[0].0 / 2.0 + 1.0, x[1].0 / 4.0 + 3.0])
    }
    fn f(&self, x: &Vec<Real>) -> Vec<Real> {
        vector(&[1.0 - x[0].0 / 2.0, 3.0 - 3.0 * x[1].0 / 4.0])
    }
}

/// Every component moves by one in each step: all first differences are
/// the same, and the second differences vanish.
struct Shift;

impl Problem<Real> for Shift {
    fn g(&self, x: &Vec<Real>) -> Vec<Real> {
        x.iter().map(|v| Real(v.0 + 1.0)).collect()
    }
    fn f(&self, x: &Vec<Real>) -> Vec<Real> {
        x.clone()
    }
}

/// A problem of chosen behaviour: `g` adds `shift` to the first component
/// and appends `grow` components; `f` returns `residual`.
struct Scripted {
    shift: f64,
    grow: usize,
    residual: Vec<f64>,
    g_calls: Cell<usize>,
    f_calls: Cell<usize>,
}

impl Scripted {
    fn new(shift: f64, grow: usize, residual: &[f64]) -> Self {
        Scripted {
            shift,
            grow,
            residual: residual.to_vec(),
            g_calls: Cell::new(0),
            f_calls: Cell::new(0),
        }
    }
}

impl Problem<Real> for Scripted {
    fn g(&self, x: &Vec<Real>) -> Vec<Real> {
        self.g_calls.set(self.g_calls.get() + 1);
        let mut y = x.clone();
        y[0] = Real(y[0].0 + self.shift);
        for _ in 0..self.grow {
            y.push(Real(0.0));
        }
        y
    }
    fn f(&self, _x: &Vec<Real>) -> Vec<Real> {
        self.f_calls.set(self.f_calls.get() + 1);
        vector(&self.residual)
    }
}

const PHI: f64 = 1.618033988749895;

#[test]
fn default_iteration_cap_is_one_hundred() {
    assert_eq!(DEFAULT_MAX_ITER, 100);
}

#[test]
fn decide_converges_on_a_small_residual_or_a_stalled_iterate() {
    assert_eq!(decide(true, false, 1, 100), Some(TerminationReason::Converged));
    assert_eq!(decide(false, true, 1, 100), Some(TerminationReason::Converged));
    assert_eq!(decide(true, true, 50, 100), Some(TerminationReason::Converged));
}

#[test]
fn decide_prefers_converged_when_the_cap_is_reached_too() {
    assert_eq!(decide(true, false, 99, 100), Some(TerminationReason::Converged));
    assert_eq!(decide(false, true, 99, 100), Some(TerminationReason::Converged));
    assert_eq!(decide(true, true, 1, 0), Some(TerminationReason::Converged));
}

#[test]
fn decide_maxes_out_at_the_cap_less_one() {
    assert_eq!(decide(false, false, 98, 100), None);
    assert_eq!(decide(false, false, 99, 100), Some(TerminationReason::MaxedOut));
    assert_eq!(decide(false, false, 100, 100), Some(TerminationReason::MaxedOut));
    assert_eq!(decide(false, false, 1, 3), None);
    assert_eq!(decide(false, false, 2, 3), Some(TerminationReason::MaxedOut));
}

#[test]
fn decide_maxes_out_after_the_first_step_under_a_cap_of_two_or_less() {
    assert_eq!(decide(false, false, 1, 2), Some(TerminationReason::MaxedOut));
    assert_eq!(decide(false, false, 1, 1), Some(TerminationReason::MaxedOut));
    assert_eq!(decide(false, false, 1, 0), Some(TerminationReason::MaxedOut));
    assert_eq!(decide(false, false, 0, 0), Some(TerminationReason::MaxedOut));
    assert_eq!(decide(false, false, usize::MAX, usize::MAX), Some(TerminationReason::MaxedOut));
    assert_eq!(decide(false, false, usize::MAX - 2, usize::MAX), None);
}

#[test]
fn order_estimate_is_the_ratio_of_the_logarithms() {
    let (r2, r1, r0): (f64, f64, f64) = (1e-4, 1e-2, 1e-1);
    let expected = (r2 / r1).ln() / (r1 / r0).ln();
    assert_eq!(order_estimate(Real(r2), Real(r1), Real(r0)), Some(Real(expected)));
    let linear = order_estimate(Real(0.25), Real(0.5), Real(1.0)).unwrap();
    assert!((linear.0 - 1.0).abs() < 1e-12);
    let quadratic = order_estimate(Real(0.0625), Real(0.25), Real(0.5)).unwrap();
    assert!((quadratic.0 - 2.0).abs() < 1e-12);
}

#[test]
fn order_estimate_is_none_where_the_residuals_repeat() {
    assert_eq!(order_estimate(Real(0.5), Real(0.5), Real(0.5)), None);
    assert_eq!(order_estimate(Real(0.25), Real(0.5), Real(0.5)), None);
}

#[test]
fn order_estimate_is_none_where_a_residual_is_zero() {
    assert_eq!(order_estimate(Real(0.0), Real(0.5), Real(1.0)), None);
    assert_eq!(order_estimate(Real(0.0), Real(0.0), Real(0.0)), None);
}

#[test]
fn residual_norm_is_the_norm_of_f() {
    let r = residual_norm(&Golden, &vector(&[1.7320508075688772, 1.4142135623730951]));
    assert_eq!(r, Ok(Real(0.9375735359799059)));
    let r = residual_norm(&Affine, &vector(&[2.0, 4.0]));
    assert_eq!(r, Ok(Real(0.0)));
    let r = residual_norm(&Shift, &vector(&[3.0, 4.0]));
    assert_eq!(r, Ok(Real(5.0)));
}

#[test]
fn residual_norm_fails_on_a_residual_that_is_not_finite() {
    let nan = Scripted::new(1.0, 0, &[0.0, f64::NAN]);
    assert_eq!(residual_norm(&nan, &vector(&[1.0, 2.0])), Err(Error::NonFiniteIterate));
    let inf = Scripted::new(1.0, 0, &[f64::INFINITY, 0.0]);
    assert_eq!(residual_norm(&inf, &vector(&[1.0, 2.0])), Err(Error::NonFiniteIterate));
}

#[test]
fn assess_goes_on_while_no_test_answers_yes() {
    let previous = vector(&[1.0, 2.0]);
    let next = vector(&[1.7320508075688772, 1.4142135623730951]);
    let a = assess(&Golden, &config(1e-6, 100), &previous, &next, 1).unwrap();
    assert_eq!(a.residual_norm, Real(0.9375735359799059));
    assert_eq!(a.verdict, None);
}

#[test]
fn assess_converges_on_a_small_residual() {
    let previous = vector(&[1.0, 2.0]);
    let next = vector(&[PHI, PHI]);
    let a = assess(&Golden, &config(1e-6, 100), &previous, &next, 1).unwrap();
    assert!(a.residual_norm.0 < 1e-6);
    assert_eq!(a.verdict, Some(TerminationReason::Converged));
}

#[test]
fn assess_converges_on_a_stalled_iterate() {
    let stuck = Scripted::new(0.0, 0, &[5.0, 5.0]);
    let previous = vector(&[1.0, 2.0]);
    let next = vector(&[1.0, 2.0 + 1e-9]);
    let a = assess(&stuck, &config(1e-6, 100), &previous, &next, 1).unwrap();
    assert_eq!(a.residual_norm, Real(7.0710678118654755));
    assert_eq!(a.verdict, Some(TerminationReason::Converged));
}

#[test]
fn assess_compares_strictly_with_the_tolerance() {
    let at_eps = Scripted::new(0.0, 0, &[0.0, 0.5]);
    let previous = vector(&[0.0, 0.0]);
    let next = vector(&[3.0, 4.0]);
    let a = assess(&at_eps, &config(0.5, 100), &previous, &next, 1).unwrap();
    assert_eq!(a.residual_norm, Real(0.5));
    assert_eq!(a.verdict, None);
    let a = assess(&at_eps, &config(5.0, 100), &previous, &next, 1).unwrap();
    assert_eq!(a.verdict, Some(TerminationReason::Converged));
    let far = Scripted::new(0.0, 0, &[30.0, 40.0]);
    let a = assess(&far, &config(5.0, 100), &previous, &next, 1).unwrap();
    assert_eq!(a.verdict, None);
}

#[test]
fn assess_maxes_out_at_the_cap_less_one() {
    let previous = vector(&[1.0, 2.0]);
    let next = vector(&[1.7320508075688772, 1.4142135623730951]);
    let a = assess(&Golden, &config(1e-6, 10), &previous, &next, 8).unwrap();
    assert_eq!(a.verdict, None);
    let a = assess(&Golden, &config(1e-6, 10), &previous, &next, 9).unwrap();
    assert_eq!(a.verdict, Some(TerminationReason::MaxedOut));
}

#[test]
fn assess_rejects_an_iterate_of_another_dimension() {
    let previous = vector(&[1.0, 2.0]);
    let next = vector(&[1.0, 2.0, 3.0]);
    let a = assess(&Shift, &config(1e-6, 100), &previous, &next, 1);
    assert_eq!(a.err(), Some(Error::DimensionMismatch));
}

#[test]
fn assess_rejects_an_iterate_that_is_not_finite() {
    let previous = vector(&[1.0, 2.0]);
    let a = assess(&Golden, &config(1e-6, 100), &previous, &vector(&[f64::NAN, 2.0]), 1);
    assert_eq!(a.err(), Some(Error::NonFiniteIterate));
    let a = assess(&Golden, &config(1e-6, 100), &previous, &vector(&[1.0, f64::INFINITY]), 1);
    assert_eq!(a.err(), Some(Error::NonFiniteIterate));
}

#[test]
fn assess_rejects_a_residual_that_is_not_finite() {
    let broken = Scripted::new(1.0, 0, &[f64::NAN, 0.0]);
    let a = assess(&broken, &config(1e-6, 100), &vector(&[1.0, 2.0]), &vector(&[2.0, 2.0]), 1);
    assert_eq!(a.err(), Some(Error::NonFiniteIterate));
}

#[test]
fn extrapolate_finds_the_fixed_point_of_an_affine_map() {
    let a = vector(&[10.0, 0.0]);
    let b = vector(&[6.0, 3.0]);
    let c = vector(&[4.0, 3.75]);
    let d = vector(&[3.0, 3.9375]);
    assert_eq!(extrapolate(&a, &b, &c, &d, Real(1e-12)), Ok(vector(&[2.0, 4.0])));
}

#[test]
fn extrapolate_subtracts_the_correction_from_the_first_point() {
    let a = vector(&[0.0, 0.0]);
    let b = vector(&[4.0, 2.0]);
    let c = vector(&[6.0, 2.0]);
    let d = vector(&[7.0, 3.0]);
    assert_eq!(extrapolate(&a, &b, &c, &d, Real(1e-12)), Ok(vector(&[8.0, 3.0])));
    let a = vector(&[8.0, 4.0]);
    let b = vector(&[4.0, 8.0]);
    let c = vector(&[2.0, 0.0]);
    let d = vector(&[1.0, 4.0]);
    assert_eq!(extrapolate(&a, &b, &c, &d, Real(1e-12)), Ok(vector(&[0.0, 0.8888888888888893])));
}

#[test]
fn extrapolate_is_degenerate_where_the_second_differences_are_singular() {
    let a = vector(&[8.0, 4.0]);
    let b = vector(&[4.0, 2.0]);
    let c = vector(&[2.0, 1.0]);
    let d = vector(&[1.0, 0.5]);
    assert_eq!(extrapolate(&a, &b, &c, &d, Real(1e-12)), Err(Error::AccelerationDegenerate));
    let a = vector(&[0.0, 0.0]);
    let b = vector(&[1.0, 1.0]);
    let c = vector(&[2.0, 2.0]);
    let d = vector(&[3.0, 3.0]);
    assert_eq!(extrapolate(&a, &b, &c, &d, Real(1e-12)), Err(Error::AccelerationDegenerate));
}

#[test]
fn extrapolate_is_degenerate_under_a_coarser_tolerance() {
    let a = vector(&[10.0, 0.0]);
    let b = vector(&[6.0, 3.0]);
    let c = vector(&[4.0, 3.75]);
    let d = vector(&[3.0, 3.9375]);
    assert_eq!(extrapolate(&a, &b, &c, &d, Real(1.125)), Ok(vector(&[2.0, 4.0])));
    assert_eq!(extrapolate(&a, &b, &c, &d, Real(1.126)), Err(Error::AccelerationDegenerate));
}

#[test]
fn extrapolate_rejects_points_that_are_not_of_dimension_two() {
    let two = vector(&[1.0, 2.0]);
    let three = vector(&[1.0, 2.0, 3.0]);
    let one = vector(&[1.0]);
    let tol = Real(1e-12);
    assert_eq!(extrapolate(&three, &three, &three, &three, tol), Err(Error::DimensionMismatch));
    assert_eq!(extrapolate(&one, &one, &one, &one, tol), Err(Error::DimensionMismatch));
    assert_eq!(extrapolate(&two, &two, &three, &two, tol), Err(Error::DimensionMismatch));
    assert_eq!(extrapolate(&two, &two, &two, &one, tol), Err(Error::DimensionMismatch));
}

#[test]
fn accelerate_extrapolates_from_three_applications_of_g() {
    let x = accelerate(&Golden, &vector(&[1.0, 2.0]), Real(1e-12));
    assert_eq!(x, Ok(vector(&[1.619263896908886, 1.620076119648211])));
    let x = accelerate(&Affine, &vector(&[10.0, 0.0]), Real(1e-12));
    assert_eq!(x, Ok(vector(&[2.0, 4.0])));
}

#[test]
fn accelerate_evaluates_g_three_times() {
    let p = Scripted::new(1.0, 0, &[1.0, 1.0]);
    let _ = accelerate(&p, &vector(&[0.0, 0.0]), Real(1e-12));
    assert_eq!(p.g_calls.get(), 3);
    assert_eq!(p.f_calls.get(), 0);
}

#[test]
fn accelerate_is_degenerate_on_constant_differences() {
    let x = accelerate(&Shift, &vector(&[0.0, 0.0]), Real(1e-12));
    assert_eq!(x, Err(Error::AccelerationDegenerate));
}

#[test]
fn accelerate_rejects_a_dimension_other_than_two() {
    let x = accelerate(&Shift, &vector(&[0.0, 0.0, 0.0]), Real(1e-12));
    assert_eq!(x, Err(Error::DimensionMismatch));
}

#[test]
fn next_iterate_without_acceleration_is_g() {
    let y = next_iterate(&Golden, &vector(&[1.0, 2.0]), false, Real(1e-12));
    assert_eq!(y, Ok(vector(&[1.7320508075688772, 1.4142135623730951])));
    let y = next_iterate(&Shift, &vector(&[1.0, 2.0, 3.0]), false, Real(1e-12));
    assert_eq!(y, Ok(vector(&[2.0, 3.0, 4.0])));
}

#[test]
fn next_iterate_with_acceleration_is_the_accelerated_point() {
    let y = next_iterate(&Golden, &vector(&[1.0, 2.0]), true, Real(1e-12));
    assert_eq!(y, Ok(vector(&[1.619263896908886, 1.620076119648211])));
}

#[test]
fn next_iterate_falls_back_to_g_on_a_degenerate_acceleration() {
    let y = next_iterate(&Shift, &vector(&[0.0, 0.0]), true, Real(1e-12));
    assert_eq!(y, Ok(vector(&[1.0, 1.0])));
    let p = Scripted::new(1.0, 0, &[1.0, 1.0]);
    let y = next_iterate(&p, &vector(&[0.0, 0.0]), true, Real(1e-12));
    assert_eq!(y, Ok(vector(&[1.0, 0.0])));
    assert_eq!(p.g_calls.get(), 4);
}

#[test]
fn next_iterate_with_acceleration_rejects_a_dimension_other_than_two() {
    let y = next_iterate(&Shift, &vector(&[0.0, 0.0, 0.0]), true, Real(1e-12));
    assert_eq!(y, Err(Error::DimensionMismatch));
}

#[test]
fn convergence_order_uses_the_residuals_of_the_three_iterates() {
    let x0 = vector(&[10.0, 0.0]);
    let x1 = vector(&[6.0, 3.0]);
    let x2 = vector(&[4.0, 3.75]);
    let r = |x: &Vec<Real>| residual_norm(&Affine, x).unwrap().0;
    let expected = (r(&x2) / r(&x1)).ln() / (r(&x1) / r(&x0)).ln();
    assert_eq!(convergence_order(&Affine, &x2, &x1, &x0), Some(Real(expected)));
}

#[test]
fn convergence_order_is_none_where_a_residual_cannot_be_measured() {
    let broken = Scripted::new(1.0, 0, &[f64::NAN, 0.0]);
    let x = vector(&[1.0, 2.0]);
    assert_eq!(convergence_order(&broken, &x, &x, &x), None);
}

#[test]
fn plain_iteration_converges_to_the_golden_ratio() {
    let res = solve(&Golden, vector(&[1.0, 2.0]), false, &config(1e-6, 100)).unwrap();
    assert_eq!(res.termination_reason, TerminationReason::Converged);
    assert_eq!(res.iteration_count, 13);
    assert_eq!(res.final_iterate, vector(&[1.6180340738680992, 1.618033829661219]));
    assert_eq!(res.final_residual_norm, Real(7.407768409356486e-07));
    assert!((res.final_iterate[0].0 - PHI).abs() < 1e-6);
    assert!((res.final_iterate[1].0 - PHI).abs() < 1e-6);
}

#[test]
fn accelerated_iteration_converges_to_the_golden_ratio() {
    let res = solve(&Golden, vector(&[1.0, 2.0]), true, &config(1e-6, 100)).unwrap();
    assert_eq!(res.termination_reason, TerminationReason::Converged);
    assert_eq!(res.iteration_count, 2);
    assert_eq!(res.final_iterate, vector(&[1.618034003187402, 1.618033997471344]));
    assert_eq!(res.final_residual_norm, Real(4.04226746692701e-08));
    assert!((res.final_iterate[0].0 - PHI).abs() < 1e-6);
    assert!((res.final_iterate[1].0 - PHI).abs() < 1e-6);
}

#[test]
fn accelerated_iteration_needs_fewer_iterations_than_plain() {
    for eps in [1e-3, 1e-6, 1e-9] {
        let plain = solve(&Golden, vector(&[1.0, 2.0]), false, &config(eps, 100)).unwrap();
        let fast = solve(&Golden, vector(&[1.0, 2.0]), true, &config(eps, 100)).unwrap();
        assert!(plain.final_residual_norm.0 < eps);
        assert!(fast.final_residual_norm.0 < eps);
        assert!(fast.iteration_count < plain.iteration_count);
    }
    let plain = solve(&Affine, vector(&[10.0, 0.0]), false, &config(1e-6, 100)).unwrap();
    let fast = solve(&Affine, vector(&[10.0, 0.0]), true, &config(1e-6, 100)).unwrap();
    assert_eq!(plain.iteration_count, 22);
    assert_eq!(fast.iteration_count, 1);
}

#[test]
fn both_modes_reach_the_fixed_point_of_the_affine_map() {
    let plain = solve(&Affine, vector(&[10.0, 0.0]), false, &config(1e-6, 100)).unwrap();
    assert_eq!(plain.final_iterate, vector(&[2.000001907348633, 3.9999999999997726]));
    assert_eq!(plain.final_residual_norm, Real(9.536743164062652e-07));
    let fast = solve(&Affine, vector(&[10.0, 0.0]), true, &config(1e-6, 100)).unwrap();
    assert_eq!(fast.final_iterate, vector(&[2.0, 4.0]));
    assert_eq!(fast.final_residual_norm, Real(0.0));
    assert_eq!(fast.termination_reason, TerminationReason::Converged);
}

#[test]
fn plain_iteration_converges_linearly() {
    let res = solve(&Golden, vector(&[1.0, 2.0]), false, &config(1e-6, 100)).unwrap();
    let order = res.convergence_order.unwrap().0;
    assert!((order - 1.000000142099859).abs() < 1e-9);
    let res = solve(&Affine, vector(&[10.0, 0.0]), false, &config(1e-6, 100)).unwrap();
    let order = res.convergence_order.unwrap().0;
    assert!((order - 1.0).abs() < 1e-6);
}

#[test]
fn accelerated_iteration_converges_quadratically() {
    let res = solve(&Golden, vector(&[1.0, 2.0]), true, &config(1e-6, 100)).unwrap();
    let order = res.convergence_order.unwrap().0;
    assert!((order - 1.9119572860936673).abs() < 1e-9);
    assert!((order - 2.0).abs() < 0.25);
}

#[test]
fn order_is_not_available_before_the_third_iterate() {
    let res = solve(&Affine, vector(&[10.0, 0.0]), true, &config(1e-6, 100)).unwrap();
    assert_eq!(res.iteration_count, 1);
    assert_eq!(res.convergence_order, None);
    let res = solve(&Shift, vector(&[0.0, 0.0]), false, &config(1e-6, 2)).unwrap();
    assert_eq!(res.iteration_count, 1);
    assert_eq!(res.convergence_order, None);
}

#[test]
fn order_is_not_available_where_the_residuals_repeat() {
    let p = Scripted::new(1.0, 0, &[3.0, 4.0]);
    let res = solve(&p, vector(&[0.0, 0.0]), false, &config(1e-6, 6)).unwrap();
    assert_eq!(res.iteration_count, 5);
    assert_eq!(res.final_residual_norm, Real(5.0));
    assert_eq!(res.convergence_order, None);
}

#[test]
fn solve_maxes_out_at_the_cap_less_one() {
    let res = solve(&Shift, vector(&[0.0, 0.0]), false, &config(1e-6, 5)).unwrap();
    assert_eq!(res.termination_reason, TerminationReason::MaxedOut);
    assert_eq!(res.iteration_count, 4);
    assert_eq!(res.final_iterate, vector(&[4.0, 4.0]));
    assert_eq!(res.final_residual_norm, Real(5.656854249492381));
    let res = solve(&Golden, vector(&[1.0, 2.0]), false, &config(1e-6, 5)).unwrap();
    assert_eq!(res.termination_reason, TerminationReason::MaxedOut);
    assert_eq!(res.iteration_count, 4);
    assert_eq!(res.final_iterate, vector(&[1.6118477541252516, 1.621348198499395]));
    assert_eq!(res.final_residual_norm, Real(0.02879269918346156));
}

#[test]
fn solve_takes_one_step_under_a_cap_of_two_or_less() {
    for cap in [0, 1, 2] {
        let res = solve(&Shift, vector(&[0.0, 0.0]), false, &config(1e-6, cap)).unwrap();
        assert_eq!(res.termination_reason, TerminationReason::MaxedOut);
        assert_eq!(res.iteration_count, 1);
        assert_eq!(res.final_iterate, vector(&[1.0, 1.0]));
        assert_eq!(res.final_residual_norm, Real(1.4142135623730951));
    }
    let res = solve(&Shift, vector(&[0.0, 0.0]), false, &config(1e-6, 3)).unwrap();
    assert_eq!(res.iteration_count, 2);
}

#[test]
fn solve_reports_converged_when_the_cap_is_reached_at_the_same_step() {
    let res = solve(&Golden, vector(&[1.0, 2.0]), false, &config(1e-6, 14)).unwrap();
    assert_eq!(res.iteration_count, 13);
    assert_eq!(res.termination_reason, TerminationReason::Converged);
    let res = solve(&Golden, vector(&[1.0, 2.0]), false, &config(1e-6, 13)).unwrap();
    assert_eq!(res.iteration_count, 12);
    assert_eq!(res.termination_reason, TerminationReason::MaxedOut);
}

#[test]
fn solve_converges_on_a_stalled_iterate() {
    let stuck = Scripted::new(0.0, 0, &[5.0, 5.0]);
    let res = solve(&stuck, vector(&[1.0, 2.0]), false, &config(1e-6, 100)).unwrap();
    assert_eq!(res.termination_reason, TerminationReason::Converged);
    assert_eq!(res.iteration_count, 1);
    assert_eq!(res.final_iterate, vector(&[1.0, 2.0]));
    assert_eq!(res.final_residual_norm, Real(7.0710678118654755));
}

#[test]
fn solve_substitutes_a_plain_step_for_a_degenerate_acceleration() {
    let fast = solve(&Shift, vector(&[0.0, 0.0]), true, &config(1e-6, 5)).unwrap();
    let plain = solve(&Shift, vector(&[0.0, 0.0]), false, &config(1e-6, 5)).unwrap();
    assert_eq!(fast.termination_reason, TerminationReason::MaxedOut);
    assert_eq!(fast.iteration_count, 4);
    assert_eq!(fast.final_iterate, plain.final_iterate);
    assert_eq!(fast.final_residual_norm, plain.final_residual_norm);
    assert_eq!(fast.convergence_order, plain.convergence_order);
}

#[test]
fn solve_goes_on_after_a_degenerate_round() {
    let coarse = Config { eps: Real(1e-6), singular_tol: Real(1e-6), max_iter: 100 };
    let res = solve(&Golden, vector(&[1.0, 2.0]), true, &coarse).unwrap();
    assert_eq!(res.termination_reason, TerminationReason::Converged);
    assert_eq!(res.iteration_count, 9);
    assert_eq!(res.final_iterate, vector(&[1.6180340909985953, 1.6180341585038767]));
    assert_eq!(res.final_residual_norm, Real(4.7523611905210197e-07));
}

#[test]
fn solve_fails_on_an_iterate_that_is_not_finite() {
    let p = Scripted::new(f64::NAN, 0, &[1.0, 1.0]);
    let r = solve(&p, vector(&[0.0, 0.0]), false, &config(1e-6, 100));
    assert_eq!(r.err(), Some(Error::NonFiniteIterate));
    let p = Scripted::new(f64::INFINITY, 0, &[1.0, 1.0]);
    let r = solve(&p, vector(&[0.0, 0.0]), false, &config(1e-6, 100));
    assert_eq!(r.err(), Some(Error::NonFiniteIterate));
    assert_eq!(p.g_calls.get(), 1);
}

#[test]
fn solve_fails_on_a_residual_that_is_not_finite() {
    let p = Scripted::new(1.0, 0, &[1.0, f64::NAN]);
    let r = solve(&p, vector(&[0.0, 0.0]), false, &config(1e-6, 100));
    assert_eq!(r.err(), Some(Error::NonFiniteIterate));
    assert_eq!(p.f_calls.get(), 1);
}

#[test]
fn solve_fails_on_an_iterate_of_another_dimension() {
    let p = Scripted::new(1.0, 1, &[1.0, 1.0]);
    let r = solve(&p, vector(&[0.0, 0.0]), false, &config(1e-6, 100));
    assert_eq!(r.err(), Some(Error::DimensionMismatch));
}

#[test]
fn solve_with_acceleration_fails_in_a_dimension_other_than_two() {
    let r = solve(&Shift, vector(&[0.0, 0.0, 0.0]), true, &config(1e-6, 100));
    assert_eq!(r.err(), Some(Error::DimensionMismatch));
    let r = solve(&Shift, vector(&[0.0, 0.0, 0.0]), false, &config(1e-6, 4)).unwrap();
    assert_eq!(r.final_iterate, vector(&[3.0, 3.0, 3.0]));
}

#[test]
fn history_holds_every_iterate_from_the_starting_point_on() {
    let (res, history) =
        solve_with_history(&Golden, vector(&[1.0, 2.0]), false, &config(1e-6, 100)).unwrap();
    assert_eq!(history.len(), res.iteration_count + 1);
    assert_eq!(history.get(0), Some(&vector(&[1.0, 2.0])));
    assert_eq!(history.get(1), Some(&vector(&[1.7320508075688772, 1.4142135623730951])));
    assert_eq!(history.get(2), Some(&vector(&[1.5537739740300374, 1.6528916502810695])));
    assert_eq!(history.get(3), Some(&vector(&[1.6287699807772333, 1.5980531824786175])));
    assert_eq!(history.latest(), &res.final_iterate);
    for k in 1..history.len() {
        let expected = Golden.g(history.get(k - 1).unwrap());
        assert_eq!(history.get(k), Some(&expected));
    }
}

#[test]
fn history_stays_within_the_cap() {
    for cap in [1, 2, 3, 5, 10] {
        let (res, history) =
            solve_with_history(&Shift, vector(&[0.0, 0.0]), false, &config(1e-6, cap))
                .unwrap();
        assert_eq!(history.len(), res.iteration_count + 1);
        assert!(history.len() <= cap + 1);
        assert!(history.is_full());
    }
}

#[test]
fn history_of_an_accelerated_solve_holds_the_accelerated_points() {
    let (res, history) =
        solve_with_history(&Golden, vector(&[1.0, 2.0]), true, &config(1e-6, 100)).unwrap();
    assert_eq!(res.iteration_count, 2);
    assert_eq!(history.len(), 3);
    assert_eq!(history.get(1), Some(&vector(&[1.619263896908886, 1.620076119648211])));
    assert_eq!(history.get(2), Some(&res.final_iterate));
}

#[test]
fn solve_agrees_with_solve_with_history() {
    for accel in [false, true] {
        let a = solve(&Golden, vector(&[1.0, 2.0]), accel, &config(1e-6, 100)).unwrap();
        let (b, _) =
            solve_with_history(&Golden, vector(&[1.0, 2.0]), accel, &config(1e-6, 100)).unwrap();
        assert_eq!(a.final_iterate, b.final_iterate);
        assert_eq!(a.final_residual_norm, b.final_residual_norm);
        assert_eq!(a.iteration_count, b.iteration_count);
        assert_eq!(a.convergence_order, b.convergence_order);
        assert_eq!(a.termination_reason, b.termination_reason);
    }
}

#[test]
fn solving_again_gives_the_same_result() {
    for accel in [false, true] {
        let a = solve(&Golden, vector(&[1.0, 2.0]), accel, &config(1e-9, 100)).unwrap();
        let b = solve(&Golden, vector(&[1.0, 2.0]), accel, &config(1e-9, 100)).unwrap();
        assert_eq!(a.final_iterate, b.final_iterate);
        assert_eq!(a.final_residual_norm, b.final_residual_norm);
        assert_eq!(a.iteration_count, b.iteration_count);
        assert_eq!(a.convergence_order, b.convergence_order);
        assert_eq!(a.termination_reason, b.termination_reason);
    }
}

#[test]
fn a_failing_solve_fails_again_in_the_same_way() {
    let first = solve(&Scripted::new(1.0, 1, &[1.0, 1.0]), vector(&[0.0, 0.0]), false, &config(1e-6, 100));
    let second = solve(&Scripted::new(1.0, 1, &[1.0, 1.0]), vector(&[0.0, 0.0]), false, &config(1e-6, 100));
    assert_eq!(first.err(), Some(Error::DimensionMismatch));
    assert_eq!(second.err(), Some(Error::DimensionMismatch));
}
