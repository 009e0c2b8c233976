use vstd::prelude::*;

use crate::analytical::quadratic::find_roots_quadratic;
use crate::float::FloatType;
use crate::numerical::{Convergency, Interval, Sample, SearchError};

verus! {

/// Definition of the quadratic equation a*x^2 + b*x + c
#[derive(Debug, PartialEq)]
pub struct Parabola<F: FloatType> {
    pub a: F,
    pub b: F,
    pub c: F,
}

impl<F: FloatType> Parabola<F> {
    /// The coefficients Lagrange interpolation through the three points
    /// yields.
    pub open spec fn spec_from_three_points(p1: Sample<F>, p2: Sample<F>, p3: Sample<F>) -> Self {
        let denom = p1.x.sub_spec(p2.x).mul_spec(p1.x.sub_spec(p3.x)).mul_spec(
            p2.x.sub_spec(p3.x),
        );
        let a = p3.x.mul_spec(p2.y.sub_spec(p1.y)).add_spec(
            p2.x.mul_spec(p1.y.sub_spec(p3.y)),
        ).add_spec(p1.x.mul_spec(p3.y.sub_spec(p2.y))).div_spec(denom);
        let b = p1.x.mul_spec(p1.x).mul_spec(p2.y.sub_spec(p3.y)).add_spec(
            p3.x.mul_spec(p3.x).mul_spec(p1.y.sub_spec(p2.y)),
        ).add_spec(p2.x.mul_spec(p2.x).mul_spec(p3.y.sub_spec(p1.y))).div_spec(denom);
        let c = p2.x.mul_spec(p2.x).mul_spec(
            p3.x.mul_spec(p1.y).sub_spec(p1.x.mul_spec(p3.y)),
        ).add_spec(
            p2.x.mul_spec(
                p1.x.mul_spec(p1.x).mul_spec(p3.y).sub_spec(p3.x.mul_spec(p3.x).mul_spec(p1.y)),
            ),
        ).add_spec(
            p1.x.mul_spec(p3.x).mul_spec(p3.x.sub_spec(p1.x)).mul_spec(p2.y),
        ).div_spec(denom);
        Parabola { a: a, b: b, c: c }
    }

    /// Restore coefficients of the quadratic equation by 3 points
    pub fn from_three_points(p1: &Sample<F>, p2: &Sample<F>, p3: &Sample<F>) -> (r: Self)
        ensures
            r == Self::spec_from_three_points(*p1, *p2, *p3),
    {
        let denom = p1.x.sub(p2.x).mul(p1.x.sub(p3.x)).mul(p2.x.sub(p3.x));
        let a = p3.x.mul(p2.y.sub(p1.y)).add(p2.x.mul(p1.y.sub(p3.y))).add(
            p1.x.mul(p3.y.sub(p2.y)),
        ).div(denom);
        let b = p1.x.mul(p1.x).mul(p2.y.sub(p3.y)).add(p3.x.mul(p3.x).mul(p1.y.sub(p2.y))).add(
            p2.x.mul(p2.x).mul(p3.y.sub(p1.y)),
        ).div(denom);
        let c = p2.x.mul(p2.x).mul(p3.x.mul(p1.y).sub(p1.x.mul(p3.y))).add(
            p2.x.mul(p1.x.mul(p1.x).mul(p3.y).sub(p3.x.mul(p3.x).mul(p1.y))),
        ).add(p1.x.mul(p3.x).mul(p3.x.sub(p1.x)).mul(p2.y)).div(denom);

        Parabola { a: a, b: b, c: c }
    }
}

/// Find a root of the function f(x) = 0 using inverse quadratic
/// approximation.
///
/// Pro
///
/// + Faster than linear approximation
/// + No need for derivative function
///
/// Contra
///
/// - sqrt is calculated on every step
/// - only works for polynomial-like functions
///
/// # Failures
/// ## NoBracketing
/// Initial values do not bracket the root.
/// ## NoConvergency
/// Algorithm cannot find a root within the given number of iterations.
pub fn find_root_inverse_quadratic<F, Func, C>(a: F, b: F, f: Func, convergency: &mut C) -> (r:
    Result<F, SearchError>) where
    F: FloatType,
    Func: Fn(F) -> F,
    C: Convergency<F>,

    requires
        forall|x: F| call_requires(f, (x,)),
    ensures
        r matches Err(e) ==> e == SearchError::NoBracketing || e == SearchError::NoConvergency,
{
    let (x1, x2) = if a.gt(b) {
        (b, a)
    } else {
        (a, b)
    };
    let y1 = f(x1);
    let sample1 = Sample { x: x1, y: y1 };
    if convergency.is_root_found(sample1.y) {
        return Ok(sample1.x);
    }
    let y2 = f(x2);
    let sample2 = Sample { x: x2, y: y2 };
    if convergency.is_root_found(sample2.y) {
        return Ok(sample2.x);
    }
    if !sample1.is_bracketed_with(&sample2) {
        return Err(SearchError::NoBracketing);
    }
    // Initially, find x3 using the regula falsi method
    let mut interval = Interval { begin: sample1, end: sample2 };
    let mut x3 = interval.middle();
    if interval.is_converged(convergency) {
        return Ok(x3);
    }
    let y3 = f(x3);
    let mut sample3 = Sample { x: x3, y: y3 };
    if convergency.is_root_found(sample3.y) {
        return Ok(sample3.x);
    }
    // Iterate quadratically
    let mut iter: usize = 0;
    loop
        invariant
            forall|x: F| call_requires(f, (x,)),
        decreases usize::MAX - iter,
    {
        let parabola = Parabola::from_three_points(&interval.begin, &interval.end, &sample3);

        // Find the new approximation quadratically; fall back to the
        // linear approximation when no root lies inside the interval
        let qroots = find_roots_quadratic(parabola.a, parabola.b, parabola.c);
        let n = qroots.len();
        let mut inside: Option<F> = None;
        let mut j: usize = 0;
        while j < n
            invariant_except_break
                j <= n,
                n == qroots@.len(),
                inside is None,
            ensures
                inside matches Some(root) ==> qroots@.contains(root),
            decreases n - j,
        {
            let root = qroots.get(j);
            if interval.contains_x(&root) {
                inside = Some(root);
                proof {
                    assert(qroots@.contains(root));
                }
                break ;
            }
            j = j + 1;
        }
        x3 = match inside {
            Some(root) => root,
            None => interval.middle(),
        };

        // calculate the approximated value
        let y3 = f(x3);
        sample3 = Sample { x: x3, y: y3 };

        if convergency.is_root_found(sample3.y) {
            return Ok(sample3.x);
        }
        // Narrow down the search interval while keeping the root bracketed
        if sample3.is_bracketed_with(&interval.begin) {
            interval.end = Sample { x: sample3.x, y: sample3.y };
        } else {
            interval.begin = Sample { x: sample3.x, y: sample3.y };
        }
        if interval.is_converged(convergency) {
            return Ok(interval.middle());
        }
        if iter == usize::MAX {
            // The iteration counter cannot grow any further.
            return Err(SearchError::NoConvergency);
        }
        iter = iter + 1;
        if convergency.is_iteration_limit_reached(iter) {
            return Err(SearchError::NoConvergency);
        }
    }
}

} // verus!
