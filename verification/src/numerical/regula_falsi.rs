use vstd::prelude::*;

use crate::float::FloatType;
use crate::numerical::{Convergency, SearchError};

verus! {

/// Illinois modification to the classical method
#[derive(Debug, PartialEq, Eq, Structural)]
enum Edge {
    /// Value is close to X1, reduce the Y1 weight
    EdgeX1,
    /// Value is in the middle of the interval
    NoEdge,
    /// Value is close to X2, reduce the Y2 weight
    EdgeX2,
}

/// Find a root of the function f(x) = 0 using the Illinois modification of
/// the regula falsi method.
///
/// Pro
///
/// + Simple
/// + Robust
/// + No need for derivative function
///
/// Contra
///
/// - Slow
/// - Needs initial bracketing
///
/// # Failures
/// ## NoBracketing
/// Initial values do not bracket the root.
/// ## NoConvergency
/// Algorithm cannot find a root within the given number of iterations.
pub fn find_root_regula_falsi<F, Func, C>(a: F, b: F, f: Func, convergency: &mut C) -> (r: Result<
    F,
    SearchError,
>) where
    F: FloatType,
    Func: Fn(F) -> F,
    C: Convergency<F>,

    requires
        forall|x: F| call_requires(f, (x,)),
    ensures
        r matches Err(e) ==> e == SearchError::NoBracketing || e == SearchError::NoConvergency,
{
    let (mut x1, mut x2) = if a.gt(b) {
        (b, a)
    } else {
        (a, b)
    };
    let mut y1 = f(x1);
    if convergency.is_root_found(y1) {
        return Ok(x1);
    }
    let mut y2 = f(x2);
    if convergency.is_root_found(y2) {
        return Ok(x2);
    }
    if y1.mul(y2).gt(F::zero()) {
        return Err(SearchError::NoBracketing);
    }
    let mut edge = Edge::NoEdge;
    let mut iter: usize = 0;
    loop
        invariant
            forall|x: F| call_requires(f, (x,)),
        decreases usize::MAX - iter,
    {
        let x = x1.mul(y2).sub(x2.mul(y1)).div(y2.sub(y1));
        if convergency.is_converged(x1, x2) {
            return Ok(x);
        }
        let y = f(x);
        if convergency.is_root_found(y) {
            return Ok(x);
        }

        if y.mul(y1).gt(F::zero()) {
            x1 = x;
            y1 = y;
            if edge == Edge::EdgeX1 {
                y2 = y2.div(F::two());
            }
            edge = Edge::EdgeX1;
        } else if y.mul(y2).gt(F::zero()) {
            x2 = x;
            y2 = y;
            if edge == Edge::EdgeX2 {
                y1 = y1.div(F::two());
            }
            edge = Edge::EdgeX2;
        } else {
            return Ok(x);
        }

        if iter == usize::MAX {
            // The iteration counter cannot grow any further.
            return Err(SearchError::NoConvergency);
        }
        iter = iter + 1;
        if convergency.is_iteration_limit_reached(iter) {
            return Err(SearchError::NoConvergency);
        }
    }
}

} // verus!
