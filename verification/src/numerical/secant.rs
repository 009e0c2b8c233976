use vstd::prelude::*;

use crate::float::FloatType;
use crate::numerical::{Convergency, SearchError};

verus! {

/// Find a root of the function f(x) = 0 using the secant method.
///
/// Pro
///
/// + Simple
/// + No need for initial bracketing
/// + No need for derivative function
///
/// Contra
///
/// - Impossible to predict which root will be found when many roots exist
/// - Unstable convergency for non-trivial functions
/// - Cannot continue when two consecutive iterations have the same value
///
/// # Failures
/// ## ZeroDerivative
/// Two consecutive points have the same value. Algorithm cannot continue.
/// ## NoConvergency
/// Algorithm cannot find a root within the given number of iterations.
pub fn find_root_secant<F, Func, C>(first: F, second: F, f: Func, convergency: &mut C) -> (r:
    Result<F, SearchError>) where
    F: FloatType,
    Func: Fn(F) -> F,
    C: Convergency<F>,

    requires
        forall|x: F| call_requires(f, (x,)),
    ensures
        r matches Err(e) ==> e == SearchError::ZeroDerivative || e == SearchError::NoConvergency,
{
    let mut x1 = first;
    let mut y1 = f(x1);
    if convergency.is_root_found(y1) {
        return Ok(x1);
    }
    let mut x2 = second;
    let mut y2 = f(x2);
    if convergency.is_root_found(y2) {
        return Ok(x2);
    }

    let mut iter: usize = 0;
    loop
        invariant
            forall|x: F| call_requires(f, (x,)),
        decreases usize::MAX - iter,
    {
        if convergency.is_root_found(y1.sub(y2)) {
            return Err(SearchError::ZeroDerivative);
        }
        let x = x2.sub(y2.mul(x2.sub(x1)).div(y2.sub(y1)));
        if convergency.is_converged(x, x2) {
            return Ok(x);
        }
        let y = f(x);
        if convergency.is_root_found(y) {
            return Ok(x);
        }

        x1 = x2;
        y1 = y2;
        x2 = x;
        y2 = y;

        if iter == usize::MAX {
            // The iteration counter cannot grow any further.
            return Err(SearchError::NoConvergency);
        }
        iter = iter + 1;
        if convergency.is_iteration_limit_reached(iter) {
            return Err(SearchError::NoConvergency);
        }
    }
}

} // verus!
