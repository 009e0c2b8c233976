use vstd::prelude::*;

use crate::float::FloatType;
use crate::numerical::{Convergency, SearchError};

verus! {

/// Find a root of the function f(x) = 0 using the Newton-Raphson method.
///
/// Pro
///
/// + Simple
/// + Fast convergency for well-behaved functions
/// + No need for initial bracketing
///
/// Contra
///
/// - Needs derivative function
/// - Impossible to predict which root will be found when many roots exist
/// - Unstable convergency for non-trivial functions
/// - Cannot continue when derivative is zero
///
/// # Failures
/// ## ZeroDerivative
/// The stationary point of the function is encountered. Algorithm cannot
/// continue.
/// ## NoConvergency
/// Algorithm cannot find a root within the given number of iterations.
pub fn find_root_newton_raphson<F, Func, Deriv, C>(
    start: F,
    f: Func,
    d: Deriv,
    convergency: &mut C,
) -> (r: Result<F, SearchError>) where
    F: FloatType,
    Func: Fn(F) -> F,
    Deriv: Fn(F) -> F,
    C: Convergency<F>,

    requires
        forall|x: F| call_requires(f, (x,)),
        forall|x: F| call_requires(d, (x,)),
    ensures
        r matches Err(e) ==> e == SearchError::ZeroDerivative || e == SearchError::NoConvergency,
{
    let mut x = start;

    let mut iter: usize = 0;
    loop
        invariant
            forall|q: F| call_requires(f, (q,)),
            forall|q: F| call_requires(d, (q,)),
        decreases usize::MAX - iter,
    {
        let fv = f(x);
        let dv = d(x);
        if convergency.is_root_found(fv) {
            return Ok(x);
        }
        // Derivative is 0; try to correct the bad starting point
        if convergency.is_root_found(dv) {
            if iter == 0 {
                x = x.add(F::one());
                iter = iter + 1;
                continue ;
            } else {
                return Err(SearchError::ZeroDerivative);
            }
        }
        let x1 = x.sub(fv.div(dv));
        if convergency.is_converged(x, x1) {
            return Ok(x1);
        }

        x = x1;
        if iter == usize::MAX {
            // The iteration counter cannot grow any further.
            return Err(SearchError::NoConvergency);
        }
        iter = iter + 1;

        if convergency.is_iteration_limit_reached(iter) {
            return Err(SearchError::NoConvergency);
        }
    }
}

} // verus!
