use vstd::prelude::*;

use crate::float::FloatType;
use crate::numerical::{Convergency, SearchError};

verus! {

/// Arrange two points so that the greatest value is first
fn arrange<F: FloatType>(a: F, ya: F, b: F, yb: F) -> (r: (F, F, F, F))
    ensures
        r == (if ya.abs_spec().key() > yb.abs_spec().key() {
            (a, ya, b, yb)
        } else {
            (b, yb, a, ya)
        }),
{
    if ya.abs().gt(yb.abs()) {
        (a, ya, b, yb)
    } else {
        (b, yb, a, ya)
    }
}

/// Find a root of the function f(x) = 0 using the Brent method.
///
/// Pro
///
/// + Fast
/// + Robust
/// + No need for derivative function
///
/// Contra
///
/// - Complicated
/// - Needs initial bracketing
///
/// # Failures
/// ## NoBracketing
/// Initial values do not bracket the root.
/// ## NoConvergency
/// Algorithm cannot find a root within the given number of iterations.
pub fn find_root_brent<F, Func, C>(a: F, b: F, f: Func, convergency: &mut C) -> (r: Result<
    F,
    SearchError,
>) where
    F: FloatType,
    Func: Fn(F) -> F,
    C: Convergency<F>,

    requires
        forall|x: F| call_requires(f, (x,)),
    ensures
        r matches Err(e) ==> e == SearchError::NoBracketing || e == SearchError::NoConvergency,
{
    let ya0 = f(a);
    let yb0 = f(b);
    let (mut a, mut ya, mut b, mut yb) = arrange(a, ya0, b, yb0);
    if ya.mul(yb).gt(F::zero()) {
        return Err(SearchError::NoBracketing);
    }
    let (mut c, mut yc, mut d) = (a, ya, a);
    let mut flag = true;

    let mut iter: usize = 0;
    loop
        invariant
            forall|x: F| call_requires(f, (x,)),
        decreases usize::MAX - iter,
    {
        if convergency.is_root_found(ya) {
            return Ok(a);
        }
        if convergency.is_root_found(yb) {
            return Ok(b);
        }
        if convergency.is_converged(a, b) {
            return Ok(c);
        }
        let mut s = if !ya.eq_val(yc) && !yb.eq_val(yc) {
            a.mul(yb).mul(yc).div(ya.sub(yb).mul(ya.sub(yc))).add(
                b.mul(ya).mul(yc).div(yb.sub(ya).mul(yb.sub(yc))),
            ).add(c.mul(ya).mul(yb).div(yc.sub(ya).mul(yc.sub(yb))))
        } else {
            b.sub(yb.mul(b.sub(a)).div(yb.sub(ya)))
        };

        let cond1 = s.sub(b).mul(s.sub(F::three().mul(a).add(b).div(F::four()))).gt(F::zero());
        let cond2 = flag && s.sub(b).abs().ge(b.sub(c).abs().div(F::two()));
        let cond3 = !flag && s.sub(b).abs().ge(c.sub(d).abs().div(F::two()));
        let cond4 = flag && convergency.is_converged(b, c);
        let cond5 = !flag && convergency.is_converged(c, d);

        if cond1 || cond2 || cond3 || cond4 || cond5 {
            s = a.add(b).div(F::two());
            flag = true;
        } else {
            flag = false;
        }

        let ys = f(s);
        d = c;
        c = b;
        yc = yb;
        if ya.mul(ys).lt(F::zero()) {
            // Root bracketed between a and s
            let ya1 = f(a);
            let (na, nya, nb, nyb) = arrange(a, ya1, s, ys);
            a = na;
            ya = nya;
            b = nb;
            yb = nyb;
        } else {
            // Root bracketed between s and b
            let yb1 = f(b);
            let (na, nya, nb, nyb) = arrange(s, ys, b, yb1);
            a = na;
            ya = nya;
            b = nb;
            yb = nyb;
        }

        if iter == usize::MAX {
            // The iteration counter cannot grow any further.
            return Err(SearchError::NoConvergency);
        }
        iter = iter + 1;
        if convergency.is_iteration_limit_reached(iter) {
            return Err(SearchError::NoConvergency);
        }
    }
}

} // verus!
