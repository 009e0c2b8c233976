use vstd::prelude::*;

use crate::float::FloatType;
use crate::numerical::Convergency;

verus! {

/// A very basic convergency rules that must be sufficient for many cases.
/// The absolute precision is the same for x and y axes, no relative
/// precision.
pub struct SimpleConvergency<F: FloatType> {
    /// Precision for both X and Y axes
    pub eps: F,
    /// Maximum number of iterations
    pub max_iter: usize,
}

impl<F: FloatType> Convergency<F> for SimpleConvergency<F> {
    fn is_root_found(&mut self, y: F) -> (r: bool)
        ensures
            r == (y.abs_spec().key() < old(self).eps.abs_spec().key()),
            *final(self) == *old(self),
    {
        y.abs().lt(self.eps.abs())
    }

    fn is_converged(&mut self, x1: F, x2: F) -> (r: bool)
        ensures
            r == (x1.sub_spec(x2).abs_spec().key() < old(self).eps.abs_spec().key()),
            *final(self) == *old(self),
    {
        x1.sub(x2).abs().lt(self.eps.abs())
    }

    fn is_iteration_limit_reached(&mut self, iter: usize) -> (r: bool)
        ensures
            r == (iter >= old(self).max_iter),
            *final(self) == *old(self),
    {
        iter >= self.max_iter
    }
}

} // verus!
