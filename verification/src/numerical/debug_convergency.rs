use vstd::prelude::*;

use crate::float::FloatType;
use crate::numerical::Convergency;

verus! {

/// Convergency provider for debugging: it works like the simple one but
/// records the iteration counter of the last search, so that a caller can
/// inspect how many steps the search took.
pub struct DebugConvergency<F: FloatType> {
    /// Precision for both X and Y axes
    eps: F,
    /// Maximum number of iterations
    max_iter: usize,
    /// Last iteration
    iter: usize,
}

impl<F: FloatType> DebugConvergency<F> {
    /// The precision this convergency was made with.
    pub closed spec fn spec_eps(self) -> F {
        self.eps
    }

    /// The iteration limit this convergency was made with.
    pub closed spec fn spec_max_iter(self) -> usize {
        self.max_iter
    }

    /// The iteration counter recorded so far.
    pub closed spec fn spec_iter(self) -> usize {
        self.iter
    }

    pub fn new(eps: F, max_iter: usize) -> (r: DebugConvergency<F>)
        ensures
            r.spec_eps() == eps,
            r.spec_max_iter() == max_iter,
            r.spec_iter() == 0,
    {
        DebugConvergency { eps: eps, max_iter: max_iter, iter: 0 }
    }

    /// Forgets the iteration counter of the previous search.
    pub fn reset(self: &mut DebugConvergency<F>)
        ensures
            final(self).spec_iter() == 0,
            final(self).spec_eps() == old(self).spec_eps(),
            final(self).spec_max_iter() == old(self).spec_max_iter(),
    {
        self.iter = 0;
    }

    /// The iteration counter of the last search.
    pub fn get_iter_count(self: &DebugConvergency<F>) -> (r: usize)
        ensures
            r == self.spec_iter(),
    {
        self.iter
    }
}

impl<F: FloatType> Convergency<F> for DebugConvergency<F> {
    fn is_root_found(&mut self, y: F) -> (r: bool)
        ensures
            r == (y.abs_spec().key() < old(self).spec_eps().abs_spec().key()),
            *final(self) == *old(self),
    {
        y.abs().lt(self.eps.abs())
    }

    fn is_converged(&mut self, x1: F, x2: F) -> (r: bool)
        ensures
            r == (x1.sub_spec(x2).abs_spec().key() < old(self).spec_eps().abs_spec().key()),
            *final(self) == *old(self),
    {
        x1.sub(x2).abs().lt(self.eps.abs())
    }

    /// Updates the internal iteration counter
    fn is_iteration_limit_reached(&mut self, iter: usize) -> (r: bool)
        ensures
            r == (iter >= old(self).spec_max_iter()),
            final(self).spec_iter() == iter,
            final(self).spec_eps() == old(self).spec_eps(),
            final(self).spec_max_iter() == old(self).spec_max_iter(),
    {
        self.iter = iter;
        iter >= self.max_iter
    }
}

} // verus!
