use vstd::prelude::*;

use crate::float::{spec_twenty_seven, FloatType};

pub mod brent;
pub mod debug_convergency;
pub mod inverse_quadratic;
pub mod newton_raphson;
pub mod polynom;
pub mod regula_falsi;
pub mod secant;
pub mod simple_convergency;

verus! {

/// Pair of the independent variable x and the function value y=F(x)
#[derive(Debug, PartialEq)]
pub struct Sample<F: FloatType> {
    /// Value of the independent variable (X-axis)
    pub x: F,
    /// Value of the dependent variable (Y-axis)
    pub y: F,
}

impl<F: FloatType> Sample<F> {
    /// Whether the two samples enclose a root: the product of the function
    /// values is not above zero.
    pub open spec fn spec_is_bracketed_with(self, other: Self) -> bool {
        self.y.mul_spec(other.y).key() <= F::zero_spec().key()
    }

    /// True when a root lies between the two samples, by continuity: the
    /// function values have opposite signs, or one of them is zero.
    pub fn is_bracketed_with(&self, other: &Self) -> (r: bool)
        ensures
            r == self.spec_is_bracketed_with(*other),
    {
        self.y.mul(other.y).le(F::zero())
    }
}

/// Interval between two samples, including these samples
#[derive(Debug, PartialEq)]
pub struct Interval<F: FloatType> {
    /// First sample
    pub begin: Sample<F>,
    /// Last sample
    pub end: Sample<F>,
}

impl<F: FloatType> Interval<F> {
    /// Whether the two ends of the interval enclose a root.
    pub open spec fn spec_is_bracketed(self) -> bool {
        self.begin.spec_is_bracketed_with(self.end)
    }

    /// The point `middle` returns: the secant point of a bracketed
    /// interval, pushed away from the ends by at least a 1/27 share of the
    /// interval, or the midpoint when the interval is not bracketed or is
    /// flat.
    pub open spec fn spec_middle(self) -> F {
        if self.spec_is_bracketed() && self.begin.y.key() != self.end.y.key() {
            let shift = self.begin.y.neg_spec().mul_spec(
                self.end.x.sub_spec(self.begin.x),
            ).div_spec(self.end.y.sub_spec(self.begin.y));
            let low = self.end.x.sub_spec(self.begin.x).div_spec(spec_twenty_seven::<F>());
            let high = self.end.x.sub_spec(self.begin.x).mul_spec(
                spec_twenty_seven::<F>().sub_spec(F::one_spec()),
            ).div_spec(spec_twenty_seven::<F>());
            let shift1 = if shift.key() < low.key() {
                low
            } else {
                shift
            };
            let shift2 = if shift1.key() > high.key() {
                high
            } else {
                shift1
            };
            self.begin.x.add_spec(shift2)
        } else {
            self.begin.x.add_spec(self.end.x).div_spec(F::two_spec())
        }
    }

    /// True when a root lies inside the interval, by continuity.
    pub fn is_bracketed(&self) -> (r: bool)
        ensures
            r == self.spec_is_bracketed(),
    {
        self.begin.is_bracketed_with(&self.end)
    }

    /// Asks the given convergency whether the interval has become short
    /// enough to stop.
    pub fn is_converged<C: Convergency<F>>(&self, convergency: &mut C) -> bool {
        convergency.is_converged(self.begin.x, self.end.x)
    }

    /// Check if the given X is inside the interval
    pub fn contains_x(&self, x: &F) -> (r: bool)
        ensures
            r == (x.key() <= self.end.x.key() && x.key() >= self.begin.x.key()),
    {
        x.le(self.end.x) && x.ge(self.begin.x)
    }

    /// Returns a point somewhere in middle of the interval for narrowing
    /// this interval down. Rules are as follows:
    /// * If the interval is bracketed, use the secant to find the middle
    ///   point, kept away from either end of the interval.
    /// * If the interval is not bracketed, bisect it.
    pub fn middle(&self) -> (r: F)
        ensures
            r == self.spec_middle(),
    {
        if self.is_bracketed() && !self.begin.y.eq_val(self.end.y) {
            let mut shift = self.begin.y.neg().mul(self.end.x.sub(self.begin.x)).div(
                self.end.y.sub(self.begin.y),
            );
            if shift.lt(self.end.x.sub(self.begin.x).div(F::twenty_seven())) {
                shift = self.end.x.sub(self.begin.x).div(F::twenty_seven());
            }
            if shift.gt(
                self.end.x.sub(self.begin.x).mul(F::twenty_seven().sub(F::one())).div(
                    F::twenty_seven(),
                ),
            ) {
                shift = self.end.x.sub(self.begin.x).mul(F::twenty_seven().sub(F::one())).div(
                    F::twenty_seven(),
                );
            }
            self.begin.x.add(shift)
        } else {
            self.begin.x.add(self.end.x).div(F::two())
        }
    }
}

/// Possible errors
#[derive(Debug, PartialEq)]
pub enum SearchError {
    /// The algorithm could not converge within the given number of iterations
    NoConvergency,
    /// Initial values do not bracket zero
    NoBracketing,
    /// The algorithm cannot continue from the point where the derivative is zero
    ZeroDerivative,
}

impl SearchError {
    /// A short sentence describing the failure.
    pub fn description(&self) -> (r: &'static str)
        ensures
            (*self == SearchError::NoBracketing) ==> (r@
                == "Initial values do not bracket zero"@),
    {
        match self {
            SearchError::NoConvergency => "The algorithm could not converge within the given number of iterations",
            SearchError::NoBracketing => "Initial values do not bracket zero",
            SearchError::ZeroDerivative => "The algorithm cannot continue from the point where the derivative is zero",
        }
    }
}

/// The way to check if the algorithm has finished by either finding a root
/// or reaching the iteration limit.
///
/// The searches are verified to meet their contracts whatever answers an
/// implementation of this trait gives back.
pub trait Convergency<F: FloatType> {
    /// Return true if the given Y value is close enough to the zero
    fn is_root_found(&mut self, y: F) -> bool;

    /// Return true if given x values are close enough to each other
    fn is_converged(&mut self, x1: F, x2: F) -> bool;

    /// Return true if no more iterations desired
    fn is_iteration_limit_reached(&mut self, iter: usize) -> bool;
}

/// A bare scalar can serve as a convergency: it is the absolute precision
/// for both axes, and the iteration limit is fixed at 30.
impl<F: FloatType> Convergency<F> for F {
    /// Return true if the given Y value is close enough to the zero
    fn is_root_found(&mut self, y: F) -> (r: bool)
        ensures
            r == (y.abs_spec().key() < old(self).abs_spec().key()),
            *final(self) == *old(self),
    {
        y.abs().lt(self.abs())
    }

    /// Return true if given x values are close enough to each other
    fn is_converged(&mut self, x1: F, x2: F) -> (r: bool)
        ensures
            r == (x1.sub_spec(x2).abs_spec().key() < old(self).abs_spec().key()),
            *final(self) == *old(self),
    {
        x1.sub(x2).abs().lt(self.abs())
    }

    /// Return true if no more iterations desired
    fn is_iteration_limit_reached(&mut self, iter: usize) -> (r: bool)
        ensures
            r == (iter >= 30),
            *final(self) == *old(self),
    {
        iter >= 30
    }
}

} // verus!
