use vstd::prelude::*;

use crate::analytical::roots::{ascending, strictly_ascending, Roots};
use crate::float::FloatType;

verus! {

/// The roots of a1*x + a0 = 0: empty when only the constant term is
/// non-zero, the single canonical root 0 when every coefficient is zero,
/// and -a0/a1 otherwise.
pub open spec fn spec_find_roots_linear<F: FloatType>(a1: F, a0: F) -> Seq<F> {
    if a1.key() == F::zero_spec().key() {
        if a0.key() == F::zero_spec().key() {
            seq![F::zero_spec()]
        } else {
            Seq::empty()
        }
    } else {
        seq![a0.neg_spec().div_spec(a1)]
    }
}

/// Solves a linear equation a1*x + a0 = 0.
pub fn find_roots_linear<F: FloatType>(a1: F, a0: F) -> (r: Roots<F>)
    ensures
        r@ == spec_find_roots_linear(a1, a0),
        strictly_ascending(r@),
        ascending(r@),
        r@.len() <= 1,
{
    if a1.eq_val(F::zero()) {
        if a0.eq_val(F::zero()) {
            Roots::One([F::zero()])
        } else {
            Roots::No([])
        }
    } else {
        Roots::One([a0.neg().div(a1)])
    }
}

} // verus!
