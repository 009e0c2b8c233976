use vstd::prelude::*;

use crate::analytical::linear::{find_roots_linear, spec_find_roots_linear};
use crate::analytical::roots::{ascending, Roots};
use crate::float::FloatType;

verus! {

/// The roots of a2*x^2 + a1*x + a0 = 0, mirroring the precision-preserving
/// evaluation: with a vanishing leading coefficient the linear solver takes
/// over; otherwise the sign of the discriminant decides between no root,
/// one root and two roots, and each of the two roots is formed with the
/// largest available divisor so that no near-cancelled quantity is divided
/// by.
pub open spec fn spec_find_roots_quadratic<F: FloatType>(a2: F, a1: F, a0: F) -> Seq<F> {
    if a2.key() == F::zero_spec().key() {
        spec_find_roots_linear(a1, a0)
    } else {
        let discriminant = a1.mul_spec(a1).sub_spec(F::four_spec().mul_spec(a2).mul_spec(a0));
        if discriminant.key() < F::zero_spec().key() {
            Seq::empty()
        } else {
            let a2x2 = F::two_spec().mul_spec(a2);
            if discriminant.key() == F::zero_spec().key() {
                seq![a1.neg_spec().div_spec(a2x2)]
            } else {
                let sq = discriminant.sqrt_spec();
                let (same_sign, diff_sign) = if a1.key() < F::zero_spec().key() {
                    (a1.neg_spec().add_spec(sq), a1.neg_spec().sub_spec(sq))
                } else {
                    (a1.neg_spec().sub_spec(sq), a1.neg_spec().add_spec(sq))
                };
                let (x1, x2) = if same_sign.abs_spec().key() > a2x2.abs_spec().key() {
                    let a0x2 = F::two_spec().mul_spec(a0);
                    if diff_sign.abs_spec().key() > a2x2.abs_spec().key() {
                        (a0x2.div_spec(same_sign), a0x2.div_spec(diff_sign))
                    } else {
                        (a0x2.div_spec(same_sign), same_sign.div_spec(a2x2))
                    }
                } else {
                    (diff_sign.div_spec(a2x2), same_sign.div_spec(a2x2))
                };
                if x1.key() < x2.key() {
                    seq![x1, x2]
                } else {
                    seq![x2, x1]
                }
            }
        }
    }
}

/// Degenerate routing: with a vanishing leading coefficient the quadratic
/// solver returns exactly the roots of the linear equation a1*x + a0 = 0.
pub proof fn lemma_quadratic_degenerates_to_linear<F: FloatType>(a2: F, a1: F, a0: F)
    requires
        a2.key() == F::zero_spec().key(),
    ensures
        spec_find_roots_quadratic(a2, a1, a0) == spec_find_roots_linear(a1, a0),
{
}

/// Solves a quadratic equation a2*x^2 + a1*x + a0 = 0.
///
/// In case two roots are present, the first returned root is not above the
/// second one.
///
/// To keep precision, the roots are not both computed as (-a1 +- sq)/2a2:
/// when one of the numerator terms nearly cancels, the root is formed from
/// the product identity x1*x2 = a0/a2 instead, dividing only by the
/// largest-magnitude quantities.
pub fn find_roots_quadratic<F: FloatType>(a2: F, a1: F, a0: F) -> (r: Roots<F>)
    ensures
        r@ == spec_find_roots_quadratic(a2, a1, a0),
        ascending(r@),
        r@.len() <= 2,
{
    // Handle non-standard cases
    if a2.eq_val(F::zero()) {
        // a2 = 0; a1*x+a0=0; solve linear equation
        find_roots_linear(a1, a0)
    } else {
        let discriminant = a1.mul(a1).sub(F::four().mul(a2).mul(a0));
        if discriminant.lt(F::zero()) {
            Roots::No([])
        } else {
            let a2x2 = F::two().mul(a2);
            if discriminant.eq_val(F::zero()) {
                Roots::One([a1.neg().div(a2x2)])
            } else {
                // To improve precision, do not use the smallest divisor.
                let sq = discriminant.sqrt();

                let (same_sign, diff_sign) = if a1.lt(F::zero()) {
                    (a1.neg().add(sq), a1.neg().sub(sq))
                } else {
                    (a1.neg().sub(sq), a1.neg().add(sq))
                };

                let (x1, x2) = if same_sign.abs().gt(a2x2.abs()) {
                    let a0x2 = F::two().mul(a0);
                    if diff_sign.abs().gt(a2x2.abs()) {
                        // 2*a2 is the smallest divisor, do not use it
                        (a0x2.div(same_sign), a0x2.div(diff_sign))
                    } else {
                        // diff_sign is the smallest divisor, do not use it
                        (a0x2.div(same_sign), same_sign.div(a2x2))
                    }
                } else {
                    // 2*a2 is the greatest divisor, use it
                    (diff_sign.div(a2x2), same_sign.div(a2x2))
                };

                // Order roots
                if x1.lt(x2) {
                    Roots::Two([x1, x2])
                } else {
                    Roots::Two([x2, x1])
                }
            }
        }
    }
}

} // verus!
