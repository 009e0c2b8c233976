use vstd::prelude::*;

use crate::analytical::cubic_depressed::{
    find_roots_cubic_depressed, spec_find_roots_cubic_depressed,
};
use crate::analytical::cubic_normalized::{
    find_roots_cubic_normalized, spec_find_roots_cubic_normalized,
};
use crate::analytical::quadratic::{find_roots_quadratic, spec_find_roots_quadratic};
use crate::analytical::roots::{
    ascending, insert_root, lemma_insert_root_ascending, lemma_insert_root_len,
    lemma_insert_root_strictly_ascending, lemma_strictly_ascending_implies_ascending, Roots,
};
use crate::float::{spec_cbrt, FloatType};

verus! {

/// The roots of the general cubic a3*x^3 + a2*x^2 + a1*x + a0 = 0. A zero
/// leading coefficient routes to the quadratic solver, a zero second
/// coefficient to the depressed solver after normalization, and a unit
/// leading coefficient to the normalized solver. The remaining case goes
/// by the sign of the discriminant: one real root through a real cube
/// root, a double or triple root through closed rational forms, or three
/// real roots computed through the three complex cube roots of the
/// auxiliary quantity, carried out in real arithmetic on the real and
/// imaginary parts.
pub open spec fn spec_find_roots_cubic<F: FloatType>(a3: F, a2: F, a1: F, a0: F) -> Seq<F> {
    if a3.key() == F::zero_spec().key() {
        spec_find_roots_quadratic(a2, a1, a0)
    } else if a2.key() == F::zero_spec().key() {
        spec_find_roots_cubic_depressed(a1.div_spec(a3), a0.div_spec(a3))
    } else if a3.key() == F::one_spec().key() {
        spec_find_roots_cubic_normalized(a2, a1, a0)
    } else {
        let v2 = F::from_i16_spec(2);
        let v3 = F::from_i16_spec(3);
        let v4 = F::from_i16_spec(4);
        let v9 = F::from_i16_spec(9);
        let v18 = F::from_i16_spec(18);
        let v27 = F::from_i16_spec(27);

        let d = v18.mul_spec(a3).mul_spec(a2).mul_spec(a1).mul_spec(a0).sub_spec(
            v4.mul_spec(a2).mul_spec(a2).mul_spec(a2).mul_spec(a0),
        ).add_spec(a2.mul_spec(a2).mul_spec(a1).mul_spec(a1)).sub_spec(
            v4.mul_spec(a3).mul_spec(a1).mul_spec(a1).mul_spec(a1),
        ).sub_spec(v27.mul_spec(a3).mul_spec(a3).mul_spec(a0).mul_spec(a0));
        let d0 = a2.mul_spec(a2).sub_spec(v3.mul_spec(a3).mul_spec(a1));
        let d1 = v2.mul_spec(a2).mul_spec(a2).mul_spec(a2).sub_spec(
            v9.mul_spec(a3).mul_spec(a2).mul_spec(a1),
        ).add_spec(v27.mul_spec(a3).mul_spec(a3).mul_spec(a0));
        if d.key() < F::zero_spec().key() {
            let sqrt = v27.neg_spec().mul_spec(a3).mul_spec(a3).mul_spec(d).sqrt_spec();
            let c = spec_cbrt(
                (if d1.key() < F::zero_spec().key() {
                    d1.sub_spec(sqrt)
                } else {
                    d1.add_spec(sqrt)
                }).div_spec(v2),
            );
            let x = a2.add_spec(c).add_spec(d0.div_spec(c)).neg_spec().div_spec(
                v3.mul_spec(a3),
            );
            seq![x]
        } else if d.key() == F::zero_spec().key() {
            if d0.key() == F::zero_spec().key() {
                seq![a2.neg_spec().div_spec(a3.mul_spec(v3))]
            } else {
                insert_root(
                    seq![
                        v9.mul_spec(a3).mul_spec(a0).sub_spec(a2.mul_spec(a1)).div_spec(
                            d0.mul_spec(v2),
                        )
                    ],
                    v4.mul_spec(a3).mul_spec(a2).mul_spec(a1).sub_spec(
                        v9.mul_spec(a3).mul_spec(a3).mul_spec(a0),
                    ).sub_spec(a2.mul_spec(a2).mul_spec(a2)).div_spec(a3.mul_spec(d0)),
                )
            }
        } else {
            let c3_img = v27.mul_spec(a3).mul_spec(a3).mul_spec(d).sqrt_spec().div_spec(v2);
            let c3_real = d1.div_spec(v2);
            let c3_module = c3_img.mul_spec(c3_img).add_spec(
                c3_real.mul_spec(c3_real),
            ).sqrt_spec();
            let c3_phase = v2.mul_spec(
                c3_img.div_spec(c3_real.add_spec(c3_module)).atan_spec(),
            );
            let c_module = spec_cbrt(c3_module);
            let c_phase = c3_phase.div_spec(v3);
            let c_real = c_module.mul_spec(c_phase.cos_spec());
            let c_img = c_module.mul_spec(c_phase.sin_spec());
            let x0_real = a2.add_spec(c_real).add_spec(
                d0.mul_spec(c_real).div_spec(c_module.mul_spec(c_module)),
            ).neg_spec().div_spec(v3.mul_spec(a3));

            let e_real = F::one_spec().neg_spec().div_spec(v2);
            let e_img = v3.sqrt_spec().div_spec(v2);
            let c1_real = c_real.mul_spec(e_real).sub_spec(c_img.mul_spec(e_img));
            let c1_img = c_real.mul_spec(e_img).add_spec(c_img.mul_spec(e_real));
            let x1_real = a2.add_spec(c1_real).add_spec(
                d0.mul_spec(c1_real).div_spec(
                    c1_real.mul_spec(c1_real).add_spec(c1_img.mul_spec(c1_img)),
                ),
            ).neg_spec().div_spec(v3.mul_spec(a3));

            let c2_real = c1_real.mul_spec(e_real).sub_spec(c1_img.mul_spec(e_img));
            let c2_img = c1_real.mul_spec(e_img).add_spec(c1_img.mul_spec(e_real));
            let x2_real = a2.add_spec(c2_real).add_spec(
                d0.mul_spec(c2_real).div_spec(
                    c2_real.mul_spec(c2_real).add_spec(c2_img.mul_spec(c2_img)),
                ),
            ).neg_spec().div_spec(v3.mul_spec(a3));

            insert_root(insert_root(seq![x0_real], x1_real), x2_real)
        }
    }
}

/// Degenerate routing: with a vanishing leading coefficient the cubic
/// solver returns exactly the roots of the quadratic a2*x^2 + a1*x + a0 = 0.
pub proof fn lemma_cubic_degenerates_to_quadratic<F: FloatType>(a3: F, a2: F, a1: F, a0: F)
    requires
        a3.key() == F::zero_spec().key(),
    ensures
        spec_find_roots_cubic(a3, a2, a1, a0) == spec_find_roots_quadratic(a2, a1, a0),
{
}

/// Solves a cubic equation a3*x^3 + a2*x^2 + a1*x + a0 = 0.
///
/// General formula (complex numbers) is implemented for three roots.
///
/// Note that very small values of a3 (comparing to other coefficients)
/// will cause the loss of precision.
///
/// In case more than one roots are present, they are returned in the
/// increasing order.
pub fn find_roots_cubic<F: FloatType>(a3: F, a2: F, a1: F, a0: F) -> (r: Roots<F>)
    ensures
        r@ == spec_find_roots_cubic(a3, a2, a1, a0),
        ascending(r@),
        r@.len() <= 3,
{
    // Handle non-standard cases
    if a3.eq_val(F::zero()) {
        // a3 = 0; a2*x^2+a1*x+a0=0; solve quadratic equation
        find_roots_quadratic(a2, a1, a0)
    } else if a2.eq_val(F::zero()) {
        // a2 = 0; a3*x^3+a1*x+a0=0; solve depressed cubic equation
        find_roots_cubic_depressed(a1.div(a3), a0.div(a3))
    } else if a3.eq_val(F::one()) {
        // solve normalized cubic expression
        find_roots_cubic_normalized(a2, a1, a0)
    } else {
        let v2 = F::from_i16(2);
        let v3 = F::from_i16(3);
        let v4 = F::from_i16(4);
        let v9 = F::from_i16(9);
        let v18 = F::from_i16(18);
        let v27 = F::from_i16(27);

        // standard case
        let d = v18.mul(a3).mul(a2).mul(a1).mul(a0).sub(v4.mul(a2).mul(a2).mul(a2).mul(a0)).add(
            a2.mul(a2).mul(a1).mul(a1),
        ).sub(v4.mul(a3).mul(a1).mul(a1).mul(a1)).sub(v27.mul(a3).mul(a3).mul(a0).mul(a0));
        let d0 = a2.mul(a2).sub(v3.mul(a3).mul(a1));
        let d1 = v2.mul(a2).mul(a2).mul(a2).sub(v9.mul(a3).mul(a2).mul(a1)).add(
            v27.mul(a3).mul(a3).mul(a0),
        );
        if d.lt(F::zero()) {
            // one real root
            let sqrt = v27.neg().mul(a3).mul(a3).mul(d).sqrt();
            let c = (if d1.lt(F::zero()) {
                d1.sub(sqrt)
            } else {
                d1.add(sqrt)
            }).div(v2).cbrt();
            let x = a2.add(c).add(d0.div(c)).neg().div(v3.mul(a3));
            Roots::One([x])
        } else if d.eq_val(F::zero()) {
            // multiple roots
            if d0.eq_val(F::zero()) {
                // triple root
                Roots::One([a2.neg().div(a3.mul(v3))])
            } else {
                // single root and double root
                let x0 = v9.mul(a3).mul(a0).sub(a2.mul(a1)).div(d0.mul(v2));
                let r0 = Roots::One([x0]);
                let x1 = v4.mul(a3).mul(a2).mul(a1).sub(v9.mul(a3).mul(a3).mul(a0)).sub(
                    a2.mul(a2).mul(a2),
                ).div(a3.mul(d0));
                proof {
                    assert(r0@ =~= seq![x0]);
                    lemma_insert_root_len(r0@, x1);
                    lemma_insert_root_ascending(r0@, x1);
                }
                r0.add_new_root(x1)
            }
        } else {
            // three real roots
            let c3_img = v27.mul(a3).mul(a3).mul(d).sqrt().div(v2);
            let c3_real = d1.div(v2);
            let c3_module = c3_img.mul(c3_img).add(c3_real.mul(c3_real)).sqrt();
            let c3_phase = v2.mul(c3_img.div(c3_real.add(c3_module)).atan());
            let c_module = c3_module.cbrt();
            let c_phase = c3_phase.div(v3);
            let c_real = c_module.mul(c_phase.cos());
            let c_img = c_module.mul(c_phase.sin());
            let x0_real = a2.add(c_real).add(d0.mul(c_real).div(c_module.mul(c_module))).neg().div(
                v3.mul(a3),
            );

            let e_real = F::one().neg().div(v2);
            let e_img = v3.sqrt().div(v2);
            let c1_real = c_real.mul(e_real).sub(c_img.mul(e_img));
            let c1_img = c_real.mul(e_img).add(c_img.mul(e_real));
            let x1_real = a2.add(c1_real).add(
                d0.mul(c1_real).div(c1_real.mul(c1_real).add(c1_img.mul(c1_img))),
            ).neg().div(v3.mul(a3));

            let c2_real = c1_real.mul(e_real).sub(c1_img.mul(e_img));
            let c2_img = c1_real.mul(e_img).add(c1_img.mul(e_real));
            let x2_real = a2.add(c2_real).add(
                d0.mul(c2_real).div(c2_real.mul(c2_real).add(c2_img.mul(c2_img))),
            ).neg().div(v3.mul(a3));

            let r0 = Roots::One([x0_real]);
            proof {
                assert(r0@ =~= seq![x0_real]);
                lemma_insert_root_len(r0@, x1_real);
                lemma_insert_root_strictly_ascending(r0@, x1_real);
            }
            let r1 = r0.add_new_root(x1_real);
            proof {
                lemma_insert_root_len(r1@, x2_real);
                lemma_insert_root_strictly_ascending(r1@, x2_real);
                lemma_strictly_ascending_implies_ascending(insert_root(r1@, x2_real));
            }
            r1.add_new_root(x2_real)
        }
    }
}

} // verus!
