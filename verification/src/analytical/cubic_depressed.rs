use vstd::prelude::*;

use crate::analytical::quadratic::{find_roots_quadratic, spec_find_roots_quadratic};
use crate::analytical::roots::{
    ascending, insert_root, lemma_insert_root_ascending, lemma_insert_root_len, Roots,
};
use crate::float::{spec_cbrt, spec_twenty_seven, FloatType};

verus! {

/// The roots of the depressed cubic x^3 + a1*x + a0 = 0. With a1 = 0 the
/// single root is the cubic root of -a0; with a0 = 0 the root 0 joins the
/// roots of x^2 + a1 = 0; otherwise the sign of the discriminant
/// a0^2/4 + a1^3/27 decides between the trigonometric three-root formula
/// and Cardano's one- or two-root formula.
pub open spec fn spec_find_roots_cubic_depressed<F: FloatType>(a1: F, a0: F) -> Seq<F> {
    if a1.key() == F::zero_spec().key() {
        seq![spec_cbrt(a0).neg_spec()]
    } else if a0.key() == F::zero_spec().key() {
        insert_root(
            spec_find_roots_quadratic(F::one_spec(), F::zero_spec(), a1),
            F::zero_spec(),
        )
    } else {
        let d = a0.mul_spec(a0).div_spec(F::four_spec()).add_spec(
            a1.mul_spec(a1).mul_spec(a1).div_spec(spec_twenty_seven::<F>()),
        );
        if d.key() < F::zero_spec().key() {
            let a = F::four_spec().neg_spec().mul_spec(a1).div_spec(
                F::three_spec(),
            ).sqrt_spec();
            let phi = F::four_spec().neg_spec().mul_spec(a0).div_spec(
                a.mul_spec(a).mul_spec(a),
            ).acos_spec().div_spec(F::three_spec());
            insert_root(
                insert_root(
                    seq![a.mul_spec(phi.cos_spec())],
                    a.mul_spec(phi.add_spec(F::two_third_pi_spec()).cos_spec()),
                ),
                a.mul_spec(phi.sub_spec(F::two_third_pi_spec()).cos_spec()),
            )
        } else {
            let sqrt_d = d.sqrt_spec();
            let a0_div_2 = a0.div_spec(F::two_spec());
            let x1 = spec_cbrt(sqrt_d.sub_spec(a0_div_2)).sub_spec(
                spec_cbrt(sqrt_d.add_spec(a0_div_2)),
            );
            if d.key() == F::zero_spec().key() {
                insert_root(seq![x1], a0_div_2)
            } else {
                seq![x1]
            }
        }
    }
}

/// Solves a depressed cubic equation x^3 + a1*x + a0 = 0.
///
/// In case more than one roots are present, they are returned in the
/// increasing order.
pub fn find_roots_cubic_depressed<F: FloatType>(a1: F, a0: F) -> (r: Roots<F>)
    ensures
        r@ == spec_find_roots_cubic_depressed(a1, a0),
        ascending(r@),
        r@.len() <= 3,
{
    if a1.eq_val(F::zero()) {
        Roots::One([a0.cbrt().neg()])
    } else if a0.eq_val(F::zero()) {
        let q = find_roots_quadratic(F::one(), F::zero(), a1);
        let z = F::zero();
        proof {
            lemma_insert_root_len(q@, z);
            lemma_insert_root_ascending(q@, z);
        }
        q.add_new_root(z)
    } else {
        let d = a0.mul(a0).div(F::four()).add(a1.mul(a1).mul(a1).div(F::twenty_seven()));
        if d.lt(F::zero()) {
            // n*a0^2 + m*a1^3 < 0 => a1 < 0
            let a = F::four().neg().mul(a1).div(F::three()).sqrt();

            let phi = F::four().neg().mul(a0).div(a.mul(a).mul(a)).acos().div(F::three());
            let x0 = a.mul(phi.cos());
            let r0 = Roots::One([x0]);
            let x1 = a.mul(phi.add(F::two_third_pi()).cos());
            proof {
                assert(r0@ =~= seq![x0]);
                lemma_insert_root_len(r0@, x1);
                lemma_insert_root_ascending(r0@, x1);
            }
            let r1 = r0.add_new_root(x1);
            let x2 = a.mul(phi.sub(F::two_third_pi()).cos());
            proof {
                lemma_insert_root_len(r1@, x2);
                lemma_insert_root_ascending(r1@, x2);
            }
            r1.add_new_root(x2)
        } else {
            let sqrt_d = d.sqrt();
            let a0_div_2 = a0.div(F::two());
            let x1 = sqrt_d.sub(a0_div_2).cbrt().sub(sqrt_d.add(a0_div_2).cbrt());
            if d.eq_val(F::zero()) {
                // one real root and one double root
                let r0 = Roots::One([x1]);
                proof {
                    assert(r0@ =~= seq![x1]);
                    lemma_insert_root_len(r0@, a0_div_2);
                    lemma_insert_root_ascending(r0@, a0_div_2);
                }
                r0.add_new_root(a0_div_2)
            } else {
                // one real root
                Roots::One([x1])
            }
        }
    }
}

} // verus!
