use vstd::prelude::*;

use crate::analytical::roots::{
    ascending, insert_root, lemma_insert_root_len, lemma_insert_root_strictly_ascending,
    lemma_strictly_ascending_implies_ascending, strictly_ascending, Roots,
};
use crate::float::{spec_cbrt, FloatType};

verus! {

/// The roots of the normalized cubic x^3 + a2*x^2 + a1*x + a0 = 0 by the
/// classical q-r reformulation: a negative discriminant yields the three
/// trigonometric roots, a non-negative one yields Cardano's real root plus
/// a double root when the two cube-root terms coincide without cancelling.
pub open spec fn spec_find_roots_cubic_normalized<F: FloatType>(a2: F, a1: F, a0: F) -> Seq<F> {
    let v2 = F::from_i16_spec(2);
    let v3 = F::from_i16_spec(3);
    let v9 = F::from_i16_spec(9);
    let v27 = F::from_i16_spec(27);
    let v54 = F::from_i16_spec(54);
    let q = v3.mul_spec(a1).sub_spec(a2.mul_spec(a2)).div_spec(v9);
    let r = v9.mul_spec(a2).mul_spec(a1).sub_spec(v27.mul_spec(a0)).sub_spec(
        v2.mul_spec(a2).mul_spec(a2).mul_spec(a2),
    ).div_spec(v54);
    let q3 = q.mul_spec(q).mul_spec(q);
    let d = q3.add_spec(r.mul_spec(r));
    let a2_div_3 = a2.div_spec(v3);
    if d.key() < F::zero_spec().key() {
        let phi_3 = r.div_spec(q3.neg_spec().sqrt_spec()).acos_spec().div_spec(v3);
        let sqrt_q_2 = v2.mul_spec(q.neg_spec().sqrt_spec());
        insert_root(
            insert_root(
                seq![sqrt_q_2.mul_spec(phi_3.cos_spec()).sub_spec(a2_div_3)],
                sqrt_q_2.mul_spec(
                    phi_3.sub_spec(F::two_third_pi_spec()).cos_spec(),
                ).sub_spec(a2_div_3),
            ),
            sqrt_q_2.mul_spec(phi_3.add_spec(F::two_third_pi_spec()).cos_spec()).sub_spec(
                a2_div_3,
            ),
        )
    } else {
        let sqrt_d = d.sqrt_spec();
        let s = spec_cbrt(r.add_spec(sqrt_d));
        let t = spec_cbrt(r.sub_spec(sqrt_d));
        if s.key() == t.key() {
            if s.add_spec(t).key() == F::zero_spec().key() {
                seq![s.add_spec(t).sub_spec(a2_div_3)]
            } else {
                insert_root(
                    seq![s.add_spec(t).sub_spec(a2_div_3)],
                    s.add_spec(t).neg_spec().div_spec(v2).sub_spec(a2_div_3),
                )
            }
        } else {
            seq![s.add_spec(t).sub_spec(a2_div_3)]
        }
    }
}

/// Solves a normalized cubic equation x^3 + a2*x^2 + a1*x + a0 = 0.
///
/// Trigonometric solution (arccos/cos) is implemented for three roots.
///
/// In case more than one roots are present, they are returned in the
/// increasing order.
pub fn find_roots_cubic_normalized<F: FloatType>(a2: F, a1: F, a0: F) -> (r: Roots<F>)
    ensures
        r@ == spec_find_roots_cubic_normalized(a2, a1, a0),
        strictly_ascending(r@),
        ascending(r@),
        1 <= r@.len() <= 3,
{
    let v2 = F::from_i16(2);
    let v3 = F::from_i16(3);
    let v9 = F::from_i16(9);
    let v27 = F::from_i16(27);
    let v54 = F::from_i16(54);

    let q = v3.mul(a1).sub(a2.mul(a2)).div(v9);
    let r = v9.mul(a2).mul(a1).sub(v27.mul(a0)).sub(v2.mul(a2).mul(a2).mul(a2)).div(v54);
    let q3 = q.mul(q).mul(q);
    let d = q3.add(r.mul(r));
    let a2_div_3 = a2.div(v3);

    if d.lt(F::zero()) {
        let phi_3 = r.div(q3.neg().sqrt()).acos().div(v3);
        let sqrt_q_2 = v2.mul(q.neg().sqrt());

        let x0 = sqrt_q_2.mul(phi_3.cos()).sub(a2_div_3);
        let r0 = Roots::One([x0]);
        let x1 = sqrt_q_2.mul(phi_3.sub(F::two_third_pi()).cos()).sub(a2_div_3);
        proof {
            assert(r0@ =~= seq![x0]);
            lemma_insert_root_len(r0@, x1);
            lemma_insert_root_strictly_ascending(r0@, x1);
        }
        let r1 = r0.add_new_root(x1);
        let x2 = sqrt_q_2.mul(phi_3.add(F::two_third_pi()).cos()).sub(a2_div_3);
        proof {
            lemma_insert_root_len(r1@, x2);
            lemma_insert_root_strictly_ascending(r1@, x2);
            lemma_strictly_ascending_implies_ascending(insert_root(r1@, x2));
        }
        r1.add_new_root(x2)
    } else {
        let sqrt_d = d.sqrt();
        let s = r.add(sqrt_d).cbrt();
        let t = r.sub(sqrt_d).cbrt();

        if s.eq_val(t) {
            if s.add(t).eq_val(F::zero()) {
                Roots::One([s.add(t).sub(a2_div_3)])
            } else {
                let x0 = s.add(t).sub(a2_div_3);
                let r0 = Roots::One([x0]);
                let x1 = s.add(t).neg().div(v2).sub(a2_div_3);
                proof {
                    assert(r0@ =~= seq![x0]);
                    lemma_insert_root_len(r0@, x1);
                    lemma_insert_root_strictly_ascending(r0@, x1);
                    lemma_strictly_ascending_implies_ascending(insert_root(r0@, x1));
                }
                r0.add_new_root(x1)
            }
        } else {
            Roots::One([s.add(t).sub(a2_div_3)])
        }
    }
}

} // verus!
