use vstd::prelude::*;

use crate::analytical::biquadratic::{find_roots_biquadratic, spec_find_roots_biquadratic};
use crate::analytical::cubic_normalized::{
    find_roots_cubic_normalized, spec_find_roots_cubic_normalized,
};
use crate::analytical::quadratic::{find_roots_quadratic, spec_find_roots_quadratic};
use crate::analytical::roots::{
    ascending, insert_all, insert_root, lemma_insert_root_ascending, lemma_insert_root_len, Roots,
};
use crate::float::{spec_five, FloatType};

verus! {

/// The roots of the depressed quartic x^4 + a2*x^2 + a1*x + a0 = 0 by the
/// resolvent-cubic method: with a1 = 0 the bi-quadratic solver takes over,
/// with a0 = 0 the root 0 joins the roots of the normalized cubic that is
/// left after dividing by x; otherwise the largest root y of the auxiliary
/// cubic y^3 + (5/2)a2*y^2 + (2*a2^2 - a0)*y + (a2^3/2 - a2*a0/2 - a1^2/8)
/// factors the quartic into two real quadratics when a2 + 2y is positive,
/// and there is no real root when it is not.
pub open spec fn spec_find_roots_quartic_depressed<F: FloatType>(a2: F, a1: F, a0: F) -> Seq<F> {
    if a1.key() == F::zero_spec().key() {
        spec_find_roots_biquadratic(F::one_spec(), a2, a0)
    } else if a0.key() == F::zero_spec().key() {
        insert_root(
            spec_find_roots_cubic_normalized(F::zero_spec(), a2, a1),
            F::zero_spec(),
        )
    } else {
        let a2_pow_2 = a2.mul_spec(a2);
        let a1_div_2 = a1.div_spec(F::two_spec());
        let b2 = a2.mul_spec(spec_five::<F>()).div_spec(F::two_spec());
        let b1 = F::two_spec().mul_spec(a2_pow_2).sub_spec(a0);
        let b0 = a2_pow_2.mul_spec(a2).sub_spec(a2.mul_spec(a0)).sub_spec(
            a1_div_2.mul_spec(a1_div_2),
        ).div_spec(F::two_spec());
        let y = spec_find_roots_cubic_normalized(b2, b1, b0).last();
        let a2_plus_2y = a2.add_spec(F::two_spec().mul_spec(y));
        if F::zero_spec().key() < a2_plus_2y.key() {
            let sqrt_a2_plus_2y = a2_plus_2y.sqrt_spec();
            let q0a = a2.add_spec(y).sub_spec(a1_div_2.div_spec(sqrt_a2_plus_2y));
            let q0b = a2.add_spec(y).add_spec(a1_div_2.div_spec(sqrt_a2_plus_2y));
            insert_all(
                spec_find_roots_quadratic(F::one_spec(), sqrt_a2_plus_2y.neg_spec(), q0b),
                spec_find_roots_quadratic(F::one_spec(), sqrt_a2_plus_2y, q0a),
            )
        } else {
            Seq::empty()
        }
    }
}

/// Solves a depressed quartic equation x^4 + a2*x^2 + a1*x + a0 = 0.
///
/// Returned roots are ordered.
pub fn find_roots_quartic_depressed<F: FloatType>(a2: F, a1: F, a0: F) -> (r: Roots<F>)
    ensures
        r@ == spec_find_roots_quartic_depressed(a2, a1, a0),
        ascending(r@),
        r@.len() <= 4,
{
    // Handle non-standard cases
    if a1.eq_val(F::zero()) {
        // a1 = 0; x^4 + a2*x^2 + a0 = 0; solve biquadratic equation
        find_roots_biquadratic(F::one(), a2, a0)
    } else if a0.eq_val(F::zero()) {
        // a0 = 0; x^4 + a2*x^2 + a1*x = 0; reduce to normalized cubic and add zero root
        let c = find_roots_cubic_normalized(F::zero(), a2, a1);
        let z = F::zero();
        proof {
            lemma_insert_root_len(c@, z);
            lemma_insert_root_ascending(c@, z);
        }
        c.add_new_root(z)
    } else {
        // Solve the auxiliary equation y^3 + (5/2)*a2*y^2 + (2*a2^2-a0)*y + (a2^3/2 - a2*a0/2 - a1^2/8) = 0
        let a2_pow_2 = a2.mul(a2);
        let a1_div_2 = a1.div(F::two());
        let b2 = a2.mul(F::five()).div(F::two());
        let b1 = F::two().mul(a2_pow_2).sub(a0);
        let b0 = a2_pow_2.mul(a2).sub(a2.mul(a0)).sub(a1_div_2.mul(a1_div_2)).div(F::two());

        // At least one root always exists. The last root is the maximal one.
        let resolvent = find_roots_cubic_normalized(b2, b1, b0);
        let y = resolvent.get(resolvent.len() - 1);

        let a2_plus_2y = a2.add(F::two().mul(y));
        if a2_plus_2y.gt(F::zero()) {
            let sqrt_a2_plus_2y = a2_plus_2y.sqrt();
            let q0a = a2.add(y).sub(a1_div_2.div(sqrt_a2_plus_2y));
            let q0b = a2.add(y).add(a1_div_2.div(sqrt_a2_plus_2y));

            let mut roots = find_roots_quadratic(F::one(), sqrt_a2_plus_2y, q0a);
            let q = find_roots_quadratic(F::one(), sqrt_a2_plus_2y.neg(), q0b);
            let ghost base = roots@;
            let n = q.len();
            let mut i: usize = 0;
            proof {
                assert(q@.skip(0) =~= q@);
            }
            while i < n
                invariant
                    i <= n,
                    n == q@.len(),
                    n <= 2,
                    base.len() <= 2,
                    roots@.len() <= base.len() + i,
                    ascending(roots@),
                    insert_all(q@.skip(i as int), roots@) == insert_all(q@, base),
                decreases n - i,
            {
                proof {
                    assert(q@.skip(i as int).drop_first() =~= q@.skip(i as int + 1));
                    assert(q@.skip(i as int)[0] == q@[i as int]);
                }
                let x = q.get(i);
                proof {
                    lemma_insert_root_len(roots@, x);
                    lemma_insert_root_ascending(roots@, x);
                }
                roots = roots.add_new_root(x);
                i = i + 1;
            }
            proof {
                assert(q@.skip(n as int) =~= Seq::<F>::empty());
            }
            roots
        } else {
            Roots::No([])
        }
    }
}

} // verus!
