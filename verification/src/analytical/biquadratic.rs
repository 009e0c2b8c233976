use vstd::prelude::*;

use crate::analytical::quadratic::{find_roots_quadratic, spec_find_roots_quadratic};
use crate::analytical::roots::{
    ascending, insert_root, lemma_insert_root_ascending, lemma_insert_root_len, Roots,
};
use crate::float::FloatType;

verus! {

/// Expands the roots of the quadratic in u = x^2 into roots in x: every
/// positive u contributes -sqrt(u) and sqrt(u), a zero u contributes 0,
/// and a negative u contributes nothing.
pub open spec fn biquad_expand<F: FloatType>(uroots: Seq<F>, acc: Seq<F>) -> Seq<F>
    decreases uroots.len(),
{
    if uroots.len() == 0 {
        acc
    } else {
        let u = uroots[0];
        let acc2 = if F::zero_spec().key() < u.key() {
            insert_root(insert_root(acc, u.sqrt_spec().neg_spec()), u.sqrt_spec())
        } else if u.key() == F::zero_spec().key() {
            insert_root(acc, F::zero_spec())
        } else {
            acc
        };
        biquad_expand(uroots.drop_first(), acc2)
    }
}

/// The roots of the bi-quadratic a4*x^4 + a2*x^2 + a0 = 0: with a4 = 0 the
/// quadratic solver takes over directly; with a0 = 0 the root 0 joins the
/// roots of the quadratic in x^2; otherwise the quadratic in u = x^2 is
/// solved and each of its non-negative roots is expanded into square
/// roots.
pub open spec fn spec_find_roots_biquadratic<F: FloatType>(a4: F, a2: F, a0: F) -> Seq<F> {
    if a4.key() == F::zero_spec().key() {
        spec_find_roots_quadratic(a2, F::zero_spec(), a0)
    } else if a0.key() == F::zero_spec().key() {
        insert_root(spec_find_roots_quadratic(a4, F::zero_spec(), a2), F::zero_spec())
    } else {
        biquad_expand(spec_find_roots_quadratic(a4, a2, a0), Seq::empty())
    }
}

/// Solves a bi-quadratic equation a4*x^4 + a2*x^2 + a0 = 0.
///
/// Returned roots are arranged in the increasing order.
pub fn find_roots_biquadratic<F: FloatType>(a4: F, a2: F, a0: F) -> (r: Roots<F>)
    ensures
        r@ == spec_find_roots_biquadratic(a4, a2, a0),
        ascending(r@),
        r@.len() <= 4,
{
    // Handle non-standard cases
    if a4.eq_val(F::zero()) {
        // a4 = 0; a2*x^2 + a0 = 0; solve quadratic equation
        find_roots_quadratic(a2, F::zero(), a0)
    } else if a0.eq_val(F::zero()) {
        // a0 = 0; a4*x^4 + a2*x^2 = 0; solve quadratic equation and add zero root
        let q = find_roots_quadratic(a4, F::zero(), a2);
        let z = F::zero();
        proof {
            lemma_insert_root_len(q@, z);
            lemma_insert_root_ascending(q@, z);
        }
        q.add_new_root(z)
    } else {
        // solve the corresponding quadratic equation and order roots
        let mut roots = Roots::No([]);
        let q = find_roots_quadratic(a4, a2, a0);
        let n = q.len();
        let mut i: usize = 0;
        proof {
            assert(roots@ =~= Seq::<F>::empty());
            assert(q@.skip(0) =~= q@);
        }
        while i < n
            invariant
                i <= n,
                n == q@.len(),
                n <= 2,
                roots@.len() <= 2 * i,
                ascending(roots@),
                biquad_expand(q@.skip(i as int), roots@) == biquad_expand(q@, Seq::empty()),
            decreases n - i,
        {
            proof {
                assert(q@.skip(i as int).drop_first() =~= q@.skip(i as int + 1));
                assert(q@.skip(i as int)[0] == q@[i as int]);
            }
            let x = q.get(i);
            if x.gt(F::zero()) {
                let sqrt_x = x.sqrt();
                let m_sqrt_x = sqrt_x.neg();
                proof {
                    lemma_insert_root_len(roots@, m_sqrt_x);
                    lemma_insert_root_ascending(roots@, m_sqrt_x);
                    lemma_insert_root_len(insert_root(roots@, m_sqrt_x), sqrt_x);
                    lemma_insert_root_ascending(insert_root(roots@, m_sqrt_x), sqrt_x);
                }
                roots = roots.add_new_root(m_sqrt_x).add_new_root(sqrt_x);
            } else if x.eq_val(F::zero()) {
                let z = F::zero();
                proof {
                    lemma_insert_root_len(roots@, z);
                    lemma_insert_root_ascending(roots@, z);
                }
                roots = roots.add_new_root(z);
            }
            i = i + 1;
        }
        proof {
            assert(q@.skip(n as int) =~= Seq::<F>::empty());
        }
        roots
    }
}

} // verus!
