use vstd::prelude::*;

use crate::analytical::biquadratic::{find_roots_biquadratic, spec_find_roots_biquadratic};
use crate::analytical::cubic::{find_roots_cubic, spec_find_roots_cubic};
use crate::analytical::quartic_depressed::{
    find_roots_quartic_depressed, spec_find_roots_quartic_depressed,
};
use crate::analytical::roots::{
    ascending, insert_root, lemma_insert_root_ascending, lemma_insert_root_len, Roots,
};
use crate::float::FloatType;

verus! {

/// What adding every root of `ys`, each shifted down by `shift`, to `acc`
/// yields: the substitution x = y - shift carried back after solving the
/// depressed quartic.
pub open spec fn shift_insert_all<F: FloatType>(ys: Seq<F>, shift: F, acc: Seq<F>) -> Seq<F>
    decreases ys.len(),
{
    if ys.len() == 0 {
        acc
    } else {
        shift_insert_all(ys.drop_first(), shift, insert_root(acc, ys[0].sub_spec(shift)))
    }
}

/// The roots the resolvent-cubic path yields: the quartic is depressed by
/// the substitution x = y - a3/(4*a4), the depressed quartic is solved,
/// and every root is shifted back. `pp`, `rr` and `dd` come pre-computed
/// from the discriminant analysis of the caller.
pub open spec fn spec_find_roots_via_depressed_quartic<F: FloatType>(
    a4: F,
    a3: F,
    a2: F,
    a1: F,
    a0: F,
    pp: F,
    rr: F,
    dd: F,
) -> Seq<F> {
    let v3 = F::from_i16_spec(3);
    let v4 = F::from_i16_spec(4);
    let v8 = F::from_i16_spec(8);
    let v12 = F::from_i16_spec(12);
    let v16 = F::from_i16_spec(16);
    let v256 = F::from_i16_spec(256);
    let a4_pow_2 = a4.mul_spec(a4);
    let a4_pow_3 = a4_pow_2.mul_spec(a4);
    let a4_pow_4 = a4_pow_2.mul_spec(a4_pow_2);
    let p = pp.div_spec(v8.mul_spec(a4_pow_2));
    let q = rr.div_spec(v8.mul_spec(a4_pow_3));
    let r = dd.add_spec(
        v16.mul_spec(a4_pow_2).mul_spec(
            v12.mul_spec(a0).mul_spec(a4).sub_spec(v3.mul_spec(a1).mul_spec(a3)).add_spec(
                a2.mul_spec(a2),
            ),
        ),
    ).div_spec(v256.mul_spec(a4_pow_4));
    let shift = a3.div_spec(v4.mul_spec(a4));
    shift_insert_all(spec_find_roots_quartic_depressed(p, q, r), shift, Seq::empty())
}

/// Solves a quartic equation a4*x^4 + a3*x^3 + a2*x^2 + a1*x + a0 = 0
/// through the depressed quartic. pp, rr, and dd are already computed
/// while searching for multiple roots.
fn find_roots_via_depressed_quartic<F: FloatType>(
    a4: F,
    a3: F,
    a2: F,
    a1: F,
    a0: F,
    pp: F,
    rr: F,
    dd: F,
) -> (roots: Roots<F>)
    ensures
        roots@ == spec_find_roots_via_depressed_quartic(a4, a3, a2, a1, a0, pp, rr, dd),
        ascending(roots@),
        roots@.len() <= 4,
{
    // Depressed quartic: a4*x^4 + a3*x^3 + a2*x^2 + a1*x + a0 = 0 => y^4 + p*y^2 + q*y + r.
    let v3 = F::from_i16(3);
    let v4 = F::from_i16(4);
    let v8 = F::from_i16(8);
    let v12 = F::from_i16(12);
    let v16 = F::from_i16(16);
    let v256 = F::from_i16(256);

    let a4_pow_2 = a4.mul(a4);
    let a4_pow_3 = a4_pow_2.mul(a4);
    let a4_pow_4 = a4_pow_2.mul(a4_pow_2);
    // Re-use pre-calculated values
    let p = pp.div(v8.mul(a4_pow_2));
    let q = rr.div(v8.mul(a4_pow_3));
    let r = dd.add(
        v16.mul(a4_pow_2).mul(v12.mul(a0).mul(a4).sub(v3.mul(a1).mul(a3)).add(a2.mul(a2))),
    ).div(v256.mul(a4_pow_4));

    let ghost shift = a3.div_spec(v4.mul_spec(a4));
    let mut roots = Roots::No([]);
    let dq = find_roots_quartic_depressed(p, q, r);
    let n = dq.len();
    let mut i: usize = 0;
    proof {
        assert(roots@ =~= Seq::<F>::empty());
        assert(dq@.skip(0) =~= dq@);
    }
    while i < n
        invariant
            i <= n,
            n == dq@.len(),
            n <= 4,
            roots@.len() <= i,
            ascending(roots@),
            shift == a3.div_spec(v4.mul_spec(a4)),
            shift_insert_all(dq@.skip(i as int), shift, roots@) == shift_insert_all(
                dq@,
                shift,
                Seq::empty(),
            ),
        decreases n - i,
    {
        proof {
            assert(dq@.skip(i as int).drop_first() =~= dq@.skip(i as int + 1));
            assert(dq@.skip(i as int)[0] == dq@[i as int]);
        }
        let y = dq.get(i);
        let x = y.sub(a3.div(v4.mul(a4)));
        proof {
            lemma_insert_root_len(roots@, x);
            lemma_insert_root_ascending(roots@, x);
        }
        roots = roots.add_new_root(x);
        i = i + 1;
    }
    proof {
        assert(dq@.skip(n as int) =~= Seq::<F>::empty());
    }
    roots
}

/// The roots of the general quartic a4*x^4 + a3*x^3 + a2*x^2 + a1*x + a0
/// = 0. A zero leading coefficient routes to the cubic solver, a zero
/// constant term factors out the root 0, and a vanishing odd part routes
/// to the bi-quadratic solver. Otherwise the discriminant and the
/// auxiliary quantities pp, rr, delta0 and dd classify the multiplicity
/// structure first: a quadruple root, a triple root and the closed forms
/// for them, two complex double roots without any real root, or the
/// general resolvent-cubic path.
pub open spec fn spec_find_roots_quartic<F: FloatType>(a4: F, a3: F, a2: F, a1: F, a0: F) -> Seq<
    F,
> {
    if a4.key() == F::zero_spec().key() {
        spec_find_roots_cubic(a3, a2, a1, a0)
    } else if a0.key() == F::zero_spec().key() {
        insert_root(spec_find_roots_cubic(a4, a3, a2, a1), F::zero_spec())
    } else if a1.key() == F::zero_spec().key() && a3.key() == F::zero_spec().key() {
        spec_find_roots_biquadratic(a4, a2, a0)
    } else {
        let v3 = F::from_i16_spec(3);
        let v4 = F::from_i16_spec(4);
        let v6 = F::from_i16_spec(6);
        let v8 = F::from_i16_spec(8);
        let v9 = F::from_i16_spec(9);
        let v10 = F::from_i16_spec(10);
        let v12 = F::from_i16_spec(12);
        let v16 = F::from_i16_spec(16);
        let v18 = F::from_i16_spec(18);
        let v27 = F::from_i16_spec(27);
        let v64 = F::from_i16_spec(64);
        let v72 = F::from_i16_spec(72);
        let v80 = F::from_i16_spec(80);
        let v128 = F::from_i16_spec(128);
        let v144 = F::from_i16_spec(144);
        let v192 = F::from_i16_spec(192);
        let v256 = F::from_i16_spec(256);
        let discriminant = a4.mul_spec(a0).mul_spec(a4).mul_spec(
            v256.mul_spec(a4).mul_spec(a0).mul_spec(a0).add_spec(
                a1.mul_spec(
                    v144.mul_spec(a2).mul_spec(a1).sub_spec(v192.mul_spec(a3).mul_spec(a0)),
                ),
            ),
        ).add_spec(
            a4.mul_spec(a0).mul_spec(a2).mul_spec(a2).mul_spec(
                v16.mul_spec(a2).mul_spec(a2).sub_spec(
                    v80.mul_spec(a3).mul_spec(a1),
                ).sub_spec(v128.mul_spec(a4).mul_spec(a0)),
            ),
        ).add_spec(
            a3.mul_spec(a3).mul_spec(
                a4.mul_spec(a0).mul_spec(
                    v144.mul_spec(a2).mul_spec(a0).sub_spec(v6.mul_spec(a1).mul_spec(a1)),
                ).add_spec(
                    a0.mul_spec(
                        v18.mul_spec(a3).mul_spec(a2).mul_spec(a1).sub_spec(
                            v27.mul_spec(a3).mul_spec(a3).mul_spec(a0),
                        ).sub_spec(v4.mul_spec(a2).mul_spec(a2).mul_spec(a2)),
                    ).add_spec(
                        a1.mul_spec(a1).mul_spec(
                            a2.mul_spec(a2).sub_spec(v4.mul_spec(a3).mul_spec(a1)),
                        ),
                    ),
                ),
            ),
        ).add_spec(
            a4.mul_spec(a1).mul_spec(a1).mul_spec(
                v18.mul_spec(a3).mul_spec(a2).mul_spec(a1).sub_spec(
                    v27.mul_spec(a4).mul_spec(a1).mul_spec(a1),
                ).sub_spec(v4.mul_spec(a2).mul_spec(a2).mul_spec(a2)),
            ),
        );
        let pp = v8.mul_spec(a4).mul_spec(a2).sub_spec(v3.mul_spec(a3).mul_spec(a3));
        let rr = a3.mul_spec(a3).mul_spec(a3).add_spec(
            v8.mul_spec(a4).mul_spec(a4).mul_spec(a1),
        ).sub_spec(v4.mul_spec(a4).mul_spec(a3).mul_spec(a2));
        let delta0 = a2.mul_spec(a2).sub_spec(v3.mul_spec(a3).mul_spec(a1)).add_spec(
            v12.mul_spec(a4).mul_spec(a0),
        );
        let dd = v64.mul_spec(a4).mul_spec(a4).mul_spec(a4).mul_spec(a0).sub_spec(
            v16.mul_spec(a4).mul_spec(a4).mul_spec(a2).mul_spec(a2),
        ).add_spec(v16.mul_spec(a4).mul_spec(a3).mul_spec(a3).mul_spec(a2)).sub_spec(
            v16.mul_spec(a4).mul_spec(a4).mul_spec(a3).mul_spec(a1),
        ).sub_spec(v3.mul_spec(a3).mul_spec(a3).mul_spec(a3).mul_spec(a3));
        let double_root = discriminant.key() == F::zero_spec().key();
        if double_root {
            let triple_root = double_root && delta0.key() == F::zero_spec().key();
            let quadruple_root = triple_root && dd.key() == F::zero_spec().key();
            let no_roots = dd.key() == F::zero_spec().key() && pp.key() > F::zero_spec().key()
                && rr.key() == F::zero_spec().key();
            if quadruple_root {
                seq![a3.neg_spec().div_spec(v4.mul_spec(a4))]
            } else if triple_root {
                let x0 = v72.neg_spec().mul_spec(a4).mul_spec(a4).mul_spec(a0).add_spec(
                    v10.mul_spec(a4).mul_spec(a2).mul_spec(a2),
                ).sub_spec(v3.mul_spec(a3).mul_spec(a3).mul_spec(a2)).div_spec(
                    v9.mul_spec(
                        v8.mul_spec(a4).mul_spec(a4).mul_spec(a1).sub_spec(
                            v4.mul_spec(a4).mul_spec(a3).mul_spec(a2),
                        ).add_spec(a3.mul_spec(a3).mul_spec(a3)),
                    ),
                );
                insert_root(
                    seq![x0],
                    a3.div_spec(a4).add_spec(v3.mul_spec(x0)).neg_spec(),
                )
            } else if no_roots {
                Seq::empty()
            } else {
                spec_find_roots_via_depressed_quartic(a4, a3, a2, a1, a0, pp, rr, dd)
            }
        } else {
            let no_roots = pp.key() > F::zero_spec().key() || dd.key() > F::zero_spec().key();
            if no_roots {
                Seq::empty()
            } else {
                spec_find_roots_via_depressed_quartic(a4, a3, a2, a1, a0, pp, rr, dd)
            }
        }
    }
}

/// Degenerate routing: with a vanishing leading coefficient the quartic
/// solver returns exactly the roots of the cubic a3*x^3 + a2*x^2 + a1*x +
/// a0 = 0.
pub proof fn lemma_quartic_degenerates_to_cubic<F: FloatType>(a4: F, a3: F, a2: F, a1: F, a0: F)
    requires
        a4.key() == F::zero_spec().key(),
    ensures
        spec_find_roots_quartic(a4, a3, a2, a1, a0) == spec_find_roots_cubic(a3, a2, a1, a0),
{
}

/// Solves a quartic equation a4*x^4 + a3*x^3 + a2*x^2 + a1*x + a0 = 0.
///
/// Returned roots are ordered.
///
/// The discriminant analysis runs before the generic resolvent-cubic
/// path because that path loses accuracy exactly at multiple-root
/// configurations, where it divides by quantities that are zero
/// algebraically but only nearly zero in the working precision; exact
/// multiplicities are therefore routed to closed forms first. A working
/// precision too coarse to make the discriminant vanish on such inputs
/// falls through to the generic path and may miss multiple roots.
pub fn find_roots_quartic<F: FloatType>(a4: F, a3: F, a2: F, a1: F, a0: F) -> (r: Roots<F>)
    ensures
        r@ == spec_find_roots_quartic(a4, a3, a2, a1, a0),
        ascending(r@),
        r@.len() <= 4,
{
    // Handle non-standard cases
    if a4.eq_val(F::zero()) {
        // a4 = 0; a3*x^3 + a2*x^2 + a1*x + a0 = 0; solve cubic equation
        find_roots_cubic(a3, a2, a1, a0)
    } else if a0.eq_val(F::zero()) {
        // a0 = 0; x^4 + a2*x^2 + a1*x = 0; reduce to cubic and arrange results
        let c = find_roots_cubic(a4, a3, a2, a1);
        let z = F::zero();
        proof {
            lemma_insert_root_len(c@, z);
            lemma_insert_root_ascending(c@, z);
        }
        c.add_new_root(z)
    } else if a1.eq_val(F::zero()) && a3.eq_val(F::zero()) {
        // a1 = 0, a3 = 0; a4*x^4 + a2*x^2 + a0 = 0; solve bi-quadratic equation
        find_roots_biquadratic(a4, a2, a0)
    } else {
        let v3 = F::from_i16(3);
        let v4 = F::from_i16(4);
        let v6 = F::from_i16(6);
        let v8 = F::from_i16(8);
        let v9 = F::from_i16(9);
        let v10 = F::from_i16(10);
        let v12 = F::from_i16(12);
        let v16 = F::from_i16(16);
        let v18 = F::from_i16(18);
        let v27 = F::from_i16(27);
        let v64 = F::from_i16(64);
        let v72 = F::from_i16(72);
        let v80 = F::from_i16(80);
        let v128 = F::from_i16(128);
        let v144 = F::from_i16(144);
        let v192 = F::from_i16(192);
        let v256 = F::from_i16(256);
        // Discriminant, partially simplified to keep intermediate values
        // smaller and minimize rounding errors.
        let discriminant = a4.mul(a0).mul(a4).mul(
            v256.mul(a4).mul(a0).mul(a0).add(
                a1.mul(v144.mul(a2).mul(a1).sub(v192.mul(a3).mul(a0))),
            ),
        ).add(
            a4.mul(a0).mul(a2).mul(a2).mul(
                v16.mul(a2).mul(a2).sub(v80.mul(a3).mul(a1)).sub(v128.mul(a4).mul(a0)),
            ),
        ).add(
            a3.mul(a3).mul(
                a4.mul(a0).mul(v144.mul(a2).mul(a0).sub(v6.mul(a1).mul(a1))).add(
                    a0.mul(
                        v18.mul(a3).mul(a2).mul(a1).sub(v27.mul(a3).mul(a3).mul(a0)).sub(
                            v4.mul(a2).mul(a2).mul(a2),
                        ),
                    ).add(a1.mul(a1).mul(a2.mul(a2).sub(v4.mul(a3).mul(a1)))),
                ),
            ),
        ).add(
            a4.mul(a1).mul(a1).mul(
                v18.mul(a3).mul(a2).mul(a1).sub(v27.mul(a4).mul(a1).mul(a1)).sub(
                    v4.mul(a2).mul(a2).mul(a2),
                ),
            ),
        );
        let pp = v8.mul(a4).mul(a2).sub(v3.mul(a3).mul(a3));
        let rr = a3.mul(a3).mul(a3).add(v8.mul(a4).mul(a4).mul(a1)).sub(
            v4.mul(a4).mul(a3).mul(a2),
        );
        let delta0 = a2.mul(a2).sub(v3.mul(a3).mul(a1)).add(v12.mul(a4).mul(a0));
        let dd = v64.mul(a4).mul(a4).mul(a4).mul(a0).sub(v16.mul(a4).mul(a4).mul(a2).mul(a2)).add(
            v16.mul(a4).mul(a3).mul(a3).mul(a2),
        ).sub(v16.mul(a4).mul(a4).mul(a3).mul(a1)).sub(v3.mul(a3).mul(a3).mul(a3).mul(a3));

        // Handle special cases
        let double_root = discriminant.eq_val(F::zero());
        if double_root {
            let triple_root = double_root && delta0.eq_val(F::zero());
            let quadruple_root = triple_root && dd.eq_val(F::zero());
            let no_roots = dd.eq_val(F::zero()) && pp.gt(F::zero()) && rr.eq_val(F::zero());
            if quadruple_root {
                // All four roots are equal
                Roots::One([a3.neg().div(v4.mul(a4))])
            } else if triple_root {
                // At least three roots are equal to each other. x0 is the
                // unique root of the remainder of the Euclidean division
                // of the quartic by its second derivative:
                // (-72*a4^2*a0 + 10*a4*a2^2 - 3*a3^2*a2) / (9*(8*a4^2*a1 - 4*a4*a3*a2 + a3^3))
                let x0 = v72.neg().mul(a4).mul(a4).mul(a0).add(v10.mul(a4).mul(a2).mul(a2)).sub(
                    v3.mul(a3).mul(a3).mul(a2),
                ).div(
                    v9.mul(
                        v8.mul(a4).mul(a4).mul(a1).sub(v4.mul(a4).mul(a3).mul(a2)).add(
                            a3.mul(a3).mul(a3),
                        ),
                    ),
                );
                let roots = Roots::One([x0]);
                let x1 = a3.div(a4).add(v3.mul(x0)).neg();
                proof {
                    assert(roots@ =~= seq![x0]);
                    lemma_insert_root_len(roots@, x1);
                    lemma_insert_root_ascending(roots@, x1);
                }
                roots.add_new_root(x1)
            } else if no_roots {
                // Two complex conjugate double roots
                Roots::No([])
            } else {
                find_roots_via_depressed_quartic(a4, a3, a2, a1, a0, pp, rr, dd)
            }
        } else {
            let no_roots = pp.gt(F::zero()) || dd.gt(F::zero());
            if no_roots {
                // Two pairs of non-real complex conjugate roots
                Roots::No([])
            } else {
                find_roots_via_depressed_quartic(a4, a3, a2, a1, a0, pp, rr, dd)
            }
        }
    }
}

} // verus!
