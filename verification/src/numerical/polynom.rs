use vstd::prelude::*;

use crate::analytical::cubic::{find_roots_cubic, spec_find_roots_cubic};
use crate::analytical::linear::{find_roots_linear, spec_find_roots_linear};
use crate::analytical::quadratic::{find_roots_quadratic, spec_find_roots_quadratic};
use crate::analytical::quartic::{find_roots_quartic, spec_find_roots_quartic};
use crate::analytical::roots::Roots;
use crate::float::FloatType;
use crate::numerical::{Convergency, Interval, Sample, SearchError};

verus! {

/// A sample of the polynomial together with the value of its derivative
/// at the same point.
#[derive(Debug, PartialEq)]
pub struct ValueAndDerivative<F: FloatType> {
    pub value: Sample<F>,
    pub derivative: F,
}

/// One summation step of the Horner-style evaluation, taken over the
/// coefficients from the last to the first: the pair is the running sum
/// and the running power of x.
pub open spec fn value_fold<F: FloatType>(a: Seq<F>, x: F, result: F, xn: F) -> (F, F)
    decreases a.len(),
{
    if a.len() == 0 {
        (result, xn)
    } else {
        value_fold(a.drop_last(), x, result.add_spec(a.last().mul_spec(xn)), xn.mul_spec(x))
    }
}

/// The value of the normalized polynomial x^n + a[0]*x^(n-1) + ... + a[n-1]
/// at x, summed from the constant coefficient up.
pub open spec fn spec_value<F: FloatType>(a: Seq<F>, x: F) -> F {
    let (result, xn) = value_fold(a, x, F::zero_spec(), F::one_spec());
    result.add_spec(xn)
}

/// The value of the normalized polynom
/// 1*x^n + a[0]*x^(n-1) + a[1]*x^(n-2) + ... + a[n-1] at the given point.
pub fn value<F: FloatType>(p: &[F], x: &F) -> (r: F)
    ensures
        r == spec_value(p@, *x),
{
    let mut result = F::zero();
    let mut xn = F::one();
    let n = p.len();
    let mut k: usize = 0;
    proof {
        assert(p@.take(n as int) =~= p@);
    }
    // Sum starting with a0
    while k < n
        invariant
            k <= n,
            n == p@.len(),
            value_fold(p@, *x, F::zero_spec(), F::one_spec()) == value_fold(
                p@.take((n - k) as int),
                *x,
                result,
                xn,
            ),
        decreases n - k,
    {
        proof {
            assert(p@.take((n - k) as int).last() == p@[(n - 1 - k) as int]);
            assert(p@.take((n - k) as int).drop_last() =~= p@.take((n - 1 - k) as int));
        }
        let a = p[n - 1 - k];
        result = result.add(a.mul(xn));
        xn = xn.mul(*x);
        k = k + 1;
    }
    // The highest coefficient of the normalized polynom is 1
    result.add(xn)
}

/// One summation step of the simultaneous evaluation of the polynomial and
/// its derivative, taken over the coefficients from the last to the first:
/// the running sums of both, the running powers x^k and x^(k-1), and the
/// running exponent counter.
pub open spec fn value_and_derivative_fold<F: FloatType>(
    a: Seq<F>,
    x: F,
    value_acc: F,
    derivative_acc: F,
    xn: F,
    xn1: F,
    n: F,
) -> (F, F, F, F, F)
    decreases a.len(),
{
    if a.len() == 0 {
        (value_acc, derivative_acc, xn, xn1, n)
    } else {
        value_and_derivative_fold(
            a.drop_last(),
            x,
            value_acc.add_spec(a.last().mul_spec(xn)),
            derivative_acc.add_spec(a.last().mul_spec(n).mul_spec(xn1)),
            xn.mul_spec(x),
            xn,
            n.add_spec(F::one_spec()),
        )
    }
}

/// The value and the derivative of the normalized polynomial at x.
pub open spec fn spec_value_and_derivative<F: FloatType>(a: Seq<F>, x: F) -> ValueAndDerivative<
    F,
> {
    let (value_acc, derivative_acc, xn, xn1, n) = value_and_derivative_fold(
        a,
        x,
        F::zero_spec(),
        F::zero_spec(),
        F::one_spec(),
        F::zero_spec(),
        F::zero_spec(),
    );
    ValueAndDerivative {
        value: Sample { x: x, y: value_acc.add_spec(xn) },
        derivative: derivative_acc.add_spec(n.mul_spec(xn1)),
    }
}

/// The value and the derivative of the normalized polynom
/// 1*x^n + a[0]*x^(n-1) + a[1]*x^(n-2) + ... + a[n-1] at the given point.
pub fn value_and_derivative<F: FloatType>(p: &[F], x: &F) -> (r: ValueAndDerivative<F>)
    ensures
        r == spec_value_and_derivative(p@, *x),
{
    let mut xn = F::one();  // x^n for SUM(A(n)*x^(n))
    let mut value_acc = F::zero();

    let mut xn1 = F::zero();  // x^n-1 for SUM(n*A(n-1)*x^(n-1))
    let mut derivative_acc = F::zero();
    let mut n = F::zero();

    let len = p.len();
    let mut k: usize = 0;
    proof {
        assert(p@.take(len as int) =~= p@);
    }
    // Sum starting with a0
    while k < len
        invariant
            k <= len,
            len == p@.len(),
            value_and_derivative_fold(
                p@,
                *x,
                F::zero_spec(),
                F::zero_spec(),
                F::one_spec(),
                F::zero_spec(),
                F::zero_spec(),
            ) == value_and_derivative_fold(
                p@.take((len - k) as int),
                *x,
                value_acc,
                derivative_acc,
                xn,
                xn1,
                n,
            ),
        decreases len - k,
    {
        proof {
            assert(p@.take((len - k) as int).last() == p@[(len - 1 - k) as int]);
            assert(p@.take((len - k) as int).drop_last() =~= p@.take((len - 1 - k) as int));
        }
        let a = p[len - 1 - k];
        value_acc = value_acc.add(a.mul(xn));
        derivative_acc = derivative_acc.add(a.mul(n).mul(xn1));
        xn1 = xn;
        xn = xn.mul(*x);
        n = n.add(F::one());
        k = k + 1;
    }
    // The highest coefficient of the normalized polynom is 1
    ValueAndDerivative {
        value: Sample { x: *x, y: value_acc.add(xn) },
        derivative: derivative_acc.add(n.mul(xn1)),
    }
}

/// The value of a counter that started at one and was c times incremented
/// by one.
pub open spec fn counter_value<F: FloatType>(c: nat) -> F
    decreases c,
{
    if c == 0 {
        F::one_spec()
    } else {
        counter_value::<F>((c - 1) as nat).add_spec(F::one_spec())
    }
}

/// The coefficients of the normalized derivative of the normalized
/// polynomial with the coefficients a: the leading coefficient n of the
/// derivative is divided out again, so coefficient j becomes
/// a[j]*(n-1-j)/n.
pub open spec fn spec_derivative_polynom<F: FloatType>(a: Seq<F>) -> Seq<F> {
    Seq::new(
        (a.len() - 1) as nat,
        |j: int|
            a[j].mul_spec(counter_value::<F>((a.len() - 2 - j) as nat)).div_spec(
                F::from_i16_spec(a.len() as i16),
            ),
    )
}

/// The derivative of the normalized polynom
/// 1*x^n + a[0]*x^(n-1) + ... + a[n-1], normalized again by dividing
/// through its leading coefficient n.
///
/// The number of coefficients must fit the small-integer conversion of
/// the numeric type.
pub fn derivative_polynom<F: FloatType>(p: &[F]) -> (r: Vec<F>)
    requires
        1 <= p@.len() <= 32767,
    ensures
        r@ == spec_derivative_polynom(p@),
{
    let n = p.len();
    let mut result: Vec<F> = Vec::new();
    let mut j: usize = 0;
    while j < n - 1
        invariant
            1 <= n <= 32767,
            n == p@.len(),
            j <= n - 1,
            result@ == p@.take(j as int),
        decreases n - 1 - j,
    {
        proof {
            assert(p@.take(j as int + 1) =~= p@.take(j as int).push(p@[j as int]));
        }
        result.push(p[j]);
        j = j + 1;
    }
    let nf = F::from_i16(n as i16);
    let mut ni = F::one();
    let mut k: usize = n - 1;
    while k > 0
        invariant
            k <= n - 1,
            1 <= n <= 32767,
            n == p@.len(),
            result@.len() == n - 1,
            ni == counter_value::<F>((n - 1 - k) as nat),
            nf == F::from_i16_spec(n as i16),
            forall|i: int| 0 <= i < k ==> result@[i] == p@[i],
            forall|i: int|
                k <= i < n - 1 ==> result@[i] == p@[i].mul_spec(
                    counter_value::<F>((n - 2 - i) as nat),
                ).div_spec(F::from_i16_spec(n as i16)),
        decreases k,
    {
        k = k - 1;
        let v = result[k];
        result[k] = v.mul(ni).div(nf);
        ni = ni.add(F::one());
    }
    proof {
        assert(result@ =~= spec_derivative_polynom(p@));
    }
    result
}

/// Interval for searching roots
enum SearchInterval<F: FloatType> {
    /// [-infinity .. +infinity]
    Whole,
    /// [-infinity .. x]
    First(Sample<F>),
    /// [x .. +infinity ]
    Last(Sample<F>),
    /// [x1 .. x2 ]
    Middle(Interval<F>),
}

/// The recursion measure of `narrow_down`: the whole axis is narrowed to a
/// half-axis once before the search proper starts.
spec fn search_interval_rank<F: FloatType>(si: SearchInterval<F>) -> int {
    match si {
        SearchInterval::Whole => 1,
        _ => 0,
    }
}

enum BracketingDirection {
    TowardsPositive,
    TowardsNegative,
}

/// Walks away from the initial sample, with steps of doubling size and
/// occasional Newton corrections, until a sample with the opposite sign of
/// the function brackets a root.
fn initial_bracket<F, C>(
    initial_sample: &Sample<F>,
    direction: &BracketingDirection,
    polynom: &[F],
    derivative_polynom: &[F],
    convergency: &mut C,
) -> (r: Result<Interval<F>, SearchError>) where F: FloatType, C: Convergency<F>
    ensures
        r matches Err(e) ==> e == SearchError::NoConvergency,
{
    let mut iter: usize = 0;
    let towards_positive = match direction {
        BracketingDirection::TowardsPositive => true,
        BracketingDirection::TowardsNegative => false,
    };
    let mut step = if towards_positive {
        F::one()
    } else {
        F::one().neg()
    };
    let initial_copy = Sample { x: initial_sample.x, y: initial_sample.y };
    let mut next_x = initial_sample.x.add(step);
    loop
        decreases usize::MAX - iter,
    {
        let mut next_y = value(polynom, &next_x);
        let mut next_sample = Sample { x: next_x, y: next_y };
        if next_sample.is_bracketed_with(initial_sample) {
            return Ok(
                if towards_positive {
                    Interval { begin: initial_copy, end: next_sample }
                } else {
                    Interval { begin: next_sample, end: initial_copy }
                },
            );
        } else {
            let derivative = value(derivative_polynom, &next_x);
            if derivative.gt(F::zero()) {
                next_x = next_x.sub(next_y.div(derivative));
                next_y = value(polynom, &next_x);
                next_sample = Sample { x: next_x, y: next_y };
                if next_sample.is_bracketed_with(initial_sample) {
                    return Ok(
                        if towards_positive {
                            Interval { begin: initial_copy, end: next_sample }
                        } else {
                            Interval { begin: next_sample, end: initial_copy }
                        },
                    );
                }
            }
            step = step.mul(F::two());
            next_x = next_x.add(step);
            if iter == usize::MAX {
                // The iteration counter cannot grow any further.
                return Err(SearchError::NoConvergency);
            }
            iter = iter + 1;
            if convergency.is_iteration_limit_reached(iter) {
                return Err(SearchError::NoConvergency);
            }
        }
    }
}

/// Narrows the given search interval down to a bracketed interval of
/// finite length.
fn narrow_down<F, C>(
    initial_interval: &SearchInterval<F>,
    polynom: &[F],
    derivative_polynom: &[F],
    convergency: &mut C,
) -> (r: Result<Interval<F>, SearchError>) where F: FloatType, C: Convergency<F>
    ensures
        r matches Err(e) ==> e == SearchError::NoBracketing || e == SearchError::NoConvergency,
    decreases search_interval_rank(*initial_interval),
{
    match initial_interval {
        SearchInterval::Whole => {
            let zero_y = value(polynom, &F::zero());
            let zero_sample = Sample { x: F::zero(), y: zero_y };
            let zero_interval = if zero_sample.y.gt(F::zero()) {
                SearchInterval::First(zero_sample)
            } else {
                SearchInterval::Last(zero_sample)
            };
            narrow_down(&zero_interval, polynom, derivative_polynom, convergency)
        },
        SearchInterval::First(end) => initial_bracket(
            end,
            &BracketingDirection::TowardsNegative,
            polynom,
            derivative_polynom,
            convergency,
        ),
        SearchInterval::Last(begin) => initial_bracket(
            begin,
            &BracketingDirection::TowardsPositive,
            polynom,
            derivative_polynom,
            convergency,
        ),
        SearchInterval::Middle(interval) => {
            if interval.is_bracketed() {
                let middle_x = if interval.begin.y.eq_val(interval.end.y) {
                    interval.begin.x.add(interval.end.x).div(F::two())
                } else {
                    interval.begin.x.sub(
                        interval.begin.y.mul(interval.end.x.sub(interval.begin.x)).div(
                            interval.end.y.sub(interval.begin.y),
                        ),
                    )
                };
                let middle_y = value(polynom, &middle_x);
                let mut middle_sample = Sample { x: middle_x, y: middle_y };
                let derivative = value(derivative_polynom, &middle_x);
                if !derivative.eq_val(F::zero()) {
                    let closer_x = middle_sample.x.sub(middle_sample.y.div(derivative));
                    if closer_x.ge(interval.begin.x) && closer_x.le(interval.end.x) {
                        let closer_y = value(polynom, &closer_x);
                        middle_sample = Sample { x: closer_x, y: closer_y };
                    }
                }
                if interval.begin.is_bracketed_with(&middle_sample) {
                    Ok(
                        Interval {
                            begin: Sample { x: interval.begin.x, y: interval.begin.y },
                            end: middle_sample,
                        },
                    )
                } else {
                    Ok(
                        Interval {
                            begin: middle_sample,
                            end: Sample { x: interval.end.x, y: interval.end.y },
                        },
                    )
                }
            } else {
                Err(SearchError::NoBracketing)
            }
        },
    }
}

/// Searches the bracketed interval for a root, by bisection sharpened with
/// Newton steps where they help.
fn find_root<F, C>(p: &[F], bracketed_start: &mut Interval<F>, convergency: &mut C) -> (r: Result<
    F,
    SearchError,
>) where F: FloatType, C: Convergency<F>
    ensures
        r matches Err(e) ==> e == SearchError::NoBracketing || e == SearchError::NoConvergency,
        r == Err::<F, SearchError>(SearchError::NoBracketing) <==> !old(
            bracketed_start,
        ).spec_is_bracketed(),
{
    if bracketed_start.is_bracketed() {
        let interval = bracketed_start;
        let mut iter: usize = 0;
        loop
            invariant
                old(bracketed_start).spec_is_bracketed(),
            decreases usize::MAX - iter,
        {
            if convergency.is_root_found(interval.begin.y) {
                return Ok(interval.begin.x);
            } else if convergency.is_root_found(interval.end.y) {
                return Ok(interval.end.x);
            } else if interval.is_converged(convergency) {
                return Ok(interval.middle());
            } else {
                let m = interval.middle();
                let middle = value_and_derivative(p, &m);
                let next_sample = if !middle.derivative.eq_val(F::zero()) {
                    let newton_raphson = middle.value.x.sub(
                        middle.value.y.div(middle.derivative),
                    );
                    if newton_raphson.ge(interval.begin.x) && newton_raphson.le(interval.end.x) {
                        let newton_raphson_value = value(p, &newton_raphson);
                        if newton_raphson_value.abs().lt(middle.value.y.abs()) {
                            Sample { x: newton_raphson, y: newton_raphson_value }
                        } else {
                            middle.value
                        }
                    } else {
                        middle.value
                    }
                } else {
                    middle.value
                };
                if interval.begin.is_bracketed_with(&next_sample) {
                    interval.end = Sample { x: next_sample.x, y: next_sample.y };
                } else {
                    interval.begin = Sample { x: next_sample.x, y: next_sample.y };
                }
            }
            if iter == usize::MAX {
                // The iteration counter cannot grow any further.
                return Err(SearchError::NoConvergency);
            }
            iter = iter + 1;
            if convergency.is_iteration_limit_reached(iter) {
                return Err(SearchError::NoConvergency);
            }
        }
    } else {
        Err(SearchError::NoBracketing)
    }
}

/// Splits the axis at the roots of the derivative into intervals on which
/// the polynomial is monotonous, and keeps those across which its sign
/// changes.
fn find_root_intervals<F, C>(
    polynom: &[F],
    derivative_polynom: &[F],
    convergency: &mut C,
) -> (r: Result<Vec<SearchInterval<F>>, SearchError>) where F: FloatType, C: Convergency<F>
    requires
        derivative_polynom@.len() <= 32767,
    ensures
        r matches Err(e) ==> e == SearchError::NoBracketing,
    decreases derivative_polynom@.len(), 1int,
{
    let mut result: Vec<SearchInterval<F>> = Vec::new();
    let derivative_roots = find_roots_sturm(derivative_polynom, convergency);
    let symmetric_polynom = polynom.len() % 2 == 0;
    let mut expect_positive = !symmetric_polynom;
    let mut previous_interval: SearchInterval<F> = SearchInterval::Whole;
    // Iterate through all roots of the derivative polynom
    let m = derivative_roots.len();
    let mut k: usize = 0;
    while k < m
        invariant
            k <= m,
            m == derivative_roots@.len(),
            previous_interval is Whole || previous_interval is First,
        decreases m - k,
    {
        match &derivative_roots[k] {
            Ok(derivative_root) => {
                let val = value(polynom, derivative_root);
                if (expect_positive && val.ge(F::zero())) || (!expect_positive && val.lt(
                    F::zero(),
                )) {
                    // Transition found
                    let interval_to_add = match &previous_interval {
                        SearchInterval::Whole => SearchInterval::First(
                            Sample { x: *derivative_root, y: val },
                        ),
                        SearchInterval::First(previous_end) => SearchInterval::Middle(
                            Interval {
                                begin: Sample { x: previous_end.x, y: previous_end.y },
                                end: Sample { x: *derivative_root, y: val },
                            },
                        ),
                        _ => {
                            proof {
                                assert(false);
                            }
                            vstd::pervasive::unreached()
                        },
                    };
                    result.push(interval_to_add);
                    expect_positive = !expect_positive;
                }
                previous_interval = SearchInterval::First(Sample { x: *derivative_root, y: val });
            },
            Err(_) => {},
        }
        k = k + 1;
    }
    // All roots are checked, now the final step
    match previous_interval {
        SearchInterval::Whole => {
            if !symmetric_polynom {
                result.push(SearchInterval::Whole);
            }
            Ok(result)
        },
        SearchInterval::First(sample) => {
            if sample.x.lt(F::zero()) {
                result.push(SearchInterval::Last(sample));
            }
            Ok(result)
        },
        _ => Err(SearchError::NoBracketing),
    }
}

/// The roots of a degree n polynomial wrapped as the results they are
/// reported as.
pub open spec fn to_ok_results<F: FloatType>(s: Seq<F>) -> Seq<Result<F, SearchError>> {
    s.map_values(|x: F| Result::<F, SearchError>::Ok(x))
}

/// Reports every root of the list as a successful search result.
fn roots_to_results<F: FloatType>(roots: &Roots<F>) -> (v: Vec<Result<F, SearchError>>)
    ensures
        v@ == to_ok_results(roots@),
{
    let mut v: Vec<Result<F, SearchError>> = Vec::new();
    let n = roots.len();
    let mut i: usize = 0;
    while i < n
        invariant
            i <= n,
            n == roots@.len(),
            v@.len() == i,
            forall|j: int| 0 <= j < i ==> v@[j] == Result::<F, SearchError>::Ok(roots@[j]),
        decreases n - i,
    {
        v.push(Ok(roots.get(i)));
        i = i + 1;
    }
    proof {
        assert(v@ =~= to_ok_results(roots@));
    }
    v
}

/// Find all roots of the normalized polynom
/// 1*x^n + a[n-1]*x^(n-1) + a[n-2]*x^(n-2) + ... + a[0] = 0.
///
/// For a degree up to four the closed-form solvers answer, and every root
/// comes back as a success. For a higher degree the polynomial is searched
/// by intervals on which it is monotonous, found through the roots of its
/// derivative; each such search can fail on its own, so every entry of the
/// result carries its own success or failure.
///
/// # Failures
/// ## NoBracketing
/// A sign transition could not be bracketed.
/// ## NoConvergency
/// The algorithm cannot find a root within the given number of iterations.
pub fn find_roots_sturm<F, C>(a: &[F], convergency: &mut C) -> (r: Vec<
    Result<F, SearchError>,
>) where F: FloatType, C: Convergency<F>
    requires
        a@.len() <= 32767,
    ensures
        a@.len() == 0 ==> r@.len() == 0,
        a@.len() == 1 ==> r@ == to_ok_results(spec_find_roots_linear(F::one_spec(), a@[0])),
        a@.len() == 2 ==> r@ == to_ok_results(
            spec_find_roots_quadratic(F::one_spec(), a@[0], a@[1]),
        ),
        a@.len() == 3 ==> r@ == to_ok_results(
            spec_find_roots_cubic(F::one_spec(), a@[0], a@[1], a@[2]),
        ),
        a@.len() == 4 ==> r@ == to_ok_results(
            spec_find_roots_quartic(F::one_spec(), a@[0], a@[1], a@[2], a@[3]),
        ),
        forall|j: int|
            0 <= j < r@.len() ==> r@[j] != Result::<F, SearchError>::Err(
                SearchError::ZeroDerivative,
            ),
    decreases a@.len(), 0int,
{
    if a.len() == 0 {
        Vec::new()
    } else if a.len() == 1 {
        let rr = find_roots_linear(F::one(), a[0]);
        roots_to_results(&rr)
    } else if a.len() == 2 {
        let rr = find_roots_quadratic(F::one(), a[0], a[1]);
        roots_to_results(&rr)
    } else if a.len() == 3 {
        let rr = find_roots_cubic(F::one(), a[0], a[1], a[2]);
        roots_to_results(&rr)
    } else if a.len() == 4 {
        let rr = find_roots_quartic(F::one(), a[0], a[1], a[2], a[3]);
        roots_to_results(&rr)
    } else {
        let mut result: Vec<Result<F, SearchError>> = Vec::new();
        let dp = derivative_polynom(a);
        match find_root_intervals(a, dp.as_slice(), convergency) {
            Ok(root_intervals) => {
                let m = root_intervals.len();
                let mut k: usize = 0;
                while k < m
                    invariant
                        k <= m,
                        m == root_intervals@.len(),
                        forall|j: int|
                            0 <= j < result@.len() ==> result@[j] != Result::<F, SearchError>::Err(
                                SearchError::ZeroDerivative,
                            ),
                    decreases m - k,
                {
                    match narrow_down(&root_intervals[k], a, dp.as_slice(), convergency) {
                        Ok(mut narrowed) => {
                            let root = find_root(a, &mut narrowed, convergency);
                            result.push(root);
                        },
                        Err(_) => {},
                    }
                    k = k + 1;
                }
            },
            Err(error) => {
                result.push(Err(error));
            },
        }
        result
    }
}

} // verus!
