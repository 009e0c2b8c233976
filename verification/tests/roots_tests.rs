//! Tests of the solvers over wrapper types that carry the two standard
//! floating-point precisions through the `FloatType` abstraction.

use roots::derivative_polynom;
use roots::find_root_brent;
use roots::find_root_inverse_quadratic;
use roots::find_root_newton_raphson;
use roots::find_root_regula_falsi;
use roots::find_root_secant;
use roots::find_roots_biquadratic;
use roots::find_roots_cubic;
use roots::find_roots_cubic_depressed;
use roots::find_roots_cubic_normalized;
use roots::find_roots_linear;
use roots::find_roots_quadratic;
use roots::find_roots_quartic;
use roots::find_roots_quartic_depressed;
use roots::find_roots_sturm;
use roots::value;
use roots::value_and_derivative;
use roots::DebugConvergency;
use roots::FloatType;
use roots::Interval;
use roots::Parabola;
use roots::Roots;
use roots::Sample;
use roots::SearchError;
use roots::SimpleConvergency;
use roots::ValueAndDerivative;

#[derive(Debug, Clone, Copy, PartialEq)]
struct F32v(f32);

#[derive(Debug, Clone, Copy, PartialEq)]
struct F64v(f64);

impl std::ops::Add for F32v {
    type Output = F32v;
    fn add(self, o: F32v) -> F32v {
        F32v(self.0 + o.0)
    }
}
impl std::ops::Sub for F32v {
    type Output = F32v;
    fn sub(self, o: F32v) -> F32v {
        F32v(self.0 - o.0)
    }
}
impl std::ops::Mul for F32v {
    type Output = F32v;
    fn mul(self, o: F32v) -> F32v {
        F32v(self.0 * o.0)
    }
}
impl std::ops::Div for F32v {
    type Output = F32v;
    fn div(self, o: F32v) -> F32v {
        F32v(self.0 / o.0)
    }
}
impl std::ops::Neg for F32v {
    type Output = F32v;
    fn neg(self) -> F32v {
        F32v(-self.0)
    }
}

impl std::ops::Add for F64v {
    type Output = F64v;
    fn add(self, o: F64v) -> F64v {
        F64v(self.0 + o.0)
    }
}
impl std::ops::Sub for F64v {
    type Output = F64v;
    fn sub(self, o: F64v) -> F64v {
        F64v(self.0 - o.0)
    }
}
impl std::ops::Mul for F64v {
    type Output = F64v;
    fn mul(self, o: F64v) -> F64v {
        F64v(self.0 * o.0)
    }
}
impl std::ops::Div for F64v {
    type Output = F64v;
    fn div(self, o: F64v) -> F64v {
        F64v(self.0 / o.0)
    }
}
impl std::ops::Neg for F64v {
    type Output = F64v;
    fn neg(self) -> F64v {
        F64v(-self.0)
    }
}

impl FloatType for F32v {
    fn zero() -> Self {
        F32v(0f32)
    }
    fn one() -> Self {
        F32v(1f32)
    }
    fn two() -> Self {
        F32v(2f32)
    }
    fn three() -> Self {
        F32v(3f32)
    }
    fn four() -> Self {
        F32v(4f32)
    }
    fn one_third() -> Self {
        F32v(1f32 / 3f32)
    }
    fn pi() -> Self {
        F32v(std::f32::consts::PI)
    }
    fn two_third_pi() -> Self {
        F32v(2f32 * std::f32::consts::FRAC_PI_3)
    }
    fn from_i16(v: i16) -> Self {
        F32v(f32::from(v))
    }
    fn add(self, other: Self) -> Self {
        F32v(self.0 + other.0)
    }
    fn sub(self, other: Self) -> Self {
        F32v(self.0 - other.0)
    }
    fn mul(self, other: Self) -> Self {
        F32v(self.0 * other.0)
    }
    fn div(self, other: Self) -> Self {
        F32v(self.0 / other.0)
    }
    fn neg(self) -> Self {
        F32v(-self.0)
    }
    fn sqrt(self) -> Self {
        F32v(self.0.sqrt())
    }
    fn acos(self) -> Self {
        F32v(self.0.acos())
    }
    fn cos(self) -> Self {
        F32v(self.0.cos())
    }
    fn sin(self) -> Self {
        F32v(self.0.sin())
    }
    fn atan(self) -> Self {
        F32v(self.0.atan())
    }
    fn abs(self) -> Self {
        F32v(self.0.abs())
    }
    fn powf(self, n: Self) -> Self {
        F32v(self.0.powf(n.0))
    }
    fn lt(self, other: Self) -> bool {
        self.0 < other.0
    }
    fn le(self, other: Self) -> bool {
        self.0 <= other.0
    }
    fn gt(self, other: Self) -> bool {
        self.0 > other.0
    }
    fn ge(self, other: Self) -> bool {
        self.0 >= other.0
    }
    fn eq_val(self, other: Self) -> bool {
        self.0 == other.0
    }
}

impl FloatType for F64v {
    fn zero() -> Self {
        F64v(0f64)
    }
    fn one() -> Self {
        F64v(1f64)
    }
    fn two() -> Self {
        F64v(2f64)
    }
    fn three() -> Self {
        F64v(3f64)
    }
    fn four() -> Self {
        F64v(4f64)
    }
    fn one_third() -> Self {
        F64v(1f64 / 3f64)
    }
    fn pi() -> Self {
        F64v(std::f64::consts::PI)
    }
    fn two_third_pi() -> Self {
        F64v(2f64 * std::f64::consts::FRAC_PI_3)
    }
    fn from_i16(v: i16) -> Self {
        F64v(f64::from(v))
    }
    fn add(self, other: Self) -> Self {
        F64v(self.0 + other.0)
    }
    fn sub(self, other: Self) -> Self {
        F64v(self.0 - other.0)
    }
    fn mul(self, other: Self) -> Self {
        F64v(self.0 * other.0)
    }
    fn div(self, other: Self) -> Self {
        F64v(self.0 / other.0)
    }
    fn neg(self) -> Self {
        F64v(-self.0)
    }
    fn sqrt(self) -> Self {
        F64v(self.0.sqrt())
    }
    fn acos(self) -> Self {
        F64v(self.0.acos())
    }
    fn cos(self) -> Self {
        F64v(self.0.cos())
    }
    fn sin(self) -> Self {
        F64v(self.0.sin())
    }
    fn atan(self) -> Self {
        F64v(self.0.atan())
    }
    fn abs(self) -> Self {
        F64v(self.0.abs())
    }
    fn powf(self, n: Self) -> Self {
        F64v(self.0.powf(n.0))
    }
    fn lt(self, other: Self) -> bool {
        self.0 < other.0
    }
    fn le(self, other: Self) -> bool {
        self.0 <= other.0
    }
    fn gt(self, other: Self) -> bool {
        self.0 > other.0
    }
    fn ge(self, other: Self) -> bool {
        self.0 >= other.0
    }
    fn eq_val(self, other: Self) -> bool {
        self.0 == other.0
    }
}

fn close64(precision: f64, given: f64, expected: f64) {
    let diff = given - expected;
    assert!(
        diff.abs() <= precision.abs(),
        "floats are not the same: (`{:.15e}`, expected: `{:.15e}`, precision: `{:.15e}`, delta: `{:.15e}`)",
        given,
        expected,
        precision,
        diff
    );
}

fn close32(precision: f32, given: f32, expected: f32) {
    let diff = given - expected;
    assert!(
        diff.abs() <= precision.abs(),
        "floats are not the same: (`{:.7e}`, expected: `{:.7e}`, precision: `{:.7e}`, delta: `{:.7e}`)",
        given,
        expected,
        precision,
        diff
    );
}

fn close_array64(precision: f64, given: &[F64v], expected: &[f64]) {
    assert_eq!(given.len(), expected.len());
    for i in 0..given.len() {
        close64(precision, given[i].0, expected[i]);
    }
}

fn roots_as_vec64(roots: &Roots<F64v>) -> Vec<F64v> {
    let mut v = Vec::new();
    for i in 0..roots.len() {
        v.push(roots.get(i));
    }
    v
}

#[test]
fn test_roots() {
    let mut roots = Roots::One([F32v(1f32)]);
    assert_eq!(roots, Roots::One([F32v(1f32)]));

    roots = roots.add_new_root(F32v(1f32));
    assert_eq!(roots, Roots::One([F32v(1f32)]));

    roots = roots.add_new_root(F32v(0f32));
    assert_eq!(roots, Roots::Two([F32v(0f32), F32v(1f32)]));

    roots = roots.add_new_root(F32v(0f32));
    assert_eq!(roots, Roots::Two([F32v(0f32), F32v(1f32)]));

    roots = roots.add_new_root(F32v(3f32));
    assert_eq!(roots, Roots::Three([F32v(0f32), F32v(1f32), F32v(3f32)]));

    roots = roots.add_new_root(F32v(2f32));
    assert_eq!(
        roots,
        Roots::Four([F32v(0f32), F32v(1f32), F32v(2f32), F32v(3f32)])
    );
}

#[test]
fn test_float_cbrt() {
    assert_eq!(-8f64.cbrt(), -2f64);
    assert_eq!(8f64.cbrt(), 2f64);
    assert_eq!(0f32.cbrt(), 0f32);
}

#[test]
fn test_find_roots_linear() {
    assert_eq!(
        find_roots_linear(F32v(0f32), F32v(0f32)),
        Roots::One([F32v(0f32)])
    );
    assert_eq!(
        find_roots_linear(F64v(2f64), F64v(1f64)),
        Roots::One([F64v(-0.5f64)])
    );
    assert_eq!(find_roots_linear(F32v(0f32), F32v(1f32)), Roots::No([]));
}

#[test]
fn test_find_roots_quadratic() {
    assert_eq!(
        find_roots_quadratic(F32v(0f32), F32v(0f32), F32v(0f32)),
        Roots::One([F32v(0f32)])
    );
    assert_eq!(
        find_roots_quadratic(F32v(1f32), F32v(0f32), F32v(1f32)),
        Roots::No([])
    );
    assert_eq!(
        find_roots_quadratic(F64v(1f64), F64v(0f64), F64v(-1f64)),
        Roots::Two([F64v(-1f64), F64v(1f64)])
    );
}

#[test]
fn test_find_roots_quadratic_small_a2() {
    assert_eq!(
        find_roots_quadratic(F32v(1e-20f32), F32v(-1f32), F32v(-1e-30f32)),
        Roots::Two([F32v(-1e-30f32), F32v(1e20f32)])
    );
    assert_eq!(
        find_roots_quadratic(F32v(-1e-20f32), F32v(1f32), F32v(1e-30f32)),
        Roots::Two([F32v(-1e-30f32), F32v(1e20f32)])
    );
    assert_eq!(
        find_roots_quadratic(F32v(1e-20f32), F32v(-1f32), F32v(1f32)),
        Roots::Two([F32v(1f32), F32v(1e20f32)])
    );
    assert_eq!(
        find_roots_quadratic(F32v(-1e-20f32), F32v(1f32), F32v(1f32)),
        Roots::Two([F32v(-1f32), F32v(1e20f32)])
    );
    assert_eq!(
        find_roots_quadratic(F32v(-1e-20f32), F32v(1f32), F32v(-1f32)),
        Roots::Two([F32v(1f32), F32v(1e20f32)])
    );
}

#[test]
fn test_find_roots_quadratic_big_a1() {
    assert_eq!(
        find_roots_quadratic(F32v(1f32), F32v(-1e15f32), F32v(-1f32)),
        Roots::Two([F32v(-1e-15f32), F32v(1e15f32)])
    );
    assert_eq!(
        find_roots_quadratic(F32v(-1f32), F32v(1e15f32), F32v(1f32)),
        Roots::Two([F32v(-1e-15f32), F32v(1e15f32)])
    );
}

#[test]
fn test_find_roots_biquadratic() {
    assert_eq!(
        find_roots_biquadratic(F32v(0f32), F32v(0f32), F32v(0f32)),
        Roots::One([F32v(0f32)])
    );
    assert_eq!(
        find_roots_biquadratic(F32v(1f32), F32v(0f32), F32v(1f32)),
        Roots::No([])
    );
    assert_eq!(
        find_roots_biquadratic(F64v(1f64), F64v(0f64), F64v(-1f64)),
        Roots::Two([F64v(-1f64), F64v(1f64)])
    );
    assert_eq!(
        find_roots_biquadratic(F64v(1f64), F64v(-5f64), F64v(4f64)),
        Roots::Four([F64v(-2f64), F64v(-1f64), F64v(1f64), F64v(2f64)])
    );
}

#[test]
fn test_find_roots_cubic_depressed() {
    assert_eq!(
        find_roots_cubic_depressed(F32v(0f32), F32v(0f32)),
        Roots::One([F32v(0f32)])
    );
    assert_eq!(
        find_roots_cubic_depressed(F64v(-1f64), F64v(0f64)),
        Roots::Three([F64v(-1f64), F64v(0f64), F64v(1f64)])
    );

    match find_roots_cubic_depressed(F64v(-2f64), F64v(2f64)) {
        Roots::One(x) => {
            close_array64(1e-15, &x, &[-1.769292354238631415240409f64]);
        }
        _ => {
            assert!(false);
        }
    }

    match find_roots_cubic_depressed(F64v(-3f64), F64v(2f64)) {
        Roots::Two(x) => {
            close_array64(1e-15, &x, &[-2f64, 1f64]);
        }
        _ => {
            assert!(false);
        }
    }

    match find_roots_cubic_depressed(F64v(-2f64), F64v(1f64)) {
        Roots::Three(x) => {
            close_array64(
                1e-15,
                &x,
                &[
                    (-1f64 - 5f64.sqrt()) / 2f64,
                    (-1f64 + 5f64.sqrt()) / 2f64,
                    1f64,
                ],
            );
        }
        _ => {
            assert!(false);
        }
    }
}

#[test]
fn test_find_roots_cubic_normalized() {
    assert_eq!(
        find_roots_cubic_normalized(F32v(0f32), F32v(0f32), F32v(0f32)),
        Roots::One([F32v(0f32)])
    );

    match find_roots_cubic_normalized(F64v(0f64), F64v(-1f64), F64v(0f64)) {
        Roots::Three(x) => {
            close_array64(1e-15, &x, &[-1f64, 0f64, 1f64]);
        }
        _ => {
            assert!(false);
        }
    }

    match find_roots_cubic_normalized(F64v(1f64), F64v(-2f64), F64v(2f64)) {
        Roots::One(x) => {
            close_array64(1e-15, &x, &[-2.269530842081142770853135f64]);
        }
        _ => {
            assert!(false);
        }
    }

    match find_roots_cubic_normalized(F64v(0f64), F64v(-3f64), F64v(2f64)) {
        Roots::Two(x) => {
            close_array64(1e-15, &x, &[-2f64, 1f64]);
        }
        _ => {
            assert!(false);
        }
    }

    match find_roots_cubic_normalized(F64v(-2f64), F64v(-3f64), F64v(2f64)) {
        Roots::Three(x) => {
            close_array64(
                1e-15,
                &x,
                &[
                    -1.342923082777170208054859f64,
                    0.5293165801288393926136314f64,
                    2.813606502648330815441228f64,
                ],
            );
        }
        _ => {
            assert!(false);
        }
    }
}

#[test]
fn test_find_roots_cubic_normalized_huge_discriminant() {
    // Cubic polynomial where the highest coefficient is very small
    match find_roots_cubic_normalized(
        F64v(0.0126298310280606f64 / -0.000000000000000040410628481035f64),
        F64v(-0.100896606408756f64 / -0.000000000000000040410628481035f64),
        F64v(0.0689539597036461f64 / -0.000000000000000040410628481035f64),
    ) {
        Roots::One(x) => {
            // Due to the limited precision of calculations of arccos, the
            // function cannot cope with such numbers (roots should be
            // 0.7547108770537f64, 7.23404258961f64, 312537357195213f64).
            close_array64(1e-8, &x, &[312537357195212.4625f64]);
        }
        _ => {
            assert!(false);
        }
    }
}

#[test]
fn test_find_roots_cubic() {
    assert_eq!(
        find_roots_cubic(F32v(1f32), F32v(0f32), F32v(0f32), F32v(0f32)),
        Roots::One([F32v(0f32)])
    );

    match find_roots_cubic(F64v(1f64), F64v(0f64), F64v(-1f64), F64v(0f64)) {
        Roots::Three(x) => {
            close_array64(1e-15, &x, &[-1f64, 0f64, 1f64]);
        }
        _ => {
            assert!(false);
        }
    }
}

#[test]
fn test_find_roots_cubic_small_discriminant() {
    // Cubic polynomial where the highest coefficient is very small
    match find_roots_cubic(
        F64v(-0.000000000000000040410628481035f64),
        F64v(0.0126298310280606f64),
        F64v(-0.100896606408756f64),
        F64v(0.0689539597036461f64),
    ) {
        Roots::Three(x) => {
            // (According to Wolfram Alpha, roots must be 0.7547108770537f64,
            // 7.23404258961f64, 312537357195213f64.) The actual result
            // differs a little due to the limited precision.
            close_array64(
                1e-8,
                &x,
                &[0.7583841816097057f64, 7.233267996296344f64, 312537357195212.9f64],
            );
        }
        _ => {
            assert!(false);
        }
    }
}

#[test]
fn test_find_roots_quartic_depressed() {
    assert_eq!(
        find_roots_quartic_depressed(F32v(0f32), F32v(0f32), F32v(0f32)),
        Roots::One([F32v(0f32)])
    );
    assert_eq!(
        find_roots_quartic_depressed(F32v(1f32), F32v(1f32), F32v(1f32)),
        Roots::No([])
    );

    match find_roots_quartic_depressed(F64v(1f64), F64v(1f64), F64v(-1f64)) {
        Roots::Two(x) => {
            close_array64(1e-15, &x, &[-1f64, 0.5698402909980532659114f64]);
        }
        _ => {
            assert!(false);
        }
    }

    match find_roots_quartic_depressed(F64v(-10f64), F64v(5f64), F64v(1f64)) {
        Roots::Four(x) => {
            close_array64(
                1e-15,
                &x,
                &[
                    -3.3754294311910698f64,
                    -0.1531811728532153f64,
                    0.67861075799846644f64,
                    2.84999984604581877f64,
                ],
            );
        }
        _ => {
            assert!(false);
        }
    }
}

#[test]
fn test_find_roots_quartic() {
    assert_eq!(
        find_roots_quartic(F32v(1f32), F32v(0f32), F32v(0f32), F32v(0f32), F32v(0f32)),
        Roots::One([F32v(0f32)])
    );
    assert_eq!(
        find_roots_quartic(F64v(1f64), F64v(0f64), F64v(0f64), F64v(0f64), F64v(-1f64)),
        Roots::Two([F64v(-1f64), F64v(1f64)])
    );
    assert_eq!(
        find_roots_quartic(
            F64v(1f64),
            F64v(-10f64),
            F64v(35f64),
            F64v(-50f64),
            F64v(24f64)
        ),
        Roots::Four([F64v(1f64), F64v(2f64), F64v(3f64), F64v(4f64)])
    );

    match find_roots_quartic(F64v(3f64), F64v(5f64), F64v(-5f64), F64v(-5f64), F64v(2f64)) {
        Roots::Four(x) => {
            close_array64(2e-15f64, &x, &[-2f64, -1f64, 0.33333333333333333f64, 1f64]);
        }
        _ => {
            assert!(false);
        }
    }

    match find_roots_quartic(F32v(3f32), F32v(5f32), F32v(-5f32), F32v(-5f32), F32v(2f32)) {
        Roots::Four(x) => {
            assert_eq!(x.len(), 4);
            let expected = [-2f32, -1f32, 0.33333333333333333f32, 1f32];
            for i in 0..4 {
                close32(5e-7, x[i].0, expected[i]);
            }
        }
        _ => {
            assert!(false);
        }
    }
}

#[test]
fn test_find_roots_quartic_tim_luecke() {
    assert_eq!(
        find_roots_quartic(
            F64v(-14.0625f64),
            F64v(-3.75f64),
            F64v(29.75f64),
            F64v(4.0f64),
            F64v(-16.0f64)
        ),
        Roots::Two([F64v(-1.1016116464173349f64), F64v(0.9682783130840016f64)])
    );
    // 32-bit floating point is not accurate enough to solve this case ...
    assert_eq!(
        find_roots_quartic(
            F32v(-14.0625f32),
            F32v(-3.75f32),
            F32v(29.75f32),
            F32v(4.0f32),
            F32v(-16.0f32)
        ),
        Roots::No([])
    );
    // ... even after normalizing
    assert_eq!(
        find_roots_quartic(
            F32v(1f32),
            F32v(-3.75f32 / -14.0625f32),
            F32v(29.75f32 / -14.0625f32),
            F32v(4.0f32 / -14.0625f32),
            F32v(-16.0f32 / -14.0625f32)
        ),
        Roots::No([])
    );
}

#[test]
fn test_find_roots_quartic_triple_root() {
    // (x+3)(3x-1)^3 == 27 x^4 + 54 x^3 - 72 x^2 + 26 x - 3
    assert_eq!(
        find_roots_quartic(
            F64v(27f64),
            F64v(54f64),
            F64v(-72f64),
            F64v(26f64),
            F64v(-3f64)
        ),
        Roots::Two([F64v(-3.0f64), F64v(0.3333333333333333f64)])
    );
    assert_eq!(
        find_roots_quartic(
            F32v(27f32),
            F32v(54f32),
            F32v(-72f32),
            F32v(26f32),
            F32v(-3f32)
        ),
        Roots::Two([F32v(-3.0f32), F32v(0.33333333f32)])
    );
}

#[test]
fn test_find_roots_quartic_quadruple_root() {
    // (7x+2)^4 == 2401 x^4 + 2744 x^3 + 1176 x^2 + 224 x + 16
    assert_eq!(
        find_roots_quartic(
            F64v(2401f64),
            F64v(2744f64),
            F64v(1176f64),
            F64v(224f64),
            F64v(16f64)
        ),
        Roots::One([F64v(-0.2857142857142857f64)])
    );
    // 32-bit floating point is less accurate
    assert_eq!(
        find_roots_quartic(
            F32v(2401f32),
            F32v(2744f32),
            F32v(1176f32),
            F32v(224f32),
            F32v(16f32)
        ),
        Roots::One([F32v(-0.2857143f32)])
    );
}

#[test]
fn sample_bracketed() {
    let sample1 = Sample { x: F64v(0f64), y: F64v(0f64) };
    let sample2 = Sample { x: F64v(1f64), y: F64v(1f64) };
    let sample3 = Sample { x: F64v(1f64), y: F64v(-1f64) };
    let sample4 = Sample { x: F64v(-1f64), y: F64v(0f64) };
    let sample5 = Sample { x: F64v(-1f64), y: F64v(1f64) };
    assert_eq!(true, sample1.is_bracketed_with(&sample2));
    assert_eq!(true, sample1.is_bracketed_with(&sample3));
    assert_eq!(true, sample1.is_bracketed_with(&sample4));
    assert_eq!(true, sample1.is_bracketed_with(&sample5));
    assert_eq!(true, sample2.is_bracketed_with(&sample3));
    assert_eq!(true, sample2.is_bracketed_with(&sample4));
    assert_eq!(false, sample2.is_bracketed_with(&sample5));
    assert_eq!(true, sample3.is_bracketed_with(&sample4));
    assert_eq!(true, sample3.is_bracketed_with(&sample5));
    assert_eq!(true, sample4.is_bracketed_with(&sample5));
}

#[test]
fn root_interval_bracketed() {
    let sut1 = Interval {
        begin: Sample { x: F64v(0f64), y: F64v(0f64) },
        end: Sample { x: F64v(0f64), y: F64v(0f64) },
    };
    let sut2 = Interval {
        begin: Sample { x: F32v(0f32), y: F32v(0f32) },
        end: Sample { x: F32v(1f32), y: F32v(0f32) },
    };
    let sut3 = Interval {
        begin: Sample { x: F64v(0f64), y: F64v(0f64) },
        end: Sample { x: F64v(0f64), y: F64v(1f64) },
    };
    let sut4 = Interval {
        begin: Sample { x: F64v(-1f64), y: F64v(0f64) },
        end: Sample { x: F64v(0f64), y: F64v(0f64) },
    };
    let sut5 = Interval {
        begin: Sample { x: F64v(-1f64), y: F64v(0f64) },
        end: Sample { x: F64v(0f64), y: F64v(1f64) },
    };
    let sut6 = Interval {
        begin: Sample { x: F32v(-1f32), y: F32v(-1f32) },
        end: Sample { x: F32v(0f32), y: F32v(1f32) },
    };
    let sut7 = Interval {
        begin: Sample { x: F64v(0f64), y: F64v(1f64) },
        end: Sample { x: F64v(1f64), y: F64v(-1f64) },
    };
    assert_eq!(true, sut1.is_bracketed());
    assert_eq!(true, sut2.is_bracketed());
    assert_eq!(true, sut3.is_bracketed());
    assert_eq!(true, sut4.is_bracketed());
    assert_eq!(true, sut5.is_bracketed());
    assert_eq!(true, sut6.is_bracketed());
    assert_eq!(true, sut7.is_bracketed());
}

#[test]
fn root_interval_not_bracketed() {
    let sut1 = Interval {
        begin: Sample { x: F64v(0f64), y: F64v(1f64) },
        end: Sample { x: F64v(1f64), y: F64v(1f64) },
    };
    let sut2 = Interval {
        begin: Sample { x: F64v(-1f64), y: F64v(-1f64) },
        end: Sample { x: F64v(1f64), y: F64v(-1f64) },
    };
    assert_eq!(false, sut1.is_bracketed());
    assert_eq!(false, sut2.is_bracketed());
}

#[test]
fn root_interval_middle() {
    let sut1 = Interval {
        begin: Sample { x: F64v(0f64), y: F64v(1f64) },
        end: Sample { x: F64v(2f64), y: F64v(-3f64) },
    };
    let sut2 = Interval {
        begin: Sample { x: F64v(-1f64), y: F64v(0f64) },
        end: Sample { x: F64v(1f64), y: F64v(0f64) },
    };
    assert_eq!(F64v(0.5f64), sut1.middle());
    assert_eq!(F64v(0f64), sut2.middle());
}

#[test]
fn test_find_root_secant() {
    let f = |x: F64v| F64v(1f64) * x * x - F64v(1f64);
    let mut conv = DebugConvergency::new(F64v(1e-15f64), 30);

    conv.reset();
    close64(
        1e-15f64,
        find_root_secant(F64v(10f64), F64v(0f64), &f, &mut conv)
            .ok()
            .unwrap()
            .0,
        1f64,
    );
    assert_eq!(12, conv.get_iter_count());

    conv.reset();
    close64(
        1e-15f64,
        find_root_secant(F64v(-10f64), F64v(0f64), &f, &mut conv)
            .ok()
            .unwrap()
            .0,
        -1f64,
    );
    assert_eq!(12, conv.get_iter_count());

    conv.reset();
    assert_eq!(
        find_root_secant(F64v(10f64), F64v(-10f64), &f, &mut conv),
        Err(SearchError::ZeroDerivative)
    );
    assert_eq!(0, conv.get_iter_count());
}

#[test]
fn test_find_root_regula_falsi() {
    let f = |x: F64v| F64v(1f64) * x * x - F64v(1f64);
    let mut conv = DebugConvergency::new(F64v(1e-15f64), 30);

    conv.reset();
    close64(
        1e-15f64,
        find_root_regula_falsi(F64v(10f64), F64v(0f64), &f, &mut conv)
            .ok()
            .unwrap()
            .0,
        1f64,
    );
    assert_eq!(11, conv.get_iter_count());

    conv.reset();
    close64(
        1e-15f64,
        find_root_regula_falsi(F64v(-10f64), F64v(0f64), &f, &mut conv)
            .ok()
            .unwrap()
            .0,
        -1f64,
    );
    assert_eq!(11, conv.get_iter_count());

    conv.reset();
    assert_eq!(
        find_root_regula_falsi(F64v(10f64), F64v(20f64), &f, &mut conv),
        Err(SearchError::NoBracketing)
    );
    let result = find_root_regula_falsi(F64v(10f64), F64v(20f64), &f, &mut conv);
    assert_eq!(
        result.unwrap_err().description(),
        "Initial values do not bracket zero"
    );
    assert_eq!(0, conv.get_iter_count());
}

#[test]
fn test_find_root_newton_raphson() {
    let f = |x: F64v| F64v(1f64) * x * x - F64v(1f64);
    let d = |x: F64v| F64v(2f64) * x;
    let mut conv = DebugConvergency::new(F64v(1e-15f64), 30);

    conv.reset();
    close64(
        1e-15f64,
        find_root_newton_raphson(F64v(10f64), &f, &d, &mut conv)
            .ok()
            .unwrap()
            .0,
        1f64,
    );
    assert_eq!(8, conv.get_iter_count());

    conv.reset();
    close64(
        1e-15f64,
        find_root_newton_raphson(F64v(-10f64), &f, &d, &mut conv)
            .ok()
            .unwrap()
            .0,
        -1f64,
    );
    assert_eq!(8, conv.get_iter_count());
}

#[test]
fn test_find_root_brent() {
    let f = |x: F64v| F64v(1f64) * x * x - F64v(1f64);
    let mut conv = DebugConvergency::new(F64v(1e-15f64), 30);

    conv.reset();
    close64(
        1e-15f64,
        find_root_brent(F64v(10f64), F64v(0f64), &f, &mut conv)
            .ok()
            .unwrap()
            .0,
        1f64,
    );
    assert_eq!(10, conv.get_iter_count());

    conv.reset();
    close64(
        1e-15f64,
        find_root_brent(F64v(-10f64), F64v(0f64), &f, &mut conv)
            .ok()
            .unwrap()
            .0,
        -1f64,
    );
    assert_eq!(10, conv.get_iter_count());

    conv.reset();
    assert_eq!(
        find_root_brent(F64v(10f64), F64v(20f64), &f, &mut conv),
        Err(SearchError::NoBracketing)
    );
    assert_eq!(0, conv.get_iter_count());
}

#[test]
fn test_find_root_brent_simple() {
    let f = |x: F64v| F64v(1f64) * x * x - F64v(1f64);

    close64(
        1e-15f64,
        find_root_brent(F64v(10f64), F64v(0f64), &f, &mut F64v(1e-15f64))
            .ok()
            .unwrap()
            .0,
        1f64,
    );

    close64(
        1e-15f64,
        find_root_brent(F64v(-10f64), F64v(0f64), &f, &mut F64v(1e-15f64))
            .ok()
            .unwrap()
            .0,
        -1f64,
    );

    assert_eq!(
        find_root_brent(F64v(10f64), F64v(20f64), &f, &mut F64v(1e-15f64)),
        Err(SearchError::NoBracketing)
    );
}

#[test]
fn test_find_root_inverse_quadratic() {
    let f = |x: F64v| F64v(1f64) * x * x - F64v(1f64);
    let mut conv = DebugConvergency::new(F64v(1e-15f64), 30);

    conv.reset();
    close64(
        1e-15f64,
        find_root_inverse_quadratic(F64v(10f64), F64v(0f64), &f, &mut conv)
            .ok()
            .unwrap()
            .0,
        1f64,
    );
    assert_eq!(0, conv.get_iter_count());

    conv.reset();
    close64(
        1e-15f64,
        find_root_inverse_quadratic(F64v(-10f64), F64v(0f64), &f, &mut conv)
            .ok()
            .unwrap()
            .0,
        -1f64,
    );
    assert_eq!(0, conv.get_iter_count());

    conv.reset();
    assert_eq!(
        find_root_inverse_quadratic(F64v(10f64), F64v(20f64), &f, &mut conv),
        Err(SearchError::NoBracketing)
    );
    let result = find_root_inverse_quadratic(F64v(10f64), F64v(20f64), &f, &mut conv);
    assert_eq!(
        result.unwrap_err().description(),
        "Initial values do not bracket zero"
    );
    assert_eq!(0, conv.get_iter_count());
}

#[test]
fn test_from_three_points() {
    assert_eq!(
        Parabola {
            a: F64v(1f64),
            b: F64v(0f64),
            c: F64v(-1f64)
        },
        Parabola::from_three_points(
            &Sample { x: F64v(-10f64), y: F64v(99f64) },
            &Sample { x: F64v(-2f64), y: F64v(3f64) },
            &Sample { x: F64v(0f64), y: F64v(-1f64) }
        )
    );
    assert_eq!(
        Parabola {
            a: F64v(1f64),
            b: F64v(0f64),
            c: F64v(-1f64)
        },
        Parabola::from_three_points(
            &Sample { x: F64v(10f64), y: F64v(99f64) },
            &Sample { x: F64v(2f64), y: F64v(3f64) },
            &Sample { x: F64v(0f64), y: F64v(-1f64) }
        )
    );
    assert_eq!(
        Parabola {
            a: F64v(1f64),
            b: F64v(0f64),
            c: F64v(-1f64)
        },
        Parabola::from_three_points(
            &Sample { x: F64v(-3f64), y: F64v(8f64) },
            &Sample { x: F64v(2f64), y: F64v(3f64) },
            &Sample { x: F64v(0f64), y: F64v(-1f64) }
        )
    );
}

#[test]
fn test_find_roots_sturm() {
    let polynom = &[F64v(-2f64), F64v(1f64)];
    let roots = find_roots_sturm(polynom, &mut F64v(1e-6f64));
    assert_eq!(roots, [Ok(F64v(1f64))]);
}

#[test]
fn test_polynom_value() {
    let polynom = [F64v(1f64), F64v(-2f64), F64v(1f64)];
    assert_eq!(F64v(1f64), value(&polynom, &F64v(0f64)));
    assert_eq!(F64v(1f64), value(&polynom, &F64v(1f64)));
    assert_eq!(F64v(3f64), value(&polynom, &F64v(-1f64)));
}

#[test]
fn test_polynom_value_and_derivative() {
    let polynom = [F64v(1f64), F64v(-2f64), F64v(1f64)];
    assert_eq!(
        ValueAndDerivative {
            value: Sample { x: F64v(0f64), y: F64v(1f64) },
            derivative: F64v(-2f64)
        },
        value_and_derivative(&polynom, &F64v(0f64))
    );
    assert_eq!(
        ValueAndDerivative {
            value: Sample { x: F64v(1f64), y: F64v(1f64) },
            derivative: F64v(3f64)
        },
        value_and_derivative(&polynom, &F64v(1f64))
    );
    assert_eq!(
        ValueAndDerivative {
            value: Sample { x: F64v(-1f64), y: F64v(3f64) },
            derivative: F64v(-1f64)
        },
        value_and_derivative(&polynom, &F64v(-1f64))
    );
}

#[test]
fn test_derivative_polynom_3() {
    // x^3 + 1*x^2 - 2*x^1 + 1*x^0 => 3*x^2 + 2*x^1 - 2*x^0 => x^2 + (2/3)*x^1 - (2/3)*x^0
    let polynom = [F64v(1f64), F64v(-2f64), F64v(1f64)];
    let derivative = derivative_polynom(&polynom);
    close_array64(1e-15, &derivative, &[2f64 / 3f64, -2f64 / 3f64]);
}

#[test]
fn test_derivative_polynom_5() {
    // x^5 - 2*x^4 - 3*x^3 + 4*x^2 + 0*x^1 + 0*x^0 =>
    // x^4 - (8/5)*x^3 - (9/5)*x^2 + (8/5)*x^1 + 0*x^0
    let polynom = [F64v(-2f64), F64v(-3f64), F64v(4f64), F64v(0f64), F64v(0f64)];
    let derivative = derivative_polynom(&polynom);
    close_array64(1e-15, &derivative, &[-8f64 / 5f64, -9f64 / 5f64, 8f64 / 5f64, 0f64]);
}

#[test]
fn test_quadratic_double_root_merges() {
    // x^2 = 0 has the single root 0: the double root is reported once.
    assert_eq!(
        find_roots_quadratic(F64v(1f64), F64v(0f64), F64v(0f64)),
        Roots::One([F64v(0f64)])
    );
}

#[test]
fn test_degenerate_routing() {
    // A zero leading coefficient routes each solver to the one below it.
    let (b, c, d, e) = (F64v(0.25f64), F64v(-3f64), F64v(2.5f64), F64v(-0.75f64));
    assert_eq!(
        find_roots_quadratic(F64v(0f64), b, c),
        find_roots_linear(b, c)
    );
    assert_eq!(
        find_roots_cubic(F64v(0f64), b, c, d),
        find_roots_quadratic(b, c, d)
    );
    assert_eq!(
        find_roots_quartic(F64v(0f64), b, c, d, e),
        find_roots_cubic(b, c, d, e)
    );
}

#[test]
fn test_roots_ascending_and_counted() {
    // Roots come back sorted in increasing order, never more of them than
    // the degree of the equation.
    let quartic = find_roots_quartic(
        F64v(1f64),
        F64v(-10f64),
        F64v(35f64),
        F64v(-50f64),
        F64v(24f64),
    );
    let xs = roots_as_vec64(&quartic);
    assert!(xs.len() <= 4);
    for i in 1..xs.len() {
        assert!(xs[i - 1].0 < xs[i].0);
    }
    let cubic = find_roots_cubic(F64v(2f64), F64v(1f64), F64v(-4f64), F64v(1f64));
    let xs = roots_as_vec64(&cubic);
    assert!(xs.len() <= 3);
    for i in 1..xs.len() {
        assert!(xs[i - 1].0 < xs[i].0);
    }
}

#[test]
fn test_root_validity() {
    // Every reported root solves its polynomial to working precision.
    let coeffs = [3f64, 5f64, -5f64, -5f64, 2f64];
    let roots = find_roots_quartic(
        F64v(coeffs[0]),
        F64v(coeffs[1]),
        F64v(coeffs[2]),
        F64v(coeffs[3]),
        F64v(coeffs[4]),
    );
    let xs = roots_as_vec64(&roots);
    assert_eq!(xs.len(), 4);
    for x in &xs {
        let x = x.0;
        let y = ((((coeffs[0] * x) + coeffs[1]) * x + coeffs[2]) * x + coeffs[3]) * x + coeffs[4];
        assert!(y.abs() < 1e-13, "residual {} too large at root {}", y, x);
    }
    let roots = find_roots_cubic_depressed(F64v(-2f64), F64v(2f64));
    for x in 0..roots.len() {
        let x = roots.get(x).0;
        let y = x * x * x - 2f64 * x + 2f64;
        assert!(y.abs() < 1e-9, "residual {} too large at root {}", y, x);
    }
}

#[test]
fn test_no_convergency_error() {
    // An iteration limit too small for the search reports NoConvergency.
    let f = |x: F64v| F64v(1f64) * x * x - F64v(1f64);
    let mut conv = SimpleConvergency { eps: F64v(1e-15f64), max_iter: 2 };
    assert_eq!(
        find_root_secant(F64v(10f64), F64v(0f64), &f, &mut conv),
        Err(SearchError::NoConvergency)
    );
}

#[test]
fn test_trait_cbrt_negative() {
    // The trait's cubic root accepts negative arguments.
    let r = F64v(-8f64).cbrt();
    close64(1e-14, r.0, -2f64);
    let r = F64v(8f64).cbrt();
    close64(1e-14, r.0, 2f64);
    assert_eq!(F64v(0f64).cbrt(), F64v(0f64));
}

#[test]
fn test_sturm_empty_and_quartic() {
    // No coefficients, no roots.
    let empty: [F64v; 0] = [];
    assert_eq!(find_roots_sturm(&empty, &mut F64v(1e-6f64)).len(), 0);
    // Degree four still answers in closed form.
    let polynom = [F64v(-10f64), F64v(35f64), F64v(-50f64), F64v(24f64)];
    let roots = find_roots_sturm(&polynom, &mut F64v(1e-6f64));
    assert_eq!(
        roots,
        [
            Ok(F64v(1f64)),
            Ok(F64v(2f64)),
            Ok(F64v(3f64)),
            Ok(F64v(4f64))
        ]
    );
}

#[test]
fn test_sturm_degree_five() {
    // x^5 - 5x^3 + 4x = x(x^2-1)(x^2-4): the search by monotonous
    // intervals recovers the roots -2, -1, 0 and 1 (the last root lies
    // beyond the last derivative root on the positive side, which this
    // search does not cover).
    let polynom = [F64v(0f64), F64v(-5f64), F64v(0f64), F64v(4f64), F64v(0f64)];
    let mut conv = SimpleConvergency { eps: F64v(1e-9f64), max_iter: 200 };
    let roots = find_roots_sturm(&polynom, &mut conv);
    assert_eq!(roots.len(), 4);
    let expected = [-2f64, -1f64, 0f64, 1f64];
    for i in 0..4 {
        match &roots[i] {
            Ok(x) => close64(1e-7, x.0, expected[i]),
            Err(e) => panic!("unexpected failure {:?}", e),
        }
    }
}

#[test]
fn test_quartic_depressed_zero_constant() {
    // x^4 + x^2 + x = x*(x^3 + x + 1): the root 0 joins the real root of
    // the cubic factor.
    match find_roots_quartic_depressed(F64v(1f64), F64v(1f64), F64v(0f64)) {
        Roots::Two(x) => {
            close_array64(1e-9, &x, &[-0.6823278038280193f64, 0f64]);
        }
        _ => {
            assert!(false);
        }
    }
}

#[test]
fn test_biquadratic_zero_constant() {
    // x^4 - x^2 = x^2*(x^2 - 1): the root 0 joins -1 and 1.
    assert_eq!(
        find_roots_biquadratic(F64v(1f64), F64v(-1f64), F64v(0f64)),
        Roots::Three([F64v(-1f64), F64v(0f64), F64v(1f64)])
    );
}

#[test]
fn test_sturm_low_degrees() {
    // Degree one and degree three delegate to the closed-form solvers.
    let linear = [F64v(-3f64)];
    assert_eq!(
        find_roots_sturm(&linear, &mut F64v(1e-6f64)),
        [Ok(F64v(3f64))]
    );
    // x^3 - x = x*(x-1)*(x+1)
    let cubic = [F64v(0f64), F64v(-1f64), F64v(0f64)];
    let roots = find_roots_sturm(&cubic, &mut F64v(1e-6f64));
    assert_eq!(roots.len(), 3);
    let expected = [-1f64, 0f64, 1f64];
    for i in 0..3 {
        match &roots[i] {
            Ok(x) => close64(1e-12, x.0, expected[i]),
            Err(e) => panic!("unexpected failure {:?}", e),
        }
    }
}

#[test]
fn test_newton_zero_derivative_restart() {
    // The derivative vanishes at the starting point 0; the search shifts
    // the start by one and still finds the root 1 of x^2 - 1.
    let f = |x: F64v| F64v(1f64) * x * x - F64v(1f64);
    let d = |x: F64v| F64v(2f64) * x;
    let mut conv = SimpleConvergency { eps: F64v(1e-15f64), max_iter: 30 };
    assert_eq!(
        find_root_newton_raphson(F64v(0f64), &f, &d, &mut conv),
        Ok(F64v(1f64))
    );
}

#[test]
fn test_cubic_multiple_roots() {
    // 2*(x-1)^3 = 2x^3 - 6x^2 + 6x - 2 has the triple root 1.
    assert_eq!(
        find_roots_cubic(F64v(2f64), F64v(-6f64), F64v(6f64), F64v(-2f64)),
        Roots::One([F64v(1f64)])
    );
    // 2*(x-1)^2*(x+1) = 2x^3 - 2x^2 - 2x + 2 has the double root 1 and
    // the simple root -1.
    assert_eq!(
        find_roots_cubic(F64v(2f64), F64v(-2f64), F64v(-2f64), F64v(2f64)),
        Roots::Two([F64v(-1f64), F64v(1f64)])
    );
}

#[test]
fn test_quartic_complex_double_roots() {
    // (x^2 - 2x + 2)^2 = x^4 - 4x^3 + 8x^2 - 8x + 4 has two complex
    // conjugate double roots and no real root.
    assert_eq!(
        find_roots_quartic(
            F64v(1f64),
            F64v(-4f64),
            F64v(8f64),
            F64v(-8f64),
            F64v(4f64)
        ),
        Roots::No([])
    );
}
