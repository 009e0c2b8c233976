use vstd::pervasive::arbitrary;
use vstd::prelude::*;

verus! {

/// Generic type that lists the operations and constants needed by the
/// solvers. It abstracts a real floating-point type of some working
/// precision.
///
/// The specification side of the trait is deliberately abstract. `key`
/// embeds the values into the mathematical integers so that contracts can
/// speak about the ordering of values; every comparison method is specified
/// through it. Each arithmetic operation and constant has a spec
/// counterpart whose default body leaves its value unspecified, and the
/// executable method promises to return exactly that value, which models
/// the operations as deterministic functions of their arguments. An
/// implementation provides the executable methods alone.
///
/// Implementations live outside the verified library (a floating-point
/// type cannot appear here) and are trusted to meet these contracts. An
/// implementation must choose comparisons that form a total order on the
/// values it feeds to the solvers: the order embedding has no room for
/// incomparable values such as an IEEE NaN.
///
/// The implementation must also make `cbrt` meaningful for negative
/// arguments (the default body below does, given a `powf` that handles
/// non-negative bases), and the small-integer constants must be exact in
/// the working precision.
pub trait FloatType: Sized + Copy {
    /// Order embedding of the values into the integers: `a` is below `b`
    /// exactly when `a.key() < b.key()`, and two values are equal as
    /// numbers exactly when their keys agree.
    open spec fn key(self) -> int {
        arbitrary()
    }

    /// What the addition `self + other` returns.
    open spec fn add_spec(self, other: Self) -> Self {
        arbitrary()
    }

    /// What the subtraction `self - other` returns.
    open spec fn sub_spec(self, other: Self) -> Self {
        arbitrary()
    }

    /// What the multiplication `self * other` returns.
    open spec fn mul_spec(self, other: Self) -> Self {
        arbitrary()
    }

    /// What the division `self / other` returns.
    open spec fn div_spec(self, other: Self) -> Self {
        arbitrary()
    }

    /// What the negation `-self` returns.
    open spec fn neg_spec(self) -> Self {
        arbitrary()
    }

    /// What the square root of `self` returns.
    open spec fn sqrt_spec(self) -> Self {
        arbitrary()
    }

    /// What the arc cosine of `self` returns.
    open spec fn acos_spec(self) -> Self {
        arbitrary()
    }

    /// What the cosine of `self` returns.
    open spec fn cos_spec(self) -> Self {
        arbitrary()
    }

    /// What the sine of `self` returns.
    open spec fn sin_spec(self) -> Self {
        arbitrary()
    }

    /// What the arc tangent of `self` returns.
    open spec fn atan_spec(self) -> Self {
        arbitrary()
    }

    /// What the absolute value of `self` returns.
    open spec fn abs_spec(self) -> Self {
        arbitrary()
    }

    /// What `self` raised to the power `n` returns.
    open spec fn powf_spec(self, n: Self) -> Self {
        arbitrary()
    }

    /// The constant 0.
    open spec fn zero_spec() -> Self {
        arbitrary()
    }

    /// The constant 1.
    open spec fn one_spec() -> Self {
        arbitrary()
    }

    /// The constant 2.
    open spec fn two_spec() -> Self {
        arbitrary()
    }

    /// The constant 3.
    open spec fn three_spec() -> Self {
        arbitrary()
    }

    /// The constant 4.
    open spec fn four_spec() -> Self {
        arbitrary()
    }

    /// The constant 1/3.
    open spec fn one_third_spec() -> Self {
        arbitrary()
    }

    /// The constant pi.
    open spec fn pi_spec() -> Self {
        arbitrary()
    }

    /// The constant 2*pi/3.
    open spec fn two_third_pi_spec() -> Self {
        arbitrary()
    }

    /// The value of the small integer `v` in the working precision.
    open spec fn from_i16_spec(v: i16) -> Self {
        arbitrary()
    }

    fn zero() -> (r: Self)
        ensures
            r == Self::zero_spec(),
    ;

    fn one() -> (r: Self)
        ensures
            r == Self::one_spec(),
    ;

    fn two() -> (r: Self)
        ensures
            r == Self::two_spec(),
    ;

    fn three() -> (r: Self)
        ensures
            r == Self::three_spec(),
    ;

    fn four() -> (r: Self)
        ensures
            r == Self::four_spec(),
    ;

    fn one_third() -> (r: Self)
        ensures
            r == Self::one_third_spec(),
    ;

    fn pi() -> (r: Self)
        ensures
            r == Self::pi_spec(),
    ;

    fn two_third_pi() -> (r: Self)
        ensures
            r == Self::two_third_pi_spec(),
    ;

    /// Conversion from a small integer constant.
    fn from_i16(v: i16) -> (r: Self)
        ensures
            r == Self::from_i16_spec(v),
    ;

    fn five() -> (r: Self)
        ensures
            r == Self::two_spec().add_spec(Self::three_spec()),
    {
        Self::two().add(Self::three())
    }

    fn nine() -> (r: Self)
        ensures
            r == Self::three_spec().mul_spec(Self::three_spec()),
    {
        Self::three().mul(Self::three())
    }

    fn twenty_seven() -> (r: Self)
        ensures
            r == Self::three_spec().mul_spec(Self::three_spec()).mul_spec(Self::three_spec()),
    {
        Self::nine().mul(Self::three())
    }

    fn add(self, other: Self) -> (r: Self)
        ensures
            r == self.add_spec(other),
    ;

    fn sub(self, other: Self) -> (r: Self)
        ensures
            r == self.sub_spec(other),
    ;

    fn mul(self, other: Self) -> (r: Self)
        ensures
            r == self.mul_spec(other),
    ;

    fn div(self, other: Self) -> (r: Self)
        ensures
            r == self.div_spec(other),
    ;

    fn neg(self) -> (r: Self)
        ensures
            r == self.neg_spec(),
    ;

    fn sqrt(self) -> (r: Self)
        ensures
            r == self.sqrt_spec(),
    ;

    fn acos(self) -> (r: Self)
        ensures
            r == self.acos_spec(),
    ;

    fn cos(self) -> (r: Self)
        ensures
            r == self.cos_spec(),
    ;

    fn sin(self) -> (r: Self)
        ensures
            r == self.sin_spec(),
    ;

    fn atan(self) -> (r: Self)
        ensures
            r == self.atan_spec(),
    ;

    fn abs(self) -> (r: Self)
        ensures
            r == self.abs_spec(),
    ;

    fn powf(self, n: Self) -> (r: Self)
        ensures
            r == self.powf_spec(n),
    ;

    /// The cubic root, defined as pow(x, 1/3) extended to negative
    /// arguments by odd symmetry.
    fn cbrt(self) -> (r: Self)
        ensures
            r == (if self.key() < Self::zero_spec().key() {
                self.neg_spec().powf_spec(Self::one_third_spec()).neg_spec()
            } else {
                self.powf_spec(Self::one_third_spec())
            }),
    {
        if self.lt(Self::zero()) {
            self.neg().powf(Self::one_third()).neg()
        } else {
            self.powf(Self::one_third())
        }
    }

    /// The comparison `self < other`.
    fn lt(self, other: Self) -> (r: bool)
        ensures
            r == (self.key() < other.key()),
    ;

    /// The comparison `self <= other`.
    fn le(self, other: Self) -> (r: bool)
        ensures
            r == (self.key() <= other.key()),
    ;

    /// The comparison `self > other`.
    fn gt(self, other: Self) -> (r: bool)
        ensures
            r == (self.key() > other.key()),
    ;

    /// The comparison `self >= other`.
    fn ge(self, other: Self) -> (r: bool)
        ensures
            r == (self.key() >= other.key()),
    ;

    /// The comparison `self == other`, as equality of numbers, which an
    /// implementation may make coarser than equality of representations.
    fn eq_val(self, other: Self) -> (r: bool)
        ensures
            r == (self.key() == other.key()),
    ;
}

/// The value `cbrt` returns: pow(x, 1/3) extended to negative arguments by
/// odd symmetry.
pub open spec fn spec_cbrt<F: FloatType>(x: F) -> F {
    if x.key() < F::zero_spec().key() {
        x.neg_spec().powf_spec(F::one_third_spec()).neg_spec()
    } else {
        x.powf_spec(F::one_third_spec())
    }
}

/// The value `five` returns.
pub open spec fn spec_five<F: FloatType>() -> F {
    F::two_spec().add_spec(F::three_spec())
}

/// The value `twenty_seven` returns.
pub open spec fn spec_twenty_seven<F: FloatType>() -> F {
    F::three_spec().mul_spec(F::three_spec()).mul_spec(F::three_spec())
}

} // verus!
