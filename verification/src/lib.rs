//! A set of functions to find real roots of numerical equations.
//!
//! The crate offers analytical solvers for polynomial equations up to the
//! fourth degree and iterative approximation methods for arbitrary
//! one-variable functions. Only real roots are calculated, and a multiple
//! root is reported once.
//!
//! Every solver is generic over [`FloatType`], an abstraction of the working
//! floating-point precision. The contracts of the solvers are stated over
//! the abstract operations of that trait, so everything proved here holds
//! for any implementation of the trait that meets its method contracts.

mod analytical;
mod float;
mod numerical;

pub use crate::float::FloatType;

pub use crate::analytical::biquadratic::find_roots_biquadratic;
pub use crate::analytical::cubic::find_roots_cubic;
pub use crate::analytical::cubic_depressed::find_roots_cubic_depressed;
pub use crate::analytical::cubic_normalized::find_roots_cubic_normalized;
pub use crate::analytical::linear::find_roots_linear;
pub use crate::analytical::quadratic::find_roots_quadratic;
pub use crate::analytical::quartic::find_roots_quartic;
pub use crate::analytical::quartic_depressed::find_roots_quartic_depressed;
pub use crate::analytical::roots::Roots;

pub use crate::numerical::brent::find_root_brent;
pub use crate::numerical::debug_convergency::DebugConvergency;
pub use crate::numerical::inverse_quadratic::find_root_inverse_quadratic;
pub use crate::numerical::inverse_quadratic::Parabola;
pub use crate::numerical::newton_raphson::find_root_newton_raphson;
pub use crate::numerical::polynom::derivative_polynom;
pub use crate::numerical::polynom::find_roots_sturm;
pub use crate::numerical::polynom::value;
pub use crate::numerical::polynom::value_and_derivative;
pub use crate::numerical::polynom::ValueAndDerivative;
pub use crate::numerical::regula_falsi::find_root_regula_falsi;
pub use crate::numerical::secant::find_root_secant;
pub use crate::numerical::simple_convergency::SimpleConvergency;
pub use crate::numerical::Convergency;
pub use crate::numerical::Interval;
pub use crate::numerical::Sample;
pub use crate::numerical::SearchError;
