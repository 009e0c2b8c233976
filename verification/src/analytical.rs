pub mod biquadratic;
pub mod cubic;
pub mod cubic_depressed;
pub mod cubic_normalized;
pub mod linear;
pub mod quadratic;
pub mod quartic;
pub mod quartic_depressed;
pub mod roots;
