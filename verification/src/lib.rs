//! Freivalds' probabilistic check that a claimed matrix product C equals A x B
//! over a prime field, in O(k * n^2) time for k probe vectors.

pub mod field;
pub mod lemmas;
pub mod matrix;
pub mod checker;

pub use field::Fe;
pub use field::MODULUS;
pub use matrix::Matrix;
pub use checker::check_matrix_dimensions;
pub use checker::Freivald;
pub use checker::FreivaldError;
