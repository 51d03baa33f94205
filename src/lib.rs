//! Principal components by gradient ascent of the projected variance,
//! with deflation between rounds.
//!
//! The algorithm is written over any number type that implements [`Real`].
//! Each arithmetic operation of that trait is tied to an abstract spec
//! function, and the contracts state every result as the exact expression
//! of those operations that it evaluates: the projection, the sample
//! variance, the forward-difference gradient, each ascent step and its
//! stopping rule, the deflation, and every column of the extracted
//! components. They also fix every shape, and the configuration check of
//! `extract_components`. Laws of real arithmetic (a normalized vector has
//! norm one) are outside what the trait states.
mod matrix;
mod pca;
mod scalar;
mod vector;

pub use matrix::Matrix;
pub use pca::{
    deflate, extract_components, find_direction, gradient, project, projected_variance,
    sample_variance, Direction, PcaError, Stop, TOO_MANY_COMPONENTS,
};
pub use scalar::Real;
pub use vector::{dot, norm, normalize};
