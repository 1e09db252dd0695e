//! A value-to-syntax framework: values describe themselves as source-level
//! token trees that, when compiled, reconstruct an equivalent value, together
//! with an interpolation algebra that mixes known values with deferred
//! runtime expressions inside the same generated tree.

pub mod bake;
pub mod derivation;
pub mod flatten;
pub mod functions;
pub mod grammar;
pub mod interpolation;
pub mod samples;
pub mod text;
pub mod tokens;
pub mod tuple_flatten;
pub mod tuples;
