//! Statement descriptions and the type-checked binding of arguments to their parameters.

pub mod args;
pub mod describe;
