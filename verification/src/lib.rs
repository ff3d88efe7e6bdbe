//! Small verified building blocks: a number-guessing round whose every
//! outcome is fixed by its input, and a few value-returning helpers.

pub mod functions;
pub mod guess;
pub mod number;
pub mod ownership;
pub mod phase;
pub mod text;
