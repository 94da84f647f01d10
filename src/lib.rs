//! A dynamic array of `i32` values over a fixed-size buffer that it
//! reallocates itself, with a visible doubling and halving policy.
pub mod capacity;
pub mod laws;
pub mod vector;

pub use vector::Vector;
