//! A bulk buffer for nullable, variable-length character data, laid out as a
//! contiguous region of fixed-stride rows, together with a per-row indicator
//! array that records null, exact-length and truncated states.

pub mod column;
pub mod element;
pub mod indicator;
mod sliceops;
pub mod view;
pub mod writer;
