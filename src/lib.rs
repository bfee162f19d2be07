//! Building blocks of a stream generator of random samples.
//!
//! - `format`: the eighteen fixed-width binary formats and their names.
//! - `bytes`: numbers as bytes in either byte order.
//! - `ieee`: a double's bit pattern converted to an integer, rounding toward
//!   zero and saturating at a range.
//! - `encode`: a value to emit as the bytes of a binary format.
//! - `stream`: the decisions of the generation loop: which draws are
//!   discarded, when the requested count is reached, and what the
//!   accumulator of a random walk holds.
pub mod bytes;
pub mod encode;
pub mod format;
pub mod ieee;
pub mod stream;
