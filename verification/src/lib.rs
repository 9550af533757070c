//! A decaying, interference-based associative memory engine.
//!
//! Content is held as damped waves on a three-dimensional grid. Attention
//! samples the grid, keeps the waves that have not faded and follows them;
//! an arbitrator decides which sensor channels are worth processing; a
//! catalogue names the curves by which memories are forgotten.
//!
//! Wave parameters are IEEE-754 single-precision numbers, carried here as
//! their bit patterns ([`scalar::Scalar`]). Ordering, clamping and
//! truncating such numbers is decided on the bit patterns. Adding,
//! multiplying and the like is left to an arithmetic that the caller hands
//! in ([`arithmetic`]): the engine says which formula a result is a value
//! of, and the caller's arithmetic says what that value is. Time enters as
//! readings of the caller's clock ([`timespan::TimeSpan`]).

pub mod scalar;
pub mod arithmetic;
pub mod text;
pub mod timespan;
pub mod wave;
pub mod consciousness;
pub mod simd;
pub mod conversation;
