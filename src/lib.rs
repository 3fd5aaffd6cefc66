//! A fixed-width, zero-padded decimal counter and the routing of its digits
//! onto a pair of two-character LED segments.
pub mod compose;
pub mod counter;
pub mod decimal;
pub mod pulse;
pub mod writer;
