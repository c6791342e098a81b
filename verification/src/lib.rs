//! Random arithmetic-exercise generation: an expression tree with an exact
//! evaluator and a minimally parenthesized printer, interval arithmetic for
//! narrowing candidate value ranges, a pluggable validation policy, and two
//! generators (generate-and-test and constraint-propagating) that produce
//! expressions whose result lands in a requested range.

pub mod generate;
pub mod interval;
pub mod math;
pub mod paint;
pub mod render;
pub mod rng;
