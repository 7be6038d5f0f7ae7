//! Generation identity and memoization for parameterized components, together
//! with the bit-level signal model and integer geometry that generators use.

pub mod generation;
pub mod geometry;
pub mod naming;
pub mod signal;
