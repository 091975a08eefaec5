//! A small ray-tracing kernel built on exact rational arithmetic.
//!
//! Scalars are rationals with 64-bit numerator and denominator, so every
//! arithmetic step is exact and its result is pinned down in the contracts.
//! Square roots, which are generally irrational, are computed as rational
//! approximations with a proved two-sided bracket.

pub mod matrix;
pub mod rat;
pub mod rays;
pub mod transform;
pub mod tuple;
