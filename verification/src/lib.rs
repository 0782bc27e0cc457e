//! Traits and utilities for constant-time cryptographic implementations,
//! with contracts proved by Verus.
//!
//! A [`Mask`] carries a choice (`0` or `1`) that is computed and consumed
//! without branching on secret data.  The traits describe constant-time
//! equality, conditional assignment, selection, negation and swapping.
pub mod mask;

pub use mask::{noop, Mask};
pub mod equal;

pub use equal::{byte_is_nonzero, bytes_equal, slices_equal, Equal};
pub mod assign;

pub use assign::{ConditionallyAssignable, ConditionallySwappable};
pub mod select;

pub use select::{ConditionallyNegatable, ConditionallySelectable, IsNonZero};
