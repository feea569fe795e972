//! Finds the extremal 14-digit sequences (digits 1..=9) on which a fixed
//! base-26 folding transform evaluates to zero.
//!
//! The crate has three parts: the accumulator transform itself
//! ([`transform`]), the closed-form digit predicate that characterises its
//! zeroes ([`predicate`]), and the descending odometer search that finds the
//! largest satisfying sequence ([`search`]).

pub mod predicate;
pub mod search;
pub mod transform;
