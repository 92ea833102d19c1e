//! A streaming visitor protocol for structured values.
//!
//! A producer describes a value as a [`Value`] (or through [`Visitable`]), and a
//! consumer implements [`Visit`]. Visiting brackets every composite value with
//! an open and a close call, and stops at the first error the visitor returns.
//!
//! - `visitor`: the `Visit` trait, the error type, the events a visitor
//!   receives, and the fail-fast relation that every walk satisfies; the
//!   bracketing helpers of `VisitExt`.
//! - `value`: the `Value` carrier, its trace, its walk, and the `Visitable`
//!   trait.
//! - `adapters`: how integers, booleans, strings and sequences describe
//!   themselves.
//! - `ordered`: ordered sets and maps, visited in ascending order.
//! - `hashed`: hash sets and maps, described in their own order.
//! - `recorder`: a visitor that keeps the calls it receives.
//! - `laws`: properties of the protocol that follow from the contracts.

pub mod adapters;
pub mod hashed;
pub mod laws;
pub mod ordered;
pub mod recorder;
pub mod value;
pub mod visitor;

pub use value::{Value, Visitable};
pub use visitor::{Error, Visit, VisitExt, VisitResult};
