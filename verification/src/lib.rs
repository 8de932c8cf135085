//! A columnar, null-aware data engine: typed chunked storage, a
//! broadcasting comparison engine with strict and missing-aware null
//! semantics, structural comparators for nested dtypes, and three-valued
//! boolean reductions.
//!
//! The storage substrate is [`chunked`]: a named, typed sequence of
//! optional values split across chunks, whose abstract value — and the
//! subject of every contract — is the flattened sequence of its cells.
//! [`element`] defines the per-kind equality and ordering kernels the
//! engine in [`compare`] is generic over; [`nested`] extends them to list
//! and fixed-size-array cells, and [`structs`] compares struct columns
//! field by field. [`series`] is the closed dispatch layer over every
//! supported column kind, [`datetime`] the logical-over-physical wrappers,
//! and [`laws`] proves the engine's general properties once over the
//! shared comparison specs.

pub mod dtype;
pub mod error;
pub mod element;
pub mod chunked;
pub mod compare;
pub mod boolean;
pub mod null;
pub mod string;
pub mod nested;
pub mod datetime;
pub mod structs;
pub mod series;
pub mod laws;
