//! The vectorized execution core of an analytical SQL engine: a columnar
//! type system, a polymorphic scalar-function dispatch framework, and a
//! group-by aggregation engine that encodes grouping keys into one of
//! several specialized representations chosen by key width.
//!
//! Everything here is a pure, synchronous transform over already-resident
//! columnar data; parsing, planning, storage and transport are external
//! collaborators reached through the thin layer around this crate.

pub mod arithmetic;
pub mod binary;
pub mod block;
pub mod coercion;
pub mod column;
pub mod comparison;
pub mod conditional;
pub mod contain;
pub mod convert;
pub mod data_type;
pub mod error;
pub mod factory;
pub mod function_common;
pub mod group_by;
pub mod monotonicity;
pub mod sign;
pub mod type_id;
pub mod tz;
pub mod user;
pub mod value;
