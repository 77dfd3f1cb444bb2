//! A row-binding and schema-validation core: turns ordered sequences of
//! named, typed cells into strongly typed record values.
//!
//! A [`descriptor::Descriptor`] describes a record type's schema: how many
//! physical columns it consumes and how each field binds. The validator
//! checks a physical column list against a descriptor before any binding and
//! explains failures with a name-aligned diff report; the binder walks a
//! row's cells by position, recursing into nested records, and merges
//! consecutive rows that share a join key into one record. Optional and
//! repeated adapters compose with any inner binder to absorb null cells and
//! to accumulate zero or more child values.
//!
//! Every executable function is verified against the mathematical model in
//! its contract, and the laws module states the properties that hold of the
//! whole: column-count additivity, scalar round trips, validator soundness,
//! optional absorption and the join-field position invariant.

pub mod bind;
pub mod cell;
pub mod config;
pub mod descriptor;
pub mod entry;
pub mod errors;
pub mod expected;
pub mod laws;
pub mod report;
pub mod row;
pub mod validate;
pub mod value;
